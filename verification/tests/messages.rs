use auction_core::bid_book::BidBook;
use auction_core::decimal::{decimal_text, parse_u32};
use auction_core::messages::{
    auction_to_end, end_auction_message, flush_before, handle_incoming, new_bid_message, update_bid_message,
    socket_step, IncomingMessage, ReceivedFrame, SocketStep,
};
use auction_core::models::{Bid, UpdateBid};

#[test]
fn decimal_text_matches_display() {
    for n in [0u32, 7, 10, 99, 100, 12345, u32::MAX] {
        assert_eq!(decimal_text(n), n.to_string());
        assert_eq!(parse_u32(&decimal_text(n)), Some(n));
    }
}

#[test]
fn new_bid_announcement() {
    let b = Bid { id: 1, bidder: 4, auction: 17, amount_bits: 12.5f64.to_bits() };
    assert_eq!(new_bid_message(&b, "12.50"), "NEW_BID-17:12.50:4");
}

#[test]
fn update_bid_announcement() {
    let u = UpdateBid { auction: 17, bidder: 4, amount_bits: 3.0f64.to_bits() };
    assert_eq!(update_bid_message(&u, "3.00"), "UPDATE_BID-4:17:3.00");
}

#[test]
fn end_auction_is_read_back() {
    let m = end_auction_message("12");
    assert_eq!(m, "END_AUCTION-12");
    assert_eq!(auction_to_end(&m), Some("12".to_string()));
    assert_eq!(auction_to_end("END_AUCTION-a-b"), Some("a-b".to_string()));
    assert_eq!(auction_to_end("END_AUCTION-"), Some(String::new()));
}

#[test]
fn other_messages_end_nothing() {
    assert_eq!(auction_to_end("NEW_BID-1:2.00:3"), None);
    assert_eq!(auction_to_end("END_AUCTION"), None);
    assert_eq!(auction_to_end("END-AUCTION-1"), None);
    assert_eq!(auction_to_end(""), None);
}

#[test]
fn incoming_bid_is_added_and_announced() {
    let mut book = BidBook::new();
    let b = Bid { id: 3, bidder: 8, auction: 2, amount_bits: 1.0f64.to_bits() };
    let reply = handle_incoming(&mut book, IncomingMessage::Bid(b), "1.00");
    assert_eq!(reply.broadcast, "NEW_BID-2:1.00:8");
    assert!(!reply.store_update);
    assert_eq!(book.bids_of(2), vec![b]);
}

#[test]
fn incoming_update_changes_and_announces() {
    let mut book = BidBook::new();
    let b = Bid { id: 3, bidder: 8, auction: 2, amount_bits: 1.0f64.to_bits() };
    book.add_bid(b);
    let u = UpdateBid { auction: 2, bidder: 8, amount_bits: 2.0f64.to_bits() };
    let reply = handle_incoming(&mut book, IncomingMessage::UpdateBid(u), "2.00");
    assert_eq!(reply.broadcast, "UPDATE_BID-8:2:2.00");
    assert!(reply.store_update);
    assert_eq!(book.bids_of(2)[0].amount_bits, 2.0f64.to_bits());
    let other = UpdateBid { auction: 9, bidder: 8, amount_bits: 2.0f64.to_bits() };
    let reply = handle_incoming(&mut book, IncomingMessage::UpdateBid(other), "2.00");
    assert!(!reply.store_update);
}

#[test]
fn only_new_bids_flush_first() {
    let b = Bid { id: 1, bidder: 1, auction: 1, amount_bits: 0 };
    let u = UpdateBid { auction: 1, bidder: 1, amount_bits: 0 };
    assert!(flush_before(&IncomingMessage::Bid(b)));
    assert!(!flush_before(&IncomingMessage::UpdateBid(u)));
}

#[test]
fn frames_are_handled_skipped_or_end_the_connection() {
    let b = Bid { id: 1, bidder: 1, auction: 1, amount_bits: 0 };
    assert!(matches!(socket_step(ReceivedFrame::Message(IncomingMessage::Bid(b))), SocketStep::Handle(IncomingMessage::Bid(x)) if x == b));
    assert!(matches!(socket_step(ReceivedFrame::NotText), SocketStep::Skip));
    assert!(matches!(socket_step(ReceivedFrame::Unreadable), SocketStep::Stop));
    assert!(matches!(socket_step(ReceivedFrame::Failed), SocketStep::Stop));
}
