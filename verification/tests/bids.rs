use auction_core::bid_book::{extract_bid_columns, pending_bid_columns, BidBook};
use auction_core::bid_manager::{
    add_bid, clear_bid_list, get_bids_of_auction, load_bid_list, parse_auction_id,
    remove_from_list, update_bid_list,
};
use auction_core::models::{Bid, UpdateBid};

fn bid(id: u32, bidder: u32, auction: u32, amount: f64) -> Bid {
    Bid { id, bidder, auction, amount_bits: amount.to_bits() }
}

#[test]
fn new_book_is_empty() {
    let book = BidBook::new();
    assert!(book.is_empty());
    assert!(book.bids_of(1).is_empty());
    assert!(pending_bid_columns(&book).is_none());
}

#[test]
fn add_bid_appends_to_its_auction() {
    let mut book = BidBook::new();
    add_bid(&mut book, bid(1, 10, 7, 5.0));
    add_bid(&mut book, bid(2, 11, 7, 6.5));
    add_bid(&mut book, bid(3, 12, 8, 1.0));
    assert_eq!(book.bids_of(7), vec![bid(1, 10, 7, 5.0), bid(2, 11, 7, 6.5)]);
    assert_eq!(book.bids_of(8), vec![bid(3, 12, 8, 1.0)]);
    assert!(book.bids_of(9).is_empty());
    assert!(!book.is_empty());
}

#[test]
fn load_groups_rows_by_auction_in_order() {
    let rows = vec![bid(1, 10, 2, 1.0), bid(2, 11, 3, 2.0), bid(3, 12, 2, 3.0), bid(4, 13, 3, 4.0)];
    let book = load_bid_list(&rows);
    assert_eq!(book.bids_of(2), vec![bid(1, 10, 2, 1.0), bid(3, 12, 2, 3.0)]);
    assert_eq!(book.bids_of(3), vec![bid(2, 11, 3, 2.0), bid(4, 13, 3, 4.0)]);
}

#[test]
fn update_changes_first_bid_of_the_bidder_only() {
    let mut book = load_bid_list(&vec![bid(1, 10, 2, 1.0), bid(2, 11, 2, 2.0), bid(3, 10, 2, 3.0)]);
    let found = update_bid_list(&mut book, UpdateBid { auction: 2, bidder: 10, amount_bits: 9.25f64.to_bits() });
    assert!(found);
    assert_eq!(
        book.bids_of(2),
        vec![bid(1, 10, 2, 9.25), bid(2, 11, 2, 2.0), bid(3, 10, 2, 3.0)]
    );
}

#[test]
fn update_without_a_bid_changes_nothing() {
    let mut book = load_bid_list(&vec![bid(1, 10, 2, 1.0)]);
    assert!(!update_bid_list(&mut book, UpdateBid { auction: 2, bidder: 99, amount_bits: 4.0f64.to_bits() }));
    assert!(!update_bid_list(&mut book, UpdateBid { auction: 5, bidder: 10, amount_bits: 4.0f64.to_bits() }));
    assert_eq!(book.bids_of(2), vec![bid(1, 10, 2, 1.0)]);
    assert!(book.bids_of(5).is_empty());
}

#[test]
fn bids_of_auction_by_text_id() {
    let book = load_bid_list(&vec![bid(1, 10, 42, 1.0)]);
    assert_eq!(get_bids_of_auction(&book, "42"), vec![bid(1, 10, 42, 1.0)]);
    assert_eq!(get_bids_of_auction(&book, "+42"), vec![bid(1, 10, 42, 1.0)]);
    assert!(get_bids_of_auction(&book, "43").is_empty());
}

#[test]
fn remove_drops_the_auction() {
    let mut book = load_bid_list(&vec![bid(1, 10, 42, 1.0), bid(2, 10, 43, 1.0)]);
    remove_from_list(&mut book, "42");
    assert!(book.bids_of(42).is_empty());
    assert_eq!(book.bids_of(43), vec![bid(2, 10, 43, 1.0)]);
    clear_bid_list(&mut book);
    assert!(book.is_empty());
}

#[test]
fn all_bids_hold_every_bid_once() {
    let rows = vec![bid(1, 10, 2, 1.0), bid(2, 11, 3, 2.0), bid(3, 12, 2, 3.0), bid(4, 13, 5, 4.0)];
    let book = load_bid_list(&rows);
    let mut all = book.all_bids();
    all.sort_by_key(|b| b.id);
    assert_eq!(all, rows);
}

#[test]
fn pending_columns_of_the_book() {
    let book = load_bid_list(&vec![bid(1, 10, 2, 1.5)]);
    let (bidders, auctions, amounts) = pending_bid_columns(&book).unwrap();
    assert_eq!(bidders, vec![10i64]);
    assert_eq!(auctions, vec![2i64]);
    assert_eq!(amounts, vec![1.5f64.to_bits()]);
}

#[test]
fn columns_widen_ids() {
    let bids = [bid(1, u32::MAX, 3, 2.0), bid(2, 4, u32::MAX, 0.5)];
    let (bidders, auctions, amounts) = extract_bid_columns(&bids);
    assert_eq!(bidders, vec![u32::MAX as i64, 4]);
    assert_eq!(auctions, vec![3, u32::MAX as i64]);
    assert_eq!(f64::from_bits(amounts[1]), 0.5);
}

#[test]
fn auction_ids_parse_like_u32() {
    assert_eq!(parse_auction_id("12"), Some(12));
    assert_eq!(parse_auction_id("007"), Some(7));
    assert_eq!(parse_auction_id("+7"), Some(7));
    assert_eq!(parse_auction_id("4294967295"), Some(u32::MAX));
    assert_eq!(parse_auction_id("4294967296"), None);
    assert_eq!(parse_auction_id(""), None);
    assert_eq!(parse_auction_id("+"), None);
    assert_eq!(parse_auction_id("-5"), None);
    assert_eq!(parse_auction_id("12a"), None);
    assert_eq!(parse_auction_id("١٢"), None);
    for text in ["0", "99999999999", "+", "x", "18446744073709551616", " 1"] {
        assert_eq!(parse_auction_id(text), text.parse::<u32>().ok());
    }
}
