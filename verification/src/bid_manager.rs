//! The operations of the live bidding service on its book of bids. Reading and
//! writing the database, and the lock around the shared book, belong to the caller.

use vstd::prelude::*;
use crate::bid_book::{group_bids, spec_add, spec_update, update_applies, BidBook};
use crate::decimal::{parse_u32, spec_parse_u32};
use crate::models::{Bid, UpdateBid};

verus! {

/// The book at start-up: the bids of the auctions still running, as the database
/// lists them, grouped by auction.
pub fn load_bid_list(rows: &Vec<Bid>) -> (book: BidBook)
    ensures
        book@ == group_bids(rows@),
{
    BidBook::from_rows(rows)
}

/// Records a bid: it is appended to the bids of its auction.
pub fn add_bid(book: &mut BidBook, bid: Bid)
    ensures
        final(book)@ == spec_add(old(book)@, bid),
{
    book.add_bid(bid);
}

/// Applies a bidder's new amount to their first bid on the auction. Returns whether
/// such a bid was found; only then is the new amount to be stored in the database.
pub fn update_bid_list(book: &mut BidBook, update: UpdateBid) -> (found: bool)
    ensures
        found == update_applies(old(book)@, update),
        final(book)@ == spec_update(old(book)@, update),
{
    book.update_bid(update)
}

/// Reads an auction id as it comes in a URL or a message.
pub fn parse_auction_id(text: &str) -> (id: Option<u32>)
    ensures
        id == spec_parse_u32(text@),
{
    parse_u32(text)
}

/// The bids on the auction whose id is the text `auction_id`.
pub fn get_bids_of_auction(book: &BidBook, auction_id: &str) -> (res: Vec<Bid>)
    requires
        spec_parse_u32(auction_id@) is Some,
    ensures
        ({
            let id = spec_parse_u32(auction_id@)->0;
            res@ == if book@.contains_key(id) {
                book@[id]
            } else {
                Seq::<Bid>::empty()
            }
        }),
{
    let id = parse_u32(auction_id).unwrap();
    book.bids_of(id)
}

/// Drops the auction whose id is the text `auction_id`, with all its bids.
pub fn remove_from_list(book: &mut BidBook, auction_id: &str)
    requires
        spec_parse_u32(auction_id@) is Some,
    ensures
        final(book)@ == old(book)@.remove(spec_parse_u32(auction_id@)->0),
{
    let id = parse_u32(auction_id).unwrap();
    book.remove_auction(id);
}

/// Empties the book.
pub fn clear_bid_list(book: &mut BidBook)
    ensures
        final(book)@ == Map::<u32, Seq<Bid>>::empty(),
{
    book.clear();
}

} // verus!
