//! The rows written to the ledger of users' balances.

use vstd::prelude::*;
use vstd::string::*;
use crate::models::{CreateTransaction, TransactionEntry, UserPair};

verus! {

/// The two ledger rows that settle an ended auction: the winning amount is paid in
/// to the seller (`AUCTION_SELL`) and out of the highest bidder's balance (`AUCTION_BUY`).
pub fn settlement_entries(pair: &UserPair) -> (rows: (TransactionEntry, TransactionEntry))
    ensures
        rows.0.amount_bits == pair.amount_bits,
        rows.0.is_positive,
        rows.0.user_id == pair.seller_id,
        rows.0.information@ == "AUCTION_SELL"@,
        rows.1.amount_bits == pair.amount_bits,
        !rows.1.is_positive,
        rows.1.user_id == pair.bidder_id,
        rows.1.information@ == "AUCTION_BUY"@,
{
    let sell = TransactionEntry {
        amount_bits: pair.amount_bits,
        is_positive: true,
        user_id: pair.seller_id,
        information: String::from_str("AUCTION_SELL"),
    };
    let buy = TransactionEntry {
        amount_bits: pair.amount_bits,
        is_positive: false,
        user_id: pair.bidder_id,
        information: String::from_str("AUCTION_BUY"),
    };
    (sell, buy)
}

/// The ledger row of a deposit: the requested amount, direction and user, recorded
/// as a `DEPOSIT` whatever description the request carried.
pub fn deposit_entry(payload: &CreateTransaction) -> (row: TransactionEntry)
    ensures
        row.amount_bits == payload.amount_bits,
        row.is_positive == payload.is_positive,
        row.user_id == payload.user_id,
        row.information@ == "DEPOSIT"@,
{
    TransactionEntry {
        amount_bits: payload.amount_bits,
        is_positive: payload.is_positive,
        user_id: payload.user_id,
        information: String::from_str("DEPOSIT"),
    }
}

} // verus!
