//! The bodies of the answers that the routes give.

use vstd::prelude::*;
use vstd::string::*;
use crate::models::{
    AuctionView, CategoryView, InfoMessage, ModelCreationResponse, ProductView, TransactionView,
    UserView,
};

verus! {

/// A stored text that may be missing, shown as `UNKNOWN` when it is.
pub open spec fn spec_text_or_unknown(text: Option<Seq<char>>) -> Seq<char> {
    match text {
        Some(t) => t,
        None => "UNKNOWN"@,
    }
}

/// The text of an optional column: the text itself, or `UNKNOWN` when it is missing.
pub fn text_or_unknown(text: Option<String>) -> (res: String)
    ensures
        res@ == spec_text_or_unknown(
            match text {
                Some(t) => Some(t@),
                None => None,
            },
        ),
{
    match text {
        Some(t) => t,
        None => String::from_str("UNKNOWN"),
    }
}

/// A product as it is listed, from the columns of its row.
pub fn product_view(
    id: u32,
    name: String,
    description: Option<String>,
    category_id: u32,
    category_name: String,
) -> (view: ProductView)
    ensures
        view.id == id,
        view.name == name,
        view.description@ == spec_text_or_unknown(
            match description {
                Some(t) => Some(t@),
                None => None,
            },
        ),
        view.category.id == category_id,
        view.category.name == category_name,
{
    ProductView {
        id,
        name,
        description: text_or_unknown(description),
        category: CategoryView { id: category_id, name: category_name },
    }
}

/// The answer to a request that created a record of the kind `type_of_model`.
pub fn creation_response(type_of_model: &str) -> (res: ModelCreationResponse)
    ensures
        res.type_of_model@ == type_of_model@,
        res.message@ == "Success"@,
{
    ModelCreationResponse {
        type_of_model: String::from_str(type_of_model),
        message: String::from_str("Success"),
    }
}

/// The answer to a request that ended an auction.
pub fn auction_ended_message() -> (res: InfoMessage)
    ensures
        res.message@ == "Auction succesfully ended"@,
{
    InfoMessage { message: String::from_str("Auction succesfully ended") }
}

/// The bits of an optional `f64` amount, where a missing amount is shown as `0.0`
/// (whose bit pattern is `0`).
pub open spec fn spec_amount_or_zero(amount_bits: Option<u64>) -> u64 {
    match amount_bits {
        Some(b) => b,
        None => 0,
    }
}

/// The bits of an optional amount, `0.0` when it is missing.
pub fn amount_or_zero(amount_bits: Option<u64>) -> (b: u64)
    ensures
        b == spec_amount_or_zero(amount_bits),
{
    match amount_bits {
        Some(b) => b,
        None => 0,
    }
}

/// A stored one-byte flag read as a truth value: anything but `0` is set.
pub fn flag_is_set(flag: i8) -> (r: bool)
    ensures
        r == (flag != 0),
{
    flag != 0
}

/// An account as it is shown, from the columns of its row; a missing balance is `0.0`.
pub fn user_view(id: u32, username: String, email: String, balance_bits: Option<u64>) -> (view:
    UserView)
    ensures
        view.id == id,
        view.username == username,
        view.email == email,
        view.balance_bits == spec_amount_or_zero(balance_bits),
{
    UserView { id, username, email, balance_bits: amount_or_zero(balance_bits) }
}

/// A ledger row as it is listed, from the columns of its row.
pub fn transaction_view(
    id: u32,
    amount_bits: u64,
    information: Option<String>,
    user_id: u32,
    is_positive_flag: i8,
) -> (view: TransactionView)
    ensures
        view.id == id,
        view.amount_bits == amount_bits,
        view.information@ == spec_text_or_unknown(
            match information {
                Some(t) => Some(t@),
                None => None,
            },
        ),
        view.user_id == user_id,
        view.is_positive == (is_positive_flag != 0),
{
    TransactionView {
        id,
        amount_bits,
        is_positive: flag_is_set(is_positive_flag),
        user_id,
        information: text_or_unknown(information),
    }
}

/// An auction as it is listed, from the columns of its row; a missing final price is `0.0`.
pub fn auction_view(
    id: u32,
    product_id: u32,
    product_name: String,
    description: Option<String>,
    user_id: u32,
    username: String,
    starting_price_bits: u64,
    is_complete_flag: i8,
    final_price_bits: Option<u64>,
) -> (view: AuctionView)
    ensures
        view.id == id,
        view.product_id == product_id,
        view.product_name == product_name,
        view.product_description@ == spec_text_or_unknown(
            match description {
                Some(t) => Some(t@),
                None => None,
            },
        ),
        view.user_id == user_id,
        view.username == username,
        view.product_starting_price_bits == starting_price_bits,
        view.is_complete == (is_complete_flag != 0),
        view.final_price_bits == spec_amount_or_zero(final_price_bits),
{
    AuctionView {
        id,
        product_name,
        product_description: text_or_unknown(description),
        product_id,
        user_id,
        username,
        product_starting_price_bits: starting_price_bits,
        is_complete: flag_is_set(is_complete_flag),
        final_price_bits: amount_or_zero(final_price_bits),
    }
}

/// A text that is there is shown as it is, whatever it holds; only a missing text is
/// shown as `UNKNOWN`.
pub proof fn law_present_text_is_shown_as_is(t: Seq<char>)
    ensures
        spec_text_or_unknown(Some(t)) == t,
        spec_text_or_unknown(None) == "UNKNOWN"@,
{
}

/// An amount that is there is kept bit for bit; a missing one is `0.0`, whose bits are `0`.
pub proof fn law_present_amount_is_kept(b: u64)
    ensures
        spec_amount_or_zero(Some(b)) == b,
        spec_amount_or_zero(None) == 0,
{
}

} // verus!
