//! The records that requests carry in and responses carry out.
//!
//! Money amounts are `f64` values at the edges of the server; here each one
//! is held as the bit pattern of that `f64` (`f64::to_bits`), which stands for
//! it one for one and is carried through unchanged.

use vstd::prelude::*;
use vstd::string::*;

verus! {

/// The claims carried in an access or refresh token.
#[derive(Clone, Debug, PartialEq, Eq)]
pub struct Claims {
    /// The e-mail address of the user the token was issued to.
    pub sub: String,
    /// Expiry, in seconds since the Unix epoch.
    pub exp: usize,
    /// `ACCESS_TOKEN` or `REFRESH_TOKEN`.
    pub token_type: String,
}

/// A registration request.
#[derive(Clone, Debug, PartialEq, Eq)]
pub struct CreateUser {
    pub username: String,
    pub email: String,
    pub password: String,
}

/// A log-in request.
#[derive(Clone, Debug, PartialEq, Eq)]
pub struct ValidateUser {
    pub email: String,
    pub password: String,
}

/// A request to create a product.
#[derive(Clone, Debug, PartialEq, Eq)]
pub struct CreateProduct {
    pub name: String,
    pub description: String,
    pub category_id: u32,
}

/// A request to create a category.
#[derive(Clone, Debug, PartialEq, Eq)]
pub struct CreateCategory {
    pub name: String,
}

/// A category as it is listed.
#[derive(Clone, Debug, PartialEq, Eq)]
pub struct CategoryView {
    pub id: u32,
    pub name: String,
}

/// A product as it is listed, with its category.
#[derive(Clone, Debug, PartialEq, Eq)]
pub struct ProductView {
    pub id: u32,
    pub name: String,
    pub description: String,
    pub category: CategoryView,
}

/// The answer to a request that created a record.
#[derive(Clone, Debug, PartialEq, Eq)]
pub struct ModelCreationResponse {
    pub type_of_model: String,
    pub message: String,
}

/// The pair of tokens handed out at registration and log-in.
#[derive(Clone, Debug, PartialEq, Eq)]
pub struct TokenResponse {
    pub access_token: String,
    pub refresh_token: String,
}

/// A short human-readable message.
#[derive(Clone, Debug, PartialEq, Eq)]
pub struct InfoMessage {
    pub message: String,
}

/// A bid on an auction. `amount_bits` is the bit pattern of the `f64` amount.
#[derive(Clone, Copy, Debug, PartialEq, Eq, Structural)]
pub struct Bid {
    pub id: u32,
    pub bidder: u32,
    pub auction: u32,
    pub amount_bits: u64,
}

/// A bidder's new amount on an auction. `amount_bits` is the bit pattern of the `f64` amount.
#[derive(Clone, Copy, Debug, PartialEq, Eq, Structural)]
pub struct UpdateBid {
    pub auction: u32,
    pub bidder: u32,
    pub amount_bits: u64,
}

/// The seller and the highest bidder of an ended auction, with the winning amount
/// (as the bit pattern of the `f64` amount).
#[derive(Clone, Copy, Debug, PartialEq, Eq, Structural)]
pub struct UserPair {
    pub seller_id: u32,
    pub bidder_id: u32,
    pub amount_bits: u64,
}

/// A deposit request. `amount_bits` is the bit pattern of the `f64` amount.
#[derive(Clone, Debug, PartialEq, Eq)]
pub struct CreateTransaction {
    pub user_id: u32,
    pub amount_bits: u64,
    pub is_positive: bool,
    pub information: String,
}

/// A row of the ledger: money in (`is_positive`) or out of a user's balance.
#[derive(Clone, Debug, PartialEq, Eq)]
pub struct TransactionEntry {
    pub amount_bits: u64,
    pub is_positive: bool,
    pub user_id: u32,
    pub information: String,
}

/// An account as it is shown to its owner. `balance_bits` is the bit pattern of the `f64` balance.
#[derive(Clone, Debug, PartialEq, Eq)]
pub struct UserView {
    pub id: u32,
    pub username: String,
    pub email: String,
    pub balance_bits: u64,
}

/// A ledger row as it is listed. `amount_bits` is the bit pattern of the `f64` amount.
#[derive(Clone, Debug, PartialEq, Eq)]
pub struct TransactionView {
    pub id: u32,
    pub amount_bits: u64,
    pub is_positive: bool,
    pub user_id: u32,
    pub information: String,
}

/// An auction as it is listed, with its product and seller. The prices are the bit
/// patterns of the `f64` prices.
#[derive(Clone, Debug, PartialEq, Eq)]
pub struct AuctionView {
    pub id: u32,
    pub product_name: String,
    pub product_description: String,
    pub product_id: u32,
    pub user_id: u32,
    pub username: String,
    pub product_starting_price_bits: u64,
    pub is_complete: bool,
    pub final_price_bits: u64,
}

} // verus!
