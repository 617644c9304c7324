//! Verified core of an auction house server: the in-memory book of live bids,
//! the messages broadcast to bidders, request authentication rules,
//! password checks and the decimal identifiers that travel in URLs and messages.

pub mod decimal;
pub mod models;
pub mod status;
pub mod bid_book;
pub mod bid_manager;
pub mod messages;
pub mod auth;
pub mod passwords;
pub mod paths;
pub mod ledger;
pub mod responses;
