# auction_core

The verified core of an auction house server, written in Verus.

`src/` is the library. Its functions are verified, except three trusted wrappers
(`bcrypt_verify`, `bcrypt_hash` in `passwords`, `regex_find` in `paths`) whose
contracts are taken as given from the bcrypt and regex crates:

- `bid_book` — the book of live bids, a `HashMap` from auction to its bids, with
  its invariant (every list is non-empty and names its auction) and the laws of
  its operations.
- `bid_manager` — the operations of the live bidding service on the book.
- `messages` — the texts of the live channel and the step that handles a bidder's message.
- `decimal` — `u32` ids as text: parsing and rendering, and their round trip.
- `auth` — reading bearer tokens from headers; the claims of issued tokens.
- `passwords` — bcrypt hashing and log-in decisions.
- `paths` — the id at the end of a request path, read with `regex`.
- `ledger`, `responses`, `models`, `status` — records and answers.

`app/` is the server around it: axum routes, the database (sqlx), JWT
encoding and decoding, websockets, and the conversions of amounts to and from `f64`.
