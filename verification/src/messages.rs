//! The text messages of the live bidding channel, and what the server does with
//! each message a bidder sends.

use vstd::prelude::*;
use vstd::string::*;
use crate::bid_book::{spec_add, spec_update, update_applies, BidBook};
use crate::decimal::{
    decimal_text, lemma_decimal_shape, law_parse_decimal_roundtrip, spec_decimal, spec_parse_u32,
};
use crate::models::{Bid, UpdateBid};

verus! {

/// `NEW_BID-<auction>:<amount>:<bidder>`, announcing a new bid.
pub open spec fn spec_new_bid_message(bid: Bid, amount_text: Seq<char>) -> Seq<char> {
    "NEW_BID-"@ + spec_decimal(bid.auction as nat) + ":"@ + amount_text + ":"@ + spec_decimal(
        bid.bidder as nat,
    )
}

/// `UPDATE_BID-<bidder>:<auction>:<amount>`, announcing a changed bid.
pub open spec fn spec_update_bid_message(update: UpdateBid, amount_text: Seq<char>) -> Seq<char> {
    "UPDATE_BID-"@ + spec_decimal(update.bidder as nat) + ":"@ + spec_decimal(
        update.auction as nat,
    ) + ":"@ + amount_text
}

/// `END_AUCTION-<auction id>`, announcing that an auction has ended.
pub open spec fn spec_end_auction_message(auction_id: Seq<char>) -> Seq<char> {
    "END_AUCTION-"@ + auction_id
}

/// Where `s` splits at its first `-`, as `str::split_once` splits it:
/// the text before that `-` and the text after it.
pub open spec fn split_at_first_dash(s: Seq<char>) -> Option<(Seq<char>, Seq<char>)> {
    if exists|i: int| 0 <= i < s.len() && s[i] == '-' {
        let i = choose|i: int|
            0 <= i < s.len() && s[i] == '-' && forall|j: int| 0 <= j < i ==> s[j] != '-';
        Some((s.take(i), s.skip(i + 1)))
    } else {
        None
    }
}

/// The auction a broadcast message ends: the text after the first `-`, when the
/// text before it is `END_AUCTION`.
pub open spec fn spec_auction_to_end(msg: Seq<char>) -> Option<Seq<char>> {
    match split_at_first_dash(msg) {
        Some((kind, content)) => if kind == "END_AUCTION"@ {
            Some(content)
        } else {
            None
        },
        None => None,
    }
}

proof fn lemma_first_dash(s: Seq<char>, i: int)
    requires
        0 <= i < s.len(),
        s[i] == '-',
        forall|j: int| 0 <= j < i ==> s[j] != '-',
    ensures
        split_at_first_dash(s) == Some((s.take(i), s.skip(i + 1))),
{
    let k = choose|k: int|
        0 <= k < s.len() && s[k] == '-' && forall|j: int| 0 <= j < k ==> s[j] != '-';
    assert(k == i) by {
        if k < i {
            assert(s[k] != '-');
        }
        if i < k {
            assert(s[i] != '-');
        }
    }
}

/// The announcement of a new bid; `amount_text` is the amount as it is shown,
/// with two decimals.
pub fn new_bid_message(bid: &Bid, amount_text: &str) -> (msg: String)
    ensures
        msg@ == spec_new_bid_message(*bid, amount_text@),
{
    let mut msg = String::from_str("NEW_BID-");
    msg.append(decimal_text(bid.auction).as_str());
    msg.append(":");
    msg.append(amount_text);
    msg.append(":");
    msg.append(decimal_text(bid.bidder).as_str());
    msg
}

/// The announcement of a changed bid; `amount_text` is the new amount as it is
/// shown, with two decimals.
pub fn update_bid_message(update: &UpdateBid, amount_text: &str) -> (msg: String)
    ensures
        msg@ == spec_update_bid_message(*update, amount_text@),
{
    let mut msg = String::from_str("UPDATE_BID-");
    msg.append(decimal_text(update.bidder).as_str());
    msg.append(":");
    msg.append(decimal_text(update.auction).as_str());
    msg.append(":");
    msg.append(amount_text);
    msg
}

/// The announcement that the auction with id `auction_id` has ended.
pub fn end_auction_message(auction_id: &str) -> (msg: String)
    ensures
        msg@ == spec_end_auction_message(auction_id@),
{
    let mut msg = String::from_str("END_AUCTION-");
    msg.append(auction_id);
    msg
}

/// Reads a message handed to the broadcaster: the id of the auction to settle and
/// announce when the message ends an auction, else `None` (the message is dropped).
pub fn auction_to_end(msg: &str) -> (id: Option<String>)
    ensures
        id matches Some(s) ==> spec_auction_to_end(msg@) == Some(s@),
        id is None ==> spec_auction_to_end(msg@) is None,
{
    let len = msg.unicode_len();
    let mut i: usize = 0;
    while i < len && msg.get_char(i) != '-'
        invariant
            len == msg@.len(),
            i <= len,
            forall|j: int| 0 <= j < i ==> msg@[j] != '-',
        decreases len - i,
    {
        i = i + 1;
    }
    if i == len {
        return None;
    }
    proof {
        lemma_first_dash(msg@, i as int);
    }
    let kind = String::from_str(msg.substring_char(0, i));
    let expected = String::from_str("END_AUCTION");
    if kind == expected {
        let rest = String::from_str(msg.substring_char(i + 1, len));
        assert(rest@ =~= msg@.skip(i + 1));
        Some(rest)
    } else {
        assert(kind@ =~= msg@.take(i as int));
        None
    }
}

/// A message received from a bidder on the live channel.
pub enum IncomingMessage {
    /// A new bid.
    Bid(Bid),
    /// A new amount for a bidder's bid.
    UpdateBid(UpdateBid),
}

/// What the server does after handling a bidder's message.
pub struct SocketReply {
    /// The text to broadcast to every bidder.
    pub broadcast: String,
    /// Whether the changed bid is to be stored in the database.
    pub store_update: bool,
}

/// A frame received on the live channel, as the server reads it.
pub enum ReceivedFrame {
    /// A text frame holding a bidder's message.
    Message(IncomingMessage),
    /// A text frame whose JSON is not a bidder's message.
    Unreadable,
    /// A frame that is not text: binary, ping, pong or close.
    NotText,
    /// Receiving failed.
    Failed,
}

/// What the receiving side of a bidder's connection does with a frame.
pub enum SocketStep {
    /// Handle the bidder's message, then go on receiving.
    Handle(IncomingMessage),
    /// Ignore the frame and go on receiving.
    Skip,
    /// Stop receiving from this bidder.
    Stop,
}

/// The receiving side of a bidder's connection: a message is handled, a frame that is
/// not text is ignored, and an unreadable message or a failed receive ends the connection.
pub fn socket_step(frame: ReceivedFrame) -> (step: SocketStep)
    ensures
        match frame {
            ReceivedFrame::Message(m) => step == SocketStep::Handle(m),
            ReceivedFrame::Unreadable => step is Stop,
            ReceivedFrame::NotText => step is Skip,
            ReceivedFrame::Failed => step is Stop,
        },
{
    match frame {
        ReceivedFrame::Message(m) => SocketStep::Handle(m),
        ReceivedFrame::Unreadable => SocketStep::Stop,
        ReceivedFrame::NotText => SocketStep::Skip,
        ReceivedFrame::Failed => SocketStep::Stop,
    }
}

/// Whether the book is to be written to the database before the message is handled:
/// so it is before a new bid is added.
pub fn flush_before(msg: &IncomingMessage) -> (r: bool)
    ensures
        r == (*msg is Bid),
{
    match msg {
        IncomingMessage::Bid(_) => true,
        IncomingMessage::UpdateBid(_) => false,
    }
}

/// Handles a message from a bidder: a new bid is added to the book, an update
/// changes the bidder's bid; either way the change is announced to every bidder.
/// `amount_text` is the message's amount as it is shown, with two decimals.
pub fn handle_incoming(book: &mut BidBook, msg: IncomingMessage, amount_text: &str) -> (reply:
    SocketReply)
    ensures
        match msg {
            IncomingMessage::Bid(bid) => {
                &&& final(book)@ == spec_add(old(book)@, bid)
                &&& reply.broadcast@ == spec_new_bid_message(bid, amount_text@)
                &&& !reply.store_update
            },
            IncomingMessage::UpdateBid(update) => {
                &&& final(book)@ == spec_update(old(book)@, update)
                &&& reply.broadcast@ == spec_update_bid_message(update, amount_text@)
                &&& reply.store_update == update_applies(old(book)@, update)
            },
        },
{
    match msg {
        IncomingMessage::Bid(bid) => {
            let broadcast = new_bid_message(&bid, amount_text);
            book.add_bid(bid);
            SocketReply { broadcast, store_update: false }
        },
        IncomingMessage::UpdateBid(update) => {
            let broadcast = update_bid_message(&update, amount_text);
            let found = book.update_bid(update);
            SocketReply { broadcast, store_update: found }
        },
    }
}

/// Ending an auction and reading the message back gives the auction's id, whatever it is.
pub proof fn law_end_auction_roundtrip(auction_id: Seq<char>)
    ensures
        spec_auction_to_end(spec_end_auction_message(auction_id)) == Some(auction_id),
{
    reveal_strlit("END_AUCTION-");
    reveal_strlit("END_AUCTION");
    let m = spec_end_auction_message(auction_id);
    assert(m[11] == '-');
    assert forall|j: int| 0 <= j < 11 implies m[j] != '-' by {
        assert(m[j] == "END_AUCTION-"@[j]);
    }
    lemma_first_dash(m, 11);
    assert(m.take(11) =~= "END_AUCTION"@);
    assert(m.skip(12) =~= auction_id);
}

/// The text between `NEW_BID-` and the first `:` of a new-bid announcement reads back
/// as the bid's auction, and the text after its last `:` reads back as the bid's bidder,
/// whatever the ids and the amount text.
pub proof fn law_new_bid_message_fields(bid: Bid, amount_text: Seq<char>)
    ensures
        ({
            let m = spec_new_bid_message(bid, amount_text);
            &&& m.len() > 8
            &&& m.take(8) == "NEW_BID-"@
            &&& exists|i: int|
                8 < i < m.len() && m[i] == ':' && (forall|j: int| 8 <= j < i ==> m[j] != ':')
                    && spec_parse_u32(m.subrange(8, i)) == Some(bid.auction)
            &&& exists|k: int|
                0 <= k < m.len() && m[k] == ':' && (forall|j: int| k < j < m.len() ==> m[j] != ':')
                    && spec_parse_u32(m.skip(k + 1)) == Some(bid.bidder)
        }),
{
    reveal_strlit("NEW_BID-");
    reveal_strlit(":");
    let d1 = spec_decimal(bid.auction as nat);
    let d2 = spec_decimal(bid.bidder as nat);
    lemma_decimal_shape(bid.auction as nat);
    lemma_decimal_shape(bid.bidder as nat);
    law_parse_decimal_roundtrip(bid.auction);
    law_parse_decimal_roundtrip(bid.bidder);
    let head = "NEW_BID-"@;
    let m = spec_new_bid_message(bid, amount_text);
    let i: int = 8 + d1.len() as int;
    let k: int = m.len() - d2.len() - 1;
    assert(m.take(8) =~= head);
    assert(m[i] == ':');
    assert forall|j: int| 8 <= j < i implies m[j] != ':' by {
        assert(m[j] == d1[j - 8]);
        assert(crate::decimal::is_digit(d1[j - 8]));
    }
    assert(m.subrange(8, i) =~= d1);
    assert(m[k] == ':');
    assert forall|j: int| k < j < m.len() implies m[j] != ':' by {
        assert(m[j] == d2[j - k - 1]);
        assert(crate::decimal::is_digit(d2[j - k - 1]));
    }
    assert(m.skip(k + 1) =~= d2);
}

/// The text between `UPDATE_BID-` and the first `:` of an update announcement reads back
/// as the bidder, and the text between that `:` and the next reads back as the auction,
/// whatever the ids and the amount text.
pub proof fn law_update_bid_message_fields(update: UpdateBid, amount_text: Seq<char>)
    ensures
        ({
            let m = spec_update_bid_message(update, amount_text);
            &&& m.len() > 11
            &&& m.take(11) == "UPDATE_BID-"@
            &&& exists|i: int, k: int|
                11 < i < k < m.len() && m[i] == ':' && m[k] == ':' && (forall|j: int|
                    11 <= j < k && j != i ==> m[j] != ':') && spec_parse_u32(m.subrange(11, i))
                    == Some(update.bidder) && spec_parse_u32(m.subrange(i + 1, k)) == Some(
                    update.auction,
                ) && m.skip(k + 1) == amount_text
        }),
{
    reveal_strlit("UPDATE_BID-");
    reveal_strlit(":");
    let d1 = spec_decimal(update.bidder as nat);
    let d2 = spec_decimal(update.auction as nat);
    lemma_decimal_shape(update.bidder as nat);
    lemma_decimal_shape(update.auction as nat);
    law_parse_decimal_roundtrip(update.bidder);
    law_parse_decimal_roundtrip(update.auction);
    let m = spec_update_bid_message(update, amount_text);
    let i: int = 11 + d1.len() as int;
    let k: int = i + 1 + d2.len();
    assert(m.take(11) =~= "UPDATE_BID-"@);
    assert(m[i] == ':');
    assert(m[k] == ':');
    assert forall|j: int| 11 <= j < k && j != i implies m[j] != ':' by {
        if j < i {
            assert(m[j] == d1[j - 11]);
            assert(crate::decimal::is_digit(d1[j - 11]));
        } else {
            assert(m[j] == d2[j - i - 1]);
            assert(crate::decimal::is_digit(d2[j - i - 1]));
        }
    }
    assert(m.subrange(11, i) =~= d1);
    assert(m.subrange(i + 1, k) =~= d2);
    assert(m.skip(k + 1) =~= amount_text);
}

proof fn lemma_minimal_dash_exists(s: Seq<char>, i: int)
    requires
        0 <= i < s.len(),
        s[i] == '-',
    ensures
        exists|m: int| 0 <= m < s.len() && s[m] == '-' && forall|j: int| 0 <= j < m ==> s[j] != '-',
    decreases i,
{
    if exists|j: int| 0 <= j < i && s[j] == '-' {
        let j = choose|j: int| 0 <= j < i && s[j] == '-';
        lemma_minimal_dash_exists(s, j);
    } else {
        assert(forall|j: int| 0 <= j < i ==> s[j] != '-');
    }
}

/// A broadcast message ends an auction exactly when it begins with `END_AUCTION-`, and the
/// auction is then all the text after that beginning.
pub proof fn law_end_auction_messages_are_read_by_their_beginning(msg: Seq<char>)
    ensures
        spec_auction_to_end(msg) == if msg.len() >= 12 && msg.take(12) == "END_AUCTION-"@ {
            Some(msg.skip(12))
        } else {
            None
        },
{
    reveal_strlit("END_AUCTION-");
    reveal_strlit("END_AUCTION");
    let head = "END_AUCTION-"@;
    if msg.len() >= 12 && msg.take(12) == head {
        assert(msg[11] == head[11]);
        assert forall|j: int| 0 <= j < 11 implies msg[j] != '-' by {
            assert(msg[j] == head[j]);
        }
        lemma_first_dash(msg, 11);
        assert(msg.take(11) =~= "END_AUCTION"@);
    } else if exists|i: int| 0 <= i < msg.len() && msg[i] == '-' {
        let w = choose|i: int| 0 <= i < msg.len() && msg[i] == '-';
        lemma_minimal_dash_exists(msg, w);
        let i = choose|i: int|
            0 <= i < msg.len() && msg[i] == '-' && forall|j: int| 0 <= j < i ==> msg[j] != '-';
        if msg.take(i) == "END_AUCTION"@ {
            assert(msg.take(i).len() == 11);
            assert(msg.take(12) =~= head) by {
                assert forall|j: int| 0 <= j < 12 implies msg.take(12)[j] == head[j] by {
                    if j < 11 {
                        assert(msg.take(i)[j] == "END_AUCTION"@[j]);
                    }
                }
            }
        }
    }
}

} // verus!
