//! The book of live bids: for each auction still running, the bids placed on it,
//! in the order they came in.

use std::collections::HashMap;
use vstd::prelude::*;
use vstd::std_specs::hash::spec_keys_iter;
use vstd::std_specs::iter::IteratorSpec;
use crate::models::{Bid, UpdateBid};

verus! {

broadcast use vstd::std_specs::hash::group_hash_axioms;

/// The bids of one auction are well kept: there is at least one,
/// and each names that auction.
pub open spec fn list_ok(auction: u32, s: Seq<Bid>) -> bool {
    &&& s.len() > 0
    &&& forall|i: int| 0 <= i < s.len() ==> (#[trigger] s[i]).auction == auction
}

/// Every auction in the book holds a well-kept list of bids.
pub open spec fn book_ok(m: Map<u32, Seq<Bid>>) -> bool {
    &&& m.dom().finite()
    &&& forall|k: u32| #[trigger] m.contains_key(k) ==> list_ok(k, m[k])
}

/// The book after `bid` is appended to the bids of its auction.
pub open spec fn spec_add(m: Map<u32, Seq<Bid>>, bid: Bid) -> Map<u32, Seq<Bid>> {
    m.insert(
        bid.auction,
        if m.contains_key(bid.auction) {
            m[bid.auction].push(bid)
        } else {
            seq![bid]
        },
    )
}

/// The book that results from adding `rows` one after the other to an empty book.
pub open spec fn group_bids(rows: Seq<Bid>) -> Map<u32, Seq<Bid>>
    decreases rows.len(),
{
    if rows.len() == 0 {
        Map::empty()
    } else {
        spec_add(group_bids(rows.drop_last()), rows.last())
    }
}

/// The index of the first bid of `bidder` in `s`, if there is one.
pub open spec fn first_bid_of(s: Seq<Bid>, bidder: u32) -> Option<int> {
    if exists|i: int| 0 <= i < s.len() && (#[trigger] s[i]).bidder == bidder {
        Some(
            choose|i: int|
                0 <= i < s.len() && (#[trigger] s[i]).bidder == bidder && forall|j: int|
                    0 <= j < i ==> (#[trigger] s[j]).bidder != bidder,
        )
    } else {
        None
    }
}

/// Bids placed on auction `k`.
pub open spec fn on_auction(k: u32) -> spec_fn(Bid) -> bool {
    |b: Bid| b.auction == k
}

proof fn lemma_minimal_bid_exists(s: Seq<Bid>, bidder: u32, i: int)
    requires
        0 <= i < s.len(),
        s[i].bidder == bidder,
    ensures
        exists|m: int|
            0 <= m < s.len() && (#[trigger] s[m]).bidder == bidder && forall|j: int|
                0 <= j < m ==> (#[trigger] s[j]).bidder != bidder,
    decreases i,
{
    if exists|j: int| 0 <= j < i && (#[trigger] s[j]).bidder == bidder {
        let j = choose|j: int| 0 <= j < i && (#[trigger] s[j]).bidder == bidder;
        lemma_minimal_bid_exists(s, bidder, j);
    } else {
        assert(forall|j: int| 0 <= j < i ==> (#[trigger] s[j]).bidder != bidder);
    }
}

/// `first_bid_of` names the first bid of the bidder, when there is one.
pub proof fn lemma_first_bid_of(s: Seq<Bid>, bidder: u32)
    ensures
        first_bid_of(s, bidder) is None <==> forall|i: int|
            0 <= i < s.len() ==> (#[trigger] s[i]).bidder != bidder,
        first_bid_of(s, bidder) matches Some(i) ==> {
            &&& 0 <= i < s.len()
            &&& s[i].bidder == bidder
            &&& forall|j: int| 0 <= j < i ==> (#[trigger] s[j]).bidder != bidder
        },
{
    if exists|i: int| 0 <= i < s.len() && (#[trigger] s[i]).bidder == bidder {
        let i = choose|i: int| 0 <= i < s.len() && (#[trigger] s[i]).bidder == bidder;
        lemma_minimal_bid_exists(s, bidder, i);
    }
}

/// An update finds a bid to change: its auction is in the book and the
/// bidder has bid on it.
pub open spec fn update_applies(m: Map<u32, Seq<Bid>>, u: UpdateBid) -> bool {
    m.contains_key(u.auction) && first_bid_of(m[u.auction], u.bidder) is Some
}

/// The book after `u`: the first bid of `u.bidder` on `u.auction` takes the
/// new amount, keeping its id, bidder and auction; nothing else changes.
pub open spec fn spec_update(m: Map<u32, Seq<Bid>>, u: UpdateBid) -> Map<u32, Seq<Bid>> {
    if update_applies(m, u) {
        let s = m[u.auction];
        let i = first_bid_of(s, u.bidder)->0;
        m.insert(u.auction, s.update(i, Bid { amount_bits: u.amount_bits, ..s[i] }))
    } else {
        m
    }
}

/// The bids of the auctions in `order`, one list after the other.
pub open spec fn concat_lists(m: Map<u32, Seq<Bid>>, order: Seq<u32>) -> Seq<Bid>
    decreases order.len(),
{
    if order.len() == 0 {
        Seq::empty()
    } else {
        concat_lists(m, order.drop_last()) + m[order.last()]
    }
}

/// `order` lists each auction of the book exactly once.
pub open spec fn enumerates(order: Seq<u32>, m: Map<u32, Seq<Bid>>) -> bool {
    &&& order.no_duplicates()
    &&& forall|k: u32| m.contains_key(k) <==> order.contains(k)
}

/// The bids on running auctions, grouped by auction.
pub struct BidBook {
    lists: HashMap<u32, Vec<Bid>>,
}

impl View for BidBook {
    type V = Map<u32, Seq<Bid>>;

    closed spec fn view(&self) -> Map<u32, Seq<Bid>> {
        self.lists@.map_values(|v: Vec<Bid>| v@)
    }
}

impl BidBook {
    #[verifier::type_invariant]
    closed spec fn well_kept(self) -> bool {
        book_ok(self@)
    }

    /// An empty book.
    pub fn new() -> (book: BidBook)
        ensures
            book@ == Map::<u32, Seq<Bid>>::empty(),
            book_ok(book@),
    {
        let lists: HashMap<u32, Vec<Bid>> = HashMap::new();
        assert(lists@.map_values(|v: Vec<Bid>| v@) =~= Map::<u32, Seq<Bid>>::empty());
        let book = BidBook { lists };
        assert(book@ =~= Map::<u32, Seq<Bid>>::empty());
        book
    }

    /// The bids on `auction`, in the order they came in; empty if it has none.
    pub fn bids_of(&self, auction: u32) -> (res: Vec<Bid>)
        ensures
            res@ == if self@.contains_key(auction) {
                self@[auction]
            } else {
                Seq::<Bid>::empty()
            },
    {
        match self.lists.get(&auction) {
            Some(list) => {
                let mut out: Vec<Bid> = Vec::new();
                let mut i: usize = 0;
                while i < list.len()
                    invariant
                        i <= list@.len(),
                        out@ == list@.take(i as int),
                    decreases list@.len() - i,
                {
                    out.push(list[i]);
                    i = i + 1;
                    assert(out@ =~= list@.take(i as int));
                }
                assert(list@.take(list@.len() as int) =~= list@);
                out
            },
            None => Vec::new(),
        }
    }

    /// Appends `bid` to the bids of its auction, opening a list for the auction
    /// if it has none yet.
    pub fn add_bid(&mut self, bid: Bid)
        ensures
            final(self)@ == spec_add(old(self)@, bid),
            book_ok(final(self)@),
    {
        proof {
            use_type_invariant(&*self);
        }
        let ghost before = self@;
        let mut lists: HashMap<u32, Vec<Bid>> = HashMap::new();
        assert(lists@.map_values(|v: Vec<Bid>| v@) =~= Map::<u32, Seq<Bid>>::empty());
        std::mem::swap(&mut lists, &mut self.lists);
        let auction = bid.auction;
        let mut list = match lists.remove(&auction) {
            Some(v) => v,
            None => Vec::new(),
        };
        list.push(bid);
        lists.insert(auction, list);
        proof {
            let after = lists@.map_values(|v: Vec<Bid>| v@);
            assert(after =~= spec_add(before, bid));
            assert forall|k: u32| #[trigger] after.contains_key(k) implies list_ok(k, after[k]) by {
                if k != auction {
                    assert(before.contains_key(k));
                }
            }
        }
        self.lists = lists;
    }

    /// Gives the first bid of `update.bidder` on `update.auction` the new amount.
    /// Returns whether there was such a bid; the book is unchanged where there was none.
    pub fn update_bid(&mut self, update: UpdateBid) -> (found: bool)
        ensures
            found == update_applies(old(self)@, update),
            final(self)@ == spec_update(old(self)@, update),
            book_ok(final(self)@),
    {
        proof {
            use_type_invariant(&*self);
        }
        let ghost before = self@;
        let mut lists: HashMap<u32, Vec<Bid>> = HashMap::new();
        assert(lists@.map_values(|v: Vec<Bid>| v@) =~= Map::<u32, Seq<Bid>>::empty());
        std::mem::swap(&mut lists, &mut self.lists);
        let ghost held = lists@;
        let auction = update.auction;
        let mut list = match lists.remove(&auction) {
            None => {
                assert(lists@ =~= held);
                self.lists = lists;
                return false;
            },
            Some(v) => v,
        };
        let ghost s = list@;
        assert(s == before[auction]);
        let mut i: usize = 0;
        while i < list.len() && list[i].bidder != update.bidder
            invariant
                list@ == s,
                i <= s.len(),
                forall|j: int| 0 <= j < i ==> (#[trigger] s[j]).bidder != update.bidder,
            decreases s.len() - i,
        {
            i = i + 1;
        }
        if i < list.len() {
            let old_bid = list[i];
            list.set(i, Bid { amount_bits: update.amount_bits, ..old_bid });
            lists.insert(auction, list);
            proof {
                assert(first_bid_of(s, update.bidder) == Some(i as int));
                let after = lists@.map_values(|v: Vec<Bid>| v@);
                assert(after =~= spec_update(before, update));
                assert forall|k: u32| #[trigger] after.contains_key(k) implies list_ok(k, after[k]) by {
                    if k != auction {
                        assert(before.contains_key(k));
                    } else {
                        assert(list_ok(k, before[k]));
                    }
                }
            }
            self.lists = lists;
            true
        } else {
            lists.insert(auction, list);
            proof {
                assert(first_bid_of(s, update.bidder) is None);
                assert(lists@ =~= held);
            }
            self.lists = lists;
            false
        }
    }

    /// Whether the book holds no auction.
    pub fn is_empty(&self) -> (r: bool)
        ensures
            r == (self@.dom() =~= Set::<u32>::empty()),
    {
        let r = self.lists.is_empty();
        proof {
            if !r {
                let k = choose|k: u32| self.lists@.contains_key(k);
                assert(self@.contains_key(k));
            }
        }
        r
    }

    /// Drops the auction and all its bids from the book.
    pub fn remove_auction(&mut self, auction: u32)
        ensures
            final(self)@ == old(self)@.remove(auction),
            book_ok(final(self)@),
    {
        proof {
            use_type_invariant(&*self);
        }
        let ghost before = self@;
        let mut lists: HashMap<u32, Vec<Bid>> = HashMap::new();
        assert(lists@.map_values(|v: Vec<Bid>| v@) =~= Map::<u32, Seq<Bid>>::empty());
        std::mem::swap(&mut lists, &mut self.lists);
        let _ = lists.remove(&auction);
        proof {
            let after = lists@.map_values(|v: Vec<Bid>| v@);
            assert(after =~= before.remove(auction));
            assert forall|k: u32| #[trigger] after.contains_key(k) implies list_ok(k, after[k]) by {
                assert(before.contains_key(k));
            }
        }
        self.lists = lists;
    }

    /// Empties the book.
    pub fn clear(&mut self)
        ensures
            final(self)@ == Map::<u32, Seq<Bid>>::empty(),
            book_ok(final(self)@),
    {
        let lists: HashMap<u32, Vec<Bid>> = HashMap::new();
        assert(lists@.map_values(|v: Vec<Bid>| v@) =~= Map::<u32, Seq<Bid>>::empty());
        self.lists = lists;
    }

    /// Every bid in the book, the lists of the auctions one after the other.
    /// The auctions come in the order in which the map hands them out.
    pub fn all_bids(&self) -> (res: Vec<Bid>)
        ensures
            exists|order: Seq<u32>| enumerates(order, self@) && res@ == concat_lists(self@, order),
    {
        let mut out: Vec<Bid> = Vec::new();
        let ghost order = spec_keys_iter(&self.lists).remaining().unref();
        let ghost mut n: int = 0;
        proof {
            assert(order.to_set() == self.lists@.dom());
            assert(spec_keys_iter(&self.lists).remaining().no_duplicates());
        }
        for key in it: self.lists.keys()
            invariant
                it.seq().unref() == order,
                order.to_set() == self.lists@.dom(),
                it.seq().no_duplicates(),
                n == it.index(),
                out@ == concat_lists(self@, order.take(n)),
        {
            let ghost done = it.seq().unref().take(it.index());
            let ghost k = *key;
            assert(it.seq().unref().to_set().contains(k));
            let list = self.lists.get(key).unwrap();
            let mut j: usize = 0;
            let ghost start = out@;
            while j < list.len()
                invariant
                    j <= list@.len(),
                    out@ == start + list@.take(j as int),
                decreases list@.len() - j,
            {
                out.push(list[j]);
                j = j + 1;
                assert(out@ =~= start + list@.take(j as int));
            }
            assert(list@.take(list@.len() as int) =~= list@);
            assert(it.seq().unref().take(it.index() + 1).drop_last() =~= done);
            proof {
                n = n + 1;
            }
        }
        proof {
            assert(n == order.len());
            assert(order.take(order.len() as int) =~= order);
            assert(order.no_duplicates()) by {
                let ks = spec_keys_iter(&self.lists).remaining();
                assert forall|a: int, b: int| 0 <= a < order.len() && 0 <= b < order.len() && a != b
                    implies order[a] != order[b] by {
                    assert(ks[a] != ks[b]);
                }
            }
            assert forall|k: u32| self@.contains_key(k) <==> order.contains(k) by {
                assert(order.to_set().contains(k) <==> order.contains(k));
            }
        }
        out
    }

    /// A book holding `rows`, grouped by auction, each auction's bids in the order of `rows`.
    pub fn from_rows(rows: &Vec<Bid>) -> (book: BidBook)
        ensures
            book@ == group_bids(rows@),
            book_ok(book@),
    {
        let mut book = BidBook::new();
        let mut i: usize = 0;
        while i < rows.len()
            invariant
                i <= rows@.len(),
                book@ == group_bids(rows@.take(i as int)),
            decreases rows@.len() - i,
        {
            book.add_bid(rows[i]);
            assert(rows@.take(i + 1).drop_last() =~= rows@.take(i as int));
            i = i + 1;
        }
        assert(rows@.take(rows@.len() as int) =~= rows@);
        proof {
            use_type_invariant(&book);
        }
        book
    }
}

/// The bidders, auctions and amounts of `bids`, column by column,
/// ids widened to `i64` as the database columns take them.
pub fn extract_bid_columns(bids: &[Bid]) -> (cols: (Vec<i64>, Vec<i64>, Vec<u64>))
    ensures
        cols.0@.len() == bids@.len(),
        cols.1@.len() == bids@.len(),
        cols.2@.len() == bids@.len(),
        forall|i: int|
            0 <= i < bids@.len() ==> {
                &&& cols.0@[i] == bids@[i].bidder as i64
                &&& cols.1@[i] == bids@[i].auction as i64
                &&& cols.2@[i] == bids@[i].amount_bits
            },
{
    let mut bidders: Vec<i64> = Vec::new();
    let mut auctions: Vec<i64> = Vec::new();
    let mut amounts: Vec<u64> = Vec::new();
    let mut i: usize = 0;
    while i < bids.len()
        invariant
            i <= bids@.len(),
            bidders@.len() == i,
            auctions@.len() == i,
            amounts@.len() == i,
            forall|j: int|
                0 <= j < i ==> {
                    &&& bidders@[j] == bids@[j].bidder as i64
                    &&& auctions@[j] == bids@[j].auction as i64
                    &&& amounts@[j] == bids@[j].amount_bits
                },
        decreases bids@.len() - i,
    {
        let b = bids[i];
        bidders.push(b.bidder as i64);
        auctions.push(b.auction as i64);
        amounts.push(b.amount_bits);
        i = i + 1;
    }
    (bidders, auctions, amounts)
}

/// What is to be written to the database when the book is flushed: nothing when
/// the book holds no auction, else the columns of all its bids.
pub fn pending_bid_columns(book: &BidBook) -> (res: Option<(Vec<i64>, Vec<i64>, Vec<u64>)>)
    ensures
        res is None <==> book@.dom() =~= Set::<u32>::empty(),
        res matches Some(cols) ==> exists|order: Seq<u32>|
            {
                &&& enumerates(order, book@)
                &&& cols.0@.len() == concat_lists(book@, order).len()
                &&& cols.1@.len() == concat_lists(book@, order).len()
                &&& cols.2@.len() == concat_lists(book@, order).len()
                &&& forall|i: int|
                    0 <= i < concat_lists(book@, order).len() ==> {
                        &&& cols.0@[i] == (#[trigger] concat_lists(book@, order)[i]).bidder as i64
                        &&& cols.1@[i] == concat_lists(book@, order)[i].auction as i64
                        &&& cols.2@[i] == concat_lists(book@, order)[i].amount_bits
                    }
            },
{
    if book.is_empty() {
        return None;
    }
    let all = book.all_bids();
    let cols = extract_bid_columns(all.as_slice());
    Some(cols)
}

/// Loading a list of bids groups them by auction: an auction is in the book exactly
/// when some row bids on it, and its list is the rows that bid on it, in their order.
pub proof fn law_grouping_by_auction(rows: Seq<Bid>, k: u32)
    ensures
        group_bids(rows).contains_key(k) <==> exists|i: int|
            0 <= i < rows.len() && (#[trigger] rows[i]).auction == k,
        group_bids(rows).contains_key(k) ==> group_bids(rows)[k] == rows.filter(on_auction(k)),
        !group_bids(rows).contains_key(k) ==> rows.filter(on_auction(k)) == Seq::<Bid>::empty(),
    decreases rows.len(),
{
    reveal(Seq::filter);
    if rows.len() > 0 {
        law_grouping_by_auction(rows.drop_last(), k);
        let init = rows.drop_last();
        if exists|i: int| 0 <= i < init.len() && (#[trigger] init[i]).auction == k {
            let i = choose|i: int| 0 <= i < init.len() && (#[trigger] init[i]).auction == k;
            assert(rows[i] == init[i]);
        }
        if exists|i: int| 0 <= i < rows.len() && (#[trigger] rows[i]).auction == k {
            let i = choose|i: int| 0 <= i < rows.len() && (#[trigger] rows[i]).auction == k;
            if i < rows.len() - 1 {
                assert(init[i] == rows[i]);
            }
        }
        assert(rows.filter(on_auction(k)) == {
            let sub = init.filter(on_auction(k));
            if on_auction(k)(rows.last()) { sub.push(rows.last()) } else { sub }
        });
        if rows.last().auction == k && !group_bids(init).contains_key(k) {
            assert(seq![rows.last()] =~= Seq::<Bid>::empty().push(rows.last()));
        }
    } else {
        assert(group_bids(rows) == Map::<u32, Seq<Bid>>::empty());
    }
}

/// Adding a bid keeps the book well kept.
pub proof fn law_add_keeps_book_ok(m: Map<u32, Seq<Bid>>, bid: Bid)
    requires
        book_ok(m),
    ensures
        book_ok(spec_add(m, bid)),
{
    let after = spec_add(m, bid);
    assert forall|k: u32| #[trigger] after.contains_key(k) implies list_ok(k, after[k]) by {
        if k != bid.auction {
            assert(m.contains_key(k));
        }
    }
}

/// An update changes at most one bid, and of that bid only the amount: the same
/// auctions stay in the book, each with as many bids as before, and the book stays well kept.
pub proof fn law_update_changes_one_amount(m: Map<u32, Seq<Bid>>, u: UpdateBid)
    requires
        book_ok(m),
    ensures
        book_ok(spec_update(m, u)),
        spec_update(m, u).dom() == m.dom(),
        forall|k: u32| #[trigger] m.contains_key(k) ==> spec_update(m, u)[k].len() == m[k].len(),
        update_applies(m, u) ==> spec_update(m, u)[u.auction][first_bid_of(
            m[u.auction],
            u.bidder,
        )->0].amount_bits == u.amount_bits,
        forall|k: u32, i: int|
            m.contains_key(k) && 0 <= i < m[k].len() ==> {
                let after = #[trigger] spec_update(m, u)[k][i];
                let before = m[k][i];
                &&& after.id == before.id
                &&& after.bidder == before.bidder
                &&& after.auction == before.auction
                &&& (after.amount_bits == before.amount_bits || (k == u.auction
                    && first_bid_of(m[k], u.bidder) == Some(i) && after.amount_bits
                    == u.amount_bits))
            },
{
    let after = spec_update(m, u);
    if m.contains_key(u.auction) {
        lemma_first_bid_of(m[u.auction], u.bidder);
    }
    if update_applies(m, u) {
        assert(after.dom() =~= m.dom());
        assert forall|k: u32| #[trigger] after.contains_key(k) implies list_ok(k, after[k]) by {
            assert(m.contains_key(k));
        }
    }
}

/// The bids of the auctions in `order` are exactly the bids held under those auctions.
proof fn lemma_concat_contains(m: Map<u32, Seq<Bid>>, order: Seq<u32>, b: Bid)
    ensures
        concat_lists(m, order).contains(b) <==> exists|j: int|
            0 <= j < order.len() && (#[trigger] m[order[j]]).contains(b),
    decreases order.len(),
{
    if order.len() > 0 {
        let init = order.drop_last();
        lemma_concat_contains(m, init, b);
        let left = concat_lists(m, init);
        let right = m[order.last()];
        let whole = concat_lists(m, order);
        assert(whole == left + right);
        if whole.contains(b) {
            let i = choose|i: int| 0 <= i < whole.len() && whole[i] == b;
            if i < left.len() {
                assert(left[i] == b);
                let j = choose|j: int| 0 <= j < init.len() && (#[trigger] m[init[j]]).contains(b);
                assert(order[j] == init[j]);
            } else {
                assert(right[i - left.len()] == b);
                assert(m[order[order.len() - 1]].contains(b));
            }
        }
        if exists|j: int| 0 <= j < order.len() && (#[trigger] m[order[j]]).contains(b) {
            let j = choose|j: int| 0 <= j < order.len() && (#[trigger] m[order[j]]).contains(b);
            if j < order.len() - 1 {
                assert(m[init[j]].contains(b));
                let i = choose|i: int| 0 <= i < left.len() && left[i] == b;
                assert(whole[i] == b);
            } else {
                let i = choose|i: int| 0 <= i < right.len() && right[i] == b;
                assert(whole[left.len() + i] == b);
            }
        }
    }
}

/// Flushing the book writes every bid it holds and nothing else: whatever order the
/// auctions come in, a bid is among all the bids exactly when it is held under some auction.
pub proof fn law_all_bids_are_the_held_bids(m: Map<u32, Seq<Bid>>, order: Seq<u32>, b: Bid)
    requires
        enumerates(order, m),
    ensures
        concat_lists(m, order).contains(b) <==> exists|k: u32|
            m.contains_key(k) && (#[trigger] m[k]).contains(b),
{
    lemma_concat_contains(m, order, b);
    if exists|k: u32| m.contains_key(k) && (#[trigger] m[k]).contains(b) {
        let k = choose|k: u32| m.contains_key(k) && (#[trigger] m[k]).contains(b);
        assert(order.contains(k));
        let j = choose|j: int| 0 <= j < order.len() && order[j] == k;
        assert(m[order[j]].contains(b));
    }
    if concat_lists(m, order).contains(b) {
        let j = choose|j: int| 0 <= j < order.len() && (#[trigger] m[order[j]]).contains(b);
        assert(order.contains(order[j]));
        assert(m.contains_key(order[j]));
    }
}

/// An update applies exactly when the auction is in the book and the bidder has a bid
/// on it, at any place in its list; then the bidder's first bid on it takes the new
/// amount and keeps its id, bidder and auction. An update that does not apply leaves
/// the book as it was.
pub proof fn law_update_finds_the_bidders_first_bid(m: Map<u32, Seq<Bid>>, u: UpdateBid)
    ensures
        update_applies(m, u) <==> (m.contains_key(u.auction) && exists|i: int|
            0 <= i < m[u.auction].len() && (#[trigger] m[u.auction][i]).bidder == u.bidder),
        !update_applies(m, u) ==> spec_update(m, u) == m,
        forall|i: int|
            m.contains_key(u.auction) && 0 <= i < m[u.auction].len() && (#[trigger] m[u.auction][i]).bidder
                == u.bidder && (forall|j: int| 0 <= j < i ==> m[u.auction][j].bidder != u.bidder)
                ==> {
                &&& spec_update(m, u).contains_key(u.auction)
                &&& spec_update(m, u)[u.auction].len() == m[u.auction].len()
                &&& spec_update(m, u)[u.auction][i].amount_bits == u.amount_bits
                &&& spec_update(m, u)[u.auction][i].id == m[u.auction][i].id
                &&& spec_update(m, u)[u.auction][i].bidder == u.bidder
                &&& spec_update(m, u)[u.auction][i].auction == m[u.auction][i].auction
            },
{
    if m.contains_key(u.auction) {
        let s = m[u.auction];
        lemma_first_bid_of(s, u.bidder);
        if exists|i: int| 0 <= i < s.len() && (#[trigger] s[i]).bidder == u.bidder {
            let w = choose|i: int| 0 <= i < s.len() && (#[trigger] s[i]).bidder == u.bidder;
            assert(s[w].bidder == u.bidder);
        }
        assert forall|i: int|
            0 <= i < s.len() && (#[trigger] s[i]).bidder == u.bidder && (forall|j: int|
                0 <= j < i ==> s[j].bidder != u.bidder) implies first_bid_of(s, u.bidder) == Some(i) by {
            let f = first_bid_of(s, u.bidder)->0;
            if f < i {
                assert(s[f].bidder != u.bidder);
            }
            if i < f {
                assert(s[i].bidder != u.bidder);
            }
        }
    }
}

/// Adding a bid appends it to the list of its auction (opening the list when the
/// auction had none) and leaves every other auction as it was.
pub proof fn law_add_appends_to_its_auction(m: Map<u32, Seq<Bid>>, bid: Bid)
    ensures
        spec_add(m, bid).contains_key(bid.auction),
        spec_add(m, bid)[bid.auction].len() > 0,
        spec_add(m, bid)[bid.auction].last() == bid,
        spec_add(m, bid)[bid.auction].drop_last() == if m.contains_key(bid.auction) {
            m[bid.auction]
        } else {
            Seq::<Bid>::empty()
        },
        forall|k: u32|
            k != bid.auction ==> (#[trigger] spec_add(m, bid).contains_key(k) == m.contains_key(k)
                && (m.contains_key(k) ==> spec_add(m, bid)[k] == m[k])),
{
    if !m.contains_key(bid.auction) {
        assert(seq![bid].drop_last() =~= Seq::<Bid>::empty());
    } else {
        assert(m[bid.auction].push(bid).drop_last() =~= m[bid.auction]);
    }
}

} // verus!
