//! Feed registry: the bookkeeping of which symbols currently have a live
//! streaming connection. `ensure` is the idempotent check-then-insert and
//! `stop` the remove-and-cancel; both tell the surrounding supervisor what to
//! do (spawn a connection, signal cancellation), so the registry itself never
//! touches the network. Its invariant is at-most-one-connection-per-symbol.
use vstd::prelude::*;

verus! {

/// What `ensure(feeds, symbol)` leaves in the registry and whether a new
/// connection must be started: a symbol already present is left alone, an
/// absent one is recorded.
pub open spec fn spec_ensure(feeds: Seq<Seq<char>>, sym: Seq<char>) -> (Seq<Seq<char>>, bool) {
    if feeds.contains(sym) {
        (feeds, false)
    } else {
        (feeds.push(sym), true)
    }
}

/// What `stop(feeds, symbol)` leaves in the registry and whether a connection
/// existed to cancel.
pub open spec fn spec_stop(feeds: Seq<Seq<char>>, sym: Seq<char>) -> (Seq<Seq<char>>, bool) {
    if feeds.contains(sym) {
        (feeds.remove_value(sym), true)
    } else {
        (feeds, false)
    }
}

/// No symbol occurs twice in the list.
pub open spec fn distinct_syms(s: Seq<Seq<char>>) -> bool {
    forall|i: int, j: int| 0 <= i < j < s.len() ==> s[i] != s[j]
}

/// The registry of symbols with a live streaming connection.
pub struct FeedRegistry {
    feeds: Vec<String>,
}

impl View for FeedRegistry {
    type V = Seq<Seq<char>>;

    closed spec fn view(&self) -> Seq<Seq<char>> {
        self.feeds.deep_view()
    }
}

impl FeedRegistry {
    /// Well-formed: a symbol appears at most once.
    pub open spec fn wf(&self) -> bool {
        distinct_syms(self@)
    }

    /// A live feed exists for this symbol.
    pub open spec fn active(&self, sym: Seq<char>) -> bool {
        self@.contains(sym)
    }

    /// An empty registry: no symbol has a feed.
    pub fn new() -> (r: FeedRegistry)
        ensures
            r.wf(),
            r@ == Seq::<Seq<char>>::empty(),
    {
        let r = FeedRegistry { feeds: Vec::new() };
        proof {
            assert(r@ =~= Seq::<Seq<char>>::empty());
        }
        r
    }

    /// The position of the symbol's entry, if one exists.
    fn find(&self, symbol: &String) -> (r: Option<usize>)
        ensures
            match r {
                Some(i) => {
                    &&& i < self@.len()
                    &&& self@[i as int] == symbol@
                    &&& forall|k: int| 0 <= k < i ==> self@[k] != symbol@
                },
                None => !self.active(symbol@),
            },
    {
        let mut i: usize = 0;
        while i < self.feeds.len()
            invariant
                i <= self.feeds.len(),
                self@.len() == self.feeds.len(),
                forall|k: int| 0 <= k < i ==> self@[k] != symbol@,
            decreases self.feeds.len() - i,
        {
            if self.feeds[i].eq(symbol) {
                return Some(i);
            }
            i = i + 1;
        }
        None
    }

    /// A live feed exists for this symbol.
    pub fn is_active(&self, symbol: &String) -> (b: bool)
        ensures
            b == self.active(symbol@),
    {
        let r = self.find(symbol);
        match r {
            Some(i) => true,
            None => false,
        }
    }

    /// Idempotent check-then-insert: records the symbol unless a feed already
    /// exists for it. Returns whether the caller must start a connection.
    pub fn ensure(&mut self, symbol: String) -> (started: bool)
        requires
            old(self).wf(),
        ensures
            final(self).wf(),
            (final(self)@, started) == spec_ensure(old(self)@, symbol@),
    {
        match self.find(&symbol) {
            Some(_) => false,
            None => {
                self.feeds.push(symbol);
                proof {
                    assert(self@ =~= old(self)@.push(symbol@));
                }
                true
            }
        }
    }

    /// Removes the symbol's entry if one exists. Returns whether a connection
    /// existed, so the caller knows to signal its cancellation; `false` is the
    /// benign stop-on-absent-feed case.
    pub fn stop(&mut self, symbol: &String) -> (stopped: bool)
        requires
            old(self).wf(),
        ensures
            final(self).wf(),
            (final(self)@, stopped) == spec_stop(old(self)@, symbol@),
            !final(self).active(symbol@),
    {
        match self.find(symbol) {
            Some(i) => {
                proof {
                    old(self)@.index_of_first_ensures(symbol@);
                    assert(old(self)@.index_of_first(symbol@) == Some(i as int));
                    lemma_remove_keeps_distinct(old(self)@, i as int);
                    lemma_remove_first_removes_value(old(self)@, symbol@, i as int);
                }
                self.feeds.remove(i);
                proof {
                    old(self).feeds@.remove_ensures(i as int);
                    assert(self@ =~= old(self)@.remove(i as int));
                }
                true
            }
            None => false,
        }
    }
}

/// Removing one element of a duplicate-free sequence leaves it duplicate-free.
proof fn lemma_remove_keeps_distinct(s: Seq<Seq<char>>, i: int)
    requires
        0 <= i < s.len(),
        forall|p: int, q: int| 0 <= p < q < s.len() ==> s[p] != s[q],
    ensures
        forall|p: int, q: int|
            0 <= p < q < s.remove(i).len() ==> s.remove(i)[p] != s.remove(i)[q],
{
    s.remove_ensures(i);
    assert forall|p: int, q: int|
        0 <= p < q < s.remove(i).len() implies s.remove(i)[p] != s.remove(i)[q] by {
        let p0 = if p < i { p } else { p + 1 };
        let q0 = if q < i { q } else { q + 1 };
        assert(s.remove(i)[p] == s[p0]);
        assert(s.remove(i)[q] == s[q0]);
    }
}

/// In a duplicate-free sequence, removing the occurrence of a value at its
/// (unique) index is exactly `remove_value`, and the value is gone afterwards.
proof fn lemma_remove_first_removes_value(s: Seq<Seq<char>>, v: Seq<char>, i: int)
    requires
        0 <= i < s.len(),
        s[i] == v,
        forall|p: int, q: int| 0 <= p < q < s.len() ==> s[p] != s[q],
        s.index_of_first(v) == Some(i),
    ensures
        s.remove_value(v) == s.remove(i),
        !s.remove(i).contains(v),
{
    s.remove_ensures(i);
    if s.remove(i).contains(v) {
        let k = choose|k: int| 0 <= k < s.remove(i).len() && s.remove(i)[k] == v;
        let k0 = if k < i { k } else { k + 1 };
        assert(s[k0] == v);
        assert(s[i] == v);
    }
}

/// Law: at most one streaming connection per symbol. In a well-formed registry
/// two entries that carry the same symbol are the same entry.
pub proof fn lemma_at_most_one_feed(r: &FeedRegistry, i: int, j: int)
    requires
        r.wf(),
        0 <= i < r@.len(),
        0 <= j < r@.len(),
        r@[i] == r@[j],
    ensures
        i == j,
{
}

/// Law: a subscribe event for a symbol with no prior feed starts exactly one
/// connection, and an identical second event is a no-op: it starts nothing and
/// leaves the registry unchanged.
pub proof fn lemma_ensure_idempotent(feeds: Seq<Seq<char>>, sym: Seq<char>)
    requires
        !feeds.contains(sym),
    ensures
        spec_ensure(feeds, sym) == (feeds.push(sym), true),
        spec_ensure(spec_ensure(feeds, sym).0, sym) == (spec_ensure(feeds, sym).0, false),
{
    assert(feeds.push(sym)[feeds.len() as int] == sym);
    assert(feeds.push(sym).contains(sym));
}

} // verus!
