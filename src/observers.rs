//! The set of observer connections that receive the correlated batches. Each
//! connection gets an id when it joins, so that a build session can close
//! exactly its own observer.
use vstd::prelude::*;

verus! {

/// The connections that flagged `true` in `delivered`, in order.
pub open spec fn kept<C>(entries: Seq<(u64, C)>, delivered: Seq<bool>) -> Seq<(u64, C)>
    recommends
        entries.len() == delivered.len(),
    decreases entries.len(),
{
    if entries.len() == 0 {
        seq![]
    } else {
        let rest = kept(entries.drop_last(), delivered.drop_last());
        if delivered.last() {
            rest.push(entries.last())
        } else {
            rest
        }
    }
}

/// The connections that flagged `false` in `delivered`, in order.
pub open spec fn dropped<C>(entries: Seq<(u64, C)>, delivered: Seq<bool>) -> Seq<(u64, C)>
    recommends
        entries.len() == delivered.len(),
    decreases entries.len(),
{
    if entries.len() == 0 {
        seq![]
    } else {
        let rest = dropped(entries.drop_last(), delivered.drop_last());
        if delivered.last() {
            rest
        } else {
            rest.push(entries.last())
        }
    }
}

/// Whether some entry has the id `id`.
pub open spec fn has_id<C>(entries: Seq<(u64, C)>, id: u64) -> bool {
    exists|i: int| 0 <= i < entries.len() && (#[trigger] entries[i]).0 == id
}

/// The observers with their ids, in the order they joined.
pub struct ObserverSet<C> {
    entries: Vec<(u64, C)>,
    next_id: u64,
}

impl<C> View for ObserverSet<C> {
    type V = Seq<(u64, C)>;

    closed spec fn view(&self) -> Seq<(u64, C)> {
        self.entries@
    }
}

impl<C> ObserverSet<C> {
    /// Ids are unique, ascending in joining order, and below the next id.
    pub closed spec fn wf(&self) -> bool {
        &&& ascending(self.entries@)
        &&& ids_below(self.entries@, self.next_id)
    }

    /// Whether an id is left for another observer.
    pub closed spec fn has_fresh_id(&self) -> bool {
        self.next_id < u64::MAX
    }

    /// An empty set.
    pub fn new() -> (r: ObserverSet<C>)
        ensures
            r.wf(),
            r.has_fresh_id(),
            r@.len() == 0,
    {
        ObserverSet { entries: Vec::new(), next_id: 0 }
    }

    /// The number of observers.
    pub fn len(&self) -> (r: usize)
        ensures
            r == self@.len(),
    {
        self.entries.len()
    }

    /// The connection at position `i`.
    pub fn connection(&self, i: usize) -> (r: &C)
        requires
            i < self@.len(),
        ensures
            *r == self@[i as int].1,
    {
        &self.entries[i].1
    }

    /// The id of the observer at position `i`.
    pub fn id_at(&self, i: usize) -> (r: u64)
        requires
            i < self@.len(),
        ensures
            r == self@[i as int].0,
    {
        self.entries[i].0
    }

    /// Adds an observer at the end and returns its id. When no fresh id is
    /// left the connection is handed back and the set is unchanged.
    pub fn add(&mut self, conn: C) -> (r: Result<u64, C>)
        requires
            old(self).wf(),
        ensures
            final(self).wf(),
            old(self).has_fresh_id() ==> r is Ok,
            match r {
                Ok(id) => {
                    &&& !has_id(old(self)@, id)
                    &&& final(self)@ == old(self)@.push((id, conn))
                },
                Err(c) => c == conn && final(self)@ == old(self)@,
            },
    {
        if self.next_id == u64::MAX {
            return Err(conn);
        }
        let id = self.next_id;
        self.entries.push((id, conn));
        self.next_id = self.next_id + 1;
        Ok(id)
    }

    /// Keeps the observers whose write succeeded (`delivered[i]` for the
    /// observer at position `i`) and returns the others, in order, to be
    /// shut down. An observer whose write failed is gone from the set; the
    /// rest stay, in their order.
    pub fn retain_delivered(&mut self, delivered: &Vec<bool>) -> (r: Vec<C>)
        requires
            old(self).wf(),
            delivered.len() == old(self)@.len(),
        ensures
            final(self).wf(),
            final(self)@ == kept(old(self)@, delivered@),
            r@ == dropped(old(self)@, delivered@).map_values(|e: (u64, C)| e.1),
            forall|i: int|
                0 <= i < old(self)@.len() ==> (has_id(final(self)@, #[trigger] old(self)@[i].0)
                    <==> delivered@[i]),
    {
        let ghost entries = self.entries@;
        let mut pending: Vec<(u64, C)> = Vec::new();
        std::mem::swap(&mut self.entries, &mut pending);
        let mut out: Vec<C> = Vec::new();
        let n = delivered.len();
        let mut k: usize = 0;
        while k < n
            invariant
                k <= n == delivered.len() == entries.len(),
                pending@ == entries.subrange(k as int, n as int),
                self.entries@ == kept(entries.take(k as int), delivered@.take(k as int)),
                out@ == dropped(entries.take(k as int), delivered@.take(k as int)).map_values(
                    |e: (u64, C)| e.1,
                ),
                self.next_id == old(self).next_id,
            decreases n - k,
        {
            let entry = pending.remove(0);
            assert(entries.take(k + 1).drop_last() =~= entries.take(k as int));
            assert(delivered@.take(k + 1).drop_last() =~= delivered@.take(k as int));
            assert(entries.take(k + 1).last() == entries[k as int]);
            if delivered[k] {
                self.entries.push(entry);
            } else {
                out.push(entry.1);
                assert(out@ =~= dropped(entries.take(k + 1), delivered@.take(k + 1)).map_values(
                    |e: (u64, C)| e.1,
                ));
            }
            k = k + 1;
            assert(pending@ =~= entries.subrange(k as int, n as int));
        }
        assert(entries.take(n as int) =~= entries);
        assert(delivered@.take(n as int) =~= delivered@);
        proof {
            lemma_kept_membership(entries, delivered@);
            lemma_kept_below(entries, delivered@, self.next_id);
        }
        out
    }

    /// Removes the observer with id `id`, returning its connection.
    pub fn remove(&mut self, id: u64) -> (r: Option<C>)
        requires
            old(self).wf(),
        ensures
            final(self).wf(),
            !has_id(final(self)@, id),
            match r {
                Some(c) => exists|i: int|
                    0 <= i < old(self)@.len() && old(self)@[i] == (id, c) && final(self)@
                        == old(self)@.remove(i),
                None => !has_id(old(self)@, id) && final(self)@ == old(self)@,
            },
    {
        let mut i: usize = 0;
        while i < self.entries.len()
            invariant
                self.wf(),
                self.entries@ == old(self).entries@,
                i <= self.entries.len(),
                forall|j: int| 0 <= j < i ==> (#[trigger] self.entries@[j]).0 != id,
            decreases self.entries.len() - i,
        {
            if self.entries[i].0 == id {
                let ghost before = self.entries@;
                let entry = self.entries.remove(i);
                assert(before[i as int] == entry);
                assert(self.entries@ == before.remove(i as int));
                assert(before[i as int] == (id, entry.1));
                assert(0 <= i < old(self)@.len() && old(self)@[i as int] == (id, entry.1)
                    && self@ == old(self)@.remove(i as int));
                proof {
                    assert forall|j: int| 0 <= j < self.entries@.len() implies (
                    #[trigger] self.entries@[j]).0 != id by {
                        if j < i {
                            assert(self.entries@[j] == before[j]);
                        } else {
                            assert(self.entries@[j] == before[j + 1]);
                        }
                    }
                }
                return Some(entry.1);
            }
            i = i + 1;
        }
        None
    }
}

/// Ids ascend along `entries`.
pub open spec fn ascending<C>(entries: Seq<(u64, C)>) -> bool {
    forall|i: int, j: int| 0 <= i < j < entries.len() ==> (#[trigger] entries[i]).0 < (
    #[trigger] entries[j]).0
}

/// Every id of `entries` is below `b`.
pub open spec fn ids_below<C>(entries: Seq<(u64, C)>, b: u64) -> bool {
    forall|i: int| 0 <= i < entries.len() ==> (#[trigger] entries[i]).0 < b
}

proof fn lemma_kept_below<C>(entries: Seq<(u64, C)>, delivered: Seq<bool>, b: u64)
    requires
        entries.len() == delivered.len(),
        ids_below(entries, b),
    ensures
        ids_below(kept(entries, delivered), b),
    decreases entries.len(),
{
    if entries.len() > 0 {
        let e = entries.drop_last();
        lemma_kept_below(e, delivered.drop_last(), b);
        assert(entries[entries.len() - 1].0 < b);
    }
}

proof fn lemma_has_id_push<C>(s: Seq<(u64, C)>, x: (u64, C), id: u64)
    ensures
        has_id(s.push(x), id) <==> (has_id(s, id) || x.0 == id),
{
    if has_id(s, id) {
        let m = choose|m: int| 0 <= m < s.len() && (#[trigger] s[m]).0 == id;
        assert(s.push(x)[m] == s[m]);
    }
    if x.0 == id {
        assert(s.push(x)[s.len() as int] == x);
    }
    if has_id(s.push(x), id) {
        let m = choose|m: int| 0 <= m < s.len() + 1 && (#[trigger] s.push(x)[m]).0 == id;
        if m < s.len() {
            assert(s.push(x)[m] == s[m]);
        }
    }
}

/// Pruning keeps ids ascending, and an entry survives exactly when its
/// write succeeded.
proof fn lemma_kept_membership<C>(entries: Seq<(u64, C)>, delivered: Seq<bool>)
    requires
        entries.len() == delivered.len(),
        ascending(entries),
    ensures
        ascending(kept(entries, delivered)),
        forall|i: int|
            0 <= i < entries.len() ==> (has_id(kept(entries, delivered), #[trigger] entries[i].0)
                <==> delivered[i]),
    decreases entries.len(),
{
    if entries.len() > 0 {
        let e = entries.drop_last();
        let d = delivered.drop_last();
        let last = (entries.len() - 1) as int;
        let x = entries[last];
        lemma_kept_membership(e, d);
        let k = kept(entries, delivered);
        let kr = kept(e, d);
        assert(ids_below(e, x.0));
        lemma_kept_below(e, d, x.0);
        assert forall|i: int| 0 <= i < entries.len() implies (has_id(k, #[trigger] entries[i].0)
            <==> delivered[i]) by {
            lemma_has_id_push(kr, x, entries[i].0);
            if i < last {
                assert(entries[i] == e[i]);
                assert(delivered[i] == d[i]);
                assert(entries[i].0 < x.0);
            } else if !delivered[last] {
                if has_id(kr, x.0) {
                    let m = choose|m: int| 0 <= m < kr.len() && (#[trigger] kr[m]).0 == x.0;
                }
            }
        }
    }
}

} // verus!
