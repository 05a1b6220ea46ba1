//! An ordered map from outlet id to outlet condition.
//!
//! The store keeps one entry per configured outlet and the dispatch logic
//! walks the entries in ascending id order, so the map is kept as an
//! association list sorted strictly by key.

use vstd::prelude::*;

use crate::state::OutletState;

verus! {

/// The keys of `s` are strictly increasing; in particular they are unique.
pub open spec fn sorted_by_key(s: Seq<(u64, OutletState)>) -> bool {
    forall|i: int, j: int| 0 <= i < j < s.len() ==> s[i].0 < s[j].0
}

/// The value bound to `k` in the association list `s`, if any.
pub open spec fn spec_get(s: Seq<(u64, OutletState)>, k: u64) -> Option<OutletState>
    decreases s.len(),
{
    if s.len() == 0 {
        None
    } else if s[0].0 == k {
        Some(s[0].1)
    } else {
        spec_get(s.drop_first(), k)
    }
}

/// The association list `s` with `k` bound to `v`, keys kept sorted.
pub open spec fn spec_insert(s: Seq<(u64, OutletState)>, k: u64, v: OutletState) -> Seq<
    (u64, OutletState),
>
    decreases s.len(),
{
    if s.len() == 0 {
        seq![(k, v)]
    } else if k < s[0].0 {
        seq![(k, v)] + s
    } else if k == s[0].0 {
        seq![(k, v)] + s.drop_first()
    } else {
        seq![s[0]] + spec_insert(s.drop_first(), k, v)
    }
}

/// A map from outlet id to `OutletState`, ordered by id.
#[derive(Debug, PartialEq)]
pub struct OutletMap {
    entries: Vec<(u64, OutletState)>,
}

impl View for OutletMap {
    type V = Seq<(u64, OutletState)>;

    closed spec fn view(&self) -> Seq<(u64, OutletState)> {
        self.entries@
    }
}

impl OutletMap {
    /// Intrinsic invariant: every map that exists is sorted by id.
    #[verifier::type_invariant]
    pub open spec fn inv(&self) -> bool {
        sorted_by_key(self@)
    }

    /// The empty map.
    pub fn new() -> (r: Self)
        ensures
            r@ == Seq::<(u64, OutletState)>::empty(),
    {
        OutletMap { entries: Vec::new() }
    }

    /// The number of outlets in the map.
    pub fn len(&self) -> (n: usize)
        ensures
            n == self@.len(),
    {
        self.entries.len()
    }

    /// The entry at position `i` in ascending id order.
    pub fn entry_at(&self, i: usize) -> (e: (u64, OutletState))
        requires
            i < self@.len(),
        ensures
            e == self@[i as int],
    {
        self.entries[i]
    }

    /// The state recorded for outlet `k`, if the map knows the outlet.
    pub fn get(&self, k: u64) -> (r: Option<OutletState>)
        ensures
            r == spec_get(self@, k),
    {
        let n = self.entries.len();
        let mut i: usize = 0;
        proof {
            assert(self.entries@.skip(0) =~= self.entries@);
        }
        while i < n
            invariant
                n == self.entries@.len(),
                0 <= i <= n,
                spec_get(self.entries@, k) == spec_get(self.entries@.skip(i as int), k),
            decreases n - i,
        {
            let e = self.entries[i];
            if e.0 == k {
                proof {
                    assert(self.entries@.skip(i as int)[0] == self.entries@[i as int]);
                }
                return Some(e.1);
            }
            proof {
                assert(self.entries@.skip(i as int).drop_first() =~= self.entries@.skip(
                    i as int + 1,
                ));
            }
            i = i + 1;
        }
        proof {
            assert(self.entries@.skip(n as int) =~= Seq::<(u64, OutletState)>::empty());
        }
        None
    }

    /// Binds `k` to `v`, adding the outlet if it was absent.
    pub fn insert(&mut self, k: u64, v: OutletState)
        ensures
            final(self)@ == spec_insert(old(self)@, k, v),
    {
        proof {
            use_type_invariant(&*self);
        }
        let mut es: Vec<(u64, OutletState)> = Vec::new();
        std::mem::swap(&mut es, &mut self.entries);
        let ghost s0 = es@;
        let n = es.len();
        let mut idx: usize = 0;
        while idx < n && es[idx].0 < k
            invariant
                n == es@.len(),
                0 <= idx <= n,
                forall|j: int| 0 <= j < idx ==> es@[j].0 < k,
            decreases n - idx,
        {
            idx = idx + 1;
        }
        proof {
            lemma_spec_insert_split(s0, k, v, idx as int);
        }
        if idx < n && es[idx].0 == k {
            es.remove(idx);
            es.insert(idx, (k, v));
            proof {
                assert(es@ =~= s0.take(idx as int) + seq![(k, v)] + s0.skip(idx as int + 1));
            }
        } else {
            es.insert(idx, (k, v));
            proof {
                assert(es@ =~= s0.take(idx as int) + seq![(k, v)] + s0.skip(idx as int));
            }
        }
        proof {
            lemma_spec_insert_sorted(s0, k, v);
        }
        self.entries = es;
    }

    /// A deep copy of the map.
    pub fn duplicate(&self) -> (r: Self)
        ensures
            r@ == self@,
    {
        proof {
            use_type_invariant(self);
        }
        let n = self.entries.len();
        let mut es: Vec<(u64, OutletState)> = Vec::new();
        let mut i: usize = 0;
        while i < n
            invariant
                n == self.entries@.len(),
                0 <= i <= n,
                es@ == self.entries@.take(i as int),
                sorted_by_key(self.entries@),
            decreases n - i,
        {
            es.push(self.entries[i]);
            proof {
                assert(es@ =~= self.entries@.take(i as int + 1));
            }
            i = i + 1;
        }
        proof {
            assert(es@ =~= self.entries@);
        }
        OutletMap { entries: es }
    }

    /// Structural comparison: true exactly when both maps hold the same
    /// entries in the same order.
    pub fn same_entries(&self, other: &OutletMap) -> (r: bool)
        ensures
            r == (self@ == other@),
    {
        let n = self.entries.len();
        if n != other.entries.len() {
            return false;
        }
        let mut i: usize = 0;
        while i < n
            invariant
                n == self.entries@.len(),
                n == other.entries@.len(),
                0 <= i <= n,
                forall|j: int| 0 <= j < i ==> self.entries@[j] == other.entries@[j],
            decreases n - i,
        {
            let a = self.entries[i];
            let b = other.entries[i];
            if a.0 != b.0 || !outlet_state_eq(a.1, b.1) {
                return false;
            }
            i = i + 1;
        }
        proof {
            assert(self.entries@ =~= other.entries@);
        }
        true
    }
}

/// Comparison of two outlet conditions.
pub fn outlet_state_eq(a: OutletState, b: OutletState) -> (r: bool)
    ensures
        r == (a == b),
{
    match (a, b) {
        (OutletState::Available, OutletState::Available) => true,
        (OutletState::Preparing, OutletState::Preparing) => true,
        (OutletState::Faulted, OutletState::Faulted) => true,
        _ => false,
    }
}

/// Where the keys below `idx` are smaller than `k` and the key at `idx`
/// (if any) is not, inserting `k` splits the list at `idx`.
proof fn lemma_spec_insert_split(s: Seq<(u64, OutletState)>, k: u64, v: OutletState, idx: int)
    requires
        0 <= idx <= s.len(),
        forall|j: int| 0 <= j < idx ==> s[j].0 < k,
        idx < s.len() ==> s[idx].0 >= k,
    ensures
        spec_insert(s, k, v) == s.take(idx) + seq![(k, v)] + (if idx < s.len() && s[idx].0 == k {
            s.skip(idx + 1)
        } else {
            s.skip(idx)
        }),
    decreases idx,
{
    if idx == 0 {
        if s.len() == 0 {
            assert(spec_insert(s, k, v) =~= s.take(0) + seq![(k, v)] + s.skip(0));
        } else if k < s[0].0 {
            assert(spec_insert(s, k, v) =~= s.take(0) + seq![(k, v)] + s.skip(0));
        } else {
            assert(s[0].0 == k);
            assert(spec_insert(s, k, v) =~= s.take(0) + seq![(k, v)] + s.skip(1));
        }
    } else {
        let t = s.drop_first();
        assert(forall|j: int| 0 <= j < idx - 1 ==> t[j].0 < k);
        lemma_spec_insert_split(t, k, v, idx - 1);
        assert(spec_insert(s, k, v) == seq![s[0]] + spec_insert(t, k, v));
        if idx < s.len() && s[idx].0 == k {
            assert(t.skip(idx) =~= s.skip(idx + 1));
            assert(seq![s[0]] + (t.take(idx - 1) + seq![(k, v)] + t.skip(idx)) =~= s.take(idx)
                + seq![(k, v)] + s.skip(idx + 1));
        } else {
            assert(t.skip(idx - 1) =~= s.skip(idx));
            assert(seq![s[0]] + (t.take(idx - 1) + seq![(k, v)] + t.skip(idx - 1)) =~= s.take(idx)
                + seq![(k, v)] + s.skip(idx));
        }
    }
}

/// Insertion keeps the keys sorted.
pub proof fn lemma_spec_insert_sorted(s: Seq<(u64, OutletState)>, k: u64, v: OutletState)
    requires
        sorted_by_key(s),
    ensures
        sorted_by_key(spec_insert(s, k, v)),
    decreases s.len(),
{
    if s.len() == 0 {
    } else if k < s[0].0 {
    } else if k == s[0].0 {
        assert(forall|i: int, j: int|
            0 <= i < j < s.drop_first().len() ==> s.drop_first()[i].0 < s.drop_first()[j].0);
    } else {
        let t = s.drop_first();
        assert(forall|i: int, j: int| 0 <= i < j < t.len() ==> t[i].0 < t[j].0);
        lemma_spec_insert_sorted(t, k, v);
        lemma_spec_insert_members(t, k, v);
        let r = spec_insert(s, k, v);
        assert forall|i: int, j: int| 0 <= i < j < r.len() implies r[i].0 < r[j].0 by {
            if i == 0 {
                let u = spec_insert(t, k, v);
                assert(r[j] == u[j - 1]);
                if u[j - 1].0 != k {
                    assert(t.contains(u[j - 1]));
                    let w = choose|w: int| 0 <= w < t.len() && t[w] == u[j - 1];
                    assert(s[w + 1] == t[w]);
                }
            }
        }
    }
}

/// Every entry of an insertion result is the new pair or an old entry.
proof fn lemma_spec_insert_members(s: Seq<(u64, OutletState)>, k: u64, v: OutletState)
    ensures
        forall|i: int|
            0 <= i < spec_insert(s, k, v).len() ==> (#[trigger] spec_insert(s, k, v)[i] == (k, v)
                || s.contains(spec_insert(s, k, v)[i])),
    decreases s.len(),
{
    if s.len() == 0 {
    } else if k < s[0].0 {
        assert forall|i: int| 0 <= i < spec_insert(s, k, v).len() implies (spec_insert(s, k, v)[i]
            == (k, v) || s.contains(spec_insert(s, k, v)[i])) by {
            if i >= 1 {
                assert(spec_insert(s, k, v)[i] == s[i - 1]);
            }
        }
    } else if k == s[0].0 {
        assert forall|i: int| 0 <= i < spec_insert(s, k, v).len() implies (spec_insert(s, k, v)[i]
            == (k, v) || s.contains(spec_insert(s, k, v)[i])) by {
            if i >= 1 {
                assert(spec_insert(s, k, v)[i] == s.drop_first()[i - 1]);
                assert(s.drop_first()[i - 1] == s[i]);
            }
        }
    } else {
        let t = s.drop_first();
        lemma_spec_insert_members(t, k, v);
        assert forall|i: int| 0 <= i < spec_insert(s, k, v).len() implies (spec_insert(s, k, v)[i]
            == (k, v) || s.contains(spec_insert(s, k, v)[i])) by {
            if i == 0 {
                assert(spec_insert(s, k, v)[0] == s[0]);
                assert(s.contains(s[0]));
            } else {
                let u = spec_insert(t, k, v);
                assert(spec_insert(s, k, v)[i] == u[i - 1]);
                if u[i - 1] != (k, v) {
                    assert(t.contains(u[i - 1]));
                    let w = choose|w: int| 0 <= w < t.len() && t[w] == u[i - 1];
                    assert(s[w + 1] == t[w]);
                }
            }
        }
    }
}

/// Reading back from an insertion: the inserted key holds the new value,
/// every other key is untouched.
pub proof fn lemma_get_insert(s: Seq<(u64, OutletState)>, k: u64, v: OutletState, q: u64)
    ensures
        spec_get(spec_insert(s, k, v), q) == if q == k {
            Some(v)
        } else {
            spec_get(s, q)
        },
    decreases s.len(),
{
    if s.len() == 0 {
    } else if k < s[0].0 {
        let r = spec_insert(s, k, v);
        assert(r.drop_first() =~= s);
    } else if k == s[0].0 {
        let r = spec_insert(s, k, v);
        assert(r.drop_first() =~= s.drop_first());
    } else {
        let r = spec_insert(s, k, v);
        assert(r[0] == s[0]);
        assert(r.drop_first() =~= spec_insert(s.drop_first(), k, v));
        lemma_get_insert(s.drop_first(), k, v, q);
    }
}

/// Binding a key to the value it already holds leaves the map unchanged.
pub proof fn lemma_insert_same(s: Seq<(u64, OutletState)>, k: u64, v: OutletState)
    requires
        sorted_by_key(s),
        spec_get(s, k) == Some(v),
    ensures
        spec_insert(s, k, v) == s,
    decreases s.len(),
{
    if s.len() == 0 {
    } else if k < s[0].0 {
        lemma_get_in_range(s, k);
    } else if k == s[0].0 {
        assert(spec_insert(s, k, v) =~= s);
    } else {
        let t = s.drop_first();
        assert(forall|i: int, j: int| 0 <= i < j < t.len() ==> t[i].0 < t[j].0);
        lemma_insert_same(t, k, v);
        assert(spec_insert(s, k, v) =~= s);
    }
}

/// Binding a key to a value it does not already hold changes the map.
pub proof fn lemma_insert_changes(s: Seq<(u64, OutletState)>, k: u64, v: OutletState)
    requires
        spec_get(s, k) != Some(v),
    ensures
        spec_insert(s, k, v) != s,
{
    lemma_get_insert(s, k, v, k);
}

/// A key bound in the list appears at some position; the list only binds
/// keys it holds.
pub proof fn lemma_get_in_range(s: Seq<(u64, OutletState)>, k: u64)
    ensures
        spec_get(s, k) matches Some(v) ==> exists|i: int|
            0 <= i < s.len() && s[i] == (k, v),
        spec_get(s, k) is None ==> forall|i: int| 0 <= i < s.len() ==> s[i].0 != k,
    decreases s.len(),
{
    if s.len() == 0 {
    } else if s[0].0 == k {
        assert(s[0] == (k, s[0].1));
    } else {
        lemma_get_in_range(s.drop_first(), k);
        if spec_get(s, k) is Some {
            let v = spec_get(s, k)->Some_0;
            let i = choose|i: int| 0 <= i < s.drop_first().len() && s.drop_first()[i] == (k, v);
            assert(s[i + 1] == (k, v));
        } else {
            assert forall|i: int| 0 <= i < s.len() implies s[i].0 != k by {
                if i >= 1 {
                    assert(s.drop_first()[i - 1] == s[i]);
                }
            }
        }
    }
}

/// In a sorted list, the entry at any position is what lookup returns for
/// its key.
pub proof fn lemma_index_get(s: Seq<(u64, OutletState)>, i: int)
    requires
        sorted_by_key(s),
        0 <= i < s.len(),
    ensures
        spec_get(s, s[i].0) == Some(s[i].1),
    decreases s.len(),
{
    if i == 0 {
    } else {
        let t = s.drop_first();
        assert(forall|p: int, q: int| 0 <= p < q < t.len() ==> t[p].0 < t[q].0);
        assert(t[i - 1] == s[i]);
        assert(s[0].0 < s[i].0);
        lemma_index_get(t, i - 1);
    }
}

} // verus!
