//! The environment-variable mapping of the invocation target: string keys to
//! string values, keys unique. Held as an association vector so that the
//! unverified edge can hand the pairs to the platform unchanged, and viewed
//! in contracts as a mathematical map.

use vstd::prelude::*;
use crate::text::str_eq;

verus! {

/// The map denoted by an association list, later pairs overriding earlier
/// ones with the same key.
pub open spec fn entries_map(s: Seq<(String, String)>) -> Map<Seq<char>, Seq<char>>
    decreases s.len(),
{
    if s.len() == 0 {
        Map::empty()
    } else {
        entries_map(s.drop_last()).insert(s.last().0@, s.last().1@)
    }
}

/// Whether the keys of an association list are pairwise distinct.
pub open spec fn distinct_keys(s: Seq<(String, String)>) -> bool {
    forall|i: int, j: int| 0 <= i < j < s.len() ==> s[i].0@ != s[j].0@
}

/// A key occurs in the denoted map exactly when some pair carries it.
proof fn lemma_entries_map_dom(s: Seq<(String, String)>, k: Seq<char>)
    ensures
        entries_map(s).contains_key(k) <==> exists|i: int| 0 <= i < s.len() && s[i].0@ == k,
    decreases s.len(),
{
    if s.len() > 0 {
        lemma_entries_map_dom(s.drop_last(), k);
        if s.last().0@ == k {
            assert(s[s.len() - 1].0@ == k);
        } else if entries_map(s).contains_key(k) {
            let i = choose|i: int| 0 <= i < s.drop_last().len() && s.drop_last()[i].0@ == k;
            assert(s[i].0@ == k);
        } else {
            assert forall|i: int| 0 <= i < s.len() implies s[i].0@ != k by {
                if i < s.len() - 1 {
                    assert(s.drop_last()[i].0@ == s[i].0@);
                }
            }
        }
    }
}

/// Overwriting the pair at `i`, whose key is `k`, denotes inserting under
/// `k` — provided keys are distinct, so no later pair shadows it.
proof fn lemma_entries_map_update(s: Seq<(String, String)>, i: int, e: (String, String))
    requires
        distinct_keys(s),
        0 <= i < s.len(),
        e.0@ == s[i].0@,
    ensures
        entries_map(s.update(i, e)) =~= entries_map(s).insert(e.0@, e.1@),
    decreases s.len(),
{
    let t = s.update(i, e);
    if i == s.len() - 1 {
        assert(t.drop_last() =~= s.drop_last());
        assert(t.last() == e);
    } else {
        assert(t.drop_last() =~= s.drop_last().update(i, e));
        assert(t.last() == s.last());
        assert(s.drop_last()[i] == s[i]);
        lemma_entries_map_update(s.drop_last(), i, e);
        assert(s.last().0@ != e.0@);
    }
}

/// Appending a fresh pair denotes inserting it.
proof fn lemma_entries_map_push(s: Seq<(String, String)>, e: (String, String))
    ensures
        entries_map(s.push(e)) == entries_map(s).insert(e.0@, e.1@),
{
    assert(s.push(e).drop_last() =~= s);
}

/// The environment mapping of the invocation target.
pub struct EnvMap {
    entries: Vec<(String, String)>,
}

impl View for EnvMap {
    type V = Map<Seq<char>, Seq<char>>;

    closed spec fn view(&self) -> Map<Seq<char>, Seq<char>> {
        entries_map(self.entries@)
    }
}

impl EnvMap {
    /// Keys are pairwise distinct, so one key names one pair.
    #[verifier::type_invariant]
    spec fn wf(&self) -> bool {
        distinct_keys(self.entries@)
    }

    /// The empty mapping.
    pub fn new() -> (r: EnvMap)
        ensures
            r@ == Map::<Seq<char>, Seq<char>>::empty(),
    {
        EnvMap { entries: Vec::new() }
    }

    /// Set `k` to `v`, overwriting any previous value of `k`.
    pub fn insert(&mut self, k: String, v: String)
        ensures
            final(self)@ == old(self)@.insert(k@, v@),
    {
        proof {
            use_type_invariant(&*self);
        }
        // Work on the vector outside the invariant-carrying struct, so that
        // the invariant need only be re-established once, when it is put
        // back.
        let mut entries: Vec<(String, String)> = Vec::new();
        core::mem::swap(&mut self.entries, &mut entries);
        let ghost before = entries@;
        let n = entries.len();
        let mut i: usize = 0;
        while i < n
            invariant
                0 <= i <= n,
                entries@ == before,
                n == before.len(),
                entries_map(before) == old(self)@,
                distinct_keys(before),
                forall|j: int| 0 <= j < i ==> before[j].0@ != k@,
            decreases n - i,
        {
            if str_eq(entries[i].0.as_str(), k.as_str()) {
                let ghost e: (String, String) = (k, v);
                proof {
                    lemma_entries_map_update(before, i as int, e);
                    assert forall|a: int, b: int|
                        0 <= a < b < before.update(i as int, e).len() implies before.update(
                        i as int,
                        e,
                    )[a].0@ != before.update(i as int, e)[b].0@ by {
                        assert(before[a].0@ != before[b].0@);
                    }
                }
                entries[i] = (k, v);
                self.entries = entries;
                return ;
            }
            i = i + 1;
        }
        proof {
            lemma_entries_map_push(before, (k, v));
            assert forall|a: int, b: int|
                0 <= a < b < before.push((k, v)).len() implies before.push((k, v))[a].0@
                != before.push((k, v))[b].0@ by {
                if b < before.len() {
                    assert(before[a].0@ != before[b].0@);
                }
            }
        }
        entries.push((k, v));
        self.entries = entries;
    }

    /// The pairs of the mapping, for the unverified edge to hand on: every
    /// pair is in the map, every key of the map occurs, and keys are
    /// pairwise distinct.
    pub fn entries(&self) -> (r: &Vec<(String, String)>)
        ensures
            forall|i: int|
                0 <= i < r@.len() ==> #[trigger] self@.contains_pair(r@[i].0@, r@[i].1@),
            forall|k: Seq<char>|
                self@.contains_key(k) ==> exists|i: int| 0 <= i < r@.len() && r@[i].0@ == k,
            forall|i: int, j: int| 0 <= i < j < r@.len() ==> r@[i].0@ != r@[j].0@,
    {
        proof {
            use_type_invariant(self);
            lemma_entries_pairs(self.entries@);
            assert forall|k: Seq<char>| self@.contains_key(k) implies exists|i: int|
                0 <= i < self.entries@.len() && self.entries@[i].0@ == k by {
                lemma_entries_map_dom(self.entries@, k);
            }
        }
        &self.entries
    }
}

impl Clone for EnvMap {
    /// A clone denotes the same mapping.
    fn clone(&self) -> (r: Self)
        ensures
            r@ == self@,
    {
        proof {
            use_type_invariant(self);
        }
        let n = self.entries.len();
        let mut out: Vec<(String, String)> = Vec::new();
        let mut i: usize = 0;
        while i < n
            invariant
                0 <= i <= n,
                n == self.entries@.len(),
                out@ =~= self.entries@.take(i as int),
            decreases n - i,
        {
            out.push((self.entries[i].0.clone(), self.entries[i].1.clone()));
            i = i + 1;
        }
        proof {
            assert(out@ =~= self.entries@);
        }
        EnvMap { entries: out }
    }
}

/// With distinct keys, every pair of the list is a pair of the denoted map.
proof fn lemma_entries_pairs(s: Seq<(String, String)>)
    requires
        distinct_keys(s),
    ensures
        forall|i: int|
            0 <= i < s.len() ==> #[trigger] entries_map(s).contains_pair(s[i].0@, s[i].1@),
    decreases s.len(),
{
    if s.len() > 0 {
        lemma_entries_pairs(s.drop_last());
        assert forall|i: int| 0 <= i < s.len() implies #[trigger] entries_map(s).contains_pair(
            s[i].0@,
            s[i].1@,
        ) by {
            if i < s.len() - 1 {
                assert(s.drop_last()[i] == s[i]);
                assert(entries_map(s.drop_last()).contains_pair(s[i].0@, s[i].1@));
                assert(s[i].0@ != s.last().0@);
            }
        }
    }
}

} // verus!
