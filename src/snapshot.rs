use vstd::prelude::*;
use crate::keyed::{distinct_keys, lemma_override_at, string_opt_view, value_for, KeyedTable};

verus! {

/// One path of the state whose value differs between two snapshots.
#[derive(Clone, Debug)]
pub struct Change {
    pub path: String,
    pub before: Option<String>,
    pub after: Option<String>,
}

impl View for Change {
    type V = (Seq<char>, Option<Seq<char>>, Option<Seq<char>>);

    open spec fn view(&self) -> (Seq<char>, Option<Seq<char>>, Option<Seq<char>>) {
        (self.path@, string_opt_view(self.before), string_opt_view(self.after))
    }
}

/// Path `p` holds different values (or is present in one only) in the two
/// snapshots, each a table from rendered path to rendered value.
pub open spec fn changed(before: Seq<(Seq<char>, Seq<char>)>, after: Seq<(Seq<char>, Seq<char>)>, p: Seq<char>) -> bool {
    value_for(before, p) != value_for(after, p)
}

/// `changes` lists each changed path exactly once, with its value before
/// and after, and nothing else.
pub open spec fn is_diff(
    before: Seq<(Seq<char>, Seq<char>)>,
    after: Seq<(Seq<char>, Seq<char>)>,
    changes: Seq<(Seq<char>, Option<Seq<char>>, Option<Seq<char>>)>,
) -> bool {
    &&& forall|i: int, j: int| 0 <= i < j < changes.len() ==> changes[i].0 != changes[j].0
    &&& forall|i: int|
        0 <= i < changes.len() ==> {
            &&& changes[i].1 == value_for(before, changes[i].0)
            &&& changes[i].2 == value_for(after, changes[i].0)
            &&& changed(before, after, changes[i].0)
        }
    &&& forall|p: Seq<char>| changed(before, after, p) ==> exists|i: int| 0 <= i < changes.len() && changes[i].0 == p
}

pub open spec fn changes_view(v: Seq<Change>) -> Seq<(Seq<char>, Option<Seq<char>>, Option<Seq<char>>)> {
    v.map_values(|c: Change| c@)
}

/// A key with no entry has no value.
proof fn lemma_absent(s: Seq<(Seq<char>, Seq<char>)>, p: Seq<char>)
    requires
        forall|k: int| 0 <= k < s.len() ==> s[k].0 != p,
    ensures
        value_for(s, p) is None,
{
}

/// The field-level difference between the state before and after one
/// update: each changed path once, with its two values.
#[verifier::rlimit(80)]
pub fn diff(before: &KeyedTable, after: &KeyedTable) -> (r: Vec<Change>)
    requires
        before.wf(),
        after.wf(),
    ensures
        is_diff(before@, after@, changes_view(r@)),
{
    let mut out: Vec<Change> = Vec::new();
    let mut i: usize = 0;
    while i < before.len()
        invariant
            before.wf(),
            after.wf(),
            0 <= i <= before@.len(),
            forall|a: int, b: int| 0 <= a < b < out@.len() ==> out@[a]@.0 != out@[b]@.0,
            forall|a: int|
                #![trigger out@[a]]
                0 <= a < out@.len() ==> {
                    &&& out@[a]@.1 == value_for(before@, out@[a]@.0)
                    &&& out@[a]@.2 == value_for(after@, out@[a]@.0)
                    &&& changed(before@, after@, out@[a]@.0)
                    &&& out@[a]@.1 is Some
                    &&& exists|k: int| 0 <= k < i && #[trigger] before@[k].0 == out@[a]@.0
                },
            forall|k: int|
                #![trigger before@[k]]
                0 <= k < i && changed(before@, after@, before@[k].0) ==> exists|a: int|
                    0 <= a < out@.len() && #[trigger] out@[a]@.0 == before@[k].0,
        decreases before@.len() - i,
    {
        let (p, v) = before.entry(i);
        let now = after.lookup(p);
        proof {
            lemma_override_at(before@, i as int);
        }
        let same = match &now {
            Some(w) => *w == *v,
            None => false,
        };
        let ghost old_out = out@;
        if !same {
            assert forall|a: int| 0 <= a < old_out.len() implies old_out[a]@.0 != p@ by {
                let k = choose|k: int| 0 <= k < i && #[trigger] before@[k].0 == old_out[a]@.0;
                assert(before@[k].0 != before@[i as int].0);
            }
            out.push(Change { path: p.clone(), before: Some(v.clone()), after: now });
            assert(out@[old_out.len() as int]@.0 == before@[i as int].0);
        }
        proof {
            assert forall|a: int| 0 <= a < old_out.len() implies out@[a] == old_out[a] by {}
            assert forall|a: int|
                #![trigger out@[a]]
                0 <= a < out@.len() implies exists|k: int| 0 <= k < i + 1 && #[trigger] before@[k].0 == out@[a]@.0 by {
                if a < old_out.len() {
                    let k = choose|k: int| 0 <= k < i && #[trigger] before@[k].0 == old_out[a]@.0;
                    assert(before@[k].0 == out@[a]@.0);
                } else {
                    assert(before@[i as int].0 == out@[a]@.0);
                }
            }
            assert forall|k: int|
                #![trigger before@[k]]
                0 <= k < i + 1 && changed(before@, after@, before@[k].0) implies exists|a: int|
                    0 <= a < out@.len() && #[trigger] out@[a]@.0 == before@[k].0 by {
                if k < i {
                    let a = choose|a: int| 0 <= a < old_out.len() && #[trigger] old_out[a]@.0 == before@[k].0;
                    assert(out@[a]@.0 == before@[k].0);
                } else if same {
                    assert(value_for(after@, p@) == Some(v@));
                } else {
                    assert(out@[old_out.len() as int]@.0 == before@[k].0);
                }
            }
        }
        i = i + 1;
    }
    let ghost first = out@.len();
    let mut j: usize = 0;
    while j < after.len()
        invariant
            before.wf(),
            after.wf(),
            0 <= j <= after@.len(),
            first <= out@.len(),
            forall|a: int, b: int| 0 <= a < b < out@.len() ==> out@[a]@.0 != out@[b]@.0,
            forall|a: int|
                #![trigger out@[a]]
                0 <= a < out@.len() ==> {
                    &&& out@[a]@.1 == value_for(before@, out@[a]@.0)
                    &&& out@[a]@.2 == value_for(after@, out@[a]@.0)
                    &&& changed(before@, after@, out@[a]@.0)
                },
            forall|a: int| #![trigger out@[a]] 0 <= a < first ==> out@[a]@.1 is Some,
            forall|a: int|
                #![trigger out@[a]]
                first <= a < out@.len() ==> value_for(before@, out@[a]@.0) is None,
            forall|a: int|
                #![trigger out@[a]]
                first <= a < out@.len() ==> exists|k: int| 0 <= k < j && #[trigger] after@[k].0 == out@[a]@.0,
            forall|k: int|
                #![trigger before@[k]]
                0 <= k < before@.len() && changed(before@, after@, before@[k].0) ==> exists|a: int|
                    0 <= a < out@.len() && #[trigger] out@[a]@.0 == before@[k].0,
            forall|k: int|
                #![trigger after@[k]]
                0 <= k < j && value_for(before@, after@[k].0) is None ==> exists|a: int|
                    0 <= a < out@.len() && #[trigger] out@[a]@.0 == after@[k].0,
        decreases after@.len() - j,
    {
        let (p, v) = after.entry(j);
        let was = before.lookup(p);
        proof {
            lemma_override_at(after@, j as int);
        }
        let ghost old_out = out@;
        if was.is_none() {
            assert forall|a: int| 0 <= a < old_out.len() implies old_out[a]@.0 != p@ by {
                if a < first {
                    assert(old_out[a]@.1 is Some);
                } else {
                    let k = choose|k: int| 0 <= k < j && #[trigger] after@[k].0 == old_out[a]@.0;
                    assert(after@[k].0 != after@[j as int].0);
                }
            }
            out.push(Change { path: p.clone(), before: None, after: Some(v.clone()) });
            assert(out@[old_out.len() as int]@.0 == after@[j as int].0);
        }
        proof {
            assert forall|a: int| 0 <= a < old_out.len() implies out@[a] == old_out[a] by {}
            assert forall|a: int|
                #![trigger out@[a]]
                first <= a < out@.len() implies exists|k: int| 0 <= k < j + 1 && #[trigger] after@[k].0 == out@[a]@.0 by {
                if a < old_out.len() {
                    let k = choose|k: int| 0 <= k < j && #[trigger] after@[k].0 == old_out[a]@.0;
                    assert(after@[k].0 == out@[a]@.0);
                } else {
                    assert(after@[j as int].0 == out@[a]@.0);
                }
            }
            assert forall|k: int|
                #![trigger before@[k]]
                0 <= k < before@.len() && changed(before@, after@, before@[k].0) implies exists|a: int|
                    0 <= a < out@.len() && #[trigger] out@[a]@.0 == before@[k].0 by {
                let a = choose|a: int| 0 <= a < old_out.len() && #[trigger] old_out[a]@.0 == before@[k].0;
                assert(out@[a]@.0 == before@[k].0);
            }
            assert forall|k: int|
                #![trigger after@[k]]
                0 <= k < j + 1 && value_for(before@, after@[k].0) is None implies exists|a: int|
                    0 <= a < out@.len() && #[trigger] out@[a]@.0 == after@[k].0 by {
                if k < j {
                    let a = choose|a: int| 0 <= a < old_out.len() && #[trigger] old_out[a]@.0 == after@[k].0;
                    assert(out@[a]@.0 == after@[k].0);
                } else {
                    assert(out@[old_out.len() as int]@.0 == after@[k].0);
                }
            }
        }
        j = j + 1;
    }
    proof {
        let cv = changes_view(out@);
        assert forall|p: Seq<char>| changed(before@, after@, p) implies exists|a: int|
            0 <= a < cv.len() && cv[a].0 == p by {
            if exists|k: int| 0 <= k < before@.len() && before@[k].0 == p {
                let k = choose|k: int| 0 <= k < before@.len() && before@[k].0 == p;
                let a = choose|a: int| 0 <= a < out@.len() && #[trigger] out@[a]@.0 == before@[k].0;
                assert(cv[a].0 == p);
            } else {
                lemma_absent(before@, p);
                if exists|k: int| 0 <= k < after@.len() && after@[k].0 == p {
                    let k = choose|k: int| 0 <= k < after@.len() && after@[k].0 == p;
                    let a = choose|a: int| 0 <= a < out@.len() && #[trigger] out@[a]@.0 == after@[k].0;
                    assert(cv[a].0 == p);
                } else {
                    lemma_absent(after@, p);
                }
            }
        }
    }
    out
}

/// Two updates in sequence give two independent diffs: each names only the
/// paths its own update changed, with the values just before and just
/// after that update.
pub proof fn lemma_sequential_updates(
    s0: Seq<(Seq<char>, Seq<char>)>,
    s1: Seq<(Seq<char>, Seq<char>)>,
    s2: Seq<(Seq<char>, Seq<char>)>,
    d1: Seq<(Seq<char>, Option<Seq<char>>, Option<Seq<char>>)>,
    d2: Seq<(Seq<char>, Option<Seq<char>>, Option<Seq<char>>)>,
)
    requires
        is_diff(s0, s1, d1),
        is_diff(s1, s2, d2),
    ensures
        forall|i: int|
            0 <= i < d1.len() ==> d1[i].1 == value_for(s0, d1[i].0) && d1[i].2 == value_for(s1, d1[i].0),
        forall|i: int|
            0 <= i < d2.len() ==> d2[i].1 == value_for(s1, d2[i].0) && d2[i].2 == value_for(s2, d2[i].0),
        forall|p: Seq<char>, i: int|
            #![trigger changed(s0, s1, p), d1[i]]
            !changed(s0, s1, p) && 0 <= i < d1.len() ==> d1[i].0 != p,
        forall|p: Seq<char>, i: int|
            #![trigger changed(s1, s2, p), d2[i]]
            !changed(s1, s2, p) && 0 <= i < d2.len() ==> d2[i].0 != p,
{
}

} // verus!
