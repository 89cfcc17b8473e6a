use vstd::prelude::*;

verus! {

/// No key occurs twice.
pub open spec fn distinct_keys(s: Seq<(Seq<char>, Seq<char>)>) -> bool {
    forall|i: int, j: int| 0 <= i < j < s.len() ==> s[i].0 != s[j].0
}

/// The value stored under key `m`, if any.
pub open spec fn value_for(s: Seq<(Seq<char>, Seq<char>)>, m: Seq<char>) -> Option<Seq<char>> {
    if exists|i: int| 0 <= i < s.len() && s[i].0 == m {
        Some(s[choose|i: int| 0 <= i < s.len() && s[i].0 == m].1)
    } else {
        None
    }
}

pub open spec fn string_opt_view(o: Option<String>) -> Option<Seq<char>> {
    match o {
        Some(s) => Some(s@),
        None => None,
    }
}

/// With distinct keys, the entry at `i` gives the value of its key.
pub proof fn lemma_override_at(s: Seq<(Seq<char>, Seq<char>)>, i: int)
    requires
        distinct_keys(s),
        0 <= i < s.len(),
    ensures
        value_for(s, s[i].0) == Some(s[i].1),
{
    let m = s[i].0;
    assert(0 <= i < s.len() && s[i].0 == m);
    let j = choose|j: int| 0 <= j < s.len() && s[j].0 == m;
    if j < i {
        assert(s[j].0 != s[i].0);
    } else if i < j {
        assert(s[i].0 != s[j].0);
    }
}

/// A table from string keys to string values, each key at most once.
pub struct KeyedTable {
    entries: Vec<(String, String)>,
}

impl View for KeyedTable {
    type V = Seq<(Seq<char>, Seq<char>)>;

    closed spec fn view(&self) -> Seq<(Seq<char>, Seq<char>)> {
        self.entries@.map_values(|e: (String, String)| (e.0@, e.1@))
    }
}

impl KeyedTable {
    pub open spec fn wf(&self) -> bool {
        distinct_keys(self@)
    }

    pub fn new() -> (r: Self)
        ensures
            r.wf(),
            forall|m: Seq<char>| value_for(r@, m) == None::<Seq<char>>,
    {
        let r = KeyedTable { entries: Vec::new() };
        assert(r@ =~= Seq::<(Seq<char>, Seq<char>)>::empty());
        r
    }

    fn position(&self, method: &String) -> (r: Option<usize>)
        requires
            self.wf(),
        ensures
            r matches Some(i) ==> i < self@.len() && self@[i as int].0 == method@,
            r is None ==> value_for(self@, method@) is None,
    {
        let mut i: usize = 0;
        while i < self.entries.len()
            invariant
                0 <= i <= self.entries.len(),
                self@.len() == self.entries@.len(),
                forall|k: int| 0 <= k < i ==> self@[k].0 != method@,
            decreases self.entries.len() - i,
        {
            if self.entries[i].0 == *method {
                assert(self@[i as int].0 == method@);
                return Some(i);
            }
            i = i + 1;
        }
        None
    }

    /// Number of entries.
    pub fn len(&self) -> (r: usize)
        ensures
            r == self@.len(),
    {
        self.entries.len()
    }

    /// The key and value of the entry at `i`.
    pub fn entry(&self, i: usize) -> (r: (&String, &String))
        requires
            i < self@.len(),
        ensures
            r.0@ == self@[i as int].0,
            r.1@ == self@[i as int].1,
    {
        (&self.entries[i].0, &self.entries[i].1)
    }

    /// The value stored under `method`.
    pub fn lookup(&self, method: &String) -> (r: Option<String>)
        requires
            self.wf(),
        ensures
            string_opt_view(r) == value_for(self@, method@),
    {
        match self.position(method) {
            Some(i) => {
                proof {
                    lemma_override_at(self@, i as int);
                }
                Some(self.entries[i].1.clone())
            },
            None => None,
        }
    }

    /// Stores `target` under `method`, replacing any earlier value.
    pub fn insert(&mut self, method: String, target: String)
        requires
            old(self).wf(),
        ensures
            final(self).wf(),
            forall|m: Seq<char>|
                #![trigger value_for(final(self)@, m)]
                value_for(final(self)@, m) == if m == method@ {
                    Some(target@)
                } else {
                    value_for(old(self)@, m)
                },
    {
        let ghost pre = self@;
        let ghost mv = method@;
        let ghost tv = target@;
        match self.position(&method) {
            Some(i) => {
                self.entries.set(i, (method, target));
                assert(self@ =~= pre.update(i as int, (mv, tv)));
                assert forall|m: Seq<char>|
                    #![trigger value_for(self@, m)]
                    value_for(self@, m) == if m == mv {
                        Some(tv)
                    } else {
                        value_for(pre, m)
                    } by {
                    if m == mv {
                        lemma_override_at(self@, i as int);
                    } else if exists|j: int| 0 <= j < pre.len() && pre[j].0 == m {
                        let j = choose|j: int| 0 <= j < pre.len() && pre[j].0 == m;
                        lemma_override_at(pre, j);
                        lemma_override_at(self@, j);
                    } else {
                        assert forall|j: int| 0 <= j < self@.len() implies self@[j].0 != m by {
                            if j != i {
                                assert(pre[j].0 != m);
                            }
                        }
                    }
                }
            },
            None => {
                self.entries.push((method, target));
                assert(self@ =~= pre.push((mv, tv)));
                assert forall|k: int| 0 <= k < pre.len() implies pre[k].0 != mv by {
                    if pre[k].0 == mv {
                        assert(exists|i: int| 0 <= i < pre.len() && pre[i].0 == mv);
                    }
                }
                assert forall|m: Seq<char>|
                    #![trigger value_for(self@, m)]
                    value_for(self@, m) == if m == mv {
                        Some(tv)
                    } else {
                        value_for(pre, m)
                    } by {
                    if m == mv {
                        lemma_override_at(self@, pre.len() as int);
                    } else if exists|j: int| 0 <= j < pre.len() && pre[j].0 == m {
                        let j = choose|j: int| 0 <= j < pre.len() && pre[j].0 == m;
                        lemma_override_at(pre, j);
                        lemma_override_at(self@, j);
                    } else {
                        assert forall|j: int| 0 <= j < self@.len() implies self@[j].0 != m by {
                            if j < pre.len() {
                                assert(pre[j].0 != m);
                            }
                        }
                    }
                }
            },
        }
    }
}

} // verus!
