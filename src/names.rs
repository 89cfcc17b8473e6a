use vstd::prelude::*;

verus! {

/// No name occurs twice.
pub open spec fn distinct_ids(s: Seq<Seq<char>>) -> bool {
    forall|i: int, j: int| 0 <= i < j < s.len() ==> s[i] != s[j]
}

/// Position `h` of table `s` holds `id`.
pub open spec fn registered(s: Seq<Seq<char>>, id: Seq<char>, h: int) -> bool {
    0 <= h < s.len() && s[h] == id
}

/// Interning `id` into table `pre` leaves `post` and returns `h`: a known
/// name keeps its position, an unknown one is appended.
pub open spec fn acquired(pre: Seq<Seq<char>>, id: Seq<char>, post: Seq<Seq<char>>, h: int) -> bool {
    registered(post, id, h) && if pre.contains(id) {
        post == pre
    } else {
        post == pre.push(id)
    }
}

/// The position of `m` in a table whose entries are distinct.
pub open spec fn index_in(s: Seq<Seq<char>>, m: Seq<char>) -> Option<int> {
    if s.contains(m) {
        Some(choose|i: int| registered(s, m, i))
    } else {
        None
    }
}

/// In a table of distinct entries, the entry at `h` is found at `h`.
pub proof fn lemma_index_in(s: Seq<Seq<char>>, m: Seq<char>, h: int)
    requires
        distinct_ids(s),
        registered(s, m, h),
    ensures
        index_in(s, m) == Some(h),
{
    assert(s.contains(m));
    let j = choose|i: int| registered(s, m, i);
    if j < h {
        assert(s[j] != s[h]);
    } else if h < j {
        assert(s[h] != s[j]);
    }
}

/// A table of distinct names, each known by its position.
pub struct NameIndex {
    ids: Vec<String>,
}

impl View for NameIndex {
    type V = Seq<Seq<char>>;

    closed spec fn view(&self) -> Seq<Seq<char>> {
        self.ids@.map_values(|s: String| s@)
    }
}

impl NameIndex {
    pub open spec fn wf(&self) -> bool {
        distinct_ids(self@)
    }

    pub fn new() -> (r: Self)
        ensures
            r@ == Seq::<Seq<char>>::empty(),
            r.wf(),
    {
        let r = NameIndex { ids: Vec::new() };
        assert(r@ =~= Seq::<Seq<char>>::empty());
        r
    }

    /// Number of names in the table.
    pub fn len(&self) -> (r: usize)
        ensures
            r == self@.len(),
    {
        self.ids.len()
    }

    /// The position of `id`, if it is in the table.
    pub fn find(&self, id: &String) -> (r: Option<usize>)
        requires
            self.wf(),
        ensures
            r.is_none() <==> !self@.contains(id@),
            r matches Some(h) ==> registered(self@, id@, h as int),
            index_in(self@, id@) == match r {
                Some(h) => Some(h as int),
                None => None::<int>,
            },
    {
        let mut i: usize = 0;
        while i < self.ids.len()
            invariant
                0 <= i <= self.ids.len(),
                self.wf(),
                self@.len() == self.ids@.len(),
                forall|k: int| 0 <= k < i ==> self@[k] != id@,
            decreases self.ids.len() - i,
        {
            if self.ids[i] == *id {
                assert(self@[i as int] == id@);
                proof {
                    lemma_index_in(self@, id@, i as int);
                }
                return Some(i);
            }
            i = i + 1;
        }
        proof {
            if self@.contains(id@) {
                let k = choose|k: int| 0 <= k < self@.len() && self@[k] == id@;
                assert(self@[k] != id@);
            }
        }
        None
    }

    /// The position of `id`, appending it when it is new.
    pub fn intern(&mut self, id: &String) -> (h: usize)
        requires
            old(self).wf(),
            old(self)@.len() < usize::MAX,
        ensures
            final(self).wf(),
            acquired(old(self)@, id@, final(self)@, h as int),
    {
        match self.find(id) {
            Some(h) => h,
            None => {
                let h = self.ids.len();
                self.ids.push(id.clone());
                assert(self@ =~= old(self)@.push(id@));
                h
            },
        }
    }
}

} // verus!
