use vstd::prelude::*;

use crate::strutil::is_lowered;

verus! {

/// First match wins in an association list of string pairs.
pub open spec fn sm_lookup(s: Seq<(Seq<char>, Seq<char>)>, k: Seq<char>) -> Option<Seq<char>>
    decreases s.len(),
{
    if s.len() == 0 {
        None
    } else if s[0].0 == k {
        Some(s[0].1)
    } else {
        sm_lookup(s.skip(1), k)
    }
}

/// The first entry whose key is the ASCII-lowercase form of `k`.
pub open spec fn sm_lookup_lowered(s: Seq<(Seq<char>, Seq<char>)>, k: Seq<char>) -> Option<
    Seq<char>,
>
    decreases s.len(),
{
    if s.len() == 0 {
        None
    } else if is_lowered(s[0].0, k) {
        Some(s[0].1)
    } else {
        sm_lookup_lowered(s.skip(1), k)
    }
}

/// A string-to-string map, newest entry first; an entry shadows any older
/// entry with the same key, so it behaves as a map under `get`.
#[derive(Debug, Clone, PartialEq)]
pub struct StringMap {
    entries: Vec<(String, String)>,
}

impl View for StringMap {
    type V = Seq<(Seq<char>, Seq<char>)>;

    closed spec fn view(&self) -> Seq<(Seq<char>, Seq<char>)> {
        self.entries@.map_values(|p: (String, String)| (p.0@, p.1@))
    }
}

impl StringMap {
    pub fn new() -> (r: Self)
        ensures
            r@ == Seq::<(Seq<char>, Seq<char>)>::empty(),
    {
        let r = StringMap { entries: Vec::new() };
        proof {
            assert(r@ =~= Seq::<(Seq<char>, Seq<char>)>::empty());
        }
        r
    }

    /// Bind `k` to `v`, shadowing any earlier binding of `k`.
    pub fn insert(&mut self, k: String, v: String)
        ensures
            final(self)@ == seq![(k@, v@)] + old(self)@,
    {
        self.entries.insert(0, (k, v));
        proof {
            assert(final(self)@ =~= seq![(k@, v@)] + old(self)@);
        }
    }

    /// Look `k` up, first (newest) match wins.
    pub fn get(&self, k: &str) -> (r: Option<&String>)
        ensures
            match r {
                Some(v) => sm_lookup(self@, k@) == Some(v@),
                None => sm_lookup(self@, k@) is None,
            },
    {
        let n = self.entries.len();
        proof {
            assert(self@.skip(0) =~= self@);
        }
        let mut i: usize = 0;
        while i < n
            invariant
                n == self.entries@.len(),
                i <= n,
                self@.len() == n,
                sm_lookup(self@, k@) == sm_lookup(self@.skip(i as int), k@),
                forall|j: int| 0 <= j < n ==> self@[j] == (self.entries@[j].0@, self.entries@[j].1@),
            decreases n - i,
        {
            proof {
                assert(self@.skip(i as int)[0] == self@[i as int]);
                assert(self@.skip(i as int).skip(1) =~= self@.skip(i + 1));
            }
            if crate::strutil::str_eq(self.entries[i].0.as_str(), k) {
                return Some(&self.entries[i].1);
            }
            i += 1;
        }
        None
    }

    /// Look up the first entry whose key equals the ASCII-lowercase form of `k`.
    pub fn get_lowered(&self, k: &str) -> (r: Option<&String>)
        ensures
            match r {
                Some(v) => sm_lookup_lowered(self@, k@) == Some(v@),
                None => sm_lookup_lowered(self@, k@) is None,
            },
    {
        let n = self.entries.len();
        proof {
            assert(self@.skip(0) =~= self@);
        }
        let mut i: usize = 0;
        while i < n
            invariant
                n == self.entries@.len(),
                i <= n,
                self@.len() == n,
                sm_lookup_lowered(self@, k@) == sm_lookup_lowered(self@.skip(i as int), k@),
                forall|j: int| 0 <= j < n ==> self@[j] == (self.entries@[j].0@, self.entries@[j].1@),
            decreases n - i,
        {
            proof {
                assert(self@.skip(i as int)[0] == self@[i as int]);
                assert(self@.skip(i as int).skip(1) =~= self@.skip(i + 1));
            }
            if crate::strutil::str_is_lowered(self.entries[i].0.as_str(), k) {
                return Some(&self.entries[i].1);
            }
            i += 1;
        }
        None
    }

    /// The entries, newest first.
    pub fn items(&self) -> (r: &Vec<(String, String)>)
        ensures
            r@.map_values(|p: (String, String)| (p.0@, p.1@)) == self@,
    {
        &self.entries
    }
}

} // verus!
