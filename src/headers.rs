use vstd::prelude::*;

use crate::vocab::same_chars;

verus! {

/// A header name and its value, as text.
pub type HeaderEntry = (Seq<char>, Seq<char>);

/// Whether some entry of `s` has the name `k`.
pub open spec fn has_name(s: Seq<HeaderEntry>, k: Seq<char>) -> bool {
    exists|i: int| 0 <= i < s.len() && #[trigger] s[i].0 == k
}

/// No two entries share a name.
pub open spec fn names_unique(s: Seq<HeaderEntry>) -> bool {
    forall|i: int, j: int| 0 <= i < s.len() && 0 <= j < s.len() && i != j ==> #[trigger] s[i].0 != #[trigger] s[j].0
}

/// The value stored under `k`, if any.
pub open spec fn value_of(s: Seq<HeaderEntry>, k: Seq<char>) -> Option<Seq<char>> {
    if has_name(s, k) {
        Some(s[choose|i: int| 0 <= i < s.len() && #[trigger] s[i].0 == k].1)
    } else {
        None
    }
}

/// `s` after setting `k` to `v`: an entry already named `k` keeps its place
/// and takes the new value; otherwise the pair goes at the end.
pub open spec fn inserted(s: Seq<HeaderEntry>, k: Seq<char>, v: Seq<char>) -> Seq<HeaderEntry> {
    if has_name(s, k) {
        s.update(choose|i: int| 0 <= i < s.len() && #[trigger] s[i].0 == k, (k, v))
    } else {
        s.push((k, v))
    }
}

/// Setting a name keeps the names unique.
pub proof fn inserted_names_unique(s: Seq<HeaderEntry>, k: Seq<char>, v: Seq<char>)
    requires
        names_unique(s),
    ensures
        names_unique(inserted(s, k, v)),
        value_of(inserted(s, k, v), k) == Some(v),
{
    let r = inserted(s, k, v);
    if has_name(s, k) {
        let i = choose|i: int| 0 <= i < s.len() && #[trigger] s[i].0 == k;
        assert(r[i].0 == k);
        assert forall|a: int, b: int| 0 <= a < r.len() && 0 <= b < r.len() && a != b implies #[trigger] r[a].0 != #[trigger] r[b].0 by {
            if a == i {
                assert(s[a].0 == k);
            } else if b == i {
                assert(s[b].0 == k);
            }
        }
    } else {
        let n = s.len() as int;
        assert(r[n].0 == k);
    }
    let j = choose|j: int| 0 <= j < r.len() && #[trigger] r[j].0 == k;
    assert(r[j].1 == v);
}

/// Header names with their values, with at most one entry per name. Entries
/// keep the order in which their names were first set.
#[derive(Debug, Clone)]
pub struct Headers {
    entries: Vec<(String, String)>,
}

impl View for Headers {
    type V = Seq<HeaderEntry>;

    closed spec fn view(&self) -> Seq<HeaderEntry> {
        self.entries@.map_values(|e: (String, String)| (e.0@, e.1@))
    }
}

impl Headers {
    /// Names are unique.
    pub open spec fn wf(&self) -> bool {
        names_unique(self@)
    }

    /// No headers.
    pub fn new() -> (r: Headers)
        ensures
            r@ == Seq::<HeaderEntry>::empty(),
            r.wf(),
    {
        let r = Headers { entries: Vec::new() };
        assert(r@ =~= Seq::<HeaderEntry>::empty());
        r
    }

    /// The number of distinct names.
    pub fn len(&self) -> (r: usize)
        ensures
            r == self@.len(),
    {
        self.entries.len()
    }

    /// The name and value of the entry at `i`.
    pub fn entry(&self, i: usize) -> (r: (&String, &String))
        requires
            i < self@.len(),
        ensures
            (r.0@, r.1@) == self@[i as int],
    {
        let e = &self.entries[i];
        (&e.0, &e.1)
    }

    /// The position of the entry named `key`, if any.
    fn position(&self, key: &str) -> (r: Option<usize>)
        requires
            self.wf(),
        ensures
            r matches Some(i) ==> i < self@.len() && self@[i as int].0 == key@,
            r is None ==> !has_name(self@, key@),
    {
        let mut i: usize = 0;
        while i < self.entries.len()
            invariant
                i <= self@.len(),
                self@.len() == self.entries@.len(),
                forall|j: int| 0 <= j < i ==> self@[j].0 != key@,
            decreases self.entries.len() - i,
        {
            if same_chars(self.entries[i].0.as_str(), key) {
                return Some(i);
            }
            i = i + 1;
        }
        None
    }

    /// The value stored under `key`, if any.
    pub fn get(&self, key: &str) -> (r: Option<&String>)
        requires
            self.wf(),
        ensures
            r matches Some(v) ==> value_of(self@, key@) == Some(v@),
            r is None ==> value_of(self@, key@) is None,
    {
        match self.position(key) {
            Some(i) => {
                let ghost s = self@;
                assert(s[i as int].0 == key@);
                let ghost j = choose|j: int| 0 <= j < s.len() && #[trigger] s[j].0 == key@;
                assert(j == i);
                Some(&self.entries[i].1)
            },
            None => None,
        }
    }

    /// Sets `key` to `value`; a later value for a name replaces an earlier one.
    pub fn insert(&mut self, key: String, value: String)
        requires
            old(self).wf(),
        ensures
            final(self).wf(),
            final(self)@ == inserted(old(self)@, key@, value@),
    {
        proof {
            inserted_names_unique(self@, key@, value@);
        }
        let ghost s = self@;
        match self.position(key.as_str()) {
            Some(i) => {
                let ghost j = choose|j: int| 0 <= j < s.len() && #[trigger] s[j].0 == key@;
                assert(j == i);
                self.entries[i] = (key, value);
                assert(self@ =~= inserted(s, key@, value@));
            },
            None => {
                self.entries.push((key, value));
                assert(self@ =~= inserted(s, key@, value@));
            },
        }
    }
}

} // verus!
