//! The directory cache: an insert-only mapping from absolute folder paths
//! (leading `/`, no trailing `/`, root = the empty string) to folder codes.
//! Entries are never invalidated; a later insert for the same path shadows
//! the earlier one.

use vstd::prelude::*;
use crate::strutil::str_eq;

verus! {

/// Abstraction of a list of path/value pairs as a map, later pairs winning.
pub open spec fn entries_map<T>(s: Seq<(String, T)>) -> Map<Seq<char>, T>
    decreases s.len(),
{
    if s.len() == 0 {
        Map::empty()
    } else {
        entries_map(s.drop_last()).insert(s.last().0@, s.last().1)
    }
}

/// Index of the last pair carrying key `k`, or `-1`.
pub open spec fn last_key_idx<T>(s: Seq<(String, T)>, k: Seq<char>) -> int
    decreases s.len(),
{
    if s.len() == 0 {
        -1
    } else if s.last().0@ == k {
        s.len() - 1
    } else {
        last_key_idx(s.drop_last(), k)
    }
}

proof fn lemma_last_key_idx_of<T>(s: Seq<(String, T)>, k: Seq<char>, i: int)
    requires
        0 <= i < s.len(),
        s[i].0@ == k,
        forall|j: int| i < j < s.len() ==> s[j].0@ != k,
    ensures
        last_key_idx(s, k) == i,
    decreases s.len(),
{
    if i == s.len() - 1 {
    } else {
        assert(s.drop_last()[i] == s[i]);
        lemma_last_key_idx_of(s.drop_last(), k, i);
    }
}

proof fn lemma_entries_map_lookup<T>(s: Seq<(String, T)>, k: Seq<char>)
    ensures
        entries_map(s).contains_key(k) <==> last_key_idx(s, k) >= 0,
        entries_map(s).contains_key(k) ==> {
            let i = last_key_idx(s, k);
            0 <= i < s.len() && s[i].0@ == k && entries_map(s)[k] == s[i].1 && forall|j: int|
                i < j < s.len() ==> s[j].0@ != k
        },
    decreases s.len(),
{
    if s.len() > 0 {
        lemma_entries_map_lookup(s.drop_last(), k);
        if s.last().0@ != k && entries_map(s).contains_key(k) {
            let i = last_key_idx(s.drop_last(), k);
            assert(entries_map(s.drop_last()).contains_key(k));
            assert(s.drop_last()[i] == s[i]);
            assert forall|j: int| i < j < s.len() implies s[j].0@ != k by {
                if j < s.len() - 1 {
                    assert(s.drop_last()[j] == s[j]);
                }
            }
        }
    }
}

/// The cache structure. Only the view matters to callers: a map from path
/// views to stored values, containing at least the root path.
pub struct DirCache<T> {
    entries: Vec<(String, T)>,
}

impl<T> DirCache<T> {
    /// The cache seen as a map from paths to values.
    pub closed spec fn view(&self) -> Map<Seq<char>, T> {
        entries_map(self.entries@)
    }

    /// The root path (the empty string) is always bound.
    pub open spec fn has_root(&self) -> bool {
        self@.contains_key(Seq::<char>::empty())
    }

    /// A fresh cache binding the root path to `root_id`.
    pub fn new(root_id: T) -> (r: Self)
        ensures
            r@ == Map::<Seq<char>, T>::empty().insert(Seq::<char>::empty(), root_id),
            r.has_root(),
    {
        let mut entries: Vec<(String, T)> = Vec::new();
        entries.push((String::new(), root_id));
        proof {
            let s = entries@;
            assert(s.drop_last() =~= Seq::<(String, T)>::empty());
            assert(entries_map(Seq::<(String, T)>::empty()) == Map::<Seq<char>, T>::empty());
            assert(s.last().0@ == Seq::<char>::empty());
            assert(entries_map(s) =~= Map::<Seq<char>, T>::empty().insert(
                Seq::<char>::empty(),
                root_id,
            ));
        }
        DirCache { entries }
    }

    /// Looks a path up; `Some` exactly on the cached paths, returning the
    /// most recently inserted value.
    pub fn find_dir<'a>(&'a self, path: &str) -> (r: Option<&'a T>)
        ensures
            match r {
                Some(v) => self@.contains_key(path@) && *v == self@[path@],
                None => !self@.contains_key(path@),
            },
    {
        let n = self.entries.len();
        let mut i: usize = n;
        while i > 0
            invariant
                n == self.entries@.len(),
                i <= n,
                forall|j: int| i <= j < n ==> self.entries@[j].0@ != path@,
        decreases i,
        {
            i = i - 1;
            if str_eq(self.entries[i].0.as_str(), path) {
                proof {
                    lemma_last_key_idx_of(self.entries@, path@, i as int);
                    lemma_entries_map_lookup(self.entries@, path@);
                }
                return Some(&self.entries[i].1);
            }
        }
        proof {
            lemma_entries_map_lookup(self.entries@, path@);
            assert(last_key_idx(self.entries@, path@) < 0) by {
                if last_key_idx(self.entries@, path@) >= 0 {
                    assert(entries_map(self.entries@).contains_key(path@));
                }
            }
        }
        None
    }

    /// Binds `path` to `value`. Existing bindings for other paths are kept;
    /// a previous binding of the same path is shadowed. The cache never
    /// shrinks: every key present before stays present.
    pub fn insert_dir(&mut self, path: String, value: T)
        ensures
            final(self)@ == old(self)@.insert(path@, value),
            forall|k: Seq<char>| old(self)@.contains_key(k) ==> final(self)@.contains_key(k),
            final(self).has_root() <==> (old(self).has_root() || path@ == Seq::<char>::empty()),
    {
        self.entries.push((path, value));
        proof {
            assert(self.entries@.drop_last() =~= old(self).entries@);
        }
    }
}

/// The root path of the mount, as the cache keys it: the empty string.
pub fn root_dir_key() -> (r: String)
    ensures
        r@ == Seq::<char>::empty(),
{
    String::new()
}

/// Cache monotonicity: an insert never removes a binding, and does not
/// change the value bound to any other path.
pub proof fn lemma_cache_monotonic<T>(m: Map<Seq<char>, T>, path: Seq<char>, value: T)
    ensures
        forall|k: Seq<char>| m.contains_key(k) ==> m.insert(path, value).contains_key(k),
        forall|k: Seq<char>|
            m.contains_key(k) && k != path ==> m.insert(path, value)[k] == m[k],
{
}

} // verus!
