//! A set of paths: paths with the same components are one path, and the order of insertion
//! stays.

use crate::path;
use crate::path::PathName;
use vstd::hash_set::StringHashSet;
use vstd::prelude::*;
use vstd::string::*;

verus! {

broadcast use vstd::string::group_string_axioms;

/// One of the texts has the components of `t`.
pub open spec fn holds(s: Seq<Seq<char>>, t: Seq<char>) -> bool {
    exists|i: int| 0 <= i < s.len() && path::key(#[trigger] s[i]) == path::key(t)
}

/// The paths once `t` has been put in.
pub open spec fn with_path(s: Seq<Seq<char>>, t: Seq<char>) -> Seq<Seq<char>> {
    if holds(s, t) {
        s
    } else {
        s.push(t)
    }
}

/// No two texts have the same components.
pub open spec fn distinct(s: Seq<Seq<char>>) -> bool {
    forall|i: int, j: int|
        0 <= i < j < s.len() ==> path::key(#[trigger] s[i]) != path::key(#[trigger] s[j])
}

/// Every path of a sequence once, in the order in which they first come.
pub open spec fn unique(s: Seq<Seq<char>>) -> Seq<Seq<char>>
    decreases s.len(),
{
    if s.len() == 0 {
        Seq::empty()
    } else {
        with_path(unique(s.drop_last()), s.last())
    }
}

/// `unique` drops no path and repeats none.
pub proof fn unique_keeps_each_path(s: Seq<Seq<char>>)
    ensures
        distinct(unique(s)),
        forall|t: Seq<char>| #[trigger] holds(unique(s), t) <==> holds(s, t),
        unique(s).len() <= s.len(),
    decreases s.len(),
{
    if s.len() > 0 {
        unique_keeps_each_path(s.drop_last());
        let u = unique(s.drop_last());
        assert forall|t: Seq<char>| #[trigger] holds(unique(s), t) <==> holds(s, t) by {
            if holds(unique(s), t) {
                let i = choose|i: int|
                    0 <= i < unique(s).len() && path::key(#[trigger] unique(s)[i]) == path::key(t);
                if i < u.len() {
                    assert(path::key(u[i]) == path::key(t));
                    assert(holds(u, t));
                    assert(holds(s.drop_last(), t));
                    let k = choose|k: int|
                        0 <= k < s.drop_last().len() && path::key(#[trigger] s.drop_last()[k])
                            == path::key(t);
                    assert(path::key(s[k]) == path::key(t));
                } else {
                    assert(path::key(s[s.len() - 1]) == path::key(t));
                }
            }
            if holds(s, t) {
                let k = choose|k: int| 0 <= k < s.len() && path::key(#[trigger] s[k]) == path::key(t);
                if k < s.len() - 1 {
                    assert(path::key(s.drop_last()[k]) == path::key(t));
                    assert(holds(s.drop_last(), t));
                    assert(holds(u, t));
                    let i = choose|i: int| 0 <= i < u.len() && path::key(#[trigger] u[i])
                        == path::key(t);
                    assert(path::key(unique(s)[i]) == path::key(t));
                } else if holds(u, s.last()) {
                    let i = choose|i: int|
                        0 <= i < u.len() && path::key(#[trigger] u[i]) == path::key(s.last());
                    assert(path::key(unique(s)[i]) == path::key(t));
                } else {
                    assert(unique(s)[u.len() as int] == s.last());
                }
            }
        }
    }
}

/// A set of paths.
pub struct PathSet {
    keys: StringHashSet,
    items: Vec<PathName>,
}

impl View for PathSet {
    type V = Seq<Seq<char>>;

    closed spec fn view(&self) -> Seq<Seq<char>> {
        path::path_views(self.items@)
    }
}

impl PathSet {
    pub closed spec fn wf(&self) -> bool {
        &&& distinct(self@)
        &&& forall|k: Seq<char>| #[trigger]
            self.keys@.contains(k) <==> exists|i: int|
                0 <= i < self@.len() && path::key(#[trigger] self@[i]) == k
    }

    pub fn new() -> (r: Self)
        ensures
            r.wf(),
            r@ == Seq::<Seq<char>>::empty(),
    {
        let r = PathSet { keys: StringHashSet::new(), items: Vec::new() };
        proof {
            assert(r@ =~= Seq::<Seq<char>>::empty());
        }
        r
    }

    /// Puts a path in, unless it is there.
    pub fn insert(&mut self, p: PathName)
        requires
            old(self).wf(),
        ensures
            final(self).wf(),
            final(self)@ == with_path(old(self)@, p@),
    {
        let k = p.key();
        if !self.keys.contains(k.as_str()) {
            let ghost before = self.items@;
            let ghost old_keys = self.keys@;
            let ghost text = p@;
            self.keys.insert(k);
            self.items.push(p);
            proof {
                let was = path::path_views(before);
                assert(self@ =~= was.push(text));
                assert forall|x: Seq<char>| #[trigger] self.keys@.contains(x) <==> exists|i: int|
                    0 <= i < self@.len() && path::key(#[trigger] self@[i]) == x by {
                    if self.keys@.contains(x) {
                        if x == path::key(text) {
                            assert(path::key(self@[was.len() as int]) == x);
                        } else {
                            assert(old_keys.contains(x));
                            let i = choose|i: int|
                                0 <= i < was.len() && path::key(#[trigger] was[i]) == x;
                            assert(path::key(self@[i]) == x);
                        }
                    }
                    if exists|i: int| 0 <= i < self@.len() && path::key(#[trigger] self@[i]) == x {
                        let i = choose|i: int|
                            0 <= i < self@.len() && path::key(#[trigger] self@[i]) == x;
                        if i < was.len() {
                            assert(path::key(was[i]) == x);
                            assert(old_keys.contains(x));
                        }
                    }
                }
            }
        }
    }

    /// Tests whether the set holds a path with the components of `p`.
    pub fn contains(&self, p: &PathName) -> (r: bool)
        requires
            self.wf(),
        ensures
            r == holds(self@, p@),
    {
        let k = p.key();
        self.keys.contains(k.as_str())
    }

    pub fn len(&self) -> (r: usize)
        ensures
            r == self@.len(),
    {
        self.items.len()
    }

    /// The path at a position.
    pub fn get(&self, i: usize) -> (r: &PathName)
        requires
            i < self@.len(),
        ensures
            r@ == self@[i as int],
    {
        &self.items[i]
    }

    /// The paths, in the order in which they came in.
    pub fn items(&self) -> (r: &Vec<PathName>)
        ensures
            path::path_views(r@) == self@,
    {
        &self.items
    }
}

} // verus!
