//! A map with a bounded number of entries: when it is full, the least recently used entry
//! leaves. The order of use is kept by `lru::LruCache`, the values beside it.

use crate::path::PathName;
use lru::LruCache;
use vstd::hash_map::StringHashMap;
use vstd::prelude::*;
use vstd::string::*;

verus! {

broadcast use vstd::string::group_string_axioms;

/// The cache type of the `lru` crate.
#[verifier::external_type_specification]
#[verifier::external_body]
#[verifier::reject_recursive_types(K)]
#[verifier::reject_recursive_types(V)]
#[verifier::reject_recursive_types(S)]
pub struct ExLruCache<K, V, S>(LruCache<K, V, S>);

/// The hash builder that `lru::LruCache` uses where none is named.
#[verifier::external_type_specification]
#[verifier::external_body]
pub struct ExLruHasher(lru::DefaultHasher);

/// The keys of a cache, most recently used first.
pub uninterp spec fn recency(c: LruCache<String, ()>) -> Seq<Seq<char>>;

/// How many keys a cache holds at most.
pub uninterp spec fn recency_limit(c: LruCache<String, ()>) -> nat;

/// The order once `k` has been used: it comes first, the others keep their order.
pub open spec fn used(order: Seq<Seq<char>>, k: Seq<char>) -> Seq<Seq<char>> {
    if order.contains(k) {
        seq![k] + order.remove(order.index_of(k))
    } else {
        seq![k] + order
    }
}

/// `LruCache::new` makes an empty cache for at most `limit` keys.
#[verifier::external_body]
fn recency_new(limit: usize) -> (c: LruCache<String, ()>)
    requires
        0 < limit <= 0x100_0000,
    ensures
        recency(c) == Seq::<Seq<char>>::empty(),
        recency_limit(c) == limit,
{
    LruCache::new(std::num::NonZeroUsize::new(limit).unwrap())
}

/// `LruCache::push` puts `k` first. Where a key that was not there is pushed into a full
/// cache, the last key leaves; the key that left, or `k` itself where it was there, is
/// handed back.
#[verifier::external_body]
fn recency_push(c: &mut LruCache<String, ()>, k: String) -> (out: Option<String>)
    ensures
        recency_limit(*final(c)) == recency_limit(*old(c)),
        recency(*final(c)) == (if recency(*old(c)).contains(k@) || recency(*old(c)).len()
            < recency_limit(*old(c)) {
            used(recency(*old(c)), k@)
        } else {
            used(recency(*old(c)).drop_last(), k@)
        }),
        match out {
            Some(gone) => if recency(*old(c)).contains(k@) {
                gone@ == k@
            } else {
                recency(*old(c)).len() >= recency_limit(*old(c)) && gone@ == recency(*old(c)).last()
            },
            None => !recency(*old(c)).contains(k@) && recency(*old(c)).len() < recency_limit(
                *old(c),
            ),
        },
{
    match c.push(k, ()) {
        Some((gone, _)) => Some(gone),
        None => None,
    }
}

/// `LruCache::get` tells whether `k` is there and, where it is, puts it first.
#[verifier::external_body]
fn recency_get(c: &mut LruCache<String, ()>, k: &str) -> (found: bool)
    ensures
        found == recency(*old(c)).contains(k@),
        recency_limit(*final(c)) == recency_limit(*old(c)),
        recency(*final(c)) == (if found {
            used(recency(*old(c)), k@)
        } else {
            recency(*old(c))
        }),
{
    c.get(k).is_some()
}

/// `LruCache::pop` takes `k` out, where it is there; the others keep their order.
#[verifier::external_body]
fn recency_pop(c: &mut LruCache<String, ()>, k: &str) -> (found: bool)
    ensures
        found == recency(*old(c)).contains(k@),
        recency_limit(*final(c)) == recency_limit(*old(c)),
        recency(*final(c)) == (if found {
            recency(*old(c)).remove(recency(*old(c)).index_of(k@))
        } else {
            recency(*old(c))
        }),
{
    c.pop(k).is_some()
}

/// `LruCache::clear` takes every key out.
#[verifier::external_body]
fn recency_clear(c: &mut LruCache<String, ()>)
    ensures
        recency(*final(c)) == Seq::<Seq<char>>::empty(),
        recency_limit(*final(c)) == recency_limit(*old(c)),
{
    c.clear()
}

/// `LruCache::iter` visits the keys, most recently used first.
#[verifier::external_body]
fn recency_iter(c: &LruCache<String, ()>) -> (keys: Vec<String>)
    ensures
        crate::text::views(keys@) == recency(*c),
{
    c.iter().map(|(k, _)| k.clone()).collect()
}

/// What a bounded map holds: its keys, most recently used first, and their values.
#[verifier::ext_equal]
pub struct LruView<V> {
    pub keys: Seq<Seq<char>>,
    pub values: Map<Seq<char>, V>,
    pub limit: nat,
}

impl<V> LruView<V> {
    /// The keys are distinct, not too many, and those that have a value.
    pub open spec fn wf(self) -> bool {
        &&& 0 < self.limit
        &&& self.keys.no_duplicates()
        &&& self.keys.len() <= self.limit
        &&& forall|k: Seq<char>| #[trigger] self.values.dom().contains(k) <==> self.keys.contains(k)
    }

    /// An empty map with room for `limit` entries.
    pub open spec fn empty(limit: nat) -> Self {
        LruView { keys: Seq::empty(), values: Map::empty(), limit }
    }

    pub open spec fn has(self, k: Seq<char>) -> bool {
        self.values.dom().contains(k)
    }

    /// The value of `k` becomes `v` and `k` the most recently used key; a new key in a full
    /// map pushes the least recently used one out.
    pub open spec fn put(self, k: Seq<char>, v: V) -> Self {
        if self.keys.contains(k) || self.keys.len() < self.limit {
            LruView { keys: used(self.keys, k), values: self.values.insert(k, v), limit: self.limit }
        } else {
            LruView {
                keys: used(self.keys.drop_last(), k),
                values: self.values.remove(self.keys.last()).insert(k, v),
                limit: self.limit,
            }
        }
    }

    /// `k` becomes the most recently used key, where it is there.
    pub open spec fn touch(self, k: Seq<char>) -> Self {
        if self.keys.contains(k) {
            LruView { keys: used(self.keys, k), values: self.values, limit: self.limit }
        } else {
            self
        }
    }

    pub open spec fn remove(self, k: Seq<char>) -> Self {
        if self.keys.contains(k) {
            LruView {
                keys: self.keys.remove(self.keys.index_of(k)),
                values: self.values.remove(k),
                limit: self.limit,
            }
        } else {
            self
        }
    }

    /// The map without its entries.
    pub open spec fn cleared(self) -> Self {
        LruView::empty(self.limit)
    }
}

proof fn removal_keeps_others(s: Seq<Seq<char>>, k: Seq<char>)
    requires
        s.no_duplicates(),
        s.contains(k),
    ensures
        s.remove(s.index_of(k)).no_duplicates(),
        s.remove(s.index_of(k)).len() == s.len() - 1,
        forall|x: Seq<char>|
            #[trigger] s.remove(s.index_of(k)).contains(x) <==> (s.contains(x) && x != k),
{
    let i = s.index_of(k);
    let r = s.remove(i);
    assert(s[i] == k);
    assert forall|x: Seq<char>| #[trigger] r.contains(x) <==> (s.contains(x) && x != k) by {
        if r.contains(x) {
            let j = choose|j: int| 0 <= j < r.len() && r[j] == x;
            let o = if j < i {
                j
            } else {
                j + 1
            };
            assert(s[o] == x);
        }
        if s.contains(x) && x != k {
            let o = choose|o: int| 0 <= o < s.len() && s[o] == x;
            let j = if o < i {
                o
            } else {
                o - 1
            };
            assert(r[j] == x);
        }
    }
}

proof fn used_is_distinct(s: Seq<Seq<char>>, k: Seq<char>)
    requires
        s.no_duplicates(),
    ensures
        used(s, k).no_duplicates(),
        used(s, k).len() == (if s.contains(k) {
            s.len()
        } else {
            s.len() + 1
        }),
        forall|x: Seq<char>| #[trigger] used(s, k).contains(x) <==> (s.contains(x) || x == k),
{
    let rest = if s.contains(k) {
        removal_keeps_others(s, k);
        s.remove(s.index_of(k))
    } else {
        s
    };
    assert(used(s, k) =~= seq![k] + rest);
    let u = used(s, k);
    assert(!rest.contains(k));
    assert forall|i: int, j: int| 0 <= i < u.len() && 0 <= j < u.len() && i != j implies u[i]
        != u[j] by {
        if i == 0 {
            assert(u[j] == rest[j - 1]);
            assert(rest.contains(rest[j - 1]));
        } else if j == 0 {
            assert(u[i] == rest[i - 1]);
            assert(rest.contains(rest[i - 1]));
        } else {
            assert(u[i] == rest[i - 1] && u[j] == rest[j - 1]);
        }
    }
    assert forall|x: Seq<char>| #[trigger] u.contains(x) <==> (s.contains(x) || x == k) by {
        if u.contains(x) {
            let j = choose|j: int| 0 <= j < u.len() && u[j] == x;
            if j > 0 {
                assert(rest[j - 1] == x);
                assert(rest.contains(x));
            }
        }
        if x == k {
            assert(u[0] == x);
        } else if s.contains(x) {
            assert(rest.contains(x));
            let j = choose|j: int| 0 <= j < rest.len() && rest[j] == x;
            assert(u[j + 1] == x);
        }
    }
}

/// Putting, using, taking out and clearing keep a bounded map in order: never more entries
/// than its limit, and a value for exactly the keys it holds.
pub proof fn bounded_map_stays_bounded<V>(m: LruView<V>, k: Seq<char>, v: V)
    requires
        m.wf(),
    ensures
        m.put(k, v).wf(),
        m.put(k, v).values.dom().contains(k) && m.put(k, v).values[k] == v,
        m.put(k, v).keys[0] == k,
        m.touch(k).wf(),
        m.remove(k).wf(),
        !m.remove(k).has(k),
        m.cleared().wf(),
{
    used_is_distinct(m.keys, k);
    if m.keys.contains(k) {
        removal_keeps_others(m.keys, k);
    }
    if m.keys.len() > 0 {
        let d = m.keys.drop_last();
        assert(d.no_duplicates());
        used_is_distinct(d, k);
        assert forall|x: Seq<char>| d.contains(x) <==> (m.keys.contains(x) && x != m.keys.last()) by {
            if d.contains(x) {
                let j = choose|j: int| 0 <= j < d.len() && d[j] == x;
                assert(m.keys[j] == x);
            }
            if m.keys.contains(x) && x != m.keys.last() {
                let j = choose|j: int| 0 <= j < m.keys.len() && m.keys[j] == x;
                assert(d[j] == x);
            }
        }
    }
}

/// A map with a bounded number of entries.
#[verifier::reject_recursive_types(V)]
pub struct LruMap<V> {
    order: LruCache<String, ()>,
    values: StringHashMap<V>,
}

impl<V> View for LruMap<V> {
    type V = LruView<V>;

    closed spec fn view(&self) -> LruView<V> {
        LruView {
            keys: recency(self.order),
            values: self.values@,
            limit: recency_limit(self.order),
        }
    }
}

impl<V> LruMap<V> {
    pub open spec fn wf(&self) -> bool {
        self@.wf()
    }

    pub fn new(limit: usize) -> (r: Self)
        requires
            0 < limit <= 0x100_0000,
        ensures
            r.wf(),
            r@ == LruView::<V>::empty(limit as nat),
    {
        let r = LruMap { order: recency_new(limit), values: StringHashMap::new() };
        proof {
            assert(r@ =~= LruView::<V>::empty(limit as nat));
        }
        r
    }

    /// Sets the value of `k`; hands back the key that had to leave, if any.
    pub fn put(&mut self, k: String, v: V) -> (gone: Option<String>)
        requires
            old(self).wf(),
        ensures
            final(self).wf(),
            final(self)@ == old(self)@.put(k@, v),
            match gone {
                Some(g) => !old(self)@.keys.contains(k@) && old(self)@.keys.len()
                    == old(self)@.limit && g@ == old(self)@.keys.last(),
                None => old(self)@.keys.contains(k@) || old(self)@.keys.len() < old(self)@.limit,
            },
    {
        proof {
            bounded_map_stays_bounded(self@, k@, v);
        }
        let had = self.values.contains_key(k.as_str());
        let out = recency_push(&mut self.order, k.clone());
        if had {
            self.values.insert(k, v);
            None
        } else {
            match out {
                Some(g) => {
                    self.values.remove(g.as_str());
                    self.values.insert(k, v);
                    Some(g)
                },
                None => {
                    self.values.insert(k, v);
                    None
                },
            }
        }
    }

    /// The value of `k`, which becomes the most recently used key.
    pub fn get(&mut self, k: &str) -> (r: Option<&V>)
        requires
            old(self).wf(),
        ensures
            final(self).wf(),
            final(self)@ == old(self)@.touch(k@),
            match r {
                Some(v) => old(self)@.has(k@) && *v == old(self)@.values[k@],
                None => !old(self)@.has(k@),
            },
    {
        proof {
            let any: V = arbitrary();
            bounded_map_stays_bounded(self@, k@, any);
        }
        let _found = recency_get(&mut self.order, k);
        self.values.get(k)
    }

    /// The value of `k`; the order of use stays.
    pub fn peek(&self, k: &str) -> (r: Option<&V>)
        ensures
            match r {
                Some(v) => self@.has(k@) && *v == self@.values[k@],
                None => !self@.has(k@),
            },
    {
        self.values.get(k)
    }

    pub fn contains(&self, k: &str) -> (r: bool)
        ensures
            r == self@.has(k@),
    {
        self.values.contains_key(k)
    }

    /// Takes `k` out; tells whether it was there.
    pub fn pop(&mut self, k: &str) -> (r: bool)
        requires
            old(self).wf(),
        ensures
            final(self).wf(),
            final(self)@ == old(self)@.remove(k@),
            r == old(self)@.has(k@),
    {
        proof {
            let any: V = arbitrary();
            bounded_map_stays_bounded(self@, k@, any);
        }
        let found = recency_pop(&mut self.order, k);
        if found {
            self.values.remove(k);
        }
        found
    }

    pub fn clear(&mut self)
        requires
            old(self).wf(),
        ensures
            final(self).wf(),
            final(self)@ == old(self)@.cleared(),
    {
        recency_clear(&mut self.order);
        self.values.clear();
        proof {
            assert(self@ =~= old(self)@.cleared());
        }
    }

    /// The keys, most recently used first.
    pub fn keys(&self) -> (r: Vec<String>)
        ensures
            crate::text::views(r@) == self@.keys,
    {
        recency_iter(&self.order)
    }
}

impl LruMap<PathName> {
    /// Sets the path of `k`; hands back the path that had to leave, if any.
    pub fn put_path(&mut self, k: String, p: PathName) -> (gone: Option<PathName>)
        requires
            old(self).wf(),
        ensures
            final(self).wf(),
            final(self)@ == old(self)@.put(k@, p),
            match gone {
                Some(g) => !old(self)@.keys.contains(k@) && old(self)@.keys.len()
                    == old(self)@.limit && g@ == old(self)@.values[old(self)@.keys.last()]@,
                None => old(self)@.keys.contains(k@) || old(self)@.keys.len() < old(self)@.limit,
            },
    {
        proof {
            bounded_map_stays_bounded(self@, k@, p);
            if self@.keys.len() > 0 {
                assert(self@.keys.contains(self@.keys.last()));
            }
        }
        let had = self.values.contains_key(k.as_str());
        let out = recency_push(&mut self.order, k.clone());
        let mut gone: Option<PathName> = None;
        if !had {
            if let Some(g) = out {
                gone = match self.values.get(g.as_str()) {
                    Some(old_path) => Some(old_path.clone()),
                    None => None,
                };
                self.values.remove(g.as_str());
            }
        }
        self.values.insert(k, p);
        gone
    }
}

} // verus!
