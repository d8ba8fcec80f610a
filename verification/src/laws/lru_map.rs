//! What bounded maps keep, and what leaves them.

use crate::lru_map::LruView;
use vstd::prelude::*;

verus! {

/// To set a value changes no other value. Another key leaves only where the map is full and
/// the key is new, and then it is the one that was not used for longest.
pub proof fn setting_keeps_the_others<V>(m: LruView<V>, k: Seq<char>, v: V, j: Seq<char>)
    requires
        m.wf(),
        j != k,
    ensures
        m.put(k, v).has(k) && m.put(k, v).values[k] == v,
        m.put(k, v).has(j) ==> m.has(j) && m.put(k, v).values[j] == m.values[j],
        m.has(j) && !m.put(k, v).has(j) ==> {
            &&& !m.has(k)
            &&& m.keys.len() == m.limit
            &&& m.keys.last() == j
        },
        m.put(k, v).limit == m.limit,
{
}

/// To use a key changes no value and makes it the last to leave.
pub proof fn using_keeps_the_values<V>(m: LruView<V>, k: Seq<char>, j: Seq<char>)
    requires
        m.wf(),
    ensures
        m.touch(k).has(j) == m.has(j),
        m.has(j) ==> m.touch(k).values[j] == m.values[j],
        m.has(k) ==> m.touch(k).keys[0] == k,
        !m.has(k) ==> m.touch(k) == m,
        m.touch(k).limit == m.limit,
{
}

/// To remove a key removes that one alone.
pub proof fn removing_keeps_the_others<V>(m: LruView<V>, k: Seq<char>, j: Seq<char>)
    requires
        m.wf(),
    ensures
        m.remove(k).has(j) <==> m.has(j) && j != k,
        m.remove(k).has(j) ==> m.remove(k).values[j] == m.values[j],
        m.remove(k).limit == m.limit,
        !m.cleared().has(j),
        m.cleared().limit == m.limit,
{
}

} // verus!
