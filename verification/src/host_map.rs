//! Maps: lists of keys and values in strictly rising order of the keys.

use crate::error::{Fault, HostError, ScErrorCode, ScErrorType};
use crate::host::{fails, Host, DEFAULT_HOST_DEPTH_LIMIT};
use crate::host_object::{
    gives_up, looks_at, map_handle, stores, stores_entries, stores_list, val_fault, vec_handle,
};
use crate::model::{
    deep, deep_order, key_at, law_order_flip, law_order_transitive, law_order_zero, map_ok, order_levels, sorted,
    val_ok, Deep, ObjModel,
};
use crate::util::copy_pairs;
use crate::val::{MapObject, ObjectTag, Val, VecObject};
use vstd::prelude::*;
use vstd::string::*;

verus! {

/// Whether a key belongs at a position: all keys before it are smaller and none
/// from there on is.
pub open spec fn is_place(objs: Seq<ObjModel>, m: Seq<(Val, Val)>, d: Deep, p: int) -> bool {
    &&& 0 <= p <= m.len()
    &&& forall|i: int| 0 <= i < p ==> deep_order(#[trigger] key_at(objs, m, i), d) < 0
    &&& forall|i: int| p <= i < m.len() ==> deep_order(#[trigger] key_at(objs, m, i), d) >= 0
}

/// Where a key belongs.
pub open spec fn place(objs: Seq<ObjModel>, m: Seq<(Val, Val)>, d: Deep) -> int {
    choose|p: int| is_place(objs, m, d, p)
}

/// The value of a key, if the map has the key.
pub open spec fn lookup(objs: Seq<ObjModel>, m: Seq<(Val, Val)>, d: Deep) -> Option<Val> {
    let p = place(objs, m, d);
    if p < m.len() && key_at(objs, m, p) == d {
        Some(m[p].1)
    } else {
        None
    }
}

/// The map with a key set to a value.
pub open spec fn map_insert(objs: Seq<ObjModel>, m: Seq<(Val, Val)>, k: Val, v: Val) -> Seq<(Val, Val)> {
    let p = place(objs, m, deep(objs, k));
    if p < m.len() && key_at(objs, m, p) == deep(objs, k) {
        m.update(p, (k, v))
    } else {
        m.insert(p, (k, v))
    }
}

/// The map without a key that it has.
pub open spec fn map_remove(objs: Seq<ObjModel>, m: Seq<(Val, Val)>, k: Val) -> Seq<(Val, Val)> {
    m.remove(place(objs, m, deep(objs, k)))
}

/// The fault of a comparison that would have to look too deep.
pub open spec fn depth_fault() -> Fault {
    (ScErrorType::Context, ScErrorCode::ExceededLimit)
}

/// Whether a key can be compared with every key of a map.
pub open spec fn within_depth(objs: Seq<ObjModel>, m: Seq<(Val, Val)>, d: Deep) -> bool {
    forall|i: int| 0 <= i < m.len() ==> order_levels(#[trigger] key_at(objs, m, i), d) <= DEFAULT_HOST_DEPTH_LIMIT
}

/// What is wrong with the first `n` of a list of keys and values as a map: a key
/// that cannot be compared with its neighbour, or does not come after it.
pub open spec fn map_fault(objs: Seq<ObjModel>, m: Seq<(Val, Val)>, n: int) -> Option<Fault>
    decreases n,
{
    if n < 2 {
        None
    } else {
        match map_fault(objs, m, n - 1) {
            Some(f) => Some(f),
            None => if order_levels(key_at(objs, m, n - 2), key_at(objs, m, n - 1)) > DEFAULT_HOST_DEPTH_LIMIT {
                Some(depth_fault())
            } else if deep_order(key_at(objs, m, n - 2), key_at(objs, m, n - 1)) >= 0 {
                Some((ScErrorType::Object, ScErrorCode::InvalidInput))
            } else {
                None
            },
        }
    }
}

proof fn lemma_place_unique(objs: Seq<ObjModel>, m: Seq<(Val, Val)>, d: Deep, p: int)
    requires
        is_place(objs, m, d, p),
    ensures
        place(objs, m, d) == p,
{
    let q = place(objs, m, d);
    assert(is_place(objs, m, d, q));
    if p < q {
        assert(deep_order(key_at(objs, m, p), d) < 0);
    } else if q < p {
        assert(deep_order(key_at(objs, m, q), d) < 0);
    }
}

/// Every key belongs somewhere in a well-formed map.
pub proof fn lemma_place_exists(objs: Seq<ObjModel>, m: Seq<(Val, Val)>, d: Deep)
    requires
        sorted(objs, m),
    ensures
        is_place(objs, m, d, place(objs, m, d)),
{
    lemma_place_exists_up_to(objs, m, d, m.len() as int);
}

proof fn lemma_place_exists_up_to(objs: Seq<ObjModel>, m: Seq<(Val, Val)>, d: Deep, n: int)
    requires
        sorted(objs, m),
        0 <= n <= m.len(),
        forall|i: int| n <= i < m.len() ==> deep_order(#[trigger] key_at(objs, m, i), d) >= 0,
    ensures
        is_place(objs, m, d, place(objs, m, d)),
    decreases n,
{
    if n > 0 && deep_order(key_at(objs, m, n - 1), d) >= 0 {
        lemma_place_exists_up_to(objs, m, d, n - 1);
    } else {
        assert forall|i: int| 0 <= i < n implies deep_order(#[trigger] key_at(objs, m, i), d) < 0 by {
            if i < n - 1 {
                assert(deep_order(key_at(objs, m, i), key_at(objs, m, n - 1)) < 0);
                law_order_transitive(key_at(objs, m, i), key_at(objs, m, n - 1), d);
            }
        }
        assert(is_place(objs, m, d, n));
    }
}

/// A map has a key exactly where one of its positions holds it, and the value is
/// the one that stands there.
pub proof fn law_lookup(objs: Seq<ObjModel>, m: Seq<(Val, Val)>, d: Deep)
    requires
        map_ok(objs, m),
    ensures
        match lookup(objs, m, d) {
            Some(v) => exists|i: int| 0 <= i < m.len() && key_at(objs, m, i) == d && #[trigger] m[i].1 == v,
            None => forall|i: int| 0 <= i < m.len() ==> #[trigger] key_at(objs, m, i) != d,
        },
        forall|i: int| 0 <= i < m.len() && #[trigger] key_at(objs, m, i) == d ==> lookup(objs, m, d) == Some(m[i].1),
{
    lemma_place_exists(objs, m, d);
    let p = place(objs, m, d);
    if p < m.len() && key_at(objs, m, p) == d {
        assert(m[p].1 == lookup(objs, m, d)->Some_0);
    }
    assert forall|i: int| 0 <= i < m.len() && #[trigger] key_at(objs, m, i) == d implies i == p by {
        law_order_zero(d, d);
        if p < i {
            assert(deep_order(key_at(objs, m, p), key_at(objs, m, i)) < 0);
            assert(deep_order(key_at(objs, m, p), d) >= 0);
        }
    }
}

/// The keys of the map with a key set, each with the place that it comes from.
proof fn lemma_insert_keys(objs: Seq<ObjModel>, m: Seq<(Val, Val)>, k: Val, v: Val, p: int, replaced: bool)
    requires
        map_ok(objs, m),
        p == place(objs, m, deep(objs, k)),
        replaced == (p < m.len() && key_at(objs, m, p) == deep(objs, k)),
    ensures
        is_place(objs, m, deep(objs, k), p),
        ({
            let m2 = map_insert(objs, m, k, v);
            &&& m2.len() == m.len() + (if replaced {
                0int
            } else {
                1
            })
            &&& m2[p] == (k, v)
            &&& key_at(objs, m2, p) == deep(objs, k)
            &&& forall|i: int|
                0 <= i < m2.len() && i != p ==> #[trigger] m2[i] == m[source_of_insert(i, p, replaced)]
            &&& forall|i: int|
                0 <= i < m2.len() && i != p ==> #[trigger] key_at(objs, m2, i) == key_at(
                    objs,
                    m,
                    source_of_insert(i, p, replaced),
                )
        }),
{
    lemma_place_exists(objs, m, deep(objs, k));
}

spec fn source_of_insert(i: int, p: int, replaced: bool) -> int {
    if i <= p || replaced {
        i
    } else {
        i - 1
    }
}

proof fn lemma_insert_ok(objs: Seq<ObjModel>, m: Seq<(Val, Val)>, k: Val, v: Val)
    requires
        map_ok(objs, m),
        val_ok(objs, k),
        val_ok(objs, v),
    ensures
        map_ok(objs, map_insert(objs, m, k, v)),
{
    let d = deep(objs, k);
    let p = place(objs, m, d);
    let m2 = map_insert(objs, m, k, v);
    let replaced = p < m.len() && key_at(objs, m, p) == d;
    lemma_insert_keys(objs, m, k, v, p, replaced);
    assert forall|i: int, j: int| 0 <= i < j < m2.len() implies deep_order(
        #[trigger] key_at(objs, m2, i),
        #[trigger] key_at(objs, m2, j),
    ) < 0 by {
        let (i0, j0) = (source_of_insert(i, p, replaced), source_of_insert(j, p, replaced));
        if i == p && !replaced {
            lemma_after_place(objs, m, d, p, j0);
        } else if j == p && !replaced {
            assert(deep_order(key_at(objs, m, i0), d) < 0);
        } else {
            assert(deep_order(key_at(objs, m, i0), key_at(objs, m, j0)) < 0);
        }
    }
    assert forall|i: int| 0 <= i < m2.len() implies val_ok(objs, (#[trigger] m2[i]).0) && val_ok(objs, m2[i].1) by {
        if i != p {
            let q = m[source_of_insert(i, p, replaced)];
        }
    }
}

/// A key that is not in the map is smaller than what stands at its place or
/// after it.
proof fn lemma_after_place(objs: Seq<ObjModel>, m: Seq<(Val, Val)>, d: Deep, p: int, j: int)
    requires
        sorted(objs, m),
        is_place(objs, m, d, p),
        p <= j < m.len(),
        key_at(objs, m, p) != d,
    ensures
        deep_order(d, key_at(objs, m, j)) < 0,
{
    let (x, y) = (key_at(objs, m, p), key_at(objs, m, j));
    assert(deep_order(x, d) >= 0);
    law_order_flip(x, d);
    law_order_zero(x, d);
    if p < j {
        assert(deep_order(x, y) < 0);
        law_order_transitive(d, x, y);
    }
}

/// Setting a key keeps a map well formed, gives the key its value, and changes
/// no other key.
pub proof fn law_map_insert(objs: Seq<ObjModel>, m: Seq<(Val, Val)>, k: Val, v: Val)
    requires
        map_ok(objs, m),
        val_ok(objs, k),
        val_ok(objs, v),
    ensures
        map_ok(objs, map_insert(objs, m, k, v)),
        lookup(objs, map_insert(objs, m, k, v), deep(objs, k)) == Some(v),
        forall|d: Deep|
            d != deep(objs, k) ==> #[trigger] lookup(objs, map_insert(objs, m, k, v), d) == lookup(objs, m, d),
        map_insert(objs, m, k, v).len() == m.len() + (if lookup(objs, m, deep(objs, k)) is Some {
            0int
        } else {
            1
        }),
{
    let d = deep(objs, k);
    let p = place(objs, m, d);
    let m2 = map_insert(objs, m, k, v);
    let replaced = p < m.len() && key_at(objs, m, p) == d;
    lemma_insert_ok(objs, m, k, v);
    lemma_insert_keys(objs, m, k, v, p, replaced);
    law_lookup(objs, m2, d);
    assert(lookup(objs, m2, d) == Some(m2[p].1));
    assert forall|e: Deep| e != d implies #[trigger] lookup(objs, m2, e) == lookup(objs, m, e) by {
        lemma_insert_other(objs, m, k, v, e);
    }
}

proof fn lemma_insert_other(objs: Seq<ObjModel>, m: Seq<(Val, Val)>, k: Val, v: Val, e: Deep)
    requires
        map_ok(objs, m),
        map_ok(objs, map_insert(objs, m, k, v)),
        e != deep(objs, k),
    ensures
        lookup(objs, map_insert(objs, m, k, v), e) == lookup(objs, m, e),
{
    let d = deep(objs, k);
    let p = place(objs, m, d);
    let m2 = map_insert(objs, m, k, v);
    let replaced = p < m.len() && key_at(objs, m, p) == d;
    lemma_insert_keys(objs, m, k, v, p, replaced);
    law_lookup(objs, m, e);
    law_lookup(objs, m2, e);
    if lookup(objs, m, e) is Some {
        let i = place(objs, m, e);
        let j = if i < p || replaced {
            i
        } else {
            i + 1
        };
        lemma_place_exists(objs, m, e);
        assert(source_of_insert(j, p, replaced) == i);
        assert(j != p);
        assert(m2[j] == m[i]);
        assert(key_at(objs, m2, j) == e);
    } else if lookup(objs, m2, e) is Some {
        let j = place(objs, m2, e);
        lemma_place_exists(objs, m2, e);
        assert(key_at(objs, m, source_of_insert(j, p, replaced)) == e);
    }
}

proof fn lemma_remove_ok(objs: Seq<ObjModel>, m: Seq<(Val, Val)>, k: Val)
    requires
        map_ok(objs, m),
        lookup(objs, m, deep(objs, k)) is Some,
    ensures
        map_ok(objs, map_remove(objs, m, k)),
        map_remove(objs, m, k).len() == m.len() - 1,
        is_place(objs, m, deep(objs, k), place(objs, m, deep(objs, k))),
        forall|i: int|
            0 <= i < m.len() - 1 ==> #[trigger] map_remove(objs, m, k)[i] == m[source_of_remove(
                i,
                place(objs, m, deep(objs, k)),
            )],
        forall|i: int|
            0 <= i < m.len() - 1 ==> #[trigger] key_at(objs, map_remove(objs, m, k), i) == key_at(
                objs,
                m,
                source_of_remove(i, place(objs, m, deep(objs, k))),
            ),
{
    let d = deep(objs, k);
    let p = place(objs, m, d);
    lemma_place_exists(objs, m, d);
    let m2 = map_remove(objs, m, k);
    assert forall|i: int| 0 <= i < m2.len() implies #[trigger] key_at(objs, m2, i) == key_at(
        objs,
        m,
        source_of_remove(i, p),
    ) by {}
    assert forall|i: int, j: int| 0 <= i < j < m2.len() implies deep_order(
        #[trigger] key_at(objs, m2, i),
        #[trigger] key_at(objs, m2, j),
    ) < 0 by {
        assert(deep_order(key_at(objs, m, source_of_remove(i, p)), key_at(objs, m, source_of_remove(j, p))) < 0);
    }
    assert forall|i: int| 0 <= i < m2.len() implies val_ok(objs, (#[trigger] m2[i]).0) && val_ok(objs, m2[i].1) by {
        assert(m2[i] == m[source_of_remove(i, p)]);
    }
}

spec fn source_of_remove(i: int, p: int) -> int {
    if i < p {
        i
    } else {
        i + 1
    }
}

proof fn lemma_remove_other(objs: Seq<ObjModel>, m: Seq<(Val, Val)>, k: Val, e: Deep)
    requires
        map_ok(objs, m),
        lookup(objs, m, deep(objs, k)) is Some,
        e != deep(objs, k),
    ensures
        lookup(objs, map_remove(objs, m, k), e) == lookup(objs, m, e),
{
    let p = place(objs, m, deep(objs, k));
    let m2 = map_remove(objs, m, k);
    lemma_remove_ok(objs, m, k);
    law_lookup(objs, m, e);
    law_lookup(objs, m2, e);
    if lookup(objs, m, e) is Some {
        let i = place(objs, m, e);
        lemma_place_exists(objs, m, e);
        let j = if i < p {
            i
        } else {
            i - 1
        };
        assert(i != p);
        assert(source_of_remove(j, p) == i);
        assert(m2[j] == m[i]);
        assert(key_at(objs, m2, j) == e);
    } else if lookup(objs, m2, e) is Some {
        let j = place(objs, m2, e);
        lemma_place_exists(objs, m2, e);
        assert(key_at(objs, m, source_of_remove(j, p)) == e);
    }
}

/// Removing a key that a map has keeps the map well formed, takes the key out,
/// and changes no other key.
pub proof fn law_map_remove(objs: Seq<ObjModel>, m: Seq<(Val, Val)>, k: Val)
    requires
        map_ok(objs, m),
        lookup(objs, m, deep(objs, k)) is Some,
    ensures
        map_ok(objs, map_remove(objs, m, k)),
        lookup(objs, map_remove(objs, m, k), deep(objs, k)) is None,
        forall|d: Deep|
            d != deep(objs, k) ==> #[trigger] lookup(objs, map_remove(objs, m, k), d) == lookup(objs, m, d),
        map_remove(objs, m, k).len() == m.len() - 1,
{
    let d = deep(objs, k);
    let p = place(objs, m, d);
    let m2 = map_remove(objs, m, k);
    lemma_remove_ok(objs, m, k);
    law_lookup(objs, m2, d);
    law_order_zero(d, d);
    if lookup(objs, m2, d) is Some {
        let i = place(objs, m2, d);
        lemma_place_exists(objs, m2, d);
        let i0 = source_of_remove(i, p);
        assert(key_at(objs, m, i0) == d);
        if i0 < p {
            assert(deep_order(key_at(objs, m, i0), d) < 0);
        } else {
            assert(deep_order(key_at(objs, m, p), key_at(objs, m, i0)) < 0);
        }
    }
    assert forall|e: Deep| e != d implies #[trigger] lookup(objs, m2, e) == lookup(objs, m, e) by {
        lemma_remove_other(objs, m, k, e);
    }
}

/// A list of keys and values that has no fault as a map is in order, and only
/// such a list, unless its keys nest too deep.
pub proof fn law_map_fault(objs: Seq<ObjModel>, m: Seq<(Val, Val)>, n: int)
    requires
        0 <= n <= m.len(),
    ensures
        map_fault(objs, m, n) is None ==> sorted(objs, m.take(n)),
        sorted(objs, m.take(n)) ==> map_fault(objs, m, n) is None || map_fault(objs, m, n) == Some(depth_fault()),
    decreases n,
{
    let t = m.take(n);
    if n >= 2 {
        let t1 = m.take(n - 1);
        law_map_fault(objs, m, n - 1);
        assert forall|i: int| 0 <= i < n implies #[trigger] key_at(objs, t, i) == key_at(objs, m, i) by {}
        assert forall|i: int| 0 <= i < n - 1 implies #[trigger] key_at(objs, t1, i) == key_at(objs, m, i) by {}
        if map_fault(objs, m, n) is None {
            assert forall|i: int, j: int| 0 <= i < j < n implies deep_order(
                #[trigger] key_at(objs, t, i),
                #[trigger] key_at(objs, t, j),
            ) < 0 by {
                if j == n - 1 {
                    assert(deep_order(key_at(objs, m, n - 2), key_at(objs, m, n - 1)) < 0);
                    if i < n - 2 {
                        assert(deep_order(key_at(objs, t1, i), key_at(objs, t1, n - 2)) < 0);
                        law_order_transitive(key_at(objs, t, i), key_at(objs, t, n - 2), key_at(objs, t, n - 1));
                    }
                } else {
                    assert(deep_order(key_at(objs, t1, i), key_at(objs, t1, j)) < 0);
                }
            }
        }
        if sorted(objs, t) {
            assert forall|i: int, j: int| 0 <= i < j < n - 1 implies deep_order(
                #[trigger] key_at(objs, t1, i),
                #[trigger] key_at(objs, t1, j),
            ) < 0 by {
                assert(deep_order(key_at(objs, t, i), key_at(objs, t, j)) < 0);
            }
            assert(deep_order(key_at(objs, t, n - 2), key_at(objs, t, n - 1)) < 0);
        }
    }
}

impl Host {
    /// Finds where a key belongs in a map, and whether it is there.
    pub(crate) fn map_find(&self, m: &Vec<(Val, Val)>, k: Val) -> (res: Result<(bool, usize), HostError>)
        requires
            self.wf(),
            map_ok(self.objs(), m@),
            val_ok(self.objs(), k),
        ensures
            match res {
                Ok((found, p)) => {
                    &&& p == place(self.objs(), m@, deep(self.objs(), k))
                    &&& p <= m@.len()
                    &&& found == (p < m@.len() && key_at(self.objs(), m@, p as int) == deep(self.objs(), k))
                    &&& found == (lookup(self.objs(), m@, deep(self.objs(), k)) is Some)
                },
                Err(e) => {
                    &&& !within_depth(self.objs(), m@, deep(self.objs(), k))
                    &&& e == self.spec_err(depth_fault())
                },
            },
    {
        let ghost objs = self.objs();
        let ghost d = deep(objs, k);
        let mut lo: usize = 0;
        let mut hi: usize = m.len();
        while lo < hi
            invariant
                self.wf(),
                objs == self.objs(),
                d == deep(objs, k),
                map_ok(objs, m@),
                val_ok(objs, k),
                lo <= hi <= m@.len(),
                forall|i: int| 0 <= i < lo ==> deep_order(#[trigger] key_at(objs, m@, i), d) < 0,
                forall|i: int| hi <= i < m@.len() ==> deep_order(#[trigger] key_at(objs, m@, i), d) > 0,
            decreases hi - lo,
        {
            let mid: usize = lo + (hi - lo) / 2;
            assert(val_ok(objs, m@[mid as int].0));
            let ghost dm = key_at(objs, m@, mid as int);
            let c: i64 = self.order_vals(m[mid].0, k, DEFAULT_HOST_DEPTH_LIMIT)?;
            if c == 0 {
                proof {
                    law_order_zero(dm, d);
                    assert forall|i: int| 0 <= i < mid implies deep_order(#[trigger] key_at(objs, m@, i), d) < 0 by {
                        assert(deep_order(key_at(objs, m@, i), key_at(objs, m@, mid as int)) < 0);
                    }
                    assert forall|i: int| mid <= i < m@.len() implies deep_order(
                        #[trigger] key_at(objs, m@, i),
                        d,
                    ) >= 0 by {
                        if mid < i {
                            assert(deep_order(key_at(objs, m@, mid as int), key_at(objs, m@, i)) < 0);
                            law_order_flip(dm, key_at(objs, m@, i));
                        }
                    }
                    lemma_place_unique(objs, m@, d, mid as int);
                }
                return Ok((true, mid));
            } else if c < 0 {
                proof {
                    assert forall|i: int| 0 <= i < mid + 1 implies deep_order(
                        #[trigger] key_at(objs, m@, i),
                        d,
                    ) < 0 by {
                        if i < mid {
                            assert(deep_order(key_at(objs, m@, i), key_at(objs, m@, mid as int)) < 0);
                            law_order_transitive(key_at(objs, m@, i), dm, d);
                        }
                    }
                }
                lo = mid + 1;
            } else {
                proof {
                    assert forall|i: int| mid <= i < m@.len() implies deep_order(
                        #[trigger] key_at(objs, m@, i),
                        d,
                    ) > 0 by {
                        if mid < i {
                            assert(deep_order(key_at(objs, m@, mid as int), key_at(objs, m@, i)) < 0);
                            law_order_flip(dm, d);
                            law_order_flip(key_at(objs, m@, i), d);
                            law_order_transitive(d, dm, key_at(objs, m@, i));
                        }
                    }
                }
                hi = mid;
            }
        }
        proof {
            lemma_place_unique(objs, m@, d, lo as int);
            law_order_zero(d, d);
        }
        Ok((false, lo))
    }

    /// Fails unless a list of keys and values is a map.
    pub(crate) fn check_map_order(&self, m: &Vec<(Val, Val)>) -> (res: Result<(), HostError>)
        requires
            self.wf(),
            forall|i: int|
                0 <= i < m@.len() ==> val_ok(self.objs(), (#[trigger] m@[i]).0) && val_ok(self.objs(), m@[i].1),
        ensures
            res == match map_fault(self.objs(), m@, m@.len() as int) {
                None => Ok::<(), HostError>(()),
                Some(f) => Err(self.spec_err(f)),
            },
            res is Ok ==> map_ok(self.objs(), m@),
    {
        let ghost objs = self.objs();
        let mut i: usize = 1;
        while i < m.len()
            invariant
                self.wf(),
                objs == self.objs(),
                1 <= i,
                i <= m@.len() || i == 1,
                forall|i: int| 0 <= i < m@.len() ==> val_ok(objs, (#[trigger] m@[i]).0) && val_ok(objs, m@[i].1),
                map_fault(objs, m@, i as int) is None,
            decreases m@.len() - i,
        {
            assert(val_ok(objs, m@[i - 1].0) && val_ok(objs, m@[i as int].0));
            let c = self.order_vals(m[i - 1].0, m[i].0, DEFAULT_HOST_DEPTH_LIMIT);
            match c {
                Ok(o) => {
                    if o >= 0 {
                        proof {
                            lemma_map_fault_in_front(objs, m@, i + 1, m@.len() as int);
                        }
                        return Err(self.err(ScErrorType::Object, ScErrorCode::InvalidInput));
                    }
                },
                Err(e) => {
                    proof {
                        lemma_map_fault_in_front(objs, m@, i + 1, m@.len() as int);
                    }
                    return Err(e);
                },
            }
            i += 1;
        }
        proof {
            law_map_fault(objs, m@, m@.len() as int);
            assert(m@.take(m@.len() as int) =~= m@);
        }
        Ok(())
    }

    /// An empty map.
    pub fn map_new(&mut self) -> (res: Result<MapObject, HostError>)
        requires
            old(self).wf(),
        ensures
            final(self).wf(),
            stores(*old(self), *final(self), ObjModel::Mapping(Seq::empty()), map_handle(res)),
    {
        let m: Vec<(Val, Val)> = Vec::new();
        self.add_map(m)
    }

    /// The map with a key set to a value.
    pub fn map_put(&mut self, m: MapObject, k: Val, v: Val) -> (res: Result<MapObject, HostError>)
        requires
            old(self).wf(),
        ensures
            final(self).wf(),
            does_map_put(*old(self), *final(self), m, k, v, res),
    {
        self.check_val_integrity(k)?;
        self.check_val_integrity(v)?;
        self.charge_visit()?;
        let hm = self.visit_map(m)?;
        let new = self.map_with(hm, k, v)?;
        self.add_entries(new)
    }

    /// A copy of a map with a key set to a value.
    pub(crate) fn map_with(&self, m: &Vec<(Val, Val)>, k: Val, v: Val) -> (res: Result<Vec<(Val, Val)>, HostError>)
        requires
            self.wf(),
            map_ok(self.objs(), m@),
            val_ok(self.objs(), k),
            val_ok(self.objs(), v),
        ensures
            match res {
                Ok(new) => new@ == map_insert(self.objs(), m@, k, v) && map_ok(self.objs(), new@),
                Err(e) => {
                    &&& !within_depth(self.objs(), m@, deep(self.objs(), k))
                    &&& e == self.spec_err(depth_fault())
                },
            },
    {
        let (found, p): (bool, usize) = self.map_find(m, k)?;
        let mut new = copy_pairs(m.as_slice());
        if found {
            new[p] = (k, v);
        } else {
            new.insert(p, (k, v));
        }
        proof {
            law_map_insert(self.objs(), m@, k, v);
        }
        Ok(new)
    }

    /// A copy of a map without a key, if the map has the key.
    pub(crate) fn map_without(&self, m: &Vec<(Val, Val)>, k: Val) -> (res: Result<
        Option<Vec<(Val, Val)>>,
        HostError,
    >)
        requires
            self.wf(),
            map_ok(self.objs(), m@),
            val_ok(self.objs(), k),
        ensures
            match res {
                Ok(Some(new)) => {
                    &&& lookup(self.objs(), m@, deep(self.objs(), k)) is Some
                    &&& new@ == map_remove(self.objs(), m@, k)
                    &&& map_ok(self.objs(), new@)
                },
                Ok(None) => lookup(self.objs(), m@, deep(self.objs(), k)) is None,
                Err(e) => {
                    &&& !within_depth(self.objs(), m@, deep(self.objs(), k))
                    &&& e == self.spec_err(depth_fault())
                },
            },
    {
        let (found, p): (bool, usize) = self.map_find(m, k)?;
        if !found {
            return Ok(None);
        }
        let mut new = copy_pairs(m.as_slice());
        let _ = new.remove(p);
        proof {
            law_map_remove(self.objs(), m@, k);
        }
        Ok(Some(new))
    }

    /// The value of a key, if a map has the key.
    pub(crate) fn map_value(&self, m: &Vec<(Val, Val)>, k: Val) -> (res: Result<Option<Val>, HostError>)
        requires
            self.wf(),
            map_ok(self.objs(), m@),
            val_ok(self.objs(), k),
        ensures
            match res {
                Ok(v) => v == lookup(self.objs(), m@, deep(self.objs(), k)),
                Err(e) => {
                    &&& !within_depth(self.objs(), m@, deep(self.objs(), k))
                    &&& e == self.spec_err(depth_fault())
                },
            },
    {
        let (found, p): (bool, usize) = self.map_find(m, k)?;
        if found {
            Ok(Some(m[p].1))
        } else {
            Ok(None)
        }
    }

    /// The value of a key.
    pub fn map_get(&mut self, m: MapObject, k: Val) -> (res: Result<Val, HostError>)
        requires
            old(self).wf(),
        ensures
            final(self).wf(),
            does_map_get(*old(self), *final(self), m, k, res),
    {
        self.check_val_integrity(k)?;
        self.charge_visit()?;
        let hm = self.visit_map(m)?;
        match self.map_value(hm, k)? {
            Some(v) => Ok(v),
            None => Err(self.err(ScErrorType::Object, ScErrorCode::MissingValue)),
        }
    }

    /// The map without a key; the key must be there.
    pub fn map_del(&mut self, m: MapObject, k: Val) -> (res: Result<MapObject, HostError>)
        requires
            old(self).wf(),
        ensures
            final(self).wf(),
            does_map_del(*old(self), *final(self), m, k, res),
    {
        self.check_val_integrity(k)?;
        self.charge_visit()?;
        let hm = self.visit_map(m)?;
        match self.map_without(hm, k)? {
            Some(new) => self.add_entries(new),
            None => Err(self.err(ScErrorType::Object, ScErrorCode::MissingValue)),
        }
    }

    /// How many keys a map has.
    pub fn map_len(&mut self, m: MapObject) -> (res: Result<u32, HostError>)
        requires
            old(self).wf(),
        ensures
            final(self).wf(),
            does_map_len(*old(self), *final(self), m, res),
    {
        self.charge_visit()?;
        let hm = self.visit_map(m)?;
        self.usize_to_u32(hm.len())
    }

    /// Whether a map has a key.
    pub fn map_has(&mut self, m: MapObject, k: Val) -> (res: Result<bool, HostError>)
        requires
            old(self).wf(),
        ensures
            final(self).wf(),
            does_map_has(*old(self), *final(self), m, k, res),
    {
        self.check_val_integrity(k)?;
        self.charge_visit()?;
        let hm = self.visit_map(m)?;
        let (found, _) = self.map_find(hm, k)?;
        Ok(found)
    }

    /// The key at a position, in the order of the keys.
    pub fn map_key_by_pos(&mut self, m: MapObject, i: u32) -> (res: Result<Val, HostError>)
        requires
            old(self).wf(),
        ensures
            final(self).wf(),
            does_map_key_by_pos(*old(self), *final(self), m, i, res),
    {
        self.charge_visit()?;
        let hm = self.visit_map(m)?;
        if (i as usize) < hm.len() {
            Ok(hm[i as usize].0)
        } else {
            Err(self.err(ScErrorType::Object, ScErrorCode::IndexBounds))
        }
    }

    /// The value at a position, in the order of the keys.
    pub fn map_val_by_pos(&mut self, m: MapObject, i: u32) -> (res: Result<Val, HostError>)
        requires
            old(self).wf(),
        ensures
            final(self).wf(),
            does_map_val_by_pos(*old(self), *final(self), m, i, res),
    {
        self.charge_visit()?;
        let hm = self.visit_map(m)?;
        if (i as usize) < hm.len() {
            Ok(hm[i as usize].1)
        } else {
            Err(self.err(ScErrorType::Object, ScErrorCode::IndexBounds))
        }
    }

    /// The keys of a map, in order.
    pub fn map_keys(&mut self, m: MapObject) -> (res: Result<VecObject, HostError>)
        requires
            old(self).wf(),
        ensures
            final(self).wf(),
            does_map_keys(*old(self), *final(self), m, res),
    {
        self.charge_visit()?;
        let hm = self.visit_map(m)?;
        let keys = collect_keys(hm.as_slice());
        proof {
            let objs = self.objs();
            assert forall|i: int| 0 <= i < keys@.len() implies val_ok(objs, #[trigger] keys@[i]) by {
                let p = hm@[i];
            }
        }
        self.add_list(keys)
    }

    /// The values of a map, in the order of the keys.
    pub fn map_values(&mut self, m: MapObject) -> (res: Result<VecObject, HostError>)
        requires
            old(self).wf(),
        ensures
            final(self).wf(),
            does_map_values(*old(self), *final(self), m, res),
    {
        self.charge_visit()?;
        let hm = self.visit_map(m)?;
        let values = collect_values(hm.as_slice());
        proof {
            let objs = self.objs();
            assert forall|i: int| 0 <= i < values@.len() implies val_ok(objs, #[trigger] values@[i]) by {
                let p = hm@[i];
            }
        }
        self.add_list(values)
    }
}

proof fn lemma_map_fault_in_front(objs: Seq<ObjModel>, m: Seq<(Val, Val)>, n: int, end: int)
    requires
        n <= end,
        map_fault(objs, m, n) is Some,
    ensures
        map_fault(objs, m, end) == map_fault(objs, m, n),
    decreases end - n,
{
    if n < end {
        lemma_map_fault_in_front(objs, m, n, end - 1);
    }
}

pub open spec fn keys_of(m: Seq<(Val, Val)>) -> Seq<Val> {
    m.map_values(|p: (Val, Val)| p.0)
}

pub open spec fn values_of(m: Seq<(Val, Val)>) -> Seq<Val> {
    m.map_values(|p: (Val, Val)| p.1)
}

fn collect_keys(m: &[(Val, Val)]) -> (keys: Vec<Val>)
    ensures
        keys@ == keys_of(m@),
{
    let mut keys: Vec<Val> = Vec::new();
    let mut i: usize = 0;
    while i < m.len()
        invariant
            i <= m@.len(),
            keys@ == keys_of(m@.take(i as int)),
        decreases m@.len() - i,
    {
        keys.push(m[i].0);
        assert(keys@ =~= keys_of(m@.take(i + 1)));
        i += 1;
    }
    assert(m@.take(i as int) =~= m@);
    keys
}

pub(crate) fn collect_values(m: &[(Val, Val)]) -> (values: Vec<Val>)
    ensures
        values@ == values_of(m@),
{
    let mut values: Vec<Val> = Vec::new();
    let mut i: usize = 0;
    while i < m.len()
        invariant
            i <= m@.len(),
            values@ == values_of(m@.take(i as int)),
        decreases m@.len() - i,
    {
        values.push(m[i].1);
        assert(values@ =~= values_of(m@.take(i + 1)));
        i += 1;
    }
    assert(m@.take(i as int) =~= m@);
    values
}

/// What `map_put` does.
pub open spec fn does_map_put(
    pre: Host,
    post: Host,
    m: MapObject,
    k: Val,
    v: Val,
    res: Result<MapObject, HostError>,
) -> bool {
    match (val_fault(pre.objs(), k), val_fault(pre.objs(), v)) {
        (Some(f), _) => fails(pre, post, res, f),
        (None, Some(f)) => fails(pre, post, res, f),
        (None, None) => match looks_at(pre, m.handle, ObjectTag::MapObject) {
            (h, Err(e)) => gives_up(h, post, res, e),
            (h, Ok(obj)) => {
                ||| stores_entries(
                    h,
                    post,
                    map_insert(pre.objs(), obj->Mapping_0, k, v),
                    map_handle(res),
                )
                ||| fails(h, post, res, depth_fault()) && !within_depth(
                    pre.objs(),
                    obj->Mapping_0,
                    deep(pre.objs(), k),
                )
            },
        },
    }
}

/// What `map_get` does.
pub open spec fn does_map_get(
    pre: Host,
    post: Host,
    m: MapObject,
    k: Val,
    res: Result<Val, HostError>,
) -> bool {
    match val_fault(pre.objs(), k) {
        Some(f) => fails(pre, post, res, f),
        None => match looks_at(pre, m.handle, ObjectTag::MapObject) {
            (h, Err(e)) => gives_up(h, post, res, e),
            (h, Ok(obj)) => post == h && {
                ||| res == match lookup(h.objs(), obj->Mapping_0, deep(h.objs(), k)) {
                    Some(v) => Ok::<Val, HostError>(v),
                    None => Err(h.spec_err((ScErrorType::Object, ScErrorCode::MissingValue))),
                }
                ||| res == Err::<Val, HostError>(h.spec_err(depth_fault())) && !within_depth(
                    h.objs(),
                    obj->Mapping_0,
                    deep(h.objs(), k),
                )
            },
        },
    }
}

/// What `map_del` does.
pub open spec fn does_map_del(
    pre: Host,
    post: Host,
    m: MapObject,
    k: Val,
    res: Result<MapObject, HostError>,
) -> bool {
    match val_fault(pre.objs(), k) {
        Some(f) => fails(pre, post, res, f),
        None => match looks_at(pre, m.handle, ObjectTag::MapObject) {
            (h, Err(e)) => gives_up(h, post, res, e),
            (h, Ok(obj)) => {
                ||| if lookup(pre.objs(), obj->Mapping_0, deep(pre.objs(), k)) is Some {
                    stores_entries(
                        h,
                        post,
                        map_remove(pre.objs(), obj->Mapping_0, k),
                        map_handle(res),
                    )
                } else {
                    fails(h, post, res, (ScErrorType::Object, ScErrorCode::MissingValue))
                }
                ||| fails(h, post, res, depth_fault()) && !within_depth(
                    pre.objs(),
                    obj->Mapping_0,
                    deep(pre.objs(), k),
                )
            },
        },
    }
}

/// What `map_has` does.
pub open spec fn does_map_has(
    pre: Host,
    post: Host,
    m: MapObject,
    k: Val,
    res: Result<bool, HostError>,
) -> bool {
    match val_fault(pre.objs(), k) {
        Some(f) => fails(pre, post, res, f),
        None => match looks_at(pre, m.handle, ObjectTag::MapObject) {
            (h, Err(e)) => gives_up(h, post, res, e),
            (h, Ok(obj)) => post == h && {
                ||| res == Ok::<bool, HostError>(
                    lookup(h.objs(), obj->Mapping_0, deep(h.objs(), k)) is Some,
                )
                ||| res == Err::<bool, HostError>(h.spec_err(depth_fault())) && !within_depth(
                    h.objs(),
                    obj->Mapping_0,
                    deep(h.objs(), k),
                )
            },
        },
    }
}

/// What `map_len` does.
pub open spec fn does_map_len(
    pre: Host,
    post: Host,
    m: MapObject,
    res: Result<u32, HostError>,
) -> bool {
    (post, res) == match looks_at(pre, m.handle, ObjectTag::MapObject) {
        (h, Err(e)) => (h, Err::<u32, HostError>(e)),
        (h, Ok(obj)) => (
            h,
            if obj->Mapping_0.len() <= u32::MAX {
                Ok(obj->Mapping_0.len() as u32)
            } else {
                Err(pre.spec_err((ScErrorType::Value, ScErrorCode::ArithDomain)))
            },
        ),
    }
}

/// What `map_key_by_pos` does.
pub open spec fn does_map_key_by_pos(
    pre: Host,
    post: Host,
    m: MapObject,
    i: u32,
    res: Result<Val, HostError>,
) -> bool {
    (post, res) == match looks_at(pre, m.handle, ObjectTag::MapObject) {
        (h, Err(e)) => (h, Err::<Val, HostError>(e)),
        (h, Ok(obj)) => (
            h,
            if i < obj->Mapping_0.len() {
                Ok(obj->Mapping_0[i as int].0)
            } else {
                Err(pre.spec_err((ScErrorType::Object, ScErrorCode::IndexBounds)))
            },
        ),
    }
}

/// What `map_val_by_pos` does.
pub open spec fn does_map_val_by_pos(
    pre: Host,
    post: Host,
    m: MapObject,
    i: u32,
    res: Result<Val, HostError>,
) -> bool {
    (post, res) == match looks_at(pre, m.handle, ObjectTag::MapObject) {
        (h, Err(e)) => (h, Err::<Val, HostError>(e)),
        (h, Ok(obj)) => (
            h,
            if i < obj->Mapping_0.len() {
                Ok(obj->Mapping_0[i as int].1)
            } else {
                Err(pre.spec_err((ScErrorType::Object, ScErrorCode::IndexBounds)))
            },
        ),
    }
}

/// What `map_keys` does.
pub open spec fn does_map_keys(
    pre: Host,
    post: Host,
    m: MapObject,
    res: Result<VecObject, HostError>,
) -> bool {
    match looks_at(pre, m.handle, ObjectTag::MapObject) {
        (h, Err(e)) => gives_up(h, post, res, e),
        (h, Ok(obj)) => stores_list(h, post, keys_of(obj->Mapping_0), vec_handle(res)),
    }
}

/// What `map_values` does.
pub open spec fn does_map_values(
    pre: Host,
    post: Host,
    m: MapObject,
    res: Result<VecObject, HostError>,
) -> bool {
    match looks_at(pre, m.handle, ObjectTag::MapObject) {
        (h, Err(e)) => gives_up(h, post, res, e),
        (h, Ok(obj)) => stores_list(h, post, values_of(obj->Mapping_0), vec_handle(res)),
    }
}

} // verus!
