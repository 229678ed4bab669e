//! Values that were made into trees can be made into values again.

use crate::host::DEFAULT_HOST_DEPTH_LIMIT;
use crate::host_convert::{flat_entries, law_tree_val, lemma_tree_vals, pair_up, tree_val, tree_vals};
use crate::host_map::map_fault;
use crate::model::{
    deep, deep_order, deep_seq, interleave, key_at, law_order_levels_bounded, lemma_deep_mapping, lemma_deep_vector,
    lemma_interleave_ok, nesting, nesting_seq, obj_ok, rank, table_ok, val_ok, BlobKind, Deep, ObjModel,
};
use crate::scval::{sc_deep, sc_deep_entries, sc_deep_seq, ScVal};
use crate::symbol::{is_symbol, lemma_small_symbol_bytes_len, lemma_small_symbol_bytes_valid};
use crate::val::{spec_handle_to_index, Val, MAX_OBJECTS};
use vstd::prelude::*;

verus! {

/// Whether a thing could be the denotation of a value: its symbols are symbols,
/// its strings are not too long, and the keys of its maps are in order.
pub open spec fn sound(d: Deep) -> bool
    decreases d,
{
    match d {
        Deep::Blob(BlobKind::Symbol, s) => is_symbol(s),
        Deep::Blob(_, s) => s.len() <= u32::MAX,
        Deep::Vector(s) => forall|i: int| 0 <= i < s.len() ==> sound(#[trigger] s[i]),
        Deep::Mapping(s) => {
            &&& s.len() % 2 == 0
            &&& forall|i: int| 0 <= i < s.len() ==> sound(#[trigger] s[i])
            &&& forall|i: int| 0 <= i && 2 * i + 2 < s.len() ==> #[trigger] deep_order(s[2 * i], s[2 * i + 2]) < 0
        },
        _ => true,
    }
}

/// How many objects a thing takes at most.
pub open spec fn size(d: Deep) -> nat
    decreases d, 0nat,
{
    match d {
        Deep::Vector(s) => 1 + size_seq(s, s.len()),
        Deep::Mapping(s) => 1 + size_seq(s, s.len()),
        _ => 1,
    }
}

/// How many objects the first `n` things of a list take at most.
pub open spec fn size_seq(s: Seq<Deep>, n: nat) -> nat
    decreases s, n,
{
    if n == 0 || n > s.len() {
        0
    } else {
        size_seq(s, (n - 1) as nat) + size(s[n - 1])
    }
}

proof fn lemma_nesting_of_part(s: Seq<Deep>, i: nat, j: int)
    requires
        i <= j < s.len(),
    ensures
        nesting(s[j]) <= nesting_seq(s, i),
    decreases s.len() - i,
{
    if i < j {
        lemma_nesting_of_part(s, i + 1, j);
    }
}

/// What a well-formed value denotes is sound.
pub proof fn law_values_are_sound(objs: Seq<ObjModel>, v: Val)
    requires
        table_ok(objs),
        val_ok(objs, v),
    ensures
        sound(deep(objs, v)),
    decreases rank(v),
{
    match v {
        Val::SymbolSmall(body) => {
            lemma_small_symbol_bytes_valid(body as int);
            assert(body < vstd::arithmetic::power::pow(64, 10)) by {
                reveal_with_fuel(vstd::arithmetic::power::pow, 11);
            }
            lemma_small_symbol_bytes_len(body as int, 10);
            let s = crate::symbol::small_symbol_bytes(body as int);
            assert(is_symbol(s));
            assert(sound(Deep::Blob(BlobKind::Symbol, s)));
        },
        Val::Object(o) => {
            let k = spec_handle_to_index(o.handle);
            assert(obj_ok(objs.take(k), objs[k]));
            match objs[k] {
                ObjModel::Vector(s) => {
                    lemma_deep_vector(objs, o);
                    let d = deep_seq(objs, s);
                    assert forall|i: int| 0 <= i < d.len() implies sound(#[trigger] d[i]) by {
                        assert(val_ok(objs, s[i]));
                        law_values_are_sound(objs, s[i]);
                    }
                },
                ObjModel::Mapping(m) => {
                    lemma_deep_mapping(objs, o);
                    lemma_interleave_ok(objs, m);
                    let s = interleave(m);
                    let d = deep_seq(objs, s);
                    assert forall|i: int| 0 <= i < d.len() implies sound(#[trigger] d[i]) by {
                        assert(val_ok(objs, s[i]));
                        let p = m[i / 2];
                        assert(s[i] == p.0 || s[i] == p.1);
                        law_values_are_sound(objs, s[i]);
                    }
                    assert forall|i: int| 0 <= i && 2 * i + 2 < d.len() implies #[trigger] deep_order(
                        d[2 * i],
                        d[2 * i + 2],
                    ) < 0 by {
                        assert(d[2 * i] == key_at(objs, m, i));
                        assert(d[2 * i + 2] == key_at(objs, m, i + 1));
                    }
                },
                _ => {},
            }
        },
        _ => {},
    }
}

/// A tree that denotes something sound has a value, if it does not nest too deep
/// and the table has room.
pub proof fn law_sound_trees_have_values(objs: Seq<ObjModel>, t: ScVal, levels: nat)
    requires
        table_ok(objs),
        sound(sc_deep(t)),
        nesting(sc_deep(t)) <= levels <= DEFAULT_HOST_DEPTH_LIMIT,
        objs.len() + size(sc_deep(t)) <= MAX_OBJECTS,
    ensures
        tree_val(objs, t, levels).1 is Ok,
        tree_val(objs, t, levels).0.len() <= objs.len() + size(sc_deep(t)),
    decreases levels, 1nat,
{
    match t {
        ScVal::ScVec(s) => {
            let d = sc_deep_seq(s@);
            lemma_sound_lists_have_values(objs, s@, d, s@.len(), (levels - 1) as nat);
        },
        ScVal::ScMap(m) => {
            let d = sc_deep_entries(m@);
            let flat = flat_entries(m@);
            assert forall|j: int| 0 <= j < flat.len() implies #[trigger] d[j] == sc_deep(flat[j]) by {}
            lemma_sound_lists_have_values(objs, flat, d, flat.len(), (levels - 1) as nat);
            lemma_tree_vals(objs, flat, flat.len(), (levels - 1) as nat);
            let parts = tree_vals(objs, flat, flat.len(), (levels - 1) as nat);
            let vals = parts.1->Ok_0;
            let pairs = pair_up(vals);
            assert forall|i: int| 0 <= i < pairs.len() implies #[trigger] key_at(parts.0, pairs, i) == d[2 * i] by {
                assert(deep_seq(parts.0, vals)[2 * i] == sc_deep(flat[2 * i]));
            }
            lemma_no_map_fault(parts.0, pairs, d, pairs.len() as int, (levels - 1) as nat);
        },
        _ => {},
    }
}

proof fn lemma_no_map_fault(objs: Seq<ObjModel>, m: Seq<(Val, Val)>, d: Seq<Deep>, n: int, levels: nat)
    requires
        0 <= n <= m.len(),
        d.len() == 2 * m.len(),
        forall|i: int| 0 <= i < m.len() ==> #[trigger] key_at(objs, m, i) == d[2 * i],
        nesting_seq(d, 0) <= levels <= DEFAULT_HOST_DEPTH_LIMIT,
        forall|i: int| 0 <= i && 2 * i + 2 < d.len() ==> #[trigger] deep_order(d[2 * i], d[2 * i + 2]) < 0,
    ensures
        map_fault(objs, m, n) is None,
    decreases n,
{
    if n >= 2 {
        lemma_no_map_fault(objs, m, d, n - 1, levels);
        let i = n - 2;
        assert(key_at(objs, m, i) == d[2 * i]);
        assert(key_at(objs, m, i + 1) == d[2 * (i + 1)]);
        assert(2 * (i + 1) == 2 * i + 2);
        assert(deep_order(d[2 * i], d[2 * i + 2]) < 0);
        law_order_levels_bounded(d[2 * i], d[2 * i + 2]);
        lemma_nesting_of_part(d, 0, 2 * i);
    }
}

proof fn lemma_sound_lists_have_values(objs: Seq<ObjModel>, s: Seq<ScVal>, d: Seq<Deep>, n: nat, levels: nat)
    requires
        table_ok(objs),
        n <= s.len() == d.len(),
        forall|j: int| 0 <= j < s.len() ==> #[trigger] d[j] == sc_deep(s[j]),
        forall|j: int| 0 <= j < s.len() ==> sound(#[trigger] d[j]),
        nesting_seq(d, 0) <= levels <= DEFAULT_HOST_DEPTH_LIMIT,
        objs.len() + size_seq(d, n) < MAX_OBJECTS,
    ensures
        tree_vals(objs, s, n, levels).1 is Ok,
        tree_vals(objs, s, n, levels).0.len() <= objs.len() + size_seq(d, n),
    decreases levels, n + 1,
{
    if n > 0 {
        lemma_sound_lists_have_values(objs, s, d, (n - 1) as nat, levels);
        lemma_tree_vals(objs, s, (n - 1) as nat, levels);
        let before = tree_vals(objs, s, (n - 1) as nat, levels);
        lemma_nesting_of_part(d, 0, n - 1);
        assert(sound(d[n - 1]));
        law_sound_trees_have_values(before.0, s[n - 1], levels);
    }
}

/// A value that was made into a tree can be made into a value again, in any
/// table with room for it, and denotes the same then.
pub proof fn law_value_comes_back(objs: Seq<ObjModel>, v: Val, t: ScVal, later: Seq<ObjModel>)
    requires
        table_ok(objs),
        val_ok(objs, v),
        nesting(deep(objs, v)) <= DEFAULT_HOST_DEPTH_LIMIT,
        sc_deep(t) == deep(objs, v),
        table_ok(later),
        later.len() + size(deep(objs, v)) <= MAX_OBJECTS,
    ensures
        ({
            let out = tree_val(later, t, DEFAULT_HOST_DEPTH_LIMIT as nat);
            out.1 is Ok && deep(out.0, out.1->Ok_0) == deep(objs, v)
        }),
{
    law_values_are_sound(objs, v);
    law_sound_trees_have_values(later, t, DEFAULT_HOST_DEPTH_LIMIT as nat);
    law_tree_val(later, t, DEFAULT_HOST_DEPTH_LIMIT as nat);
}

} // verus!
