//! Values to trees and back.

use crate::bignum::{I256, U256};
use crate::error::{Fault, HostError, ScErrorCode, ScErrorType};
use crate::host::{Host, HostObject, DEFAULT_HOST_DEPTH_LIMIT};
use crate::host_map::{depth_fault, law_map_fault, map_fault};
use crate::host_object::val_fault;
use crate::model::{
    deep, deep_seq, extends, interleave, lemma_deep_mapping, lemma_deep_vector, lemma_push_ok, lemma_vals_ok_extends,
    map_ok, nesting, nesting_seq, obj_ok, table_ok, val_ok, vals_ok, BlobKind, Deep, NumKind, ObjModel,
};
use crate::scval::{sc_deep, sc_deep_entries, sc_deep_seq, ScMapEntry, ScVal};
use crate::symbol::{
    fits_small_symbol, is_symbol, law_small_symbol_round_trip, lemma_small_symbol_body_bound, small_symbol_body,
    small_symbol_to_bytes, try_small_symbol, check_symbol_chars, SCSYMBOL_LIMIT,
};
use crate::util::copy_bytes;
use crate::val::{spec_handle_to_index, spec_index_to_handle, Object, Val, MAX_OBJECTS, SIGNED_SMALL_LIMIT, SMALL_LIMIT};
use vstd::prelude::*;

verus! {

/// An object is added to a table, unless the table is full.
pub open spec fn push_obj(objs: Seq<ObjModel>, o: ObjModel) -> (Seq<ObjModel>, Result<Val, Fault>) {
    if objs.len() < MAX_OBJECTS {
        (
            objs.push(o),
            Ok(
                Val::Object(
                    Object { tag: o.tag(), handle: spec_index_to_handle(objs.len() as int, false) as u32 },
                ),
            ),
        )
    } else {
        (objs, Err((ScErrorType::Value, ScErrorCode::ArithDomain)))
    }
}

/// The small value of a number, if the number is small.
pub open spec fn small_num(kind: NumKind, x: int) -> Option<Val> {
    match kind {
        NumKind::U32 => Some(Val::U32(x as u32)),
        NumKind::I32 => Some(Val::I32(x as i32)),
        NumKind::U64 => if 0 <= x < SMALL_LIMIT {
            Some(Val::U64Small(x as u64))
        } else {
            None
        },
        NumKind::I64 => if -SIGNED_SMALL_LIMIT <= x < SIGNED_SMALL_LIMIT {
            Some(Val::I64Small(x as i64))
        } else {
            None
        },
        NumKind::Timepoint => if 0 <= x < SMALL_LIMIT {
            Some(Val::TimepointSmall(x as u64))
        } else {
            None
        },
        NumKind::Duration => if 0 <= x < SMALL_LIMIT {
            Some(Val::DurationSmall(x as u64))
        } else {
            None
        },
        NumKind::U128 => if 0 <= x < SMALL_LIMIT {
            Some(Val::U128Small(x as u64))
        } else {
            None
        },
        NumKind::I128 => if -SIGNED_SMALL_LIMIT <= x < SIGNED_SMALL_LIMIT {
            Some(Val::I128Small(x as i64))
        } else {
            None
        },
        NumKind::U256 => if 0 <= x < SMALL_LIMIT {
            Some(Val::U256Small(x as u64))
        } else {
            None
        },
        NumKind::I256 => if -SIGNED_SMALL_LIMIT <= x < SIGNED_SMALL_LIMIT {
            Some(Val::I256Small(x as i64))
        } else {
            None
        },
    }
}

/// The value of a number: a small one, or a new object.
pub open spec fn num_val(objs: Seq<ObjModel>, kind: NumKind, x: int) -> (Seq<ObjModel>, Result<Val, Fault>) {
    match small_num(kind, x) {
        Some(v) => (objs, Ok(v)),
        None => push_obj(objs, ObjModel::Num(kind, x)),
    }
}

/// The value of a symbol: a small one, or a new object.
pub open spec fn symbol_val(objs: Seq<ObjModel>, s: Seq<u8>) -> (Seq<ObjModel>, Result<Val, Fault>) {
    if fits_small_symbol(s) {
        (objs, Ok(Val::SymbolSmall(small_symbol_body(s) as u64)))
    } else if !is_symbol(s) {
        (objs, Err((ScErrorType::Value, ScErrorCode::InvalidInput)))
    } else {
        push_obj(objs, ObjModel::Blob(BlobKind::Symbol, s))
    }
}

/// The value of a byte string or a text: a new object.
pub open spec fn blob_val(objs: Seq<ObjModel>, kind: BlobKind, s: Seq<u8>) -> (Seq<ObjModel>, Result<Val, Fault>) {
    if s.len() > u32::MAX {
        (objs, Err((ScErrorType::Value, ScErrorCode::InvalidInput)))
    } else {
        push_obj(objs, ObjModel::Blob(kind, s))
    }
}

/// The pairs that a list of keys and values in turn stands for.
pub open spec fn pair_up(s: Seq<Val>) -> Seq<(Val, Val)> {
    Seq::new(s.len() / 2, |i: int| (s[2 * i], s[2 * i + 1]))
}

/// The keys and values of a list of entries in turn.
pub open spec fn flat_entries(m: Seq<ScMapEntry>) -> Seq<ScVal> {
    Seq::new(
        2 * m.len(),
        |j: int|
            if j % 2 == 0 {
                m[j / 2].key
            } else {
                m[j / 2].val
            },
    )
}

/// The value of a tree, with the table that its handles point into: the old
/// table with an object added for each part that is not small, inner parts
/// first. Trees that nest deeper than a number of levels have no value.
pub open spec fn tree_val(objs: Seq<ObjModel>, t: ScVal, levels: nat) -> (Seq<ObjModel>, Result<Val, Fault>)
    decreases levels, 0nat,
{
    if levels == 0 {
        (objs, Err(depth_fault()))
    } else {
        match t {
            ScVal::Bool(b) => (objs, Ok(Val::Bool(b))),
            ScVal::Void => (objs, Ok(Val::Void)),
            ScVal::Error(e) => (objs, Ok(Val::Error(e))),
            ScVal::U32(x) => num_val(objs, NumKind::U32, x as int),
            ScVal::I32(x) => num_val(objs, NumKind::I32, x as int),
            ScVal::U64(x) => num_val(objs, NumKind::U64, x as int),
            ScVal::I64(x) => num_val(objs, NumKind::I64, x as int),
            ScVal::Timepoint(x) => num_val(objs, NumKind::Timepoint, x as int),
            ScVal::Duration(x) => num_val(objs, NumKind::Duration, x as int),
            ScVal::U128(x) => num_val(objs, NumKind::U128, x as int),
            ScVal::I128(x) => num_val(objs, NumKind::I128, x as int),
            ScVal::U256(x) => num_val(objs, NumKind::U256, x@),
            ScVal::I256(x) => num_val(objs, NumKind::I256, x@),
            ScVal::Bytes(s) => blob_val(objs, BlobKind::Bytes, s@),
            ScVal::Text(s) => blob_val(objs, BlobKind::Text, s@),
            ScVal::Symbol(s) => symbol_val(objs, s@),
            ScVal::ScVec(s) => {
                let parts = tree_vals(objs, s@, s@.len(), (levels - 1) as nat);
                match parts.1 {
                    Err(f) => (parts.0, Err(f)),
                    Ok(vals) => push_obj(parts.0, ObjModel::Vector(vals)),
                }
            },
            ScVal::ScMap(m) => {
                let parts = tree_vals(objs, flat_entries(m@), 2 * m@.len(), (levels - 1) as nat);
                match parts.1 {
                    Err(f) => (parts.0, Err(f)),
                    Ok(vals) => match map_fault(parts.0, pair_up(vals), pair_up(vals).len() as int) {
                        Some(f) => (parts.0, Err(f)),
                        None => push_obj(parts.0, ObjModel::Mapping(pair_up(vals))),
                    },
                }
            },
            ScVal::Address(a) => push_obj(objs, ObjModel::Address(a)),
        }
    }
}

/// The values of the first `n` trees of a list.
pub open spec fn tree_vals(objs: Seq<ObjModel>, s: Seq<ScVal>, n: nat, levels: nat) -> (
    Seq<ObjModel>,
    Result<Seq<Val>, Fault>,
)
    decreases levels, n,
{
    if n == 0 {
        (objs, Ok(Seq::empty()))
    } else {
        let before = tree_vals(objs, s, (n - 1) as nat, levels);
        match before.1 {
            Err(f) => before,
            Ok(vals) => {
                let last = tree_val(before.0, s[n - 1], levels);
                match last.1 {
                    Err(f) => (last.0, Err(f)),
                    Ok(v) => (last.0, Ok(vals.push(v))),
                }
            },
        }
    }
}

/// Only the table of objects has changed, to the given one.
pub open spec fn sets_objs(pre: Host, post: Host, objs: Seq<ObjModel>) -> bool {
    &&& post.wf()
    &&& post.objs() == objs
    &&& post == (Host { objects: post.objects, ..pre })
}

/// The outcome of adding objects: the new table, and the value or the fault.
pub open spec fn adds<T>(
    pre: Host,
    post: Host,
    res: Result<T, HostError>,
    out: (Seq<ObjModel>, Result<T, Fault>),
) -> bool {
    &&& sets_objs(pre, post, out.0)
    &&& res == match out.1 {
        Ok(v) => Ok::<T, HostError>(v),
        Err(f) => Err(pre.spec_err(f)),
    }
}

proof fn lemma_push_obj(objs: Seq<ObjModel>, o: ObjModel)
    requires
        table_ok(objs),
        obj_ok(objs, o),
    ensures
        table_ok(push_obj(objs, o).0),
        extends(objs, push_obj(objs, o).0),
        push_obj(objs, o).1 matches Ok(v) ==> val_ok(push_obj(objs, o).0, v) && push_obj(objs, o).0[spec_handle_to_index(
            v->Object_0.handle,
        )] == o,
{
    if objs.len() < MAX_OBJECTS {
        lemma_push_ok(objs, o);
        assert(objs.push(o)[objs.len() as int] == o);
    }
}

/// The value of a tree denotes what the tree denotes, and adding it leaves all
/// that was there as it was.
pub proof fn law_tree_val(objs: Seq<ObjModel>, t: ScVal, levels: nat)
    requires
        table_ok(objs),
    ensures
        table_ok(tree_val(objs, t, levels).0),
        extends(objs, tree_val(objs, t, levels).0),
        tree_val(objs, t, levels).1 matches Ok(v) ==> {
            &&& val_ok(tree_val(objs, t, levels).0, v)
            &&& deep(tree_val(objs, t, levels).0, v) == sc_deep(t)
        },
    decreases levels, 1nat,
{
    if levels > 0 {
        match t {
            ScVal::Bytes(s) => {
                if s@.len() <= u32::MAX {
                    lemma_push_obj(objs, ObjModel::Blob(BlobKind::Bytes, s@));
                }
            },
            ScVal::Text(s) => {
                if s@.len() <= u32::MAX {
                    lemma_push_obj(objs, ObjModel::Blob(BlobKind::Text, s@));
                }
            },
            ScVal::Symbol(s) => lemma_symbol_val(objs, s@),
            ScVal::ScVec(s) => lemma_tree_val_vector(objs, s, levels),
            ScVal::ScMap(m) => lemma_tree_val_mapping(objs, m, levels),
            ScVal::Address(a) => lemma_push_obj(objs, ObjModel::Address(a)),
            ScVal::U64(x) => lemma_num_val(objs, NumKind::U64, x as int),
            ScVal::I64(x) => lemma_num_val(objs, NumKind::I64, x as int),
            ScVal::Timepoint(x) => lemma_num_val(objs, NumKind::Timepoint, x as int),
            ScVal::Duration(x) => lemma_num_val(objs, NumKind::Duration, x as int),
            ScVal::U128(x) => lemma_num_val(objs, NumKind::U128, x as int),
            ScVal::I128(x) => lemma_num_val(objs, NumKind::I128, x as int),
            ScVal::U256(x) => lemma_num_val(objs, NumKind::U256, x@),
            ScVal::I256(x) => lemma_num_val(objs, NumKind::I256, x@),
            _ => {},
        }
    }
}

pub(crate) proof fn lemma_symbol_val(objs: Seq<ObjModel>, s: Seq<u8>)
    requires
        table_ok(objs),
    ensures
        table_ok(symbol_val(objs, s).0),
        extends(objs, symbol_val(objs, s).0),
        symbol_val(objs, s).1 matches Ok(v) ==> {
            &&& val_ok(symbol_val(objs, s).0, v)
            &&& deep(symbol_val(objs, s).0, v) == Deep::Blob(BlobKind::Symbol, s)
        },
{
    if fits_small_symbol(s) {
        law_small_symbol_round_trip(s);
        lemma_small_symbol_body_bound(s, 9);
    } else if is_symbol(s) {
        lemma_push_obj(objs, ObjModel::Blob(BlobKind::Symbol, s));
    }
}

/// The value of a number that is in the range of its type denotes the number.
pub proof fn lemma_num_val(objs: Seq<ObjModel>, kind: NumKind, x: int)
    requires
        table_ok(objs),
        kind != NumKind::U32,
        kind != NumKind::I32,
    ensures
        table_ok(num_val(objs, kind, x).0),
        extends(objs, num_val(objs, kind, x).0),
        num_val(objs, kind, x).1 matches Ok(v) ==> {
            &&& val_ok(num_val(objs, kind, x).0, v)
            &&& deep(num_val(objs, kind, x).0, v) == Deep::Num(kind, x)
        },
{
    if small_num(kind, x) is None {
        lemma_push_obj(objs, ObjModel::Num(kind, x));
    }
}

proof fn lemma_tree_val_vector(objs: Seq<ObjModel>, s: Vec<ScVal>, levels: nat)
    requires
        table_ok(objs),
        levels > 0,
    ensures
        ({
            let out = tree_val(objs, ScVal::ScVec(s), levels);
            &&& table_ok(out.0)
            &&& extends(objs, out.0)
            &&& out.1 matches Ok(v) ==> val_ok(out.0, v) && deep(out.0, v) == sc_deep(ScVal::ScVec(s))
        }),
    decreases levels, 0nat,
{
    let parts = tree_vals(objs, s@, s@.len(), (levels - 1) as nat);
    lemma_tree_vals(objs, s@, s@.len(), (levels - 1) as nat);
    if let Ok(vals) = parts.1 {
        let o = ObjModel::Vector(vals);
        lemma_push_obj(parts.0, o);
        if let Ok(v) = push_obj(parts.0, o).1 {
            let more = push_obj(parts.0, o).0;
            lemma_deep_vector(more, v->Object_0);
            lemma_vals_ok_extends(parts.0, more, vals);
            assert(deep_seq(more, vals) =~= sc_deep_seq(s@));
        }
    }
}

proof fn lemma_tree_val_mapping(objs: Seq<ObjModel>, m: Vec<ScMapEntry>, levels: nat)
    requires
        table_ok(objs),
        levels > 0,
    ensures
        ({
            let out = tree_val(objs, ScVal::ScMap(m), levels);
            &&& table_ok(out.0)
            &&& extends(objs, out.0)
            &&& out.1 matches Ok(v) ==> val_ok(out.0, v) && deep(out.0, v) == sc_deep(ScVal::ScMap(m))
        }),
    decreases levels, 0nat,
{
    let flat = flat_entries(m@);
    let parts = tree_vals(objs, flat, 2 * m@.len(), (levels - 1) as nat);
    lemma_tree_vals(objs, flat, 2 * m@.len(), (levels - 1) as nat);
    if let Ok(vals) = parts.1 {
        let pairs = pair_up(vals);
        if map_fault(parts.0, pairs, pairs.len() as int) is None {
            lemma_pushed_mapping(parts.0, vals);
            assert(deep_seq(parts.0, vals) =~= sc_deep_entries(m@)) by {
                assert forall|j: int| 0 <= j < vals.len() implies deep_seq(parts.0, vals)[j] == sc_deep_entries(
                    m@,
                )[j] by {
                    assert(deep_seq(parts.0, vals)[j] == sc_deep(flat[j]));
                }
            }
        }
    }
}

/// A handle of a new map denotes the keys and values that the map was made of.
proof fn lemma_pushed_mapping(objs: Seq<ObjModel>, vals: Seq<Val>)
    requires
        table_ok(objs),
        vals_ok(objs, vals),
        vals.len() % 2 == 0,
        map_fault(objs, pair_up(vals), pair_up(vals).len() as int) is None,
    ensures
        ({
            let out = push_obj(objs, ObjModel::Mapping(pair_up(vals)));
            &&& table_ok(out.0)
            &&& extends(objs, out.0)
            &&& out.1 matches Ok(v) ==> val_ok(out.0, v) && deep(out.0, v) == Deep::Mapping(deep_seq(objs, vals))
        }),
{
    let pairs = pair_up(vals);
    let o = ObjModel::Mapping(pairs);
    lemma_pairs_ok(objs, vals);
    lemma_push_obj(objs, o);
    if let Ok(v) = push_obj(objs, o).1 {
        let more = push_obj(objs, o).0;
        lemma_deep_mapping(more, v->Object_0);
        assert(interleave(pairs) =~= vals);
        lemma_vals_ok_extends(objs, more, vals);
    }
}

/// A list of pairs without a fault as a map is a well-formed map.
proof fn lemma_pairs_ok(objs: Seq<ObjModel>, vals: Seq<Val>)
    requires
        vals_ok(objs, vals),
        map_fault(objs, pair_up(vals), pair_up(vals).len() as int) is None,
    ensures
        map_ok(objs, pair_up(vals)),
{
    let pairs = pair_up(vals);
    law_map_fault(objs, pairs, pairs.len() as int);
    assert(pairs.take(pairs.len() as int) =~= pairs);
    assert forall|i: int| 0 <= i < pairs.len() implies val_ok(objs, (#[trigger] pairs[i]).0) && val_ok(
        objs,
        pairs[i].1,
    ) by {
        assert(val_ok(objs, vals[2 * i]) && val_ok(objs, vals[2 * i + 1]));
    }
}

/// The values of trees denote what the trees denote.
pub proof fn lemma_tree_vals(objs: Seq<ObjModel>, s: Seq<ScVal>, n: nat, levels: nat)
    requires
        table_ok(objs),
        n <= s.len(),
    ensures
        ({
            let out = tree_vals(objs, s, n, levels);
            &&& table_ok(out.0)
            &&& extends(objs, out.0)
            &&& out.1 matches Ok(vals) ==> {
                &&& vals.len() == n
                &&& vals_ok(out.0, vals)
                &&& forall|j: int| 0 <= j < n ==> #[trigger] deep_seq(out.0, vals)[j] == sc_deep(s[j])
            }
        }),
    decreases levels, n + 1,
{
    if n > 0 {
        let before = tree_vals(objs, s, (n - 1) as nat, levels);
        lemma_tree_vals(objs, s, (n - 1) as nat, levels);
        if let Ok(vals) = before.1 {
            let last = tree_val(before.0, s[n - 1], levels);
            law_tree_val(before.0, s[n - 1], levels);
            if let Ok(v) = last.1 {
                lemma_vals_ok_extends(before.0, last.0, vals);
                let all = vals.push(v);
                assert forall|j: int| 0 <= j < n implies val_ok(last.0, #[trigger] all[j]) && deep_seq(last.0, all)[j]
                    == sc_deep(s[j]) by {
                    if j < n - 1 {
                        assert(all[j] == vals[j]);
                        assert(val_ok(last.0, vals[j]));
                        assert(deep_seq(last.0, vals)[j] == deep_seq(before.0, vals)[j]);
                    }
                }
                assert forall|j: int| 0 <= j < n implies #[trigger] deep_seq(last.0, all)[j] == sc_deep(s[j]) by {
                    assert(val_ok(last.0, all[j]));
                }
            }
        }
    }
}

/// The value of a tree depends only on what the tree denotes.
pub proof fn law_tree_val_by_denotation(objs: Seq<ObjModel>, t: ScVal, u: ScVal, levels: nat)
    requires
        sc_deep(t) == sc_deep(u),
    ensures
        tree_val(objs, t, levels) == tree_val(objs, u, levels),
    decreases levels, 1nat,
{
    if levels > 0 {
        match (t, u) {
            (ScVal::ScVec(s), ScVal::ScVec(r)) => {
                assert(sc_deep_seq(s@).len() == sc_deep_seq(r@).len());
                assert forall|j: int| 0 <= j < s@.len() implies sc_deep(#[trigger] s@[j]) == sc_deep(r@[j]) by {
                    assert(sc_deep_seq(s@)[j] == sc_deep_seq(r@)[j]);
                }
                lemma_tree_vals_by_denotation(objs, s@, r@, s@.len(), (levels - 1) as nat);
            },
            (ScVal::ScMap(m), ScVal::ScMap(r)) => {
                lemma_entries_by_denotation(objs, m@, r@, (levels - 1) as nat);
            },
            _ => {},
        }
    }
}

/// The values of entries depend only on what the entries denote.
pub(crate) proof fn lemma_entries_by_denotation(
    objs: Seq<ObjModel>,
    m: Seq<ScMapEntry>,
    r: Seq<ScMapEntry>,
    levels: nat,
)
    requires
        sc_deep_entries(m) == sc_deep_entries(r),
    ensures
        m.len() == r.len(),
        tree_vals(objs, flat_entries(m), 2 * m.len(), levels) == tree_vals(
            objs,
            flat_entries(r),
            2 * m.len(),
            levels,
        ),
    decreases levels, 2 * m.len() + 3,
{
    assert(sc_deep_entries(m).len() == 2 * m.len() && sc_deep_entries(r).len() == 2 * r.len());
    assert forall|j: int| 0 <= j < 2 * m.len() implies sc_deep(#[trigger] flat_entries(m)[j]) == sc_deep(
        flat_entries(r)[j],
    ) by {
        assert(sc_deep_entries(m)[j] == sc_deep(flat_entries(m)[j]));
        assert(sc_deep_entries(r)[j] == sc_deep(flat_entries(r)[j]));
    }
    lemma_tree_vals_by_denotation(objs, flat_entries(m), flat_entries(r), 2 * m.len(), levels);
}

proof fn lemma_tree_vals_by_denotation(objs: Seq<ObjModel>, s: Seq<ScVal>, r: Seq<ScVal>, n: nat, levels: nat)
    requires
        n <= s.len(),
        n <= r.len(),
        forall|j: int| 0 <= j < n ==> sc_deep(#[trigger] s[j]) == sc_deep(r[j]),
    ensures
        tree_vals(objs, s, n, levels) == tree_vals(objs, r, n, levels),
    decreases levels, n + 2,
{
    if n > 0 {
        lemma_tree_vals_by_denotation(objs, s, r, (n - 1) as nat, levels);
        let before = tree_vals(objs, s, (n - 1) as nat, levels);
        assert(sc_deep(s[n - 1]) == sc_deep(r[n - 1]));
        law_tree_val_by_denotation(before.0, s[n - 1], r[n - 1], levels);
    }
}

impl Host {
    /// Adds an object that is known to be well formed.
    fn add_obj_val(&mut self, o: HostObject) -> (res: Result<Val, HostError>)
        requires
            old(self).wf(),
            obj_ok(old(self).objs(), o@),
        ensures
            adds(*old(self), *final(self), res, push_obj(old(self).objs(), o@)),
    {
        let tag = o.tag();
        match self.add_host_object(o) {
            Ok(handle) => Ok(Val::Object(Object { tag, handle })),
            Err(e) => Err(e),
        }
    }

    pub(crate) fn u64_to_val(&mut self, x: u64) -> (res: Result<Val, HostError>)
        requires
            old(self).wf(),
        ensures
            adds(*old(self), *final(self), res, num_val(old(self).objs(), NumKind::U64, x as int)),
    {
        if x < SMALL_LIMIT {
            Ok(Val::U64Small(x))
        } else {
            self.add_obj_val(HostObject::U64(x))
        }
    }

    pub(crate) fn i64_to_val(&mut self, x: i64) -> (res: Result<Val, HostError>)
        requires
            old(self).wf(),
        ensures
            adds(*old(self), *final(self), res, num_val(old(self).objs(), NumKind::I64, x as int)),
    {
        if -SIGNED_SMALL_LIMIT <= x && x < SIGNED_SMALL_LIMIT {
            Ok(Val::I64Small(x))
        } else {
            self.add_obj_val(HostObject::I64(x))
        }
    }

    pub(crate) fn timepoint_to_val(&mut self, x: u64) -> (res: Result<Val, HostError>)
        requires
            old(self).wf(),
        ensures
            adds(*old(self), *final(self), res, num_val(old(self).objs(), NumKind::Timepoint, x as int)),
    {
        if x < SMALL_LIMIT {
            Ok(Val::TimepointSmall(x))
        } else {
            self.add_obj_val(HostObject::TimePoint(x))
        }
    }

    pub(crate) fn duration_to_val(&mut self, x: u64) -> (res: Result<Val, HostError>)
        requires
            old(self).wf(),
        ensures
            adds(*old(self), *final(self), res, num_val(old(self).objs(), NumKind::Duration, x as int)),
    {
        if x < SMALL_LIMIT {
            Ok(Val::DurationSmall(x))
        } else {
            self.add_obj_val(HostObject::Duration(x))
        }
    }

    pub(crate) fn u128_to_val(&mut self, x: u128) -> (res: Result<Val, HostError>)
        requires
            old(self).wf(),
        ensures
            adds(*old(self), *final(self), res, num_val(old(self).objs(), NumKind::U128, x as int)),
    {
        if x < SMALL_LIMIT as u128 {
            Ok(Val::U128Small(x as u64))
        } else {
            self.add_obj_val(HostObject::U128(x))
        }
    }

    pub(crate) fn i128_to_val(&mut self, x: i128) -> (res: Result<Val, HostError>)
        requires
            old(self).wf(),
        ensures
            adds(*old(self), *final(self), res, num_val(old(self).objs(), NumKind::I128, x as int)),
    {
        if -(SIGNED_SMALL_LIMIT as i128) <= x && x < SIGNED_SMALL_LIMIT as i128 {
            Ok(Val::I128Small(x as i64))
        } else {
            self.add_obj_val(HostObject::I128(x))
        }
    }

    pub(crate) fn u256_to_val(&mut self, x: U256) -> (res: Result<Val, HostError>)
        requires
            old(self).wf(),
        ensures
            adds(*old(self), *final(self), res, num_val(old(self).objs(), NumKind::U256, x@)),
    {
        if x.hi == 0 && x.lo < SMALL_LIMIT as u128 {
            Ok(Val::U256Small(x.lo as u64))
        } else {
            self.add_obj_val(HostObject::U256(x))
        }
    }

    pub(crate) fn i256_to_val(&mut self, x: I256) -> (res: Result<Val, HostError>)
        requires
            old(self).wf(),
        ensures
            adds(*old(self), *final(self), res, num_val(old(self).objs(), NumKind::I256, x@)),
    {
        if x.hi == 0 && x.lo < SIGNED_SMALL_LIMIT as u128 {
            Ok(Val::I256Small(x.lo as i64))
        } else if x.hi == -1 && u128::MAX - x.lo < SIGNED_SMALL_LIMIT as u128 {
            Ok(Val::I256Small(-1 - (u128::MAX - x.lo) as i64))
        } else {
            self.add_obj_val(HostObject::I256(x))
        }
    }

    pub(crate) fn symbol_to_val(&mut self, s: &[u8]) -> (res: Result<Val, HostError>)
        requires
            old(self).wf(),
        ensures
            adds(*old(self), *final(self), res, symbol_val(old(self).objs(), s@)),
    {
        match try_small_symbol(s) {
            Some(body) => Ok(Val::SymbolSmall(body)),
            None => {
                if s.len() > SCSYMBOL_LIMIT || !check_symbol_chars(s) {
                    Err(self.err(ScErrorType::Value, ScErrorCode::InvalidInput))
                } else {
                    self.add_obj_val(HostObject::Symbol(copy_bytes(s)))
                }
            },
        }
    }

    fn blob_to_val(&mut self, s: &Vec<u8>, kind: BlobKind) -> (res: Result<Val, HostError>)
        requires
            old(self).wf(),
            kind != BlobKind::Symbol,
        ensures
            adds(*old(self), *final(self), res, blob_val(old(self).objs(), kind, s@)),
    {
        if s.len() > u32::MAX as usize {
            return Err(self.err(ScErrorType::Value, ScErrorCode::InvalidInput));
        }
        match kind {
            BlobKind::Text => self.add_obj_val(HostObject::Text(copy_bytes(s.as_slice()))),
            _ => self.add_obj_val(HostObject::Bytes(copy_bytes(s.as_slice()))),
        }
    }

    /// Makes a value of a tree that nests within a number of levels.
    fn to_host_val_within(&mut self, t: &ScVal, levels: u32) -> (res: Result<Val, HostError>)
        requires
            old(self).wf(),
        ensures
            adds(*old(self), *final(self), res, tree_val(old(self).objs(), *t, levels as nat)),
        decreases levels, 0nat,
    {
        if levels == 0 {
            return Err(self.err(ScErrorType::Context, ScErrorCode::ExceededLimit));
        }
        match t {
            ScVal::Bool(b) => Ok(Val::Bool(*b)),
            ScVal::Void => Ok(Val::Void),
            ScVal::Error(e) => Ok(Val::Error(*e)),
            ScVal::U32(x) => Ok(Val::U32(*x)),
            ScVal::I32(x) => Ok(Val::I32(*x)),
            ScVal::U64(x) => self.u64_to_val(*x),
            ScVal::I64(x) => self.i64_to_val(*x),
            ScVal::Timepoint(x) => self.timepoint_to_val(*x),
            ScVal::Duration(x) => self.duration_to_val(*x),
            ScVal::U128(x) => self.u128_to_val(*x),
            ScVal::I128(x) => self.i128_to_val(*x),
            ScVal::U256(x) => self.u256_to_val(*x),
            ScVal::I256(x) => self.i256_to_val(*x),
            ScVal::Bytes(s) => self.blob_to_val(s, BlobKind::Bytes),
            ScVal::Text(s) => self.blob_to_val(s, BlobKind::Text),
            ScVal::Symbol(s) => self.symbol_to_val(s.as_slice()),
            ScVal::ScVec(s) => {
                let ghost objs = self.objs();
                proof {
                    lemma_tree_vals(objs, s@, s@.len(), (levels - 1) as nat);
                }
                let vals = self.list_to_vals(s, levels - 1)?;
                self.add_obj_val(HostObject::HostVec(vals))
            },
            ScVal::ScMap(m) => {
                let ghost objs = self.objs();
                proof {
                    lemma_tree_vals(objs, flat_entries(m@), 2 * m@.len(), (levels - 1) as nat);
                }
                let (pairs, Ghost(vals)) = self.entries_to_pairs(m, levels - 1)?;
                proof {
                    assert forall|i: int| 0 <= i < pairs@.len() implies val_ok(self.objs(), (#[trigger] pairs@[i]).0)
                        && val_ok(self.objs(), pairs@[i].1) by {
                        assert(val_ok(self.objs(), vals[2 * i]) && val_ok(self.objs(), vals[2 * i + 1]));
                    }
                }
                self.check_map_order(&pairs)?;
                self.add_obj_val(HostObject::HostMap(pairs))
            },
            ScVal::Address(a) => self.add_obj_val(HostObject::Address(*a)),
        }
    }

    pub(crate) fn list_to_vals(&mut self, s: &Vec<ScVal>, levels: u32) -> (res: Result<Vec<Val>, HostError>)
        requires
            old(self).wf(),
        ensures
            final(self).wf(),
            *final(self) == (Host { objects: final(self).objects, ..*old(self) }),
            ({
                let out = tree_vals(old(self).objs(), s@, s@.len(), levels as nat);
                &&& final(self).objs() == out.0
                &&& match res {
                    Ok(vals) => out.1 == Ok::<Seq<Val>, Fault>(vals@),
                    Err(e) => out.1 matches Err(f) && e == old(self).spec_err(f),
                }
            }),
        decreases levels, 2nat,
    {
        let ghost pre = *self;
        let mut vals: Vec<Val> = Vec::new();
        let mut i: usize = 0;
        while i < s.len()
            invariant
                self.wf(),
                pre == *old(self),
                *self == (Host { objects: self.objects, ..pre }),
                i <= s@.len(),
                tree_vals(pre.objs(), s@, i as nat, levels as nat) == (
                    self.objs(),
                    Ok::<Seq<Val>, Fault>(vals@),
                ),
            decreases s@.len() - i,
        {
            let r = self.to_host_val_within(&s[i], levels);
            match r {
                Ok(v) => {
                    vals.push(v);
                },
                Err(e) => {
                    proof {
                        lemma_tree_vals_failure(pre.objs(), s@, (i + 1) as nat, s@.len(), levels as nat);
                    }
                    return Err(e);
                },
            }
            i += 1;
        }
        Ok(vals)
    }

    pub(crate) fn entries_to_pairs(&mut self, m: &Vec<ScMapEntry>, levels: u32) -> (res: Result<
        (Vec<(Val, Val)>, Ghost<Seq<Val>>),
        HostError,
    >)
        requires
            old(self).wf(),
        ensures
            final(self).wf(),
            *final(self) == (Host { objects: final(self).objects, ..*old(self) }),
            ({
                let out = tree_vals(old(self).objs(), flat_entries(m@), 2 * m@.len(), levels as nat);
                &&& final(self).objs() == out.0
                &&& match res {
                    Ok((pairs, vals)) => out.1 == Ok::<Seq<Val>, Fault>(vals@) && pairs@ == pair_up(vals@),
                    Err(e) => out.1 matches Err(f) && e == old(self).spec_err(f),
                }
            }),
        decreases levels, 2nat,
    {
        let ghost pre = *self;
        let ghost flat = flat_entries(m@);
        let ghost mut vals: Seq<Val> = Seq::empty();
        let mut pairs: Vec<(Val, Val)> = Vec::new();
        let mut i: usize = 0;
        assert(pairs@ =~= pair_up(vals));
        while i < m.len()
            invariant
                self.wf(),
                pre == *old(self),
                *self == (Host { objects: self.objects, ..pre }),
                i <= m@.len(),
                flat == flat_entries(m@),
                vals.len() == 2 * i,
                pairs@ == pair_up(vals),
                tree_vals(pre.objs(), flat, (2 * i) as nat, levels as nat) == (self.objs(), Ok::<Seq<Val>, Fault>(vals)),
            decreases m@.len() - i,
        {
            let ghost j = (2 * i) as nat;
            assert(flat[j as int] == m@[i as int].key);
            assert(flat[j as int + 1] == m@[i as int].val);
            let key = match self.to_host_val_within(&m[i].key, levels) {
                Ok(v) => v,
                Err(e) => {
                    proof {
                        lemma_tree_vals_failure(pre.objs(), flat, j + 1, 2 * m@.len(), levels as nat);
                    }
                    return Err(e);
                },
            };
            assert(tree_vals(pre.objs(), flat, j + 1, levels as nat) == (
                self.objs(),
                Ok::<Seq<Val>, Fault>(vals.push(key)),
            ));
            let val = match self.to_host_val_within(&m[i].val, levels) {
                Ok(v) => v,
                Err(e) => {
                    proof {
                        lemma_tree_vals_failure(pre.objs(), flat, j + 2, 2 * m@.len(), levels as nat);
                    }
                    return Err(e);
                },
            };
            proof {
                let before = vals;
                vals = vals.push(key).push(val);
                assert(tree_vals(pre.objs(), flat, j + 2, levels as nat) == (
                    self.objs(),
                    Ok::<Seq<Val>, Fault>(vals),
                ));
                assert(pair_up(vals) =~= pair_up(before).push((key, val)));
            }
            pairs.push((key, val));
            i += 1;
        }
        Ok((pairs, Ghost(vals)))
    }

    /// The value of a tree.
    pub fn to_host_val(&mut self, t: &ScVal) -> (res: Result<Val, HostError>)
        requires
            old(self).wf(),
        ensures
            adds(
                *old(self),
                *final(self),
                res,
                tree_val(old(self).objs(), *t, DEFAULT_HOST_DEPTH_LIMIT as nat),
            ),
            extends(old(self).objs(), final(self).objs()),
            res matches Ok(v) ==> val_ok(final(self).objs(), v) && deep(final(self).objs(), v) == sc_deep(*t),
    {
        proof {
            law_tree_val(self.objs(), *t, DEFAULT_HOST_DEPTH_LIMIT as nat);
        }
        self.to_host_val_within(t, DEFAULT_HOST_DEPTH_LIMIT)
    }

    /// The value of a tree, for use with the other functions of the host.
    pub fn inject_val(&mut self, t: &ScVal) -> (res: Result<Val, HostError>)
        requires
            old(self).wf(),
        ensures
            adds(
                *old(self),
                *final(self),
                res,
                tree_val(old(self).objs(), *t, DEFAULT_HOST_DEPTH_LIMIT as nat),
            ),
            extends(old(self).objs(), final(self).objs()),
            res matches Ok(v) ==> val_ok(final(self).objs(), v) && deep(final(self).objs(), v) == sc_deep(*t),
    {
        self.to_host_val(t)
    }

    /// The tree of a value that nests within a number of levels.
    fn from_host_val_within(&self, v: Val, levels: u32) -> (res: Result<ScVal, HostError>)
        requires
            self.wf(),
            val_ok(self.objs(), v),
        ensures
            match res {
                Ok(t) => nesting(deep(self.objs(), v)) <= levels && sc_deep(t) == deep(self.objs(), v),
                Err(e) => nesting(deep(self.objs(), v)) > levels && e == self.spec_err(depth_fault()),
            },
        decreases levels, 0nat,
    {
        if levels == 0 {
            return Err(self.err(ScErrorType::Context, ScErrorCode::ExceededLimit));
        }
        match v {
            Val::Bool(b) => Ok(ScVal::Bool(b)),
            Val::Void => Ok(ScVal::Void),
            Val::Bad(_) => Ok(ScVal::Void),
            Val::Error(e) => Ok(ScVal::Error(e)),
            Val::U32(x) => Ok(ScVal::U32(x)),
            Val::I32(x) => Ok(ScVal::I32(x)),
            Val::U64Small(x) => Ok(ScVal::U64(x)),
            Val::I64Small(x) => Ok(ScVal::I64(x)),
            Val::TimepointSmall(x) => Ok(ScVal::Timepoint(x)),
            Val::DurationSmall(x) => Ok(ScVal::Duration(x)),
            Val::U128Small(x) => Ok(ScVal::U128(x as u128)),
            Val::I128Small(x) => Ok(ScVal::I128(x as i128)),
            Val::U256Small(x) => Ok(ScVal::U256(U256::from_u128(x as u128))),
            Val::I256Small(x) => Ok(ScVal::I256(I256::from_i128(x as i128))),
            Val::SymbolSmall(body) => Ok(ScVal::Symbol(small_symbol_to_bytes(body))),
            Val::Object(o) => {
                let index: usize = crate::val::handle_to_index(o.handle);
                let ghost obj = self.objs()[index as int];
                match &self.objects[index] {
                    HostObject::U64(x) => Ok(ScVal::U64(*x)),
                    HostObject::I64(x) => Ok(ScVal::I64(*x)),
                    HostObject::TimePoint(x) => Ok(ScVal::Timepoint(*x)),
                    HostObject::Duration(x) => Ok(ScVal::Duration(*x)),
                    HostObject::U128(x) => Ok(ScVal::U128(*x)),
                    HostObject::I128(x) => Ok(ScVal::I128(*x)),
                    HostObject::U256(x) => Ok(ScVal::U256(*x)),
                    HostObject::I256(x) => Ok(ScVal::I256(*x)),
                    HostObject::Bytes(s) => Ok(ScVal::Bytes(copy_bytes(s.as_slice()))),
                    HostObject::Text(s) => Ok(ScVal::Text(copy_bytes(s.as_slice()))),
                    HostObject::Symbol(s) => Ok(ScVal::Symbol(copy_bytes(s.as_slice()))),
                    HostObject::HostVec(s) => {
                        proof {
                            lemma_deep_vector(self.objs(), o);
                        }
                        let list = self.vals_to_list(s.as_slice(), levels - 1)?;
                        Ok(ScVal::ScVec(list))
                    },
                    HostObject::HostMap(m) => {
                        proof {
                            lemma_deep_mapping(self.objs(), o);
                        }
                        let entries = self.pairs_to_entries(m.as_slice(), levels - 1)?;
                        Ok(ScVal::ScMap(entries))
                    },
                    HostObject::Address(a) => Ok(ScVal::Address(*a)),
                }
            },
        }
    }

    pub(crate) fn vals_to_list(&self, s: &[Val], levels: u32) -> (res: Result<Vec<ScVal>, HostError>)
        requires
            self.wf(),
            vals_ok(self.objs(), s@),
        ensures
            match res {
                Ok(list) => {
                    &&& nesting_seq(deep_seq(self.objs(), s@), 0) <= levels
                    &&& sc_deep_seq(list@) == deep_seq(self.objs(), s@)
                },
                Err(e) => {
                    &&& nesting_seq(deep_seq(self.objs(), s@), 0) > levels
                    &&& e == self.spec_err(depth_fault())
                },
            },
        decreases levels, 1nat,
    {
        let ghost d = deep_seq(self.objs(), s@);
        let mut list: Vec<ScVal> = Vec::new();
        let mut i: usize = 0;
        while i < s.len()
            invariant
                self.wf(),
                vals_ok(self.objs(), s@),
                d == deep_seq(self.objs(), s@),
                i <= s@.len(),
                list@.len() == i,
                nesting_seq(d, 0) <= levels <==> nesting_seq(d, i as nat) <= levels,
                forall|j: int| 0 <= j < i ==> sc_deep(#[trigger] list@[j]) == d[j],
            decreases s@.len() - i,
        {
            let t = self.from_host_val_within(s[i], levels)?;
            list.push(t);
            i += 1;
        }
        assert(sc_deep_seq(list@) =~= d);
        Ok(list)
    }

    pub(crate) fn pairs_to_entries(&self, m: &[(Val, Val)], levels: u32) -> (res: Result<Vec<ScMapEntry>, HostError>)
        requires
            self.wf(),
            map_ok(self.objs(), m@),
        ensures
            match res {
                Ok(entries) => {
                    &&& nesting_seq(deep_seq(self.objs(), interleave(m@)), 0) <= levels
                    &&& sc_deep_entries(entries@) == deep_seq(self.objs(), interleave(m@))
                },
                Err(e) => {
                    &&& nesting_seq(deep_seq(self.objs(), interleave(m@)), 0) > levels
                    &&& e == self.spec_err(depth_fault())
                },
            },
        decreases levels, 1nat,
    {
        let ghost s = interleave(m@);
        let ghost d = deep_seq(self.objs(), s);
        let mut entries: Vec<ScMapEntry> = Vec::new();
        let mut i: usize = 0;
        while i < m.len()
            invariant
                self.wf(),
                map_ok(self.objs(), m@),
                s == interleave(m@),
                d == deep_seq(self.objs(), s),
                i <= m@.len(),
                entries@.len() == i,
                nesting_seq(d, 0) <= levels <==> nesting_seq(d, (2 * i) as nat) <= levels,
                forall|j: int|
                    0 <= j < i ==> sc_deep((#[trigger] entries@[j]).key) == d[2 * j] && sc_deep(entries@[j].val) == d[2
                        * j + 1],
            decreases m@.len() - i,
        {
            let ghost k = (2 * i) as nat;
            proof {
                assert(val_ok(self.objs(), m@[i as int].0) && val_ok(self.objs(), m@[i as int].1));
                assert(d[k as int] == deep(self.objs(), m@[i as int].0));
                assert(d[k as int + 1] == deep(self.objs(), m@[i as int].1));
                assert(nesting_seq(d, k) == crate::model::larger(nesting(d[k as int]), nesting_seq(d, k + 1)));
                assert(nesting_seq(d, k + 1) == crate::model::larger(nesting(d[k as int + 1]), nesting_seq(d, k + 2)));
            }
            let key = self.from_host_val_within(m[i].0, levels)?;
            let val = self.from_host_val_within(m[i].1, levels)?;
            entries.push(ScMapEntry { key, val });
            i += 1;
        }
        assert(sc_deep_entries(entries@) =~= d) by {
            assert forall|j: int| 0 <= j < d.len() implies sc_deep_entries(entries@)[j] == d[j] by {
                let e = entries@[j / 2];
                assert(j == 2 * (j / 2) || j == 2 * (j / 2) + 1);
            }
        }
        Ok(entries)
    }

    /// The tree of a value.
    pub fn from_host_val(&self, v: Val) -> (res: Result<ScVal, HostError>)
        requires
            self.wf(),
        ensures
            match val_fault(self.objs(), v) {
                Some(f) => res == Err::<ScVal, HostError>(self.spec_err(f)),
                None => match res {
                    Ok(t) => {
                        &&& nesting(deep(self.objs(), v)) <= DEFAULT_HOST_DEPTH_LIMIT
                        &&& sc_deep(t) == deep(self.objs(), v)
                    },
                    Err(e) => {
                        &&& nesting(deep(self.objs(), v)) > DEFAULT_HOST_DEPTH_LIMIT
                        &&& e == self.spec_err(depth_fault())
                    },
                },
            },
    {
        self.check_val_integrity(v)?;
        self.from_host_val_within(v, DEFAULT_HOST_DEPTH_LIMIT)
    }
}

proof fn lemma_tree_vals_failure(objs: Seq<ObjModel>, s: Seq<ScVal>, n: nat, end: nat, levels: nat)
    requires
        n <= end,
        tree_vals(objs, s, n, levels).1 is Err,
    ensures
        tree_vals(objs, s, end, levels) == tree_vals(objs, s, n, levels),
    decreases end,
{
    if n < end {
        lemma_tree_vals_failure(objs, s, n, (end - 1) as nat, levels);
    }
}

} // verus!
