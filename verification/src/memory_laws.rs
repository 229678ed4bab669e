//! What guest memory and slices exchange with objects, and how contracts call each other.

use crate::budget::ContractCostType;
use crate::collection_laws::{at, bytes_at, entries_at, has_room, is_new, law_free_work_is_allowed, list_at, only_charged};
use crate::error::{Fault, HostError};
use crate::host::{charge, Host};
use crate::host_buf::{
    does_bytes_copy_from_linear_memory, does_bytes_copy_to_linear_memory, does_bytes_copy_to_slice,
    does_bytes_new_from_linear_memory, does_string_copy_to_linear_memory, does_string_copy_to_slice,
    does_string_new_from_linear_memory, does_symbol_copy_to_linear_memory, does_symbol_copy_to_slice,
    does_symbol_new_from_linear_memory,
};
use crate::host_frame::{absolute_val, guest_table};
use crate::host_map_slices::{does_map_new_from_slices, does_map_unpack_to_slice, gathers};
use crate::host_memory::{
    checks_named_keys, does_map_new_from_linear_memory, does_map_unpack_to_linear_memory,
    does_vec_new_from_linear_memory, does_vec_unpack_to_linear_memory, given_vals, named_range,
};
use crate::host_object::looks_at;
use crate::host_symbol::{does_check_symbol_matches, does_symbol_matches, texts};
use crate::host_vec::does_vec_unpack_to_slice;
use crate::memory::word_at;
use crate::model::{extends, val_ok, BlobKind, ObjModel};
use crate::order_laws::blob_of;
use crate::symbol::is_symbol;
use crate::val::{val_of_word, BytesObject, MapObject, ObjectTag, StringObject, Symbol, SymbolObject, Val, VecObject};
use crate::value_laws::law_passed_keys_are_expected;
use vstd::prelude::*;

verus! {

proof fn lemma_free(host: Host)
    ensures
        host.budget.is_free() ==> forall|ty: ContractCostType, input: Option<u64>| #[trigger]
            charge(host, ty, input) == (host, Ok::<(), HostError>(())),
{
    if host.budget.is_free() {
        assert forall|ty: ContractCostType, input: Option<u64>| #[trigger] charge(host, ty, input) == (
            host,
            Ok::<(), HostError>(()),
        ) by {
            law_free_work_is_allowed(host, ty, input);
        }
    }
}

/// Whether a guest is running.
pub open spec fn is_guest(host: Host) -> bool {
    host.context@.len() > 0 && host.context@.last().frame is ContractVM
}

/// Whether `n` bytes from a position of one list on are those from a position of another on.
pub open spec fn same_bytes(s: Seq<u8>, pos: int, t: Seq<u8>, other: int, n: int) -> bool {
    &&& pos + n <= s.len()
    &&& other + n <= t.len()
    &&& forall|i: int| 0 <= i < n ==> #[trigger] s[pos + i] == t[other + i]
}

/// Whether two lists are the same but for `n` bytes from a position on.
pub open spec fn same_outside(s: Seq<u8>, t: Seq<u8>, pos: int, n: int) -> bool {
    &&& s.len() == t.len()
    &&& forall|i: int| 0 <= i < s.len() && !(pos <= i < pos + n) ==> #[trigger] s[i] == t[i]
}

/// Part of a byte string is copied to a slice, if the part is within it; else the slice is
/// left as it is.
pub proof fn law_bytes_to_slice(
    pre: Host,
    post: Host,
    o: BytesObject,
    pos: u32,
    slice: Seq<u8>,
    changed: Seq<u8>,
    res: Result<(), HostError>,
)
    requires
        val_ok(pre.objs(), o.to_val()),
        does_bytes_copy_to_slice(pre, post, o, pos, slice, changed, res),
    ensures
        changed.len() == slice.len(),
        res is Ok ==> same_bytes(changed, 0, at(pre, o.handle)->Blob_1, pos as int, slice.len() as int),
        res is Err ==> changed == slice,
        only_charged(pre, post),
        pre.budget.is_free() ==> (res is Ok <==> pos + slice.len() <= at(pre, o.handle)->Blob_1.len() && pos
            + slice.len() <= u32::MAX),
{
    lemma_free(pre);
}

/// Part of a byte string is copied to guest memory, if the part is within it and its place
/// within memory; no other byte of memory changes.
pub proof fn law_bytes_to_memory(
    pre: Host,
    post: Host,
    memory: Seq<u8>,
    changed: Seq<u8>,
    o: BytesObject,
    pos: u32,
    lm_pos: u32,
    len: u32,
    res: Result<(), HostError>,
)
    requires
        val_ok(pre.objs(), o.to_val()),
        does_bytes_copy_to_linear_memory(pre, post, memory, changed, o, pos, lm_pos, len, res),
    ensures
        res is Ok ==> {
            &&& is_guest(pre)
            &&& same_bytes(changed, lm_pos as int, at(pre, o.handle)->Blob_1, pos as int, len as int)
            &&& same_outside(changed, memory, lm_pos as int, len as int)
        },
        res is Err ==> changed == memory,
        only_charged(pre, post),
        pre.budget.is_free() ==> (res is Ok <==> is_guest(pre) && pos + len <= at(pre, o.handle)->Blob_1.len() && pos
            + len <= u32::MAX && lm_pos + len <= memory.len()),
{
    lemma_free(pre);
}

/// What is made of guest memory as a byte string is what stands there.
pub proof fn law_bytes_of_memory(
    pre: Host,
    post: Host,
    memory: Seq<u8>,
    lm_pos: u32,
    len: u32,
    res: Result<BytesObject, HostError>,
)
    requires
        pre.wf(),
        does_bytes_new_from_linear_memory(pre, post, memory, lm_pos, len, res),
    ensures
        res matches Ok(r) ==> {
            &&& is_guest(pre)
            &&& is_new(pre, post, r.handle)
            &&& at(post, r.handle) is Blob
            &&& at(post, r.handle)->Blob_0 == BlobKind::Bytes
            &&& at(post, r.handle)->Blob_1.len() == len
            &&& same_bytes(at(post, r.handle)->Blob_1, 0, memory, lm_pos as int, len as int)
        },
        has_room(pre) && is_guest(pre) ==> (res is Ok <==> lm_pos + len <= memory.len()),
{
    lemma_free(pre);
}

/// Part of a text is copied to a slice, if the part is within it; else the slice is
/// left as it is.
pub proof fn law_string_to_slice(
    pre: Host,
    post: Host,
    o: StringObject,
    pos: u32,
    slice: Seq<u8>,
    changed: Seq<u8>,
    res: Result<(), HostError>,
)
    requires
        val_ok(pre.objs(), o.to_val()),
        does_string_copy_to_slice(pre, post, o, pos, slice, changed, res),
    ensures
        changed.len() == slice.len(),
        res is Ok ==> same_bytes(changed, 0, at(pre, o.handle)->Blob_1, pos as int, slice.len() as int),
        res is Err ==> changed == slice,
        only_charged(pre, post),
        pre.budget.is_free() ==> (res is Ok <==> pos + slice.len() <= at(pre, o.handle)->Blob_1.len() && pos
            + slice.len() <= u32::MAX),
{
    lemma_free(pre);
}

/// Part of a text is copied to guest memory, if the part is within it and its place
/// within memory; no other byte of memory changes.
pub proof fn law_string_to_memory(
    pre: Host,
    post: Host,
    memory: Seq<u8>,
    changed: Seq<u8>,
    o: StringObject,
    pos: u32,
    lm_pos: u32,
    len: u32,
    res: Result<(), HostError>,
)
    requires
        val_ok(pre.objs(), o.to_val()),
        does_string_copy_to_linear_memory(pre, post, memory, changed, o, pos, lm_pos, len, res),
    ensures
        res is Ok ==> {
            &&& is_guest(pre)
            &&& same_bytes(changed, lm_pos as int, at(pre, o.handle)->Blob_1, pos as int, len as int)
            &&& same_outside(changed, memory, lm_pos as int, len as int)
        },
        res is Err ==> changed == memory,
        only_charged(pre, post),
        pre.budget.is_free() ==> (res is Ok <==> is_guest(pre) && pos + len <= at(pre, o.handle)->Blob_1.len() && pos
            + len <= u32::MAX && lm_pos + len <= memory.len()),
{
    lemma_free(pre);
}

/// What is made of guest memory as a text is what stands there.
pub proof fn law_string_of_memory(
    pre: Host,
    post: Host,
    memory: Seq<u8>,
    lm_pos: u32,
    len: u32,
    res: Result<StringObject, HostError>,
)
    requires
        pre.wf(),
        does_string_new_from_linear_memory(pre, post, memory, lm_pos, len, res),
    ensures
        res matches Ok(r) ==> {
            &&& is_guest(pre)
            &&& is_new(pre, post, r.handle)
            &&& at(post, r.handle) is Blob
            &&& at(post, r.handle)->Blob_0 == BlobKind::Text
            &&& at(post, r.handle)->Blob_1.len() == len
            &&& same_bytes(at(post, r.handle)->Blob_1, 0, memory, lm_pos as int, len as int)
        },
        has_room(pre) && is_guest(pre) ==> (res is Ok <==> lm_pos + len <= memory.len()),
{
    lemma_free(pre);
}

/// Part of a symbol is copied to a slice, if the part is within it; else the slice is
/// left as it is.
pub proof fn law_symbol_to_slice(
    pre: Host,
    post: Host,
    o: SymbolObject,
    pos: u32,
    slice: Seq<u8>,
    changed: Seq<u8>,
    res: Result<(), HostError>,
)
    requires
        val_ok(pre.objs(), o.to_val()),
        does_symbol_copy_to_slice(pre, post, o, pos, slice, changed, res),
    ensures
        changed.len() == slice.len(),
        res is Ok ==> same_bytes(changed, 0, at(pre, o.handle)->Blob_1, pos as int, slice.len() as int),
        res is Err ==> changed == slice,
        only_charged(pre, post),
        pre.budget.is_free() ==> (res is Ok <==> pos + slice.len() <= at(pre, o.handle)->Blob_1.len() && pos
            + slice.len() <= u32::MAX),
{
    lemma_free(pre);
}

/// Part of a symbol is copied to guest memory, if the part is within it and its place
/// within memory; no other byte of memory changes.
pub proof fn law_symbol_to_memory(
    pre: Host,
    post: Host,
    memory: Seq<u8>,
    changed: Seq<u8>,
    o: SymbolObject,
    pos: u32,
    lm_pos: u32,
    len: u32,
    res: Result<(), HostError>,
)
    requires
        val_ok(pre.objs(), o.to_val()),
        does_symbol_copy_to_linear_memory(pre, post, memory, changed, o, pos, lm_pos, len, res),
    ensures
        res is Ok ==> {
            &&& is_guest(pre)
            &&& same_bytes(changed, lm_pos as int, at(pre, o.handle)->Blob_1, pos as int, len as int)
            &&& same_outside(changed, memory, lm_pos as int, len as int)
        },
        res is Err ==> changed == memory,
        only_charged(pre, post),
        pre.budget.is_free() ==> (res is Ok <==> is_guest(pre) && pos + len <= at(pre, o.handle)->Blob_1.len() && pos
            + len <= u32::MAX && lm_pos + len <= memory.len()),
{
    lemma_free(pre);
}

/// What is made of guest memory as a symbol is what stands there.
pub proof fn law_symbol_of_memory(
    pre: Host,
    post: Host,
    memory: Seq<u8>,
    lm_pos: u32,
    len: u32,
    res: Result<SymbolObject, HostError>,
)
    requires
        pre.wf(),
        does_symbol_new_from_linear_memory(pre, post, memory, lm_pos, len, res),
    ensures
        res matches Ok(r) ==> {
            &&& is_guest(pre)
            &&& is_new(pre, post, r.handle)
            &&& at(post, r.handle) is Blob
            &&& at(post, r.handle)->Blob_0 == BlobKind::Symbol
            &&& at(post, r.handle)->Blob_1.len() == len
            &&& same_bytes(at(post, r.handle)->Blob_1, 0, memory, lm_pos as int, len as int)
        },
        has_room(pre) && is_guest(pre) ==> (res is Ok <==> lm_pos + len <= memory.len() && is_symbol(memory.subrange(lm_pos as int, lm_pos + len))),
{
    lemma_free(pre);
}

/// Part of a byte string is replaced by what stands in guest memory; it is made longer with
/// zeros where that is needed.
pub proof fn law_bytes_patched_of_memory(
    pre: Host,
    post: Host,
    memory: Seq<u8>,
    b: BytesObject,
    b_pos: u32,
    lm_pos: u32,
    len: u32,
    res: Result<BytesObject, HostError>,
)
    requires
        pre.wf(),
        val_ok(pre.objs(), b.to_val()),
        does_bytes_copy_from_linear_memory(pre, post, memory, b, b_pos, lm_pos, len, res),
    ensures
        res matches Ok(r) ==> {
            let (s, t) = (bytes_at(pre, b), bytes_at(post, r));
            &&& is_new(pre, post, r.handle)
            &&& at(post, r.handle) == ObjModel::Blob(BlobKind::Bytes, t)
            &&& same_bytes(t, b_pos as int, memory, lm_pos as int, len as int)
            &&& t.len() == s.len() || (t.len() > s.len() && t.len() == b_pos + len)
            &&& forall|i: int| 0 <= i < s.len() && !(b_pos <= i < b_pos + len) ==> #[trigger] t[i] == s[i]
            &&& forall|i: int| s.len() <= i < b_pos ==> #[trigger] t[i] == 0
        },
        has_room(pre) && is_guest(pre) ==> (res is Ok <==> b_pos + len <= u32::MAX && lm_pos + len <= memory.len()),
{
    lemma_free(pre);
}

/// A vector of guest memory holds what the words there mean to the guest.
pub proof fn law_vec_of_memory(
    pre: Host,
    post: Host,
    memory: Seq<u8>,
    vals_pos: u32,
    len: u32,
    r: VecObject,
    i: int,
)
    requires
        does_vec_new_from_linear_memory(pre, post, memory, vals_pos, len, Ok(r)),
        0 <= i < len,
    ensures
        is_guest(pre),
        vals_pos + 8 * len <= memory.len(),
        is_new(pre, post, r.handle),
        at(post, r.handle) is Vector,
        list_at(post, r).len() == len,
        absolute_val(guest_table(pre), val_of_word(word_at(memory, vals_pos + 8 * i) as u64)) == Ok::<Val, Fault>(
            list_at(post, r)[i],
        ),
{
    crate::value_laws::law_memory_values(guest_table(pre), memory, vals_pos as int, len as nat, i);
}

/// A vector is copied to a slice of its length; else the slice is left as it is.
pub proof fn law_vec_to_slice(
    pre: Host,
    post: Host,
    vec: VecObject,
    vals: Seq<Val>,
    changed: Seq<Val>,
    res: Result<(), HostError>,
)
    requires
        val_ok(pre.objs(), vec.to_val()),
        does_vec_unpack_to_slice(pre, post, vec, vals, changed, res),
    ensures
        res is Ok ==> changed == list_at(pre, vec) && vals.len() == changed.len(),
        res is Err ==> changed == vals,
        only_charged(pre, post),
        pre.budget.is_free() ==> (res is Ok <==> vals.len() == list_at(pre, vec).len()),
{
    lemma_free(pre);
}

proof fn lemma_gathered(pre: Host, post: Host, keys: Seq<Seq<u8>>, vals: Seq<Val>, n: nat, s: Seq<(Val, Val)>)
    requires
        pre.wf(),
        gathers(pre, post, keys, vals, n, Ok(s)),
    ensures
        s.len() == n,
        post.wf(),
        extends(pre.objs(), post.objs()),
        forall|i: int|
            0 <= i < n ==> {
                &&& val_ok(post.objs(), (#[trigger] s[i]).0)
                &&& blob_of(post.objs(), s[i].0) == Some((BlobKind::Symbol, keys[i]))
                &&& s[i].1 == vals[i]
            },
    decreases n,
{
    if n > 0 {
        let (mid, before) = choose|mid: Host, before: Result<Seq<(Val, Val)>, HostError>|
            gathers(pre, mid, keys, vals, (n - 1) as nat, before) && #[trigger] crate::host_map_slices::gathers_one(
                mid,
                post,
                keys[n - 1],
                vals[n - 1],
                before,
                Ok(s),
            );
        let head = before->Ok_0;
        lemma_gathered(pre, mid, keys, vals, (n - 1) as nat, head);
        let sym = choose|sym: Result<Symbol, HostError>| #[trigger]
            crate::host_symbol::makes_symbol(mid, post, keys[n - 1], sym) && (Ok::<Seq<(Val, Val)>, HostError>(s)
                == match sym {
                Err(e) => Err::<Seq<(Val, Val)>, HostError>(e),
                Ok(sym) => match crate::host_object::val_fault(post.objs(), vals[n - 1]) {
                    Some(f) => Err(post.spec_err(f)),
                    None => Ok(head.push((sym.to_val(), vals[n - 1]))),
                },
            });
        crate::host_symbol::law_symbol_text_is_kept(mid, post, keys[n - 1], sym->Ok_0);
        crate::value_laws::law_symbols_are_made(mid, post, keys[n - 1], sym);
        assert(s == head.push((sym->Ok_0.to_val(), vals[n - 1])));
        assert forall|i: int| 0 <= i < n implies {
            &&& val_ok(post.objs(), (#[trigger] s[i]).0)
            &&& blob_of(post.objs(), s[i].0) == Some((BlobKind::Symbol, keys[i]))
            &&& s[i].1 == vals[i]
        } by {
            if i < n - 1 {
                assert(s[i] == head[i]);
            }
        }
    }
}

/// A map that is made of texts and values holds them: the symbol of each text, in the given
/// order, with the value at its place.
pub proof fn law_map_of_slices(
    pre: Host,
    post: Host,
    keys: Seq<&str>,
    vals: Seq<Val>,
    r: MapObject,
    i: int,
)
    requires
        pre.wf(),
        does_map_new_from_slices(pre, post, keys, vals, Ok(r)),
        0 <= i < keys.len(),
    ensures
        keys.len() == vals.len(),
        at(post, r.handle) is Mapping,
        entries_at(post, r).len() == keys.len(),
        blob_of(post.objs(), entries_at(post, r)[i].0) == Some((BlobKind::Symbol, texts(keys)[i])),
        entries_at(post, r)[i].1 == vals[i],
{
    let charged = crate::host::charge_bulk(pre, keys.len() as int, crate::host::PAIR_SIZE as int);
    let (mid, pairs) = choose|mid: Host, pairs: Result<Seq<(Val, Val)>, HostError>|
        gathers(charged.0, mid, texts(keys), vals, keys.len(), pairs) && #[trigger] crate::host_map_slices::makes_map(
            mid,
            post,
            pairs,
            Ok(r),
        );
    lemma_gathered(charged.0, mid, texts(keys), vals, keys.len(), pairs->Ok_0);
    assert(val_ok(mid.objs(), pairs->Ok_0[i].0));
    assert(at(post, r.handle) == post.objs()[mid.objs().len() as int]);
}

/// A map is taken apart into a slice only if it has the expected keys and no others; the
/// slice then has its values, and else is left as it is.
pub proof fn law_map_to_slice(
    pre: Host,
    post: Host,
    map: MapObject,
    keys: Seq<&str>,
    vals: Seq<Val>,
    changed: Seq<Val>,
    res: Result<(), HostError>,
)
    requires
        val_ok(pre.objs(), map.to_val()),
        does_map_unpack_to_slice(pre, post, map, keys, vals, changed, res),
    ensures
        res is Ok ==> {
            let m = entries_at(pre, map);
            &&& m.len() == keys.len() && changed.len() == keys.len()
            &&& forall|i: int|
                0 <= i < m.len() ==> {
                    &&& blob_of(pre.objs(), (#[trigger] m[i]).0) == Some((BlobKind::Symbol, texts(keys)[i]))
                    &&& changed[i] == m[i].1
                }
        },
        res is Err ==> changed == vals,
{
    if res is Ok {
        let h = looks_at(pre, map.handle, ObjectTag::MapObject).0;
        let m = entries_at(pre, map);
        assert forall|i: int| 0 <= i < m.len() implies {
            &&& blob_of(pre.objs(), (#[trigger] m[i]).0) == Some((BlobKind::Symbol, texts(keys)[i]))
            &&& changed[i] == m[i].1
        } by {
            law_passed_keys_are_expected(h, m, texts(keys), keys.len(), i);
        }
    }
}

proof fn lemma_named_keys(host: Host, memory: Seq<u8>, table: int, m: Seq<(Val, Val)>, n: nat, i: int)
    requires
        checks_named_keys(host, memory, table, m, n).1 is None,
        0 <= i < n,
    ensures
        i < m.len(),
        named_range(memory, table, i) is Some,
        blob_of(host.objs(), m[i].0) == Some((BlobKind::Symbol, named_range(memory, table, i)->Some_0)),
    decreases n,
{
    lemma_named_objs(host, memory, table, m, (n - 1) as nat);
    if i < n - 1 {
        lemma_named_keys(host, memory, table, m, (n - 1) as nat, i);
    }
}

proof fn lemma_named_objs(host: Host, memory: Seq<u8>, table: int, m: Seq<(Val, Val)>, n: nat)
    ensures
        only_charged(host, checks_named_keys(host, memory, table, m, n).0),
    decreases n,
{
    if n > 0 {
        lemma_named_objs(host, memory, table, m, (n - 1) as nat);
    }
}

/// A map is taken apart into guest memory only if its first keys are those that memory names;
/// the words there then mean its values to the guest, and no other byte changes.
pub proof fn law_map_to_memory(
    pre: Host,
    post: Host,
    memory: Seq<u8>,
    changed: Seq<u8>,
    map: MapObject,
    keys_pos: u32,
    vals_pos: u32,
    len: u32,
    i: int,
    j: int,
)
    requires
        pre.wf(),
        val_ok(pre.objs(), map.to_val()),
        does_map_unpack_to_linear_memory(pre, post, memory, changed, map, keys_pos, vals_pos, len, Ok(())),
        0 <= i < len,
        0 <= j < entries_at(pre, map).len(),
    ensures
        is_guest(pre),
        i < entries_at(pre, map).len(),
        named_range(memory, keys_pos as int, i) is Some,
        blob_of(pre.objs(), entries_at(pre, map)[i].0) == Some(
            (BlobKind::Symbol, named_range(memory, keys_pos as int, i)->Some_0),
        ),
        absolute_val(guest_table(post), val_of_word(word_at(changed, vals_pos + 8 * j) as u64)) == Ok::<Val, Fault>(
            entries_at(pre, map)[j].1,
        ),
        same_outside(changed, memory, vals_pos as int, 8 * entries_at(pre, map).len() as int),
        post.objs() == pre.objs(),
{
    let h = looks_at(pre, map.handle, ObjectTag::MapObject).0;
    let m = entries_at(pre, map);
    lemma_named_keys(h, memory, keys_pos as int, m, len as nat, i);
    let h2 = checks_named_keys(h, memory, keys_pos as int, m, len as nat).0;
    lemma_named_objs(h, memory, keys_pos as int, m, len as nat);
    let vals = crate::host_map::values_of(m);
    lemma_map_vals(pre, map);
    lemma_given(h2, post, memory, changed, vals_pos as int, vals, j);
}

proof fn lemma_map_vals(pre: Host, map: MapObject)
    requires
        pre.wf(),
        val_ok(pre.objs(), map.to_val()),
    ensures
        crate::model::vals_ok(pre.objs(), crate::host_map::values_of(entries_at(pre, map))),
{
    let k = crate::val::spec_handle_to_index(map.handle) as int;
    let m = entries_at(pre, map);
    assert(crate::model::obj_ok(pre.objs().take(k), pre.objs()[k]));
    assert forall|i: int| 0 <= i < m.len() implies val_ok(pre.objs(), #[trigger] crate::host_map::values_of(m)[i]) by {
        assert(val_ok(pre.objs().take(k), m[i].1));
    }
}

proof fn lemma_given(
    pre: Host,
    post: Host,
    memory: Seq<u8>,
    changed: Seq<u8>,
    pos: int,
    vals: Seq<Val>,
    j: int,
)
    requires
        pre.wf(),
        0 <= pos,
        crate::host_memory::gives_vals(pre, post, memory, changed, pos, vals, Ok(())),
        crate::model::vals_ok(pre.objs(), vals),
        0 <= j < vals.len(),
    ensures
        absolute_val(guest_table(post), val_of_word(word_at(changed, pos + 8 * j) as u64)) == Ok::<Val, Fault>(vals[j]),
        same_outside(changed, memory, pos, 8 * vals.len() as int),
{
    crate::host_memory::law_unpacked_list_is_read_back(pre, post, memory, changed, pos, vals);
    crate::value_laws::law_memory_values(guest_table(post), changed, pos, vals.len(), j);
    lemma_given_outside(guest_table(pre), memory, pos, vals, vals.len());
}

proof fn lemma_given_outside(table: Seq<crate::val::Object>, memory: Seq<u8>, pos: int, vals: Seq<Val>, n: nat)
    requires
        0 <= pos,
        pos + 8 * n <= memory.len(),
    ensures
        same_outside(given_vals(table, memory, pos, vals, n).1, memory, pos, 8 * n as int),
    decreases n,
{
    if n > 0 {
        lemma_given_outside(table, memory, pos, vals, (n - 1) as nat);
        let before = given_vals(table, memory, pos, vals, (n - 1) as nat);
        if before.2 is None {
            if let Ok((v, known)) = crate::host_frame::relative_val(before.0, vals[n - 1]) {
                crate::memory::lemma_le_bytes_len(v.payload() as int, 8);
            }
        }
    }
}

/// A vector is written to guest memory: the words there then mean its elements to the guest,
/// and no other byte changes.
pub proof fn law_vec_to_memory(
    pre: Host,
    post: Host,
    memory: Seq<u8>,
    changed: Seq<u8>,
    vec: VecObject,
    vals_pos: u32,
    len: u32,
    i: int,
)
    requires
        pre.wf(),
        val_ok(pre.objs(), vec.to_val()),
        does_vec_unpack_to_linear_memory(pre, post, memory, changed, vec, vals_pos, len, Ok(())),
        0 <= i < list_at(pre, vec).len(),
    ensures
        is_guest(pre),
        vals_pos + 8 * list_at(pre, vec).len() <= memory.len(),
        absolute_val(guest_table(post), val_of_word(word_at(changed, vals_pos + 8 * i) as u64)) == Ok::<Val, Fault>(
            list_at(pre, vec)[i],
        ),
        same_outside(changed, memory, vals_pos as int, 8 * list_at(pre, vec).len() as int),
        post.objs() == pre.objs(),
{
    let h = looks_at(pre, vec.handle, ObjectTag::VecObject).0;
    let vals = list_at(pre, vec);
    let k = crate::val::spec_handle_to_index(vec.handle) as int;
    assert(crate::model::obj_ok(pre.objs().take(k), pre.objs()[k]));
    assert forall|j: int| 0 <= j < vals.len() implies val_ok(pre.objs(), #[trigger] vals[j]) by {
        assert(val_ok(pre.objs().take(k), vals[j]));
    }
    lemma_given(h, post, memory, changed, vals_pos as int, vals, i);
}

/// A map of guest memory has the symbols that memory names, and the values that the words
/// there mean to the guest.
pub proof fn law_map_from_memory(
    pre: Host,
    post: Host,
    memory: Seq<u8>,
    keys_pos: u32,
    vals_pos: u32,
    len: u32,
    r: MapObject,
    i: int,
)
    requires
        pre.wf(),
        does_map_new_from_linear_memory(pre, post, memory, keys_pos, vals_pos, len, Ok(r)),
        0 <= i < len,
    ensures
        is_guest(pre),
        at(post, r.handle) is Mapping,
        entries_at(post, r).len() == len,
        named_range(memory, keys_pos as int, i) is Some,
        blob_of(post.objs(), entries_at(post, r)[i].0) == Some(
            (BlobKind::Symbol, named_range(memory, keys_pos as int, i)->Some_0),
        ),
        absolute_val(guest_table(pre), val_of_word(word_at(memory, vals_pos + 8 * i) as u64)) == Ok::<Val, Fault>(
            entries_at(post, r)[i].1,
        ),
{
    let charged = crate::host::charge_bulk(pre, len as int, crate::host::SYMBOL_SIZE as int);
    let (mid, keys) = choose|mid: Host, keys: Result<Seq<Val>, HostError>|
        crate::host_memory::reads_symbols(charged.0, mid, memory, keys_pos as int, len as nat, keys)
            && #[trigger] crate::host_memory::makes_map_of_memory(
            mid,
            post,
            memory,
            vals_pos as int,
            len as nat,
            keys,
            Ok(r),
        );
    crate::host_memory::law_read_symbols(charged.0, mid, memory, keys_pos as int, len as nat, keys->Ok_0);
    crate::value_laws::law_map_of_memory(mid, post, memory, vals_pos as int, len as nat, keys->Ok_0, r, i);
    crate::value_laws::law_memory_values(guest_table(mid), memory, vals_pos as int, len as nat, i);
}

/// A symbol is held against a text by its characters.
pub proof fn law_symbols_are_compared(
    pre: Host,
    post: Host,
    other: Host,
    s: Seq<u8>,
    sym: Symbol,
    text: Seq<u8>,
    told: Result<bool, HostError>,
    passed: Result<(), HostError>,
)
    requires
        val_ok(pre.objs(), sym.to_val()),
        blob_of(pre.objs(), sym.to_val()) == Some((BlobKind::Symbol, text)),
        does_symbol_matches(pre, post, s, sym, told),
        does_check_symbol_matches(pre, other, s, sym, passed),
    ensures
        told matches Ok(b) ==> (b <==> text == s),
        passed is Ok ==> text == s,
        pre.budget.is_free() ==> told is Ok && (passed is Ok <==> text == s),
{
    crate::value_laws::law_symbol_matches(pre, s, sym, text);
}

} // verus!
