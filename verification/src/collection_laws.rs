//! What the functions on vectors, maps and byte strings are for, element by element.

use crate::budget::ContractCostType;
use crate::error::{HostError, ScErrorCode, ScErrorType};
use crate::host::{charge, Host, DEFAULT_HOST_DEPTH_LIMIT};
use crate::host_buf::{
    does_bytes_append, does_bytes_back, does_bytes_copy_from_slice, does_bytes_del, does_bytes_front, does_bytes_get,
    does_bytes_insert, does_bytes_len, does_bytes_new_from_slice, does_bytes_pop, does_bytes_push, does_bytes_put,
    does_bytes_slice, does_string_len, does_symbol_len,
};
use crate::host_map::{
    does_map_del, does_map_get, does_map_has, does_map_key_by_pos, does_map_keys, does_map_len, does_map_put,
    does_map_val_by_pos, does_map_values, law_lookup, law_map_insert, law_map_remove, lookup, map_insert, map_remove,
    within_depth,
};
use crate::host_vec::{
    ascending, does_vec_append, does_vec_back, does_vec_binary_search, does_vec_del, does_vec_first_index_of,
    does_vec_front, does_vec_get, does_vec_insert, does_vec_last_index_of, does_vec_len, does_vec_new_from_slice,
    does_vec_pop_back, does_vec_pop_front, does_vec_push_back, does_vec_push_front, does_vec_put, does_vec_slice,
    law_first_place, law_last_place,
};
use crate::model::{deep, deep_order, deep_seq, key_at, map_ok, order_levels, val_ok, vals_ok, BlobKind, ObjModel};
use crate::val::{
    is_relative_object_handle, spec_handle_to_index, BytesObject, MapObject, StringObject, SymbolObject, Val, VecObject,
    MAX_OBJECTS,
};
use vstd::prelude::*;

verus! {

/// The object that a handle points at.
pub open spec fn at(host: Host, handle: u32) -> ObjModel {
    host.objs()[spec_handle_to_index(handle)]
}

/// The elements of a vector.
pub open spec fn list_at(host: Host, v: VecObject) -> Seq<Val> {
    at(host, v.handle)->Vector_0
}

/// The bytes of a byte string.
pub open spec fn bytes_at(host: Host, b: BytesObject) -> Seq<u8> {
    at(host, b.handle)->Blob_1
}

/// The keys and values of a map.
pub open spec fn entries_at(host: Host, m: MapObject) -> Seq<(Val, Val)> {
    at(host, m.handle)->Mapping_0
}

/// Only the budget has changed.
pub open spec fn only_charged(pre: Host, post: Host) -> bool {
    post == (Host { budget: post.budget, ..pre })
}

/// A new object is at the end of the table, under the handle. All others are as they
/// were, and so is all else but the budget.
pub open spec fn is_new(pre: Host, post: Host, handle: u32) -> bool {
    &&& spec_handle_to_index(handle) == pre.objs().len()
    &&& !is_relative_object_handle(handle)
    &&& post.objs().len() == pre.objs().len() + 1
    &&& forall|i: int| 0 <= i < pre.objs().len() ==> #[trigger] post.objs()[i] == pre.objs()[i]
    &&& post == (Host { objects: post.objects, budget: post.budget, ..pre })
}

/// Whether work is free and there is room for one more object.
pub open spec fn has_room(host: Host) -> bool {
    host.budget.is_free() && host.objs().len() < MAX_OBJECTS
}

/// Where work is free, charging for it changes nothing and is always allowed.
pub proof fn law_free_work_is_allowed(host: Host, ty: ContractCostType, input: Option<u64>)
    requires
        host.budget.is_free(),
    ensures
        charge(host, ty, input) == (host, Ok::<(), HostError>(())),
{
    let b = host.budget;
    let i = ty.spec_number() as int;
    assert(b.cpu_insns.models@[i].const_term == 0 && b.cpu_insns.models@[i].lin_term == 0);
    assert(b.mem_bytes.models@[i].const_term == 0 && b.mem_bytes.models@[i].lin_term == 0);
    assert(b.cpu_insns.models@[i].cost(input) == 0);
    assert(b.mem_bytes.models@[i].cost(input) == 0);
}

proof fn lemma_free(host: Host)
    ensures
        host.budget.is_free() ==> forall|ty: ContractCostType, input: Option<u64>| #[trigger]
            charge(host, ty, input) == (host, Ok::<(), HostError>(())),
{
    if host.budget.is_free() {
        assert forall|ty: ContractCostType, input: Option<u64>| #[trigger] charge(host, ty, input) == (
            host,
            Ok::<(), HostError>(()),
        ) by {
            law_free_work_is_allowed(host, ty, input);
        }
    }
}

/// A vector with an element set has it there, and is otherwise the same.
pub proof fn law_vec_put(
    pre: Host,
    post: Host,
    v: VecObject,
    i: u32,
    x: Val,
    res: Result<VecObject, HostError>,
)
    requires
        pre.wf(),
        val_ok(pre.objs(), v.to_val()),
        val_ok(pre.objs(), x),
        does_vec_put(pre, post, v, i, x, res),
    ensures
        ({
            let s = list_at(pre, v);
            &&& res matches Ok(r) ==> {
                let t = list_at(post, r);
                &&& i < s.len()
                &&& is_new(pre, post, r.handle)
                &&& at(post, r.handle) is Vector
                &&& t.len() == s.len()
                &&& t[i as int] == x
                &&& forall|j: int| 0 <= j < s.len() && j != i ==> #[trigger] t[j] == s[j]
            }
            &&& has_room(pre) && i < s.len() ==> res is Ok
            &&& pre.budget.is_free() && !(i < s.len()) ==> res == Err::<VecObject, HostError>(
                pre.spec_err((ScErrorType::Object, ScErrorCode::IndexBounds)),
            )
        }),
{
    lemma_free(pre);
    if let Ok(r) = res {
        assert(at(post, r.handle) == post.objs()[pre.objs().len() as int]);
    }
}

/// A vector without the element at an index has all others, in order.
pub proof fn law_vec_del(
    pre: Host,
    post: Host,
    v: VecObject,
    i: u32,
    res: Result<VecObject, HostError>,
)
    requires
        pre.wf(),
        val_ok(pre.objs(), v.to_val()),
        does_vec_del(pre, post, v, i, res),
    ensures
        ({
            let s = list_at(pre, v);
            &&& res matches Ok(r) ==> {
                let t = list_at(post, r);
                &&& i < s.len()
                &&& is_new(pre, post, r.handle)
                &&& at(post, r.handle) is Vector
                &&& t.len() == s.len() - 1
                &&& forall|j: int| 0 <= j < i ==> #[trigger] t[j] == s[j]
                &&& forall|j: int| i <= j < t.len() ==> #[trigger] t[j] == s[j + 1]
            }
            &&& has_room(pre) && i < s.len() ==> res is Ok
            &&& pre.budget.is_free() && !(i < s.len()) ==> res == Err::<VecObject, HostError>(
                pre.spec_err((ScErrorType::Object, ScErrorCode::IndexBounds)),
            )
        }),
{
    lemma_free(pre);
    if let Ok(r) = res {
        assert(at(post, r.handle) == post.objs()[pre.objs().len() as int]);
    }
}

/// A vector with one more element has it before what stood at the index, and all others in order.
pub proof fn law_vec_insert(
    pre: Host,
    post: Host,
    v: VecObject,
    i: u32,
    x: Val,
    res: Result<VecObject, HostError>,
)
    requires
        pre.wf(),
        val_ok(pre.objs(), v.to_val()),
        val_ok(pre.objs(), x),
        does_vec_insert(pre, post, v, i, x, res),
    ensures
        ({
            let s = list_at(pre, v);
            &&& res matches Ok(r) ==> {
                let t = list_at(post, r);
                &&& i <= s.len()
                &&& is_new(pre, post, r.handle)
                &&& at(post, r.handle) is Vector
                &&& t.len() == s.len() + 1
                &&& forall|j: int| 0 <= j < i ==> #[trigger] t[j] == s[j]
                &&& t[i as int] == x
                &&& forall|j: int| i < j < t.len() ==> #[trigger] t[j] == s[j - 1]
            }
            &&& has_room(pre) && i <= s.len() ==> res is Ok
            &&& pre.budget.is_free() && !(i <= s.len()) ==> res == Err::<VecObject, HostError>(
                pre.spec_err((ScErrorType::Object, ScErrorCode::IndexBounds)),
            )
        }),
{
    lemma_free(pre);
    if let Ok(r) = res {
        assert(at(post, r.handle) == post.objs()[pre.objs().len() as int]);
    }
}

/// A vector with one more element at its end has all others before it.
pub proof fn law_vec_push_back(
    pre: Host,
    post: Host,
    v: VecObject,
    x: Val,
    res: Result<VecObject, HostError>,
)
    requires
        pre.wf(),
        val_ok(pre.objs(), v.to_val()),
        val_ok(pre.objs(), x),
        does_vec_push_back(pre, post, v, x, res),
    ensures
        ({
            let s = list_at(pre, v);
            &&& res matches Ok(r) ==> {
                let t = list_at(post, r);
                &&& true
                &&& is_new(pre, post, r.handle)
                &&& at(post, r.handle) is Vector
                &&& t.len() == s.len() + 1
                &&& forall|j: int| 0 <= j < s.len() ==> #[trigger] t[j] == s[j]
                &&& t[s.len() as int] == x
            }
            &&& has_room(pre) && true ==> res is Ok
        }),
{
    lemma_free(pre);
    if let Ok(r) = res {
        assert(at(post, r.handle) == post.objs()[pre.objs().len() as int]);
    }
}

/// A vector without its last element has all others.
pub proof fn law_vec_pop_back(
    pre: Host,
    post: Host,
    v: VecObject,
    res: Result<VecObject, HostError>,
)
    requires
        pre.wf(),
        val_ok(pre.objs(), v.to_val()),
        does_vec_pop_back(pre, post, v, res),
    ensures
        ({
            let s = list_at(pre, v);
            &&& res matches Ok(r) ==> {
                let t = list_at(post, r);
                &&& s.len() > 0
                &&& is_new(pre, post, r.handle)
                &&& at(post, r.handle) is Vector
                &&& t.len() == s.len() - 1
                &&& forall|j: int| 0 <= j < t.len() ==> #[trigger] t[j] == s[j]
            }
            &&& has_room(pre) && s.len() > 0 ==> res is Ok
            &&& pre.budget.is_free() && !(s.len() > 0) ==> res == Err::<VecObject, HostError>(
                pre.spec_err((ScErrorType::Object, ScErrorCode::IndexBounds)),
            )
        }),
{
    lemma_free(pre);
    if let Ok(r) = res {
        assert(at(post, r.handle) == post.objs()[pre.objs().len() as int]);
    }
}

/// Two as one: first the one, then the other.
pub proof fn law_vec_append(
    pre: Host,
    post: Host,
    v1: VecObject,
    v2: VecObject,
    res: Result<VecObject, HostError>,
)
    requires
        pre.wf(),
        val_ok(pre.objs(), v1.to_val()),
        val_ok(pre.objs(), v2.to_val()),
        does_vec_append(pre, post, v1, v2, res),
    ensures
        ({
            let (s1, s2) = (list_at(pre, v1), list_at(pre, v2));
            &&& res matches Ok(r) ==> {
                let t = list_at(post, r);
                &&& s1.len() + s2.len() <= u32::MAX
                &&& is_new(pre, post, r.handle)
                &&& at(post, r.handle) is Vector
                &&& t.len() == s1.len() + s2.len()
                &&& forall|j: int| 0 <= j < s1.len() ==> #[trigger] t[j] == s1[j]
                &&& forall|j: int| 0 <= j < s2.len() ==> t[s1.len() + j] == #[trigger] s2[j]
            }
            &&& has_room(pre) && s1.len() + s2.len() <= u32::MAX ==> res is Ok
            &&& pre.budget.is_free() && !(s1.len() + s2.len() <= u32::MAX) ==> res == Err::<VecObject, HostError>(
                pre.spec_err((ScErrorType::Value, ScErrorCode::ArithDomain)),
            )
        }),
{
    lemma_free(pre);
    if let Ok(r) = res {
        assert(at(post, r.handle) == post.objs()[pre.objs().len() as int]);
    }
}

/// A part of it: from one index up to another.
pub proof fn law_vec_slice(
    pre: Host,
    post: Host,
    v: VecObject,
    start: u32,
    end: u32,
    res: Result<VecObject, HostError>,
)
    requires
        pre.wf(),
        val_ok(pre.objs(), v.to_val()),
        does_vec_slice(pre, post, v, start, end, res),
    ensures
        ({
            let s = list_at(pre, v);
            &&& res matches Ok(r) ==> {
                let t = list_at(post, r);
                &&& start <= end && end <= s.len()
                &&& is_new(pre, post, r.handle)
                &&& at(post, r.handle) is Vector
                &&& t.len() == end - start
                &&& forall|j: int| 0 <= j < t.len() ==> #[trigger] t[j] == s[start + j]
            }
            &&& has_room(pre) && start <= end && end <= s.len() ==> res is Ok
        }),
{
    lemma_free(pre);
    if let Ok(r) = res {
        assert(at(post, r.handle) == post.objs()[pre.objs().len() as int]);
    }
}

/// What is at an index.
pub proof fn law_vec_get(
    pre: Host,
    post: Host,
    v: VecObject,
    i: u32,
    res: Result<Val, HostError>,
)
    requires
        pre.wf(),
        val_ok(pre.objs(), v.to_val()),
        does_vec_get(pre, post, v, i, res),
    ensures
        only_charged(pre, post),
        ({
            let s = list_at(pre, v);
            &&& res matches Ok(r) ==> i < s.len() && r == s[i as int]
            &&& pre.budget.is_free() && i < s.len() ==> res is Ok
            &&& pre.budget.is_free() && !(i < s.len()) ==> res == Err::<Val, HostError>(
                pre.spec_err((ScErrorType::Object, ScErrorCode::IndexBounds)),
            )
        }),
{
    lemma_free(pre);
}

/// What is first.
pub proof fn law_vec_front(
    pre: Host,
    post: Host,
    v: VecObject,
    res: Result<Val, HostError>,
)
    requires
        pre.wf(),
        val_ok(pre.objs(), v.to_val()),
        does_vec_front(pre, post, v, res),
    ensures
        only_charged(pre, post),
        ({
            let s = list_at(pre, v);
            &&& res matches Ok(r) ==> s.len() > 0 && r == s[0]
            &&& pre.budget.is_free() && s.len() > 0 ==> res is Ok
            &&& pre.budget.is_free() && !(s.len() > 0) ==> res == Err::<Val, HostError>(
                pre.spec_err((ScErrorType::Object, ScErrorCode::IndexBounds)),
            )
        }),
{
    lemma_free(pre);
}

/// What is last.
pub proof fn law_vec_back(
    pre: Host,
    post: Host,
    v: VecObject,
    res: Result<Val, HostError>,
)
    requires
        pre.wf(),
        val_ok(pre.objs(), v.to_val()),
        does_vec_back(pre, post, v, res),
    ensures
        only_charged(pre, post),
        ({
            let s = list_at(pre, v);
            &&& res matches Ok(r) ==> s.len() > 0 && r == s[s.len() - 1]
            &&& pre.budget.is_free() && s.len() > 0 ==> res is Ok
            &&& pre.budget.is_free() && !(s.len() > 0) ==> res == Err::<Val, HostError>(
                pre.spec_err((ScErrorType::Object, ScErrorCode::IndexBounds)),
            )
        }),
{
    lemma_free(pre);
}

/// How long it is.
pub proof fn law_vec_len(
    pre: Host,
    post: Host,
    v: VecObject,
    res: Result<u32, HostError>,
)
    requires
        pre.wf(),
        val_ok(pre.objs(), v.to_val()),
        does_vec_len(pre, post, v, res),
    ensures
        only_charged(pre, post),
        ({
            let s = list_at(pre, v);
            &&& res matches Ok(r) ==> s.len() <= u32::MAX && r == s.len()
            &&& pre.budget.is_free() && s.len() <= u32::MAX ==> res is Ok
        }),
{
    lemma_free(pre);
}

/// A byte string with a byte set has it there, and is otherwise the same.
pub proof fn law_bytes_put(
    pre: Host,
    post: Host,
    v: BytesObject,
    i: u32,
    u: u32,
    res: Result<BytesObject, HostError>,
)
    requires
        pre.wf(),
        val_ok(pre.objs(), v.to_val()),
        does_bytes_put(pre, post, v, i, u, res),
    ensures
        ({
            let s = bytes_at(pre, v);
            &&& res matches Ok(r) ==> {
                let t = bytes_at(post, r);
                &&& u <= 255 && i < s.len()
                &&& is_new(pre, post, r.handle)
                &&& at(post, r.handle) == ObjModel::Blob(BlobKind::Bytes, t)
                &&& t.len() == s.len()
                &&& t[i as int] == u as u8
                &&& forall|j: int| 0 <= j < s.len() && j != i ==> #[trigger] t[j] == s[j]
            }
            &&& has_room(pre) && u <= 255 && i < s.len() ==> res is Ok
        }),
{
    lemma_free(pre);
    if let Ok(r) = res {
        assert(at(post, r.handle) == post.objs()[pre.objs().len() as int]);
    }
}

/// A byte string without the byte at an index has all others, in order.
pub proof fn law_bytes_del(
    pre: Host,
    post: Host,
    v: BytesObject,
    i: u32,
    res: Result<BytesObject, HostError>,
)
    requires
        pre.wf(),
        val_ok(pre.objs(), v.to_val()),
        does_bytes_del(pre, post, v, i, res),
    ensures
        ({
            let s = bytes_at(pre, v);
            &&& res matches Ok(r) ==> {
                let t = bytes_at(post, r);
                &&& i < s.len()
                &&& is_new(pre, post, r.handle)
                &&& at(post, r.handle) == ObjModel::Blob(BlobKind::Bytes, t)
                &&& t.len() == s.len() - 1
                &&& forall|j: int| 0 <= j < i ==> #[trigger] t[j] == s[j]
                &&& forall|j: int| i <= j < t.len() ==> #[trigger] t[j] == s[j + 1]
            }
            &&& has_room(pre) && i < s.len() ==> res is Ok
            &&& pre.budget.is_free() && !(i < s.len()) ==> res == Err::<BytesObject, HostError>(
                pre.spec_err((ScErrorType::Object, ScErrorCode::IndexBounds)),
            )
        }),
{
    lemma_free(pre);
    if let Ok(r) = res {
        assert(at(post, r.handle) == post.objs()[pre.objs().len() as int]);
    }
}

/// A byte string with one more byte has it before what stood at the index, and all others in order.
pub proof fn law_bytes_insert(
    pre: Host,
    post: Host,
    v: BytesObject,
    i: u32,
    u: u32,
    res: Result<BytesObject, HostError>,
)
    requires
        pre.wf(),
        val_ok(pre.objs(), v.to_val()),
        does_bytes_insert(pre, post, v, i, u, res),
    ensures
        ({
            let s = bytes_at(pre, v);
            &&& res matches Ok(r) ==> {
                let t = bytes_at(post, r);
                &&& u <= 255 && i <= s.len() && s.len() < u32::MAX
                &&& is_new(pre, post, r.handle)
                &&& at(post, r.handle) == ObjModel::Blob(BlobKind::Bytes, t)
                &&& t.len() == s.len() + 1
                &&& forall|j: int| 0 <= j < i ==> #[trigger] t[j] == s[j]
                &&& t[i as int] == u as u8
                &&& forall|j: int| i < j < t.len() ==> #[trigger] t[j] == s[j - 1]
            }
            &&& has_room(pre) && u <= 255 && i <= s.len() && s.len() < u32::MAX ==> res is Ok
        }),
{
    lemma_free(pre);
    if let Ok(r) = res {
        assert(at(post, r.handle) == post.objs()[pre.objs().len() as int]);
    }
}

/// A byte string with one more byte at its end has all others before it.
pub proof fn law_bytes_push(
    pre: Host,
    post: Host,
    v: BytesObject,
    u: u32,
    res: Result<BytesObject, HostError>,
)
    requires
        pre.wf(),
        val_ok(pre.objs(), v.to_val()),
        does_bytes_push(pre, post, v, u, res),
    ensures
        ({
            let s = bytes_at(pre, v);
            &&& res matches Ok(r) ==> {
                let t = bytes_at(post, r);
                &&& u <= 255 && s.len() < u32::MAX
                &&& is_new(pre, post, r.handle)
                &&& at(post, r.handle) == ObjModel::Blob(BlobKind::Bytes, t)
                &&& t.len() == s.len() + 1
                &&& forall|j: int| 0 <= j < s.len() ==> #[trigger] t[j] == s[j]
                &&& t[s.len() as int] == u as u8
            }
            &&& has_room(pre) && u <= 255 && s.len() < u32::MAX ==> res is Ok
        }),
{
    lemma_free(pre);
    if let Ok(r) = res {
        assert(at(post, r.handle) == post.objs()[pre.objs().len() as int]);
    }
}

/// A byte string without its last byte has all others.
pub proof fn law_bytes_pop(
    pre: Host,
    post: Host,
    v: BytesObject,
    res: Result<BytesObject, HostError>,
)
    requires
        pre.wf(),
        val_ok(pre.objs(), v.to_val()),
        does_bytes_pop(pre, post, v, res),
    ensures
        ({
            let s = bytes_at(pre, v);
            &&& res matches Ok(r) ==> {
                let t = bytes_at(post, r);
                &&& s.len() > 0
                &&& is_new(pre, post, r.handle)
                &&& at(post, r.handle) == ObjModel::Blob(BlobKind::Bytes, t)
                &&& t.len() == s.len() - 1
                &&& forall|j: int| 0 <= j < t.len() ==> #[trigger] t[j] == s[j]
            }
            &&& has_room(pre) && s.len() > 0 ==> res is Ok
            &&& pre.budget.is_free() && !(s.len() > 0) ==> res == Err::<BytesObject, HostError>(
                pre.spec_err((ScErrorType::Object, ScErrorCode::IndexBounds)),
            )
        }),
{
    lemma_free(pre);
    if let Ok(r) = res {
        assert(at(post, r.handle) == post.objs()[pre.objs().len() as int]);
    }
}

/// Two as one: first the one, then the other.
pub proof fn law_bytes_append(
    pre: Host,
    post: Host,
    v1: BytesObject,
    v2: BytesObject,
    res: Result<BytesObject, HostError>,
)
    requires
        pre.wf(),
        val_ok(pre.objs(), v1.to_val()),
        val_ok(pre.objs(), v2.to_val()),
        does_bytes_append(pre, post, v1, v2, res),
    ensures
        ({
            let (s1, s2) = (bytes_at(pre, v1), bytes_at(pre, v2));
            &&& res matches Ok(r) ==> {
                let t = bytes_at(post, r);
                &&& s1.len() + s2.len() <= u32::MAX
                &&& is_new(pre, post, r.handle)
                &&& at(post, r.handle) == ObjModel::Blob(BlobKind::Bytes, t)
                &&& t.len() == s1.len() + s2.len()
                &&& forall|j: int| 0 <= j < s1.len() ==> #[trigger] t[j] == s1[j]
                &&& forall|j: int| 0 <= j < s2.len() ==> t[s1.len() + j] == #[trigger] s2[j]
            }
            &&& has_room(pre) && s1.len() + s2.len() <= u32::MAX ==> res is Ok
            &&& pre.budget.is_free() && !(s1.len() + s2.len() <= u32::MAX) ==> res == Err::<BytesObject, HostError>(
                pre.spec_err((ScErrorType::Value, ScErrorCode::ArithDomain)),
            )
        }),
{
    lemma_free(pre);
    if let Ok(r) = res {
        assert(at(post, r.handle) == post.objs()[pre.objs().len() as int]);
    }
}

/// A part of it: from one index up to another.
pub proof fn law_bytes_slice(
    pre: Host,
    post: Host,
    v: BytesObject,
    start: u32,
    end: u32,
    res: Result<BytesObject, HostError>,
)
    requires
        pre.wf(),
        val_ok(pre.objs(), v.to_val()),
        does_bytes_slice(pre, post, v, start, end, res),
    ensures
        ({
            let s = bytes_at(pre, v);
            &&& res matches Ok(r) ==> {
                let t = bytes_at(post, r);
                &&& start <= end && end <= s.len()
                &&& is_new(pre, post, r.handle)
                &&& at(post, r.handle) == ObjModel::Blob(BlobKind::Bytes, t)
                &&& t.len() == end - start
                &&& forall|j: int| 0 <= j < t.len() ==> #[trigger] t[j] == s[start + j]
            }
            &&& has_room(pre) && start <= end && end <= s.len() ==> res is Ok
        }),
{
    lemma_free(pre);
    if let Ok(r) = res {
        assert(at(post, r.handle) == post.objs()[pre.objs().len() as int]);
    }
}

/// What is at an index.
pub proof fn law_bytes_get(
    pre: Host,
    post: Host,
    v: BytesObject,
    i: u32,
    res: Result<u32, HostError>,
)
    requires
        pre.wf(),
        val_ok(pre.objs(), v.to_val()),
        does_bytes_get(pre, post, v, i, res),
    ensures
        only_charged(pre, post),
        ({
            let s = bytes_at(pre, v);
            &&& res matches Ok(r) ==> i < s.len() && r == s[i as int]
            &&& pre.budget.is_free() && i < s.len() ==> res is Ok
            &&& pre.budget.is_free() && !(i < s.len()) ==> res == Err::<u32, HostError>(
                pre.spec_err((ScErrorType::Object, ScErrorCode::IndexBounds)),
            )
        }),
{
    lemma_free(pre);
}

/// What is first.
pub proof fn law_bytes_front(
    pre: Host,
    post: Host,
    v: BytesObject,
    res: Result<u32, HostError>,
)
    requires
        pre.wf(),
        val_ok(pre.objs(), v.to_val()),
        does_bytes_front(pre, post, v, res),
    ensures
        only_charged(pre, post),
        ({
            let s = bytes_at(pre, v);
            &&& res matches Ok(r) ==> s.len() > 0 && r == s[0]
            &&& pre.budget.is_free() && s.len() > 0 ==> res is Ok
            &&& pre.budget.is_free() && !(s.len() > 0) ==> res == Err::<u32, HostError>(
                pre.spec_err((ScErrorType::Object, ScErrorCode::IndexBounds)),
            )
        }),
{
    lemma_free(pre);
}

/// What is last.
pub proof fn law_bytes_back(
    pre: Host,
    post: Host,
    v: BytesObject,
    res: Result<u32, HostError>,
)
    requires
        pre.wf(),
        val_ok(pre.objs(), v.to_val()),
        does_bytes_back(pre, post, v, res),
    ensures
        only_charged(pre, post),
        ({
            let s = bytes_at(pre, v);
            &&& res matches Ok(r) ==> s.len() > 0 && r == s[s.len() - 1]
            &&& pre.budget.is_free() && s.len() > 0 ==> res is Ok
            &&& pre.budget.is_free() && !(s.len() > 0) ==> res == Err::<u32, HostError>(
                pre.spec_err((ScErrorType::Object, ScErrorCode::IndexBounds)),
            )
        }),
{
    lemma_free(pre);
}

/// How long it is.
pub proof fn law_bytes_len(
    pre: Host,
    post: Host,
    v: BytesObject,
    res: Result<u32, HostError>,
)
    requires
        pre.wf(),
        val_ok(pre.objs(), v.to_val()),
        does_bytes_len(pre, post, v, res),
    ensures
        only_charged(pre, post),
        ({
            let s = bytes_at(pre, v);
            &&& res matches Ok(r) ==> s.len() <= u32::MAX && r == s.len()
            &&& pre.budget.is_free() && s.len() <= u32::MAX ==> res is Ok
        }),
{
    lemma_free(pre);
}

/// A vector with one more element at its front has all others after it.
pub proof fn law_vec_push_front(
    pre: Host,
    post: Host,
    v: VecObject,
    x: Val,
    res: Result<VecObject, HostError>,
)
    requires
        pre.wf(),
        val_ok(pre.objs(), v.to_val()),
        val_ok(pre.objs(), x),
        does_vec_push_front(pre, post, v, x, res),
    ensures
        ({
            let s = list_at(pre, v);
            &&& res matches Ok(r) ==> {
                let t = list_at(post, r);
                &&& true
                &&& is_new(pre, post, r.handle)
                &&& at(post, r.handle) is Vector
                &&& t.len() == s.len() + 1
                &&& t[0] == x
                &&& forall|j: int| 0 <= j < s.len() ==> t[j + 1] == #[trigger] s[j]
            }
            &&& has_room(pre) && true ==> res is Ok
        }),
{
    lemma_free(pre);
    if let Ok(r) = res {
        assert(at(post, r.handle) == post.objs()[pre.objs().len() as int]);
    }
}

/// A vector without its first element has all others.
pub proof fn law_vec_pop_front(
    pre: Host,
    post: Host,
    v: VecObject,
    res: Result<VecObject, HostError>,
)
    requires
        pre.wf(),
        val_ok(pre.objs(), v.to_val()),
        does_vec_pop_front(pre, post, v, res),
    ensures
        ({
            let s = list_at(pre, v);
            &&& res matches Ok(r) ==> {
                let t = list_at(post, r);
                &&& s.len() > 0
                &&& is_new(pre, post, r.handle)
                &&& at(post, r.handle) is Vector
                &&& t.len() == s.len() - 1
                &&& forall|j: int| 0 <= j < t.len() ==> #[trigger] t[j] == s[j + 1]
            }
            &&& has_room(pre) && s.len() > 0 ==> res is Ok
            &&& pre.budget.is_free() && !(s.len() > 0) ==> res == Err::<VecObject, HostError>(
                pre.spec_err((ScErrorType::Object, ScErrorCode::IndexBounds)),
            )
        }),
{
    lemma_free(pre);
    if let Ok(r) = res {
        assert(at(post, r.handle) == post.objs()[pre.objs().len() as int]);
    }
}

/// A vector of a slice has the values of the slice, in order, if all of them are good.
pub proof fn law_vec_new_from_slice(pre: Host, post: Host, vals: Seq<Val>, res: Result<VecObject, HostError>)
    requires
        pre.wf(),
        does_vec_new_from_slice(pre, post, vals, res),
    ensures
        res matches Ok(r) ==> is_new(pre, post, r.handle) && at(post, r.handle) == ObjModel::Vector(vals) && vals_ok(
            pre.objs(),
            vals,
        ),
        has_room(pre) && vals_ok(pre.objs(), vals) ==> res is Ok,
{
    lemma_free(pre);
    crate::host_object::law_vals_fault(pre.objs(), vals);
    if let Ok(r) = res {
        assert(at(post, r.handle) == post.objs()[pre.objs().len() as int]);
    }
}

/// A byte string of a slice has the bytes of the slice.
pub proof fn law_bytes_new_from_slice(pre: Host, post: Host, mem: Seq<u8>, res: Result<BytesObject, HostError>)
    requires
        pre.wf(),
        does_bytes_new_from_slice(pre, post, mem, res),
    ensures
        res matches Ok(r) ==> is_new(pre, post, r.handle) && at(post, r.handle) == ObjModel::Blob(BlobKind::Bytes, mem),
        has_room(pre) && mem.len() <= u32::MAX ==> res is Ok,
{
    lemma_free(pre);
    if let Ok(r) = res {
        assert(at(post, r.handle) == post.objs()[pre.objs().len() as int]);
    }
}

/// A byte string with a slice written over it has the slice from the position on, what it
/// had before and after, and zeros where it had nothing.
pub proof fn law_bytes_copy_from_slice(
    pre: Host,
    post: Host,
    b: BytesObject,
    b_pos: u32,
    slice: Seq<u8>,
    res: Result<BytesObject, HostError>,
)
    requires
        pre.wf(),
        val_ok(pre.objs(), b.to_val()),
        does_bytes_copy_from_slice(pre, post, b, b_pos, slice, res),
    ensures
        ({
            let s = bytes_at(pre, b);
            &&& res matches Ok(r) ==> {
                let t = bytes_at(post, r);
                &&& is_new(pre, post, r.handle)
                &&& at(post, r.handle) == ObjModel::Blob(BlobKind::Bytes, t)
                &&& t.len() >= s.len() && t.len() >= b_pos + slice.len()
                &&& t.len() == s.len() || t.len() == b_pos + slice.len()
                &&& forall|j: int| 0 <= j < slice.len() ==> t[b_pos + j] == #[trigger] slice[j]
                &&& forall|j: int|
                    0 <= j < s.len() && (j < b_pos || j >= b_pos + slice.len()) ==> #[trigger] t[j] == s[j]
                &&& forall|j: int| s.len() <= j < b_pos ==> #[trigger] t[j] == 0
            }
            &&& has_room(pre) && b_pos + slice.len() <= u32::MAX ==> res is Ok
        }),
{
    lemma_free(pre);
    if let Ok(r) = res {
        assert(at(post, r.handle) == post.objs()[pre.objs().len() as int]);
    }
}

/// How long texts and symbols are.
pub proof fn law_string_and_symbol_len(
    pre: Host,
    post: Host,
    s: StringObject,
    n: Result<u32, HostError>,
    other: Host,
    sym: SymbolObject,
    k: Result<u32, HostError>,
)
    requires
        pre.wf(),
        val_ok(pre.objs(), s.to_val()),
        val_ok(pre.objs(), sym.to_val()),
        does_string_len(pre, post, s, n),
        does_symbol_len(pre, other, sym, k),
    ensures
        only_charged(pre, post) && only_charged(pre, other),
        n is Ok ==> n->Ok_0 == at(pre, s.handle)->Blob_1.len(),
        k is Ok ==> k->Ok_0 == at(pre, sym.handle)->Blob_1.len(),
        pre.budget.is_free() ==> n is Ok && k is Ok,
{
    lemma_free(pre);
}

/// Whether a value stands in a vector at an index, by what it denotes.
pub open spec fn stands_at(host: Host, v: VecObject, x: Val, i: int) -> bool {
    0 <= i < list_at(host, v).len() && deep(host.objs(), list_at(host, v)[i]) == deep(host.objs(), x)
}

/// The index that is found for a value is one at which it stands, and there is none before
/// it or none after it; nothing is found if and only if it stands nowhere.
pub proof fn law_vec_index_of(
    pre: Host,
    post: Host,
    other: Host,
    v: VecObject,
    x: Val,
    first: Val,
    last: Val,
)
    requires
        pre.wf(),
        val_ok(pre.objs(), v.to_val()),
        does_vec_first_index_of(pre, post, v, x, Ok(first)),
        does_vec_last_index_of(pre, other, v, x, Ok(last)),
    ensures
        only_charged(pre, post) && only_charged(pre, other),
        first is Void || first is U32,
        first is Void <==> forall|i: int| !(#[trigger] stands_at(pre, v, x, i)),
        first matches Val::U32(k) ==> stands_at(pre, v, x, k as int) && forall|i: int| #[trigger]
            stands_at(pre, v, x, i) ==> k <= i,
        last is Void <==> forall|i: int| !(#[trigger] stands_at(pre, v, x, i)),
        last is Void || last is U32,
        last matches Val::U32(k) ==> stands_at(pre, v, x, k as int) && forall|i: int| #[trigger]
            stands_at(pre, v, x, i) ==> i <= k,
{
    let s = deep_seq(pre.objs(), list_at(pre, v));
    let d = deep(pre.objs(), x);
    law_first_place(s, d, 0);
    law_last_place(s, d, s.len());
    assert forall|i: int| 0 <= i < s.len() implies (stands_at(pre, v, x, i) <==> #[trigger] s[i] == d) by {}
    assert forall|i: int| #[trigger] stands_at(pre, v, x, i) implies s[i] == d by {}
    if let Val::U32(k) = first {
        assert(stands_at(pre, v, x, k as int));
    }
    if let Val::U32(k) = last {
        assert(stands_at(pre, v, x, k as int));
    }
}

/// A value that is good can be looked for in a vector, if nothing nests too deep.
pub proof fn law_vec_index_of_is_told(
    pre: Host,
    post: Host,
    v: VecObject,
    x: Val,
    res: Result<Val, HostError>,
)
    requires
        pre.wf(),
        val_ok(pre.objs(), v.to_val()),
        val_ok(pre.objs(), x),
        does_vec_first_index_of(pre, post, v, x, res) || does_vec_last_index_of(pre, post, v, x, res),
        pre.budget.is_free(),
        list_at(pre, v).len() <= u32::MAX,
        forall|i: int|
            0 <= i < list_at(pre, v).len() ==> order_levels(
                deep(pre.objs(), x),
                deep(pre.objs(), #[trigger] list_at(pre, v)[i]),
            ) <= DEFAULT_HOST_DEPTH_LIMIT,
    ensures
        res is Ok,
{
    lemma_free(pre);
    let s = deep_seq(pre.objs(), list_at(pre, v));
    let d = deep(pre.objs(), x);
    law_first_place(s, d, 0);
    law_last_place(s, d, s.len());
    assert forall|j: int| 0 <= j < s.len() implies order_levels(d, #[trigger] s[j]) <= DEFAULT_HOST_DEPTH_LIMIT by {
        let y = list_at(pre, v)[j];
    }
}

/// A search in a vector tells, in the upper half of its answer, whether the value was
/// found, and in the lower half where; if the vector is in order, a value that stands in it
/// is found, and one that does not is told where it belongs.
pub proof fn law_vec_binary_search(pre: Host, post: Host, v: VecObject, x: Val, r: u64)
    requires
        pre.wf(),
        val_ok(pre.objs(), v.to_val()),
        does_vec_binary_search(pre, post, v, x, Ok(r)),
    ensures
        only_charged(pre, post),
        ({
            let s = list_at(pre, v);
            let (found, p) = (r / 0x1_0000_0000, (r % 0x1_0000_0000) as int);
            let in_order = forall|i: int, j: int|
                0 <= i < j < s.len() ==> deep_order(
                    deep(pre.objs(), #[trigger] s[i]),
                    deep(pre.objs(), #[trigger] s[j]),
                ) <= 0;
            &&& s.len() < 0x1_0000_0000 ==> {
                &&& found == 0 || found == 1
                &&& found == 1 ==> stands_at(pre, v, x, p)
                &&& found == 0 ==> 0 <= p <= s.len()
                &&& found == 0 && in_order ==> forall|i: int|
                    0 <= i < s.len() ==> (i < p <==> deep_order(deep(pre.objs(), #[trigger] s[i]), deep(pre.objs(), x))
                        < 0)
                &&& found == 0 && in_order ==> forall|i: int| !(#[trigger] stands_at(pre, v, x, i))
            }
        }),
{
    let s = list_at(pre, v);
    let l = deep_seq(pre.objs(), s);
    let d = deep(pre.objs(), x);
    if forall|i: int, j: int|
        0 <= i < j < s.len() ==> deep_order(deep(pre.objs(), #[trigger] s[i]), deep(pre.objs(), #[trigger] s[j]))
            <= 0 {
        assert(ascending(l)) by {
            assert forall|i: int, j: int| 0 <= i < j < l.len() implies deep_order(#[trigger] l[i], #[trigger] l[j])
                <= 0 by {
                let (y, z) = (s[i], s[j]);
            }
        }
    }
    assert forall|i: int| 0 <= i < s.len() implies #[trigger] l[i] == deep(pre.objs(), s[i]) by {}
    crate::model::law_order_zero(d, d);
    if r < 0x1_0000_0000 && s.len() < 0x1_0000_0000 {
        assert(crate::host_vec::is_search_result(l, d, false, r as int));
        if ascending(l) {
            assert forall|i: int| 0 <= i < s.len() implies (i < r <==> deep_order(
                deep(pre.objs(), #[trigger] s[i]),
                d,
            ) < 0) by {
                let y = l[i];
            }
            assert forall|i: int| !(#[trigger] stands_at(pre, v, x, i)) by {
                if stands_at(pre, v, x, i) {
                    let y = l[i];
                }
            }
        }
    }
}

/// Whether a map has a key at an index, by what it denotes.
pub open spec fn has_key_at(host: Host, m: MapObject, k: Val, i: int) -> bool {
    0 <= i < entries_at(host, m).len() && deep(host.objs(), entries_at(host, m)[i].0) == deep(host.objs(), k)
}

proof fn lemma_entries(host: Host, m: MapObject)
    requires
        host.wf(),
        val_ok(host.objs(), m.to_val()),
    ensures
        at(host, m.handle) is Mapping,
        map_ok(host.objs(), entries_at(host, m)),
{
    let o = m.to_val()->Object_0;
    crate::model::lemma_deep_mapping(host.objs(), o);
}

/// What a map has under a key is the value that stands beside it, and it is missing if and
/// only if the map has no such key.
pub proof fn law_map_get_and_has(
    pre: Host,
    post: Host,
    other: Host,
    m: MapObject,
    k: Val,
    got: Result<Val, HostError>,
    has: Result<bool, HostError>,
)
    requires
        pre.wf(),
        val_ok(pre.objs(), m.to_val()),
        val_ok(pre.objs(), k),
        does_map_get(pre, post, m, k, got),
        does_map_has(pre, other, m, k, has),
    ensures
        only_charged(pre, post) && only_charged(pre, other),
        got matches Ok(v) ==> exists|i: int| #[trigger] has_key_at(pre, m, k, i) && entries_at(pre, m)[i].1 == v,
        has == Ok::<bool, HostError>(true) ==> exists|i: int| #[trigger] has_key_at(pre, m, k, i),
        has == Ok::<bool, HostError>(false) ==> forall|i: int| !(#[trigger] has_key_at(pre, m, k, i)),
        pre.budget.is_free() && within_depth(pre.objs(), entries_at(pre, m), deep(pre.objs(), k)) ==> {
            &&& has is Ok
            &&& got is Ok <==> has == Ok::<bool, HostError>(true)
            &&& got is Err ==> got == Err::<Val, HostError>(
                pre.spec_err((ScErrorType::Object, ScErrorCode::MissingValue)),
            )
        },
{
    lemma_free(pre);
    lemma_entries(pre, m);
    let (objs, e, d) = (pre.objs(), entries_at(pre, m), deep(pre.objs(), k));
    law_lookup(objs, e, d);
    if lookup(objs, e, d) is Some {
        let i = choose|i: int| 0 <= i < e.len() && key_at(objs, e, i) == d && #[trigger] e[i].1 == lookup(objs, e, d)->Some_0;
        assert(has_key_at(pre, m, k, i));
    } else {
        assert forall|i: int| !(#[trigger] has_key_at(pre, m, k, i)) by {
            if 0 <= i < e.len() {
                assert(key_at(objs, e, i) != d);
            }
        }
    }
}

/// A map with a key set has the value under it, and every other key with the value that it
/// had; it has no more keys than that.
pub proof fn law_map_put(pre: Host, post: Host, m: MapObject, k: Val, v: Val, r: MapObject)
    requires
        pre.wf(),
        val_ok(pre.objs(), m.to_val()),
        val_ok(pre.objs(), k),
        val_ok(pre.objs(), v),
        does_map_put(pre, post, m, k, v, Ok(r)),
    ensures
        is_new(pre, post, r.handle),
        at(post, r.handle) is Mapping,
        ({
            let (objs, e, f) = (pre.objs(), entries_at(pre, m), entries_at(post, r));
            &&& exists|i: int| 0 <= i < f.len() && deep(objs, f[i].0) == deep(objs, k) && #[trigger] f[i].1 == v
            &&& forall|i: int|
                0 <= i < e.len() && deep(objs, (#[trigger] e[i]).0) != deep(objs, k) ==> exists|j: int|
                    0 <= j < f.len() && deep(objs, f[j].0) == deep(objs, e[i].0) && #[trigger] f[j].1 == e[i].1
            &&& f.len() == e.len() || f.len() == e.len() + 1
            &&& f.len() == e.len() <==> exists|i: int| #[trigger] has_key_at(pre, m, k, i)
            &&& forall|i: int, j: int|
                0 <= i < j < f.len() ==> deep_order(deep(objs, (#[trigger] f[i]).0), deep(objs, (#[trigger] f[j]).0)) < 0
        }),
{
    lemma_entries(pre, m);
    assert(at(post, r.handle) == post.objs()[pre.objs().len() as int]);
    let (objs, e, f, d) = (pre.objs(), entries_at(pre, m), entries_at(post, r), deep(pre.objs(), k));
    law_map_insert(objs, e, k, v);
    assert(f == map_insert(objs, e, k, v));
    law_lookup(objs, f, d);
    law_lookup(objs, e, d);
    assert forall|i: int| 0 <= i < e.len() && deep(objs, (#[trigger] e[i]).0) != d implies exists|j: int|
        0 <= j < f.len() && deep(objs, f[j].0) == deep(objs, e[i].0) && #[trigger] f[j].1 == e[i].1 by {
        let x = deep(objs, e[i].0);
        law_lookup(objs, e, x);
        law_lookup(objs, f, x);
        assert(key_at(objs, e, i) == x);
        assert(lookup(objs, f, x) == lookup(objs, e, x));
        let j = choose|j: int| 0 <= j < f.len() && key_at(objs, f, j) == x && #[trigger] f[j].1 == e[i].1;
        assert(f[j].1 == e[i].1);
    }
    let i = choose|i: int| 0 <= i < f.len() && key_at(objs, f, i) == d && #[trigger] f[i].1 == v;
    assert(f[i].1 == v);
    if lookup(objs, e, d) is Some {
        let i = choose|i: int| 0 <= i < e.len() && key_at(objs, e, i) == d && #[trigger] e[i].1 == lookup(objs, e, d)->Some_0;
        assert(has_key_at(pre, m, k, i));
    } else {
        assert forall|i: int| !(#[trigger] has_key_at(pre, m, k, i)) by {
            if 0 <= i < e.len() {
                assert(key_at(objs, e, i) != d);
            }
        }
    }
    assert forall|i: int, j: int| 0 <= i < j < f.len() implies deep_order(
        deep(objs, (#[trigger] f[i]).0),
        deep(objs, (#[trigger] f[j]).0),
    ) < 0 by {
        assert(deep_order(key_at(objs, f, i), key_at(objs, f, j)) < 0);
    }
}

/// A map without a key has every other key with the value that it had, and not that one.
pub proof fn law_map_del(pre: Host, post: Host, m: MapObject, k: Val, r: MapObject)
    requires
        pre.wf(),
        val_ok(pre.objs(), m.to_val()),
        val_ok(pre.objs(), k),
        does_map_del(pre, post, m, k, Ok(r)),
    ensures
        is_new(pre, post, r.handle),
        at(post, r.handle) is Mapping,
        ({
            let (objs, e, f) = (pre.objs(), entries_at(pre, m), entries_at(post, r));
            &&& f.len() == e.len() - 1
            &&& forall|i: int| 0 <= i < f.len() ==> deep(objs, (#[trigger] f[i]).0) != deep(objs, k)
            &&& forall|i: int|
                0 <= i < e.len() && deep(objs, (#[trigger] e[i]).0) != deep(objs, k) ==> exists|j: int|
                    0 <= j < f.len() && deep(objs, f[j].0) == deep(objs, e[i].0) && #[trigger] f[j].1 == e[i].1
        }),
{
    lemma_entries(pre, m);
    assert(at(post, r.handle) == post.objs()[pre.objs().len() as int]);
    let (objs, e, f, d) = (pre.objs(), entries_at(pre, m), entries_at(post, r), deep(pre.objs(), k));
    law_map_remove(objs, e, k);
    assert(f == map_remove(objs, e, k));
    law_lookup(objs, f, d);
    assert forall|i: int| 0 <= i < f.len() implies deep(objs, (#[trigger] f[i]).0) != d by {
        assert(key_at(objs, f, i) != d);
    }
    assert forall|i: int| 0 <= i < e.len() && deep(objs, (#[trigger] e[i]).0) != d implies exists|j: int|
        0 <= j < f.len() && deep(objs, f[j].0) == deep(objs, e[i].0) && #[trigger] f[j].1 == e[i].1 by {
        let x = deep(objs, e[i].0);
        law_lookup(objs, e, x);
        law_lookup(objs, f, x);
        assert(key_at(objs, e, i) == x);
        assert(lookup(objs, f, x) == lookup(objs, e, x));
        let j = choose|j: int| 0 <= j < f.len() && key_at(objs, f, j) == x && #[trigger] f[j].1 == e[i].1;
        assert(f[j].1 == e[i].1);
    }
}

/// Where there is room, work is free and no key nests too deep, any good key can be set,
/// and one that a map has can be taken out; one that it does not have cannot.
pub proof fn law_maps_can_be_changed(
    pre: Host,
    post: Host,
    other: Host,
    m: MapObject,
    k: Val,
    v: Val,
    put: Result<MapObject, HostError>,
    del: Result<MapObject, HostError>,
)
    requires
        pre.wf(),
        val_ok(pre.objs(), m.to_val()),
        val_ok(pre.objs(), k),
        val_ok(pre.objs(), v),
        does_map_put(pre, post, m, k, v, put),
        does_map_del(pre, other, m, k, del),
        has_room(pre),
        within_depth(pre.objs(), entries_at(pre, m), deep(pre.objs(), k)),
    ensures
        put is Ok,
        del is Ok <==> exists|i: int| #[trigger] has_key_at(pre, m, k, i),
        del is Err ==> del == Err::<MapObject, HostError>(
            pre.spec_err((ScErrorType::Object, ScErrorCode::MissingValue)),
        ),
{
    lemma_free(pre);
    lemma_entries(pre, m);
    let (objs, e, d) = (pre.objs(), entries_at(pre, m), deep(pre.objs(), k));
    law_lookup(objs, e, d);
    if lookup(objs, e, d) is Some {
        let i = choose|i: int| 0 <= i < e.len() && key_at(objs, e, i) == d && #[trigger] e[i].1 == lookup(objs, e, d)->Some_0;
        assert(has_key_at(pre, m, k, i));
    } else {
        assert forall|i: int| !(#[trigger] has_key_at(pre, m, k, i)) by {
            if 0 <= i < e.len() {
                assert(key_at(objs, e, i) != d);
            }
        }
    }
}

/// The keys and the values of a map, each in the order of the keys.
pub proof fn law_map_keys_and_values(
    pre: Host,
    post: Host,
    other: Host,
    m: MapObject,
    keys: Result<VecObject, HostError>,
    values: Result<VecObject, HostError>,
)
    requires
        pre.wf(),
        val_ok(pre.objs(), m.to_val()),
        does_map_keys(pre, post, m, keys),
        does_map_values(pre, other, m, values),
    ensures
        keys matches Ok(r) ==> {
            &&& is_new(pre, post, r.handle)
            &&& at(post, r.handle) is Vector
            &&& list_at(post, r).len() == entries_at(pre, m).len()
            &&& forall|i: int| 0 <= i < entries_at(pre, m).len() ==> #[trigger] list_at(post, r)[i] == entries_at(pre, m)[i].0
        },
        values matches Ok(r) ==> {
            &&& is_new(pre, other, r.handle)
            &&& at(other, r.handle) is Vector
            &&& list_at(other, r).len() == entries_at(pre, m).len()
            &&& forall|i: int| 0 <= i < entries_at(pre, m).len() ==> #[trigger] list_at(other, r)[i] == entries_at(pre, m)[i].1
        },
        has_room(pre) ==> keys is Ok && values is Ok,
{
    lemma_free(pre);
    lemma_entries(pre, m);
    if let Ok(r) = keys {
        assert(at(post, r.handle) == post.objs()[pre.objs().len() as int]);
    }
    if let Ok(r) = values {
        assert(at(other, r.handle) == other.objs()[pre.objs().len() as int]);
    }
}

/// The key at a position in the order of the keys.
pub proof fn law_map_key_by_pos(
    pre: Host,
    post: Host,
    v: MapObject,
    i: u32,
    res: Result<Val, HostError>,
)
    requires
        pre.wf(),
        val_ok(pre.objs(), v.to_val()),
        does_map_key_by_pos(pre, post, v, i, res),
    ensures
        only_charged(pre, post),
        ({
            let s = entries_at(pre, v);
            &&& res matches Ok(r) ==> i < s.len() && r == s[i as int].0
            &&& pre.budget.is_free() && i < s.len() ==> res is Ok
            &&& pre.budget.is_free() && !(i < s.len()) ==> res == Err::<Val, HostError>(
                pre.spec_err((ScErrorType::Object, ScErrorCode::IndexBounds)),
            )
        }),
{
    lemma_free(pre);
}

/// The value at a position in the order of the keys.
pub proof fn law_map_val_by_pos(
    pre: Host,
    post: Host,
    v: MapObject,
    i: u32,
    res: Result<Val, HostError>,
)
    requires
        pre.wf(),
        val_ok(pre.objs(), v.to_val()),
        does_map_val_by_pos(pre, post, v, i, res),
    ensures
        only_charged(pre, post),
        ({
            let s = entries_at(pre, v);
            &&& res matches Ok(r) ==> i < s.len() && r == s[i as int].1
            &&& pre.budget.is_free() && i < s.len() ==> res is Ok
            &&& pre.budget.is_free() && !(i < s.len()) ==> res == Err::<Val, HostError>(
                pre.spec_err((ScErrorType::Object, ScErrorCode::IndexBounds)),
            )
        }),
{
    lemma_free(pre);
}

/// How many keys a map has.
pub proof fn law_map_len(
    pre: Host,
    post: Host,
    v: MapObject,
    res: Result<u32, HostError>,
)
    requires
        pre.wf(),
        val_ok(pre.objs(), v.to_val()),
        does_map_len(pre, post, v, res),
    ensures
        only_charged(pre, post),
        ({
            let s = entries_at(pre, v);
            &&& res matches Ok(r) ==> s.len() <= u32::MAX && r == s.len()
            &&& pre.budget.is_free() && s.len() <= u32::MAX ==> res is Ok
        }),
{
    lemma_free(pre);
}

} // verus!
