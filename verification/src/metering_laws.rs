//! What work on objects costs.

use crate::bignum::lemma_be_bytes_len;
use crate::budget::{Budget, ContractCostType};
use crate::collection_laws::{at, bytes_at, entries_at, list_at};
use crate::error::HostError;
use crate::host::Host;
use crate::host_address::{does_address_to_account_public_key, does_address_to_contract_id};
use crate::host_buf::{
    deserializes, does_bytes_append, does_bytes_back, does_bytes_del, does_bytes_front, does_bytes_get,
    does_bytes_insert, does_bytes_len, does_bytes_pop, does_bytes_push, does_bytes_put, does_string_len, does_symbol_len, serializes,
};
use crate::host_map::{
    does_map_del, does_map_get, does_map_has, does_map_key_by_pos, does_map_keys, does_map_len, does_map_put,
    does_map_val_by_pos, does_map_values,
};
use crate::host_prng::{does_prng_bytes_new, draws_bytes, readies_prng};
use crate::host_vec::{
    does_vec_append, does_vec_back, does_vec_del, does_vec_first_index_of, does_vec_front, does_vec_get,
    does_vec_insert, does_vec_last_index_of, does_vec_len, does_vec_pop_back, does_vec_pop_front, does_vec_push_back,
    does_vec_push_front, does_vec_put, does_vec_unpack_to_slice,
};
use crate::host_crypto::{checks_ed25519, does_compute_hash_keccak256, does_compute_hash_sha256};
use crate::host_memory::{does_vec_new_from_linear_memory, does_vec_unpack_to_linear_memory};
use crate::model::{val_ok, BlobKind, ScAddress};
use crate::val::{AddressObject, BytesObject, MapObject, StringObject, SymbolObject, Val, VecObject};
use vstd::prelude::*;

verus! {

/// A budget after an object was looked at.
pub open spec fn looked(b: Budget) -> Budget {
    b.charged(ContractCostType::VisitObject, None)
}

/// A budget after a number of bytes was copied.
pub open spec fn moved(b: Budget, n: int) -> Budget {
    b.charged(ContractCostType::HostMemCpy, Some(n as u64))
}

/// A budget after room was made for a number of bytes and they were copied there.
pub open spec fn made(b: Budget, n: int) -> Budget {
    moved(b.charged(ContractCostType::HostMemAlloc, Some(n as u64)), n)
}

/// What `vec_put` costs.
pub proof fn law_cost_of_vec_put(
    pre: Host,
    post: Host,
    v: VecObject,
    i: u32,
    x: Val,
    r: VecObject,
)
    requires
        does_vec_put(pre, post, v, i, x, Ok(r)),
        val_ok(pre.objs(), v.to_val()),
        8 * list_at(post, r).len() <= u64::MAX,
    ensures
        post.budget == made(looked(pre.budget), 8 * list_at(post, r).len() as int),
{
}

/// What `vec_get` costs.
pub proof fn law_cost_of_vec_get(
    pre: Host,
    post: Host,
    v: VecObject,
    i: u32,
    r: Val,
)
    requires
        does_vec_get(pre, post, v, i, Ok(r)),
        val_ok(pre.objs(), v.to_val()),
    ensures
        post.budget == looked(pre.budget),
{
}

/// What `vec_del` costs.
pub proof fn law_cost_of_vec_del(
    pre: Host,
    post: Host,
    v: VecObject,
    i: u32,
    r: VecObject,
)
    requires
        does_vec_del(pre, post, v, i, Ok(r)),
        val_ok(pre.objs(), v.to_val()),
        8 * list_at(post, r).len() <= u64::MAX,
    ensures
        post.budget == made(looked(pre.budget), 8 * list_at(post, r).len() as int),
{
}

/// What `vec_len` costs.
pub proof fn law_cost_of_vec_len(
    pre: Host,
    post: Host,
    v: VecObject,
    r: u32,
)
    requires
        does_vec_len(pre, post, v, Ok(r)),
        val_ok(pre.objs(), v.to_val()),
    ensures
        post.budget == looked(pre.budget),
{
}

/// What `vec_push_front` costs.
pub proof fn law_cost_of_vec_push_front(
    pre: Host,
    post: Host,
    v: VecObject,
    x: Val,
    r: VecObject,
)
    requires
        does_vec_push_front(pre, post, v, x, Ok(r)),
        val_ok(pre.objs(), v.to_val()),
        8 * list_at(post, r).len() <= u64::MAX,
    ensures
        post.budget == made(looked(pre.budget), 8 * list_at(post, r).len() as int),
{
}

/// What `vec_pop_front` costs.
pub proof fn law_cost_of_vec_pop_front(
    pre: Host,
    post: Host,
    v: VecObject,
    r: VecObject,
)
    requires
        does_vec_pop_front(pre, post, v, Ok(r)),
        val_ok(pre.objs(), v.to_val()),
        8 * list_at(post, r).len() <= u64::MAX,
    ensures
        post.budget == made(looked(pre.budget), 8 * list_at(post, r).len() as int),
{
}

/// What `vec_push_back` costs.
pub proof fn law_cost_of_vec_push_back(
    pre: Host,
    post: Host,
    v: VecObject,
    x: Val,
    r: VecObject,
)
    requires
        does_vec_push_back(pre, post, v, x, Ok(r)),
        val_ok(pre.objs(), v.to_val()),
        8 * list_at(post, r).len() <= u64::MAX,
    ensures
        post.budget == made(looked(pre.budget), 8 * list_at(post, r).len() as int),
{
}

/// What `vec_pop_back` costs.
pub proof fn law_cost_of_vec_pop_back(
    pre: Host,
    post: Host,
    v: VecObject,
    r: VecObject,
)
    requires
        does_vec_pop_back(pre, post, v, Ok(r)),
        val_ok(pre.objs(), v.to_val()),
        8 * list_at(post, r).len() <= u64::MAX,
    ensures
        post.budget == made(looked(pre.budget), 8 * list_at(post, r).len() as int),
{
}

/// What `vec_front` costs.
pub proof fn law_cost_of_vec_front(
    pre: Host,
    post: Host,
    v: VecObject,
    r: Val,
)
    requires
        does_vec_front(pre, post, v, Ok(r)),
        val_ok(pre.objs(), v.to_val()),
    ensures
        post.budget == looked(pre.budget),
{
}

/// What `vec_back` costs.
pub proof fn law_cost_of_vec_back(
    pre: Host,
    post: Host,
    v: VecObject,
    r: Val,
)
    requires
        does_vec_back(pre, post, v, Ok(r)),
        val_ok(pre.objs(), v.to_val()),
    ensures
        post.budget == looked(pre.budget),
{
}

/// What `vec_insert` costs.
pub proof fn law_cost_of_vec_insert(
    pre: Host,
    post: Host,
    v: VecObject,
    i: u32,
    x: Val,
    r: VecObject,
)
    requires
        does_vec_insert(pre, post, v, i, x, Ok(r)),
        val_ok(pre.objs(), v.to_val()),
        8 * list_at(post, r).len() <= u64::MAX,
    ensures
        post.budget == made(looked(pre.budget), 8 * list_at(post, r).len() as int),
{
}

/// What `vec_append` costs.
pub proof fn law_cost_of_vec_append(
    pre: Host,
    post: Host,
    v1: VecObject,
    v2: VecObject,
    r: VecObject,
)
    requires
        does_vec_append(pre, post, v1, v2, Ok(r)),
        val_ok(pre.objs(), v1.to_val()),
        val_ok(pre.objs(), v2.to_val()),
        8 * list_at(post, r).len() <= u64::MAX,
    ensures
        post.budget == made(looked(looked(pre.budget)), 8 * list_at(post, r).len() as int),
{
}

/// What `vec_first_index_of` costs.
pub proof fn law_cost_of_vec_first_index_of(
    pre: Host,
    post: Host,
    v: VecObject,
    x: Val,
    r: Val,
)
    requires
        does_vec_first_index_of(pre, post, v, x, Ok(r)),
        val_ok(pre.objs(), v.to_val()),
    ensures
        post.budget == looked(pre.budget),
{
}

/// What `vec_last_index_of` costs.
pub proof fn law_cost_of_vec_last_index_of(
    pre: Host,
    post: Host,
    v: VecObject,
    x: Val,
    r: Val,
)
    requires
        does_vec_last_index_of(pre, post, v, x, Ok(r)),
        val_ok(pre.objs(), v.to_val()),
    ensures
        post.budget == looked(pre.budget),
{
}

/// What `map_put` costs.
pub proof fn law_cost_of_map_put(
    pre: Host,
    post: Host,
    m: MapObject,
    k: Val,
    v: Val,
    r: MapObject,
)
    requires
        does_map_put(pre, post, m, k, v, Ok(r)),
        val_ok(pre.objs(), m.to_val()),
        16 * entries_at(post, r).len() <= u64::MAX,
    ensures
        post.budget == made(looked(pre.budget), 16 * entries_at(post, r).len() as int),
{
}

/// What `map_get` costs.
pub proof fn law_cost_of_map_get(
    pre: Host,
    post: Host,
    m: MapObject,
    k: Val,
    r: Val,
)
    requires
        does_map_get(pre, post, m, k, Ok(r)),
        val_ok(pre.objs(), m.to_val()),
    ensures
        post.budget == looked(pre.budget),
{
}

/// What `map_del` costs.
pub proof fn law_cost_of_map_del(
    pre: Host,
    post: Host,
    m: MapObject,
    k: Val,
    r: MapObject,
)
    requires
        does_map_del(pre, post, m, k, Ok(r)),
        val_ok(pre.objs(), m.to_val()),
        16 * entries_at(post, r).len() <= u64::MAX,
    ensures
        post.budget == made(looked(pre.budget), 16 * entries_at(post, r).len() as int),
{
}

/// What `map_has` costs.
pub proof fn law_cost_of_map_has(
    pre: Host,
    post: Host,
    m: MapObject,
    k: Val,
    r: bool,
)
    requires
        does_map_has(pre, post, m, k, Ok(r)),
        val_ok(pre.objs(), m.to_val()),
    ensures
        post.budget == looked(pre.budget),
{
}

/// What `map_len` costs.
pub proof fn law_cost_of_map_len(
    pre: Host,
    post: Host,
    m: MapObject,
    r: u32,
)
    requires
        does_map_len(pre, post, m, Ok(r)),
        val_ok(pre.objs(), m.to_val()),
    ensures
        post.budget == looked(pre.budget),
{
}

/// What `map_key_by_pos` costs.
pub proof fn law_cost_of_map_key_by_pos(
    pre: Host,
    post: Host,
    m: MapObject,
    i: u32,
    r: Val,
)
    requires
        does_map_key_by_pos(pre, post, m, i, Ok(r)),
        val_ok(pre.objs(), m.to_val()),
    ensures
        post.budget == looked(pre.budget),
{
}

/// What `map_val_by_pos` costs.
pub proof fn law_cost_of_map_val_by_pos(
    pre: Host,
    post: Host,
    m: MapObject,
    i: u32,
    r: Val,
)
    requires
        does_map_val_by_pos(pre, post, m, i, Ok(r)),
        val_ok(pre.objs(), m.to_val()),
    ensures
        post.budget == looked(pre.budget),
{
}

/// What `map_keys` costs.
pub proof fn law_cost_of_map_keys(
    pre: Host,
    post: Host,
    m: MapObject,
    r: VecObject,
)
    requires
        does_map_keys(pre, post, m, Ok(r)),
        val_ok(pre.objs(), m.to_val()),
        8 * list_at(post, r).len() <= u64::MAX,
    ensures
        post.budget == made(looked(pre.budget), 8 * list_at(post, r).len() as int),
{
}

/// What `map_values` costs.
pub proof fn law_cost_of_map_values(
    pre: Host,
    post: Host,
    m: MapObject,
    r: VecObject,
)
    requires
        does_map_values(pre, post, m, Ok(r)),
        val_ok(pre.objs(), m.to_val()),
        8 * list_at(post, r).len() <= u64::MAX,
    ensures
        post.budget == made(looked(pre.budget), 8 * list_at(post, r).len() as int),
{
}

/// What `bytes_len` costs.
pub proof fn law_cost_of_bytes_len(
    pre: Host,
    post: Host,
    o: BytesObject,
    r: u32,
)
    requires
        does_bytes_len(pre, post, o, Ok(r)),
        val_ok(pre.objs(), o.to_val()),
    ensures
        post.budget == looked(pre.budget),
{
}

/// What `string_len` costs.
pub proof fn law_cost_of_string_len(
    pre: Host,
    post: Host,
    o: StringObject,
    r: u32,
)
    requires
        does_string_len(pre, post, o, Ok(r)),
        val_ok(pre.objs(), o.to_val()),
    ensures
        post.budget == looked(pre.budget),
{
}

/// What `symbol_len` costs.
pub proof fn law_cost_of_symbol_len(
    pre: Host,
    post: Host,
    o: SymbolObject,
    r: u32,
)
    requires
        does_symbol_len(pre, post, o, Ok(r)),
        val_ok(pre.objs(), o.to_val()),
    ensures
        post.budget == looked(pre.budget),
{
}

/// What `bytes_put` costs.
pub proof fn law_cost_of_bytes_put(
    pre: Host,
    post: Host,
    b: BytesObject,
    i: u32,
    u: u32,
    r: BytesObject,
)
    requires
        does_bytes_put(pre, post, b, i, u, Ok(r)),
        val_ok(pre.objs(), b.to_val()),
        bytes_at(pre, b).len() < u64::MAX,
    ensures
        post.budget == made(looked(pre.budget), bytes_at(pre, b).len() as int),
{
}

/// What `bytes_get` costs.
pub proof fn law_cost_of_bytes_get(
    pre: Host,
    post: Host,
    b: BytesObject,
    i: u32,
    r: u32,
)
    requires
        does_bytes_get(pre, post, b, i, Ok(r)),
        val_ok(pre.objs(), b.to_val()),
    ensures
        post.budget == looked(pre.budget),
{
}

/// What `bytes_push` costs.
pub proof fn law_cost_of_bytes_push(
    pre: Host,
    post: Host,
    b: BytesObject,
    u: u32,
    r: BytesObject,
)
    requires
        does_bytes_push(pre, post, b, u, Ok(r)),
        val_ok(pre.objs(), b.to_val()),
        bytes_at(pre, b).len() < u64::MAX,
    ensures
        post.budget == made(looked(pre.budget), (bytes_at(pre, b).len() + 1) as int),
{
}

/// What `bytes_pop` costs.
pub proof fn law_cost_of_bytes_pop(
    pre: Host,
    post: Host,
    b: BytesObject,
    r: BytesObject,
)
    requires
        does_bytes_pop(pre, post, b, Ok(r)),
        val_ok(pre.objs(), b.to_val()),
        bytes_at(pre, b).len() < u64::MAX,
    ensures
        post.budget == made(looked(pre.budget), bytes_at(pre, b).len() as int),
{
}

/// What `bytes_front` costs.
pub proof fn law_cost_of_bytes_front(
    pre: Host,
    post: Host,
    b: BytesObject,
    r: u32,
)
    requires
        does_bytes_front(pre, post, b, Ok(r)),
        val_ok(pre.objs(), b.to_val()),
    ensures
        post.budget == looked(pre.budget),
{
}

/// What `bytes_back` costs.
pub proof fn law_cost_of_bytes_back(
    pre: Host,
    post: Host,
    b: BytesObject,
    r: u32,
)
    requires
        does_bytes_back(pre, post, b, Ok(r)),
        val_ok(pre.objs(), b.to_val()),
    ensures
        post.budget == looked(pre.budget),
{
}

/// What `bytes_insert` costs.
pub proof fn law_cost_of_bytes_insert(
    pre: Host,
    post: Host,
    b: BytesObject,
    i: u32,
    u: u32,
    r: BytesObject,
)
    requires
        does_bytes_insert(pre, post, b, i, u, Ok(r)),
        val_ok(pre.objs(), b.to_val()),
        bytes_at(pre, b).len() < u64::MAX,
    ensures
        post.budget == made(looked(pre.budget), (bytes_at(pre, b).len() + 1) as int),
{
}

/// What `bytes_append` costs.
pub proof fn law_cost_of_bytes_append(
    pre: Host,
    post: Host,
    b1: BytesObject,
    b2: BytesObject,
    r: BytesObject,
)
    requires
        does_bytes_append(pre, post, b1, b2, Ok(r)),
        val_ok(pre.objs(), b1.to_val()),
        val_ok(pre.objs(), b2.to_val()),
    ensures
        post.budget == made(looked(looked(pre.budget)), (bytes_at(pre, b1).len() + bytes_at(pre, b2).len()) as int),
{
}

/// What `bytes_del` costs.
pub proof fn law_cost_of_bytes_del(pre: Host, post: Host, b: BytesObject, i: u32, r: BytesObject)
    requires
        does_bytes_del(pre, post, b, i, Ok(r)),
        val_ok(pre.objs(), b.to_val()),
        bytes_at(pre, b).len() <= u64::MAX,
    ensures
        post.budget == moved(made(looked(pre.budget), bytes_at(pre, b).len() as int), bytes_at(pre, b).len() - i),
{
}

/// What hashes cost: by the number of bytes.
pub proof fn law_cost_of_hashes(
    pre: Host,
    post: Host,
    other: Host,
    x: BytesObject,
    sha: BytesObject,
    keccak: BytesObject,
)
    requires
        val_ok(pre.objs(), x.to_val()),
        does_compute_hash_sha256(pre, post, x, Ok(sha)),
        does_compute_hash_keccak256(pre, other, x, Ok(keccak)),
    ensures
        post.budget == looked(pre.budget).charged(
            ContractCostType::ComputeSha256Hash,
            Some(bytes_at(pre, x).len() as u64),
        ),
        other.budget == looked(pre.budget).charged(
            ContractCostType::ComputeKeccak256Hash,
            Some(bytes_at(pre, x).len() as u64),
        ),
{
}

/// What the exchange of vectors with guest memory and slices costs: by the number of bytes.
pub proof fn law_cost_of_exchanges(
    pre: Host,
    made_of: Host,
    memory: Seq<u8>,
    pos: u32,
    len: u32,
    r: VecObject,
    vec: VecObject,
    copied: Host,
    vals: Seq<Val>,
    changed: Seq<Val>,
    written: Host,
    changed_memory: Seq<u8>,
)
    requires
        val_ok(pre.objs(), vec.to_val()),
        list_at(pre, vec).len() <= u32::MAX,
        does_vec_new_from_linear_memory(pre, made_of, memory, pos, len, Ok(r)),
        does_vec_unpack_to_slice(pre, copied, vec, vals, changed, Ok(())),
        does_vec_unpack_to_linear_memory(pre, written, memory, changed_memory, vec, pos, len, Ok(())),
    ensures
        made_of.budget == made(pre.budget, 8 * len as int).charged(
            ContractCostType::VmMemRead,
            Some((8 * len) as u64),
        ),
        copied.budget == moved(looked(pre.budget), 8 * list_at(pre, vec).len() as int),
        written.budget == looked(pre.budget).charged(
            ContractCostType::VmMemWrite,
            Some((8 * list_at(pre, vec).len()) as u64),
        ),
{
}

/// What the telling of a key costs: 32 bytes, if there is a key to tell.
pub proof fn law_cost_of_keys(
    pre: Host,
    post: Host,
    other: Host,
    address: AddressObject,
    key: Val,
    id: Val,
)
    requires
        val_ok(pre.objs(), address.to_val()),
        does_address_to_account_public_key(pre, post, address, Ok(key)),
        does_address_to_contract_id(pre, other, address, Ok(id)),
    ensures
        at(pre, address.handle)->Address_0 is Account ==> post.budget == made(looked(pre.budget), 32) && other.budget
            == looked(pre.budget),
        at(pre, address.handle)->Address_0 is Contract ==> other.budget == made(looked(pre.budget), 32) && post.budget
            == looked(pre.budget),
{
    match at(pre, address.handle)->Address_0 {
        ScAddress::Account(account) => {
            lemma_be_bytes_len(account.0@, 32);
        },
        ScAddress::Contract(id) => {
            lemma_be_bytes_len(id.0@, 32);
        },
    }
}

/// What a signature costs: that of reading the key, and by the number of bytes of the message.
pub proof fn law_cost_of_signatures(host: Host, k: BytesObject, x: BytesObject, s: BytesObject)
    requires
        val_ok(host.objs(), x.to_val()),
        checks_ed25519(host, k, x, s).1 is Ok,
    ensures
        checks_ed25519(host, k, x, s).0.budget == looked(
            looked(looked(host.budget).charged(ContractCostType::ComputeEd25519PubKey, None)),
        ).charged(ContractCostType::VerifyEd25519Sig, Some(bytes_at(host, x).len() as u64)),
{
}

/// What the drawing of bytes costs: by their number.
pub proof fn law_cost_of_drawing(pre: Host, post: Host, length: u32, r: BytesObject)
    requires
        pre.context@.len() > 0,
        pre.context@.last().prng is Some,
        does_prng_bytes_new(pre, post, length, Ok(r)),
    ensures
        post.budget == pre.budget.charged(ContractCostType::ChaCha20DrawBytes, Some(length as u64)),
{
    let (mid, ready) = choose|mid: Host, ready: Result<(), HostError>| #[trigger]
        readies_prng(pre, mid, ready) && draws_bytes(mid, post, ready, length as nat, Ok(r));
    assert(mid == pre);
}

/// What the making of a form of a value and the reading of one cost: by the number of bytes.
pub proof fn law_cost_of_forms(
    pre: Host,
    post: Host,
    v: Val,
    r: BytesObject,
    read: Host,
    b: BytesObject,
    w: Val,
)
    requires
        val_ok(pre.objs(), b.to_val()),
        serializes(pre, post, v, Ok(r)),
        deserializes(pre, read, b, Ok(w)),
    ensures
        post.budget == pre.budget.charged(ContractCostType::ValSer, Some(bytes_at(post, r).len() as u64)),
        read.budget == looked(pre.budget).charged(ContractCostType::ValDeser, Some(bytes_at(pre, b).len() as u64)),
        at(post, r.handle) is Blob,
        at(post, r.handle)->Blob_0 == BlobKind::Bytes,
{
}

} // verus!
