//! What budgets, calls, contracts, signatures and random numbers are for.

use crate::auth_laws::{given, is_for_creation, law_creation_needs_agreement_to_it, one_is_used};
use crate::bignum::{be_bytes, U256};
use crate::budget::{budget_error, ContractCostType, CostModel};
use crate::collection_laws::{at, bytes_at, has_room, is_new, law_free_work_is_allowed, list_at, only_charged};
use crate::crypto::{
    ed25519_verifies, is_ed25519_key, is_secp256k1_signature, keccak256_hash, secp256k1_recovered, sha256_hash,
};
use crate::error::{Error, Fault, HostError, ScErrorCode, ScErrorType};
use crate::host::{
    charge, charge_bulk, charge_copy, is_fresh, AuthorizationMode, Context, DiagnosticLevel, Event, Frame, Host,
    DEFAULT_HOST_DEPTH_LIMIT,
};
use crate::host_address::{
    does_account_public_key_to_address, does_address_to_account_public_key, does_address_to_contract_id,
    does_contract_id_to_address,
};
use crate::host_auth::asks;
use crate::host_call::{
    calls, event_fault, events_fault, invokes, is_running, notes_failure, reads_callee, same_event, tried, tries, HostEvent,
};
use crate::host_context::{
    does_contract_event, does_fail_with_error, does_get_current_contract_address, does_log_from_linear_memory, emitter,
    lossy_text, marks_frame, max_expiration_ledger, notes,
};
use crate::host_contract::{
    asset_contract_id, deployed_id, deploys, does_bump_contract_instance_and_code,
    does_bump_current_contract_instance_and_code, does_create_contract, does_create_contract_with_id,
    does_get_asset_contract_id, does_get_contract_id, does_update_current_contract_wasm, hash_of_bytes, puts_code,
    reads_deployer, u256_of_int, uploads, with_new_contract,
};
use crate::host_crypto::{
    checks_ed25519, does_compute_hash_keccak256, does_compute_hash_sha256, does_recover_key_ecdsa_secp256k1,
};
use crate::host_frame::{closes_frame, current_contract, frame_fault, opens_frame};
use crate::host_int::reads_number;
use crate::host_memory::memory_vals;
use crate::host_object::{does_source_account_address, looks_at, val_fault, vals_fault, visit};
use crate::host_prng::{
    does_prng_bytes_new, does_prng_reseed, does_prng_u64_in_inclusive_range, does_prng_vec_shuffle, draws_bytes,
    draws_number, law_shuffle_keeps_elements, readies_prng, running_prng, shuffles,
};
use crate::ledger_laws::{is_bumped, law_bumped_contract_lives_on, running, runs_a_contract, same_but};
use crate::model::{deep, deep_seq, nesting, nesting_seq, val_ok, BlobKind, Deep, Hash32, ObjModel, ScAddress};
use crate::prng::chacha20_bytes;
use crate::scval::{sc_deep, sc_deep_seq};
use crate::storage::{ContractExecutable, DataModel, KeyModel};
use crate::val::{AddressObject, BytesObject, ObjectTag, Symbol, Val, VecObject};
use crate::xdr::{asset_of_xdr, asset_preimage_xdr, deployer_preimage_xdr};
use vstd::prelude::*;

verus! {

proof fn lemma_free(host: Host)
    ensures
        host.budget.is_free() ==> forall|ty: ContractCostType, input: Option<u64>| #[trigger]
            charge(host, ty, input) == (host, Ok::<(), HostError>(())),
{
    if host.budget.is_free() {
        assert forall|ty: ContractCostType, input: Option<u64>| #[trigger] charge(host, ty, input) == (
            host,
            Ok::<(), HostError>(()),
        ) by {
            law_free_work_is_allowed(host, ty, input);
        }
    }
}

/// Work costs a constant and, by its size, so many 128ths for each unit; where numbers would
/// be too large they are as large as they can be.
pub proof fn law_costs(model: CostModel, n: u64)
    ensures
        model.cost(None) == model.const_term,
        model.lin_term * n <= u64::MAX && model.const_term + (model.lin_term * n) / 128 <= u64::MAX ==> model.cost(Some(n))
            == model.const_term + (model.lin_term * n) / 128,
        model.lin_term * n > u64::MAX ==> model.cost(Some(n)) >= u64::MAX / 128,
{
}

/// What is charged for is added to what was spent, of both resources, and is allowed if and
/// only if neither limit is passed then.
pub proof fn law_charges(host: Host, ty: ContractCostType, input: Option<u64>)
    ensures
        ({
            let (b, out) = (host.budget, charge(host, ty, input));
            let (c, m) = (
                b.cpu_insns.models@[ty.spec_number() as int].cost(input),
                b.mem_bytes.models@[ty.spec_number() as int].cost(input),
            );
            let (cpu, mem) = (b.cpu_insns.total_count + c, b.mem_bytes.total_count + m);
            &&& only_charged(host, out.0)
            &&& cpu <= u64::MAX && mem <= u64::MAX ==> (out.1 is Ok <==> cpu <= b.cpu_insns.limit && mem
                <= b.mem_bytes.limit)
            &&& out.1 is Ok && cpu <= u64::MAX ==> out.0.budget.cpu_insns.total_count == cpu
            &&& out.1 is Ok && mem <= u64::MAX ==> out.0.budget.mem_bytes.total_count == mem
            &&& out.1 is Err ==> out.1->Err_0 == budget_error()
            &&& out.0.budget.cpu_insns.limit == b.cpu_insns.limit && out.0.budget.mem_bytes.limit == b.mem_bytes.limit
            &&& out.0.budget.cpu_insns.models == b.cpu_insns.models && out.0.budget.mem_bytes.models
                == b.mem_bytes.models
        }),
{
    crate::budget::law_spent_stays_spent(host.budget, ty, input);
}

/// Making room for items and copying them is charged for by the number of bytes, first the
/// room and then the copying; copying alone by the number of bytes too.
pub proof fn law_copies_cost_bytes(host: Host, n: nat, size: nat)
    requires
        n * size <= u64::MAX,
    ensures
        ({
            let bytes = Some((n * size) as u64);
            let room = charge(host, ContractCostType::HostMemAlloc, bytes);
            &&& room.1 is Err ==> charge_bulk(host, n as int, size as int) == room
            &&& room.1 is Ok ==> charge_bulk(host, n as int, size as int) == charge(
                room.0,
                ContractCostType::HostMemCpy,
                bytes,
            )
            &&& charge_copy(host, n as int, size as int) == charge(host, ContractCostType::HostMemCpy, bytes)
        }),
{
}

/// The running contract is the one of the last frame, if that is a contract's; it is also
/// the one that events are reported by.
pub proof fn law_running_contract(host: Host)
    ensures
        runs_a_contract(host) ==> current_contract(host) == Ok::<Hash32, Fault>(running(host)) && emitter(host) == Ok::<
            Option<Hash32>,
            Fault,
        >(Some(running(host))),
        !runs_a_contract(host) ==> current_contract(host) is Err,
        host.context@.len() == 0 ==> emitter(host) is Err,
        host.context@.len() > 0 && !runs_a_contract(host) ==> emitter(host) == Ok::<Option<Hash32>, Fault>(None),
{
}

/// A contract is running if one of the frames is its, however deep the calls are.
pub proof fn law_is_running(context: Seq<Context>, id: Hash32)
    ensures
        is_running(context, id) <==> exists|i: int|
            0 <= i < context.len() && (#[trigger] context[i]).frame.contract_call() is Some
                && context[i].frame.contract_call()->Some_0.0 == id,
{
    if exists|i: int|
        0 <= i < context.len() && (#[trigger] context[i]).frame.contract_call() is Some
            && context[i].frame.contract_call()->Some_0.0 == id {
        let i = choose|i: int|
            0 <= i < context.len() && (#[trigger] context[i]).frame.contract_call() is Some
                && context[i].frame.contract_call()->Some_0.0 == id;
        assert(crate::host_call::runs_contract(context[i].frame, id));
    }
}

/// The last ledger at which an entry may expire: entries may live for a number of ledgers,
/// the present one counted.
pub proof fn law_last_ledger(host: Host)
    ensures
        host.ledger is None ==> max_expiration_ledger(host) is Err,
        host.ledger matches Some(li) ==> {
            &&& max_expiration_ledger(host) is Ok
            &&& li.max_entry_expiration > 0 && li.sequence_number + li.max_entry_expiration - 1 <= u32::MAX
                ==> max_expiration_ledger(host)->Ok_0 == li.sequence_number + li.max_entry_expiration - 1
            &&& li.max_entry_expiration == 0 ==> max_expiration_ledger(host)->Ok_0 == li.sequence_number
        },
{
}

/// A note is kept in debug mode, at the end of the log, and only then.
pub proof fn law_notes_are_kept(pre: Host, post: Host, error: Option<Error>, message: Seq<char>, args: Seq<Val>)
    requires
        notes(pre, post, error, message, args),
    ensures
        pre.diagnostic_level == DiagnosticLevel::Off ==> post == pre,
        pre.diagnostic_level == DiagnosticLevel::Debug ==> {
            let last = post.events@.last();
            &&& post.events@.len() == pre.events@.len() + 1
            &&& forall|i: int| 0 <= i < pre.events@.len() ==> #[trigger] post.events@[i] == pre.events@[i]
            &&& last is Diagnostic
            &&& last->error == error
            &&& last->message@ == message
            &&& last->args@ == args
        },
{
    if pre.diagnostic_level == DiagnosticLevel::Debug {
        assert forall|i: int| 0 <= i < pre.events@.len() implies #[trigger] post.events@[i] == pre.events@[i] by {
            assert(post.events@.drop_last()[i] == pre.events@[i]);
        }
    }
}

/// An event that a contract reports is at the end of the log, with the contract, the topics
/// and the data; where work is free, good data are always reported.
pub proof fn law_events_are_reported(
    pre: Host,
    post: Host,
    topics: VecObject,
    data: Val,
    res: Result<(), HostError>,
)
    requires
        does_contract_event(pre, post, topics, data, res),
    ensures
        res is Ok ==> {
            let emitter = if runs_a_contract(pre) {
                Some(running(pre))
            } else {
                None
            };
            &&& post.events@.len() == pre.events@.len() + 1
            &&& post.events@.drop_last() == pre.events@
            &&& post.events@.last() == (Event::Contract { emitter, topics, data })
            &&& post == (Host { events: post.events, budget: post.budget, ..pre })
        },
        res is Err ==> post.events@ == pre.events@,
        pre.budget.is_free() && val_ok(pre.objs(), data) && val_ok(pre.objs(), topics.to_val()) && pre.context@.len() > 0
            ==> res is Ok,
{
    lemma_free(pre);
}

/// What the log says when it leaves the host is what was reported: topics, data and notes
/// denote the same.
pub proof fn law_log_says_the_same(objs: Seq<ObjModel>, e: Event, x: HostEvent)
    requires
        same_event(objs, e, x),
    ensures
        e is Contract <==> x is Contract,
        e is Diagnostic <==> x is Diagnostic,
        e is ExecutableUpdate <==> x is ExecutableUpdate,
        e is Token <==> x is Token,
        e is Contract ==> x->emitter == e->emitter && sc_deep(x->Contract_data) == deep(objs, e->Contract_data),
        e is Contract && objs[crate::val::spec_handle_to_index(e->topics.handle)] is Vector && val_ok(
            objs,
            e->topics.to_val(),
        ) ==> sc_deep_seq(x->Contract_topics@) == deep_seq(
            objs,
            objs[crate::val::spec_handle_to_index(e->topics.handle)]->Vector_0,
        ),
        e is ExecutableUpdate ==> {
            &&& x->ExecutableUpdate_contract_id == e->ExecutableUpdate_contract_id
            &&& x->old_executable == e->old_executable
            &&& x->new_executable == e->new_executable
        },
        e is Token ==> x->Token_contract_id == e->Token_contract_id && x->event == e->event,
        e is Diagnostic ==> x->Diagnostic_error == e->error && x->Diagnostic_message@ == e->message@ && sc_deep_seq(
            x->Diagnostic_args@,
        ) == deep_seq(objs, e->args@),
{
}

/// A caller that was ready for a failure is handed what the callee returned, and is told of an
/// error as a value; but it fails itself where the callee met a limit or a broken host.
pub proof fn law_tried_calls(v: Val, e: HostError)
    ensures
        tried(Ok(v)) == Ok::<Val, HostError>(v),
        e.error.type_ != ScErrorType::Contract && (e.error.code == 5 || e.error.code == 7) ==> tried(Err(e)) == Err::<
            Val,
            HostError,
        >(e),
        e.error.type_ == ScErrorType::Contract ==> tried(Err(e)) == Ok::<Val, HostError>(Val::Error(e.error)),
        e.error.type_ != ScErrorType::Contract && e.error.code != 5 && e.error.code != 7 ==> tried(Err(e)) == Ok::<
            Val,
            HostError,
        >(Val::Error(Error { type_: ScErrorType::Context, code: 6 })),
{
}

/// The numbers of error types and codes are those of the ledger's protocol.
pub proof fn law_error_numbers()
    ensures
        ScErrorType::Contract.spec_number() == 0,
        ScErrorType::WasmVm.spec_number() == 1,
        ScErrorType::Context.spec_number() == 2,
        ScErrorType::Storage.spec_number() == 3,
        ScErrorType::Object.spec_number() == 4,
        ScErrorType::Crypto.spec_number() == 5,
        ScErrorType::Events.spec_number() == 6,
        ScErrorType::Budget.spec_number() == 7,
        ScErrorType::Value.spec_number() == 8,
        ScErrorType::Auth.spec_number() == 9,
        ScErrorCode::ArithDomain.spec_number() == 0,
        ScErrorCode::IndexBounds.spec_number() == 1,
        ScErrorCode::InvalidInput.spec_number() == 2,
        ScErrorCode::MissingValue.spec_number() == 3,
        ScErrorCode::ExistingValue.spec_number() == 4,
        ScErrorCode::ExceededLimit.spec_number() == 5,
        ScErrorCode::InvalidAction.spec_number() == 6,
        ScErrorCode::InternalError.spec_number() == 7,
        ScErrorCode::UnexpectedType.spec_number() == 8,
        ScErrorCode::UnexpectedSize.spec_number() == 9,
{
}

/// Ids of contracts are hashes: of the network and the asset, or of the network, the deployer
/// and the salt.
pub proof fn law_contract_ids(host: Host, asset: Seq<u8>, deployer: ScAddress, salt: U256)
    requires
        host.ledger is Some,
    ensures
        ({
            let network = host.ledger->Some_0.network_id@;
            &&& asset_contract_id(host, asset) == Ok::<Hash32, Fault>(
                hash_of_bytes(sha256_hash(asset_preimage_xdr(network, asset))),
            )
            &&& deployed_id(host, deployer, salt) == Ok::<Hash32, Fault>(
                hash_of_bytes(sha256_hash(deployer_preimage_xdr(network, deployer, salt))),
            )
        }),
{
}

/// A new contract can be made if and only if there is none with its id, its code is there, and
/// the ledger is known. It has its code and no data, lives for the least number of ledgers that
/// persistent entries do, and no other entry changes.
pub proof fn law_new_contracts(host: Host, id: Hash32, executable: ContractExecutable)
    ensures
        ({
            let (m, key) = (host.storage@, KeyModel::ContractInstance(id));
            let out = with_new_contract(host, id, executable);
            &&& out is Ok <==> !m.contains_key(key) && host.ledger is Some && (executable matches ContractExecutable::Wasm(
                hash,
            ) ==> m.contains_key(KeyModel::ContractCode(hash)))
            &&& out matches Ok(n) ==> {
                let li = host.ledger->Some_0;
                &&& n.contains_key(key)
                &&& n[key].data == DataModel::ContractInstance(executable, Seq::<Deep>::empty())
                &&& li.min_persistent_entry_expiration > 0 && li.sequence_number + li.min_persistent_entry_expiration - 1
                    <= u32::MAX ==> n[key].expiration_ledger == li.sequence_number + li.min_persistent_entry_expiration
                    - 1
                &&& li.min_persistent_entry_expiration == 0 ==> n[key].expiration_ledger == li.sequence_number
                &&& same_but(m, n, key)
            }
        }),
{
}

/// Code is put into the ledger under its hash, unless there is code already, and the hash is
/// given back. No other entry changes.
pub proof fn law_code_is_put(pre: Host, post: Host, code: Seq<u8>, hash: Seq<u8>, res: Result<BytesObject, HostError>)
    requires
        pre.wf(),
        puts_code(pre, post, code, hash, res),
    ensures
        ({
            let key = KeyModel::ContractCode(hash_of_bytes(hash));
            &&& res matches Ok(r) ==> {
                &&& at(post, r.handle) == ObjModel::Blob(BlobKind::Bytes, hash)
                &&& post.storage@.contains_key(key)
                &&& pre.storage@.contains_key(key) ==> post.storage == pre.storage
                &&& !pre.storage@.contains_key(key) ==> post.storage@[key].data == DataModel::ContractCode(code)
                &&& !pre.storage@.contains_key(key) && pre.ledger is Some ==> {
                    let li = pre.ledger->Some_0;
                    &&& li.min_persistent_entry_expiration > 0 && li.sequence_number
                        + li.min_persistent_entry_expiration - 1 <= u32::MAX ==> post.storage@[key].expiration_ledger
                        == li.sequence_number + li.min_persistent_entry_expiration - 1
                    &&& li.min_persistent_entry_expiration == 0 ==> post.storage@[key].expiration_ledger
                        == li.sequence_number
                }
                &&& same_but(pre.storage@, post.storage@, key)
            }
            &&& has_room(pre) && pre.ledger is Some ==> res is Ok
        }),
{
    if let Ok(r) = res {
        assert(at(post, r.handle) == post.objs()[pre.objs().len() as int]);
    }
}

/// A contract that was made for a deployer has the id that follows from the deployer and the
/// salt, and has the code with the hash; the deployer agreed, or is the running contract
/// itself.
pub proof fn law_created_contract(
    pre: Host,
    post: Host,
    deployer: AddressObject,
    wasm_hash: BytesObject,
    salt: BytesObject,
    r: AddressObject,
)
    requires
        pre.wf(),
        val_ok(pre.objs(), deployer.to_val()),
        does_create_contract(pre, post, deployer, wasm_hash, salt, Ok(r)),
    ensures
        at(pre, deployer.handle) is Address,
        bytes_at(pre, wasm_hash).len() == 32 && bytes_at(pre, salt).len() == 32,
        ({
            let who = at(pre, deployer.handle)->Address_0;
            let code = hash_of_bytes(bytes_at(pre, wasm_hash));
            let id = deployed_id(pre, who, hash_of_bytes(bytes_at(pre, salt)).0);
            &&& id is Ok
            &&& at(post, r.handle) == ObjModel::Address(ScAddress::Contract(id->Ok_0))
            &&& !pre.storage@.contains_key(KeyModel::ContractInstance(id->Ok_0))
            &&& post.storage@.contains_key(KeyModel::ContractInstance(id->Ok_0))
            &&& post.storage@[KeyModel::ContractInstance(id->Ok_0)].data == DataModel::ContractInstance(
                ContractExecutable::Wasm(code),
                Seq::<Deep>::empty(),
            )
            &&& pre.storage@.contains_key(KeyModel::ContractCode(code))
            &&& same_but(pre.storage@, post.storage@, KeyModel::ContractInstance(id->Ok_0))
        }),
{
    let who = at(pre, deployer.handle)->Address_0;
    let (h, read) = reads_deployer(pre, deployer, salt);
    let salt_number = read->Ok_0.1;
    let (h, hash) = reads_number(h, wasm_hash);
    let code = Hash32(u256_of_int(hash->Ok_0));
    let (mid, asked) = choose|mid: Host, asked: Result<(), HostError>| #[trigger]
        asks(
            h,
            mid,
            who,
            crate::host_auth::FunctionModel::CreateContract(who, salt_number, code),
            crate::host_contract::actor(h),
            asked,
        ) && deploys(mid, post, asked, who, salt_number, code, Ok(r));
    assert(asked is Ok);
    assert(mid.storage == pre.storage && mid.objs() == pre.objs() && mid.ledger == pre.ledger);
    assert(at(post, r.handle) == post.objs()[pre.objs().len() as int]);
}

/// A contract that replaces its code keeps its data and lives as long as before; the log says
/// which code it had and which it has, and no other entry changes. It can do so if and only
/// if the code is there, where work is free.
pub proof fn law_updated_code(
    pre: Host,
    post: Host,
    hash: BytesObject,
    res: Result<(), HostError>,
    before: ContractExecutable,
    data: Seq<Deep>,
)
    requires
        val_ok(pre.objs(), hash.to_val()),
        runs_a_contract(pre),
        pre.storage@.contains_key(KeyModel::ContractInstance(running(pre))),
        pre.storage@[KeyModel::ContractInstance(running(pre))].data == DataModel::ContractInstance(before, data),
        does_update_current_contract_wasm(pre, post, hash, res),
    ensures
        ({
            let key = KeyModel::ContractInstance(running(pre));
            let code = hash_of_bytes(bytes_at(pre, hash));
            &&& pre.budget.is_free() ==> (res is Ok <==> bytes_at(pre, hash).len() == 32 && pre.storage@.contains_key(
                KeyModel::ContractCode(code),
            ))
            &&& res is Ok ==> {
                &&& pre.storage@.contains_key(KeyModel::ContractCode(code))
                &&& post.storage@.contains_key(key)
                &&& post.storage@[key].data == DataModel::ContractInstance(ContractExecutable::Wasm(code), data)
                &&& post.storage@[key].expiration_ledger == pre.storage@[key].expiration_ledger
                &&& same_but(pre.storage@, post.storage@, key)
                &&& post.events@ == pre.events@.push(
                    Event::ExecutableUpdate {
                        contract_id: running(pre),
                        old_executable: before,
                        new_executable: ContractExecutable::Wasm(code),
                    },
                )
            }
            &&& res is Err ==> post.storage == pre.storage
        }),
{
    lemma_free(pre);
}

/// The address of a key or an id is that of the account or the contract, and tells the key or
/// the id again; it tells nothing of the other kind.
pub proof fn law_addresses_and_bytes(
    pre: Host,
    made: Host,
    bytes: BytesObject,
    account: AddressObject,
    told: Host,
    key: Val,
    other: Host,
    id: Val,
)
    requires
        pre.wf(),
        val_ok(pre.objs(), bytes.to_val()),
        does_account_public_key_to_address(pre, made, bytes, Ok(account)),
        does_address_to_account_public_key(made, told, account, Ok(key)),
        does_address_to_contract_id(made, other, account, Ok(id)),
    ensures
        bytes_at(pre, bytes).len() == 32,
        at(made, account.handle) is Address,
        at(made, account.handle)->Address_0 is Account,
        key is Object,
        at(told, key->Object_0.handle) == ObjModel::Blob(BlobKind::Bytes, bytes_at(pre, bytes)),
        id is Void,
{
    let s = bytes_at(pre, bytes);
    assert(at(made, account.handle) == made.objs()[pre.objs().len() as int]);
    crate::host_address::law_address_bytes_round_trip(s);
    assert(at(told, key->Object_0.handle) == told.objs()[made.objs().len() as int]);
}

/// Likewise of contracts.
pub proof fn law_contract_addresses_and_bytes(
    pre: Host,
    made: Host,
    bytes: BytesObject,
    contract: AddressObject,
    told: Host,
    key: Val,
    other: Host,
    id: Val,
)
    requires
        pre.wf(),
        val_ok(pre.objs(), bytes.to_val()),
        does_contract_id_to_address(pre, made, bytes, Ok(contract)),
        does_address_to_account_public_key(made, told, contract, Ok(key)),
        does_address_to_contract_id(made, other, contract, Ok(id)),
    ensures
        bytes_at(pre, bytes).len() == 32,
        at(made, contract.handle) is Address,
        at(made, contract.handle)->Address_0 is Contract,
        id is Object,
        at(other, id->Object_0.handle) == ObjModel::Blob(BlobKind::Bytes, bytes_at(pre, bytes)),
        key is Void,
{
    let s = bytes_at(pre, bytes);
    assert(at(made, contract.handle) == made.objs()[pre.objs().len() as int]);
    crate::host_address::law_address_bytes_round_trip(s);
    assert(at(other, id->Object_0.handle) == other.objs()[made.objs().len() as int]);
}

/// A hash is a new byte string with the hash of the bytes; where there is room and work is
/// free, it is always made.
pub proof fn law_hashes(
    pre: Host,
    post: Host,
    other: Host,
    x: BytesObject,
    sha: Result<BytesObject, HostError>,
    keccak: Result<BytesObject, HostError>,
)
    requires
        val_ok(pre.objs(), x.to_val()),
        does_compute_hash_sha256(pre, post, x, sha),
        does_compute_hash_keccak256(pre, other, x, keccak),
    ensures
        sha matches Ok(r) ==> is_new(pre, post, r.handle) && at(post, r.handle) == ObjModel::Blob(
            BlobKind::Bytes,
            sha256_hash(bytes_at(pre, x)),
        ),
        keccak matches Ok(r) ==> is_new(pre, other, r.handle) && at(other, r.handle) == ObjModel::Blob(
            BlobKind::Bytes,
            keccak256_hash(bytes_at(pre, x)),
        ),
        has_room(pre) ==> sha is Ok && keccak is Ok,
{
    lemma_free(pre);
    if let Ok(r) = sha {
        assert(at(post, r.handle) == post.objs()[pre.objs().len() as int]);
    }
    if let Ok(r) = keccak {
        assert(at(other, r.handle) == other.objs()[pre.objs().len() as int]);
    }
}

/// A signature is accepted only if the key is one, both have their lengths, and the signature
/// is good for the message; where work is free, then it is.
pub proof fn law_ed25519_signatures(host: Host, k: BytesObject, x: BytesObject, s: BytesObject)
    requires
        val_ok(host.objs(), k.to_val()),
        val_ok(host.objs(), x.to_val()),
        val_ok(host.objs(), s.to_val()),
    ensures
        ({
            let (key, message, sig) = (bytes_at(host, k), bytes_at(host, x), bytes_at(host, s));
            let is_good = key.len() == 32 && sig.len() == 64 && is_ed25519_key(key) && ed25519_verifies(
                key,
                message,
                sig,
            );
            let out = checks_ed25519(host, k, x, s);
            &&& out.1 is Ok ==> is_good
            &&& host.budget.is_free() && is_good ==> out.1 is Ok
            &&& only_charged(host, out.0)
        }),
{
    lemma_free(host);
}

/// A key is recovered only from a signature and a digest of their lengths, and is the one that
/// the signature was made with; where work is free, then it is.
pub proof fn law_secp256k1_recovery(
    pre: Host,
    post: Host,
    msg_digest: BytesObject,
    signature: BytesObject,
    recovery_id: u32,
    res: Result<BytesObject, HostError>,
)
    requires
        val_ok(pre.objs(), msg_digest.to_val()),
        val_ok(pre.objs(), signature.to_val()),
        does_recover_key_ecdsa_secp256k1(pre, post, msg_digest, signature, recovery_id, res),
    ensures
        ({
            let (digest, sig) = (bytes_at(pre, msg_digest), bytes_at(pre, signature));
            let key = secp256k1_recovered(digest, sig, recovery_id as u8);
            let is_good = digest.len() == 32 && sig.len() == 64 && recovery_id <= 3 && is_secp256k1_signature(sig) && key
                is Some;
            &&& res matches Ok(r) ==> is_good && is_new(pre, post, r.handle) && at(post, r.handle) == ObjModel::Blob(
                BlobKind::Bytes,
                key->Some_0,
            )
            &&& has_room(pre) && is_good ==> res is Ok
        }),
{
    lemma_free(pre);
    if let Ok(r) = res {
        assert(at(post, r.handle) == post.objs()[pre.objs().len() as int]);
    }
}

/// The generator of a contract is its own: it is made when it is first needed, from bytes that
/// the host's generator gives out once, and is kept.
pub proof fn law_generators(pre: Host, post: Host, res: Result<(), HostError>)
    requires
        readies_prng(pre, post, res),
    ensures
        pre.context@.len() > 0 && pre.context@.last().prng is Some ==> post == pre && res is Ok,
        pre.context@.len() > 0 && pre.context@.last().prng is None && pre.base_prng is Some ==> {
            let base = pre.base_prng->Some_0;
            &&& res is Ok
            &&& running_prng(post).seed@ == chacha20_bytes(base.seed@, base.word_pos, 32).0
            &&& running_prng(post).word_pos == 0
            &&& post.base_prng is Some
            &&& post.base_prng->Some_0.seed == base.seed
            &&& post.base_prng->Some_0.word_pos == chacha20_bytes(base.seed@, base.word_pos, 32).1
        },
        pre.context@.len() == 0 || (pre.context@.last().prng is None && pre.base_prng is None) ==> res is Err,
{
}

/// Bytes that are drawn are as many as were asked for, in a new byte string; a number that is
/// drawn is in its range, and none is drawn from an empty one.
pub proof fn law_draws(
    pre: Host,
    bytes: Host,
    length: u32,
    b: Result<BytesObject, HostError>,
    number: Host,
    lo: u64,
    hi: u64,
    x: Result<u64, HostError>,
)
    requires
        pre.wf(),
        pre.context@.len() > 0,
        pre.context@.last().prng is Some,
        does_prng_bytes_new(pre, bytes, length, b),
        does_prng_u64_in_inclusive_range(pre, number, lo, hi, x),
    ensures
        ({
            let p = running_prng(pre);
            &&& b matches Ok(r) ==> at(bytes, r.handle) == ObjModel::Blob(
                BlobKind::Bytes,
                chacha20_bytes(p.seed@, p.word_pos, length as nat).0,
            ) && running_prng(bytes).seed == p.seed && running_prng(bytes).word_pos == chacha20_bytes(
                p.seed@,
                p.word_pos,
                length as nat,
            ).1
            &&& x matches Ok(n) ==> lo <= n <= hi && running_prng(number).seed == p.seed
            &&& lo > hi ==> x is Err
            &&& has_room(pre) ==> b is Ok && (lo <= hi ==> x is Ok)
        }),
{
    lemma_free(pre);
    let (mid, ready) = choose|mid: Host, ready: Result<(), HostError>| #[trigger]
        readies_prng(pre, mid, ready) && draws_bytes(mid, bytes, ready, length as nat, b);
    assert(mid == pre && ready is Ok);
    if let Ok(r) = b {
        assert(at(bytes, r.handle) == bytes.objs()[pre.objs().len() as int]);
    }
    let (mid, ready) = choose|mid: Host, ready: Result<(), HostError>| #[trigger]
        readies_prng(pre, mid, ready) && draws_number(mid, number, ready, lo, hi, x);
    assert(mid == pre && ready is Ok);
}

/// A vector that was shuffled has the same elements, each as often as before.
pub proof fn law_shuffled_vector(pre: Host, post: Host, vec: VecObject, r: VecObject)
    requires
        pre.wf(),
        val_ok(pre.objs(), vec.to_val()),
        does_prng_vec_shuffle(pre, post, vec, Ok(r)),
        list_at(pre, vec).len() <= usize::MAX,
    ensures
        at(post, r.handle) is Vector,
        list_at(post, r).to_multiset() == list_at(pre, vec).to_multiset(),
        list_at(post, r).len() == list_at(pre, vec).len(),
{
    let h = looks_at(pre, vec.handle, ObjectTag::VecObject).0;
    let s = list_at(pre, vec);
    let (mid, ready) = choose|mid: Host, ready: Result<(), HostError>| #[trigger]
        readies_prng(h, mid, ready) && shuffles(mid, post, ready, s, Ok(r));
    assert(mid.objs() == pre.objs());
    assert(at(post, r.handle) == post.objs()[pre.objs().len() as int]);
    let p = running_prng(mid);
    let order = crate::prng::chacha20_shuffled(p.seed@, p.word_pos, crate::prng::positions(s.len())).0;
    law_shuffle_keeps_elements(s, order);
    broadcast use vstd::seq_lib::group_to_multiset_ensures;

    assert(list_at(post, r).len() == list_at(post, r).to_multiset().len());
    assert(s.len() == s.to_multiset().len());
}

/// A generator that was started over from 32 bytes is at the start of what they give.
pub proof fn law_reseeded(pre: Host, post: Host, seed: BytesObject, res: Result<(), HostError>)
    requires
        pre.wf(),
        val_ok(pre.objs(), seed.to_val()),
        pre.context@.len() > 0,
        pre.context@.last().prng is Some,
        does_prng_reseed(pre, post, seed, res),
    ensures
        res is Ok ==> bytes_at(pre, seed).len() == 32 && running_prng(post).seed@ == bytes_at(pre, seed) && running_prng(
            post,
        ).word_pos == 0,
        pre.budget.is_free() ==> (res is Ok <==> bytes_at(pre, seed).len() == 32),
{
    lemma_free(pre);
}

/// What has started to run is the last frame, with the data of its instance, and all others
/// are below it; what has ended is gone, and all others are there.
pub proof fn law_frames(pre: Host, inner: Host, post: Host, frame: Frame, instance: Seq<crate::scval::ScMapEntry>)
    requires
        opens_frame(pre, inner, frame, instance),
        closes_frame(inner, post),
    ensures
        inner.context@.last().frame == frame,
        inner.context@.last().instance@ == instance,
        inner.context@.last().prng is None,
        inner.context@.last().storage is None,
        inner.context@.len() == pre.context@.len() + 1,
        post.context@ == pre.context@,
        post.storage == pre.storage && post.events == pre.events && post.budget == pre.budget,
{
}

/// Whom a call goes to and with what is what its address and its vector say; where work is
/// free, the address of a contract will always do.
pub proof fn law_callee(host: Host, address: AddressObject, args: VecObject)
    requires
        val_ok(host.objs(), address.to_val()),
        val_ok(host.objs(), args.to_val()),
    ensures
        ({
            let out = reads_callee(host, address, args);
            &&& only_charged(host, out.0)
            &&& out.1 matches Ok((id, list)) ==> at(host, address.handle) == ObjModel::Address(ScAddress::Contract(id))
                && list == list_at(host, args)
            &&& host.budget.is_free() ==> (out.1 is Ok <==> at(host, address.handle)->Address_0 is Contract)
        }),
{
    lemma_free(host);
}

/// A call of a contract that is not running is run once, with the given arguments, and ends
/// as it ended: with its result and, unless it failed, its host.
pub proof fn law_calls<F: FnOnce(Host, Hash32, Symbol, Vec<Val>) -> (Host, Result<Val, HostError>)>(
    run: F,
    host: Host,
    id: Hash32,
    func: Symbol,
    args: VecObject,
    argvec: Seq<Val>,
    out: (Host, Result<Val, HostError>),
)
    requires
        calls(run, host, id, func, args, argvec, out),
        forall|i: int|
            0 <= i < host.context@.len() ==> ((#[trigger] host.context@[i]).frame.contract_call() is None
                || host.context@[i].frame.contract_call()->Some_0.0 != id),
    ensures
        exists|mid: Host, v: Vec<Val>| #[trigger]
            run.ensures((host, id, func, v), (mid, out.1)) && v@ == argvec && (out.1 is Ok ==> out.0 == mid) && (
            mid.diagnostic_level == DiagnosticLevel::Off ==> out.0 == mid),
{
    law_is_running(host.context@, id);
    let (mid, outcome) = choose|mid: Host, outcome: Result<Val, HostError>| #[trigger]
        invokes(run, host, id, func, argvec, (mid, outcome)) && out.1 == outcome && notes_failure(
            mid,
            out.0,
            outcome,
            "contract call failed"@,
            func,
            args,
        );
    let v = choose|v: Vec<Val>| #[trigger] run.ensures((host, id, func, v), (mid, outcome)) && v@ == argvec;
    assert(run.ensures((host, id, func, v), (mid, out.1)));
}

/// Likewise of a call whose failure the caller is ready for: of its outcome the caller is told.
pub proof fn law_tries<F: FnOnce(Host, Hash32, Symbol, Vec<Val>) -> (Host, Result<Val, HostError>)>(
    run: F,
    host: Host,
    id: Hash32,
    func: Symbol,
    args: VecObject,
    argvec: Seq<Val>,
    out: (Host, Result<Val, HostError>),
)
    requires
        tries(run, host, id, func, args, argvec, out),
        forall|i: int|
            0 <= i < host.context@.len() ==> ((#[trigger] host.context@[i]).frame.contract_call() is None
                || host.context@[i].frame.contract_call()->Some_0.0 != id),
    ensures
        exists|mid: Host, v: Vec<Val>, outcome: Result<Val, HostError>| #[trigger]
            run.ensures((host, id, func, v), (mid, outcome)) && v@ == argvec && (outcome is Ok ==> out == (mid, outcome))
                && (outcome is Err && outcome->Err_0.error.type_ == ScErrorType::Contract ==> out.1 == Ok::<
                Val,
                HostError,
            >(Val::Error(outcome->Err_0.error))),
{
    law_is_running(host.context@, id);
    let (mid, outcome) = choose|mid: Host, outcome: Result<Val, HostError>| #[trigger]
        invokes(run, host, id, func, argvec, (mid, outcome)) && out.1 == tried(outcome) && notes_failure(
            mid,
            out.0,
            outcome,
            "contract try_call failed"@,
            func,
            args,
        );
    let v = choose|v: Vec<Val>| #[trigger] run.ensures((host, id, func, v), (mid, outcome)) && v@ == argvec;
    assert(run.ensures((host, id, func, v), (mid, outcome)));
}

/// The log can leave the host if and only if nothing in it nests too deep, and the values of
/// its notes are good.
pub proof fn law_log_can_leave(objs: Seq<ObjModel>, s: Seq<Event>, n: nat)
    requires
        n <= s.len(),
    ensures
        events_fault(objs, s, n) is None <==> forall|i: int| 0 <= i < n ==> can_leave(objs, #[trigger] s[i]),
    decreases n,
{
    if n > 0 {
        law_log_can_leave(objs, s, (n - 1) as nat);
        let e = s[n - 1];
        match e {
            Event::Contract { topics, data, .. } => {
                lemma_nesting(
                    deep_seq(objs, visit(objs, topics.handle, ObjectTag::VecObject)->Ok_0->Vector_0),
                    0,
                );
            },
            Event::Diagnostic { args, .. } => {
                lemma_nesting(deep_seq(objs, args@), 0);
            },
            _ => {},
        }
        assert(event_fault(objs, e) is None <==> can_leave(objs, e));
    }
}

/// Whether an event can be told outside the host: nothing in it nests too deep, and the values
/// of notes are good.
pub open spec fn can_leave(objs: Seq<ObjModel>, e: Event) -> bool {
    match e {
        Event::Contract { topics, data, .. } => {
            let list = deep_seq(objs, visit(objs, topics.handle, ObjectTag::VecObject)->Ok_0->Vector_0);
            &&& nesting(deep(objs, data)) <= DEFAULT_HOST_DEPTH_LIMIT
            &&& forall|i: int| 0 <= i < list.len() ==> nesting(#[trigger] list[i]) <= DEFAULT_HOST_DEPTH_LIMIT
        },
        Event::Diagnostic { args, .. } => {
            let list = deep_seq(objs, args@);
            &&& vals_fault(objs, args@) is None
            &&& forall|i: int| 0 <= i < list.len() ==> nesting(#[trigger] list[i]) <= DEFAULT_HOST_DEPTH_LIMIT
        },
        _ => true,
    }
}

proof fn lemma_nesting(s: Seq<Deep>, i: nat)
    requires
        i <= s.len(),
    ensures
        nesting_seq(s, i) <= DEFAULT_HOST_DEPTH_LIMIT <==> forall|j: int|
            i <= j < s.len() ==> nesting(#[trigger] s[j]) <= DEFAULT_HOST_DEPTH_LIMIT,
    decreases s.len() - i,
{
    if i < s.len() {
        lemma_nesting(s, i + 1);
        assert forall|j: int|
            nesting_seq(s, i + 1) <= DEFAULT_HOST_DEPTH_LIMIT && nesting(s[i as int]) <= DEFAULT_HOST_DEPTH_LIMIT && i <= j
                < s.len() implies nesting(#[trigger] s[j]) <= DEFAULT_HOST_DEPTH_LIMIT by {
            if j > i {
            }
        }
    }
}

/// The id that a deployer and a salt lead to is told without making anything.
pub proof fn law_contract_id_is_told(
    pre: Host,
    post: Host,
    deployer: AddressObject,
    salt: BytesObject,
    res: Result<AddressObject, HostError>,
    other: Host,
    asset: BytesObject,
    told: Result<AddressObject, HostError>,
)
    requires
        val_ok(pre.objs(), deployer.to_val()),
        val_ok(pre.objs(), salt.to_val()),
        val_ok(pre.objs(), asset.to_val()),
        does_get_contract_id(pre, post, deployer, salt, res),
        does_get_asset_contract_id(pre, other, asset, told),
    ensures
        res matches Ok(r) ==> {
            let who = at(pre, deployer.handle)->Address_0;
            let id = deployed_id(pre, who, hash_of_bytes(bytes_at(pre, salt)).0);
            &&& bytes_at(pre, salt).len() == 32
            &&& id is Ok
            &&& is_new(pre, post, r.handle)
            &&& at(post, r.handle) == ObjModel::Address(ScAddress::Contract(id->Ok_0))
        },
        told matches Ok(r) ==> {
            let id = asset_contract_id(pre, bytes_at(pre, asset));
            &&& asset_of_xdr(bytes_at(pre, asset)) is Some
            &&& id is Ok
            &&& is_new(pre, other, r.handle)
            &&& at(other, r.handle) == ObjModel::Address(ScAddress::Contract(id->Ok_0))
        },
        has_room(pre) && pre.ledger is Some ==> {
            &&& res is Ok <==> bytes_at(pre, salt).len() == 32
            &&& told is Ok <==> asset_of_xdr(bytes_at(pre, asset)) is Some
        },
{
    lemma_free(pre);
}

/// The hash that 32 bytes are is the one that is written with these bytes.
pub proof fn law_hash_of_bytes(s: Seq<u8>)
    requires
        s.len() == 32,
    ensures
        be_bytes(hash_of_bytes(s).0@, 32) == s,
{
    crate::host_address::law_address_bytes_round_trip(s);
}

/// Making a deployer's contract takes the deployer's agreement to that very contract, which is
/// used up, unless the running contract is the deployer.
pub proof fn law_deployer_agreed(
    pre: Host,
    post: Host,
    deployer: AddressObject,
    wasm_hash: BytesObject,
    salt: BytesObject,
    r: AddressObject,
)
    requires
        pre.wf(),
        val_ok(pre.objs(), deployer.to_val()),
        does_create_contract(pre, post, deployer, wasm_hash, salt, Ok(r)),
        pre.authorization_manager.mode == AuthorizationMode::Enforcing,
        !(runs_a_contract(pre) && at(pre, deployer.handle)->Address_0 == ScAddress::Contract(running(pre))),
    ensures
        exists|i: int| #[trigger]
            one_is_used(given(pre), given(post), i) && is_for_creation(
                given(pre)[i],
                at(pre, deployer.handle)->Address_0,
                at(pre, deployer.handle)->Address_0,
                hash_of_bytes(bytes_at(pre, salt)).0,
                hash_of_bytes(bytes_at(pre, wasm_hash)),
            ),
{
    let who = at(pre, deployer.handle)->Address_0;
    let (h, read) = reads_deployer(pre, deployer, salt);
    let salt_number = read->Ok_0.1;
    let (h, hash) = reads_number(h, wasm_hash);
    let code = Hash32(u256_of_int(hash->Ok_0));
    let (mid, asked) = choose|mid: Host, asked: Result<(), HostError>| #[trigger]
        asks(
            h,
            mid,
            who,
            crate::host_auth::FunctionModel::CreateContract(who, salt_number, code),
            crate::host_contract::actor(h),
            asked,
        ) && deploys(mid, post, asked, who, salt_number, code, Ok(r));
    assert(asked is Ok);
    law_creation_needs_agreement_to_it(h, mid, who, who, salt_number, code, crate::host_contract::actor(h));
    let i = choose|i: int| #[trigger]
        one_is_used(given(h), given(mid), i) && is_for_creation(given(h)[i], who, who, salt_number, code);
    assert(given(post) == given(mid) && given(h) == given(pre));
    assert(one_is_used(given(pre), given(post), i));
}

/// The address of the running contract is told; without one there is none to tell.
pub proof fn law_current_address(pre: Host, post: Host, res: Result<AddressObject, HostError>)
    requires
        does_get_current_contract_address(pre, post, res),
    ensures
        res matches Ok(r) ==> is_new(pre, post, r.handle) && runs_a_contract(pre) && at(post, r.handle)
            == ObjModel::Address(ScAddress::Contract(running(pre))),
        has_room(pre) ==> (res is Ok <==> runs_a_contract(pre)),
{
}

/// The address of the source account is told, if there is one.
pub proof fn law_source_address(pre: Host, post: Host, res: Result<Option<AddressObject>, HostError>)
    requires
        does_source_account_address(pre, post, res),
    ensures
        pre.source_account is None ==> post == pre && res == Ok::<Option<AddressObject>, HostError>(None),
        pre.source_account matches Some(account) ==> {
            &&& res matches Ok(r) ==> r is Some && at(post, r->Some_0.handle) == ObjModel::Address(
                ScAddress::Account(account),
            )
            &&& has_room(pre) ==> res is Ok
        },
{
}

/// A contract fails with its own error; any other error it cannot fail with.
pub proof fn law_contract_fails(host: Host, error: Error, res: Result<(), HostError>)
    requires
        does_fail_with_error(host, error, res),
    ensures
        res is Err,
        error.type_ == ScErrorType::Contract ==> res->Err_0.error == error,
        error.type_ != ScErrorType::Contract ==> res->Err_0.error == (Error { type_: ScErrorType::Context, code: 8 }),
{
}

/// What a guest has for the log is noted without an error in debug mode, with the values that
/// memory means; else nothing happens.
pub proof fn law_guest_logs(
    pre: Host,
    post: Host,
    memory: Seq<u8>,
    msg_pos: u32,
    msg_len: u32,
    vals_pos: u32,
    vals_len: u32,
    res: Result<(), HostError>,
)
    requires
        does_log_from_linear_memory(pre, post, memory, msg_pos, msg_len, vals_pos, vals_len, res),
    ensures
        pre.diagnostic_level == DiagnosticLevel::Off ==> post == pre && res is Ok,
        pre.diagnostic_level == DiagnosticLevel::Debug && res is Ok ==> {
            let last = post.events@.last();
            &&& post.events@.len() == pre.events@.len() + 1
            &&& post.events@.drop_last() == pre.events@
            &&& last is Diagnostic
            &&& last->error is None
            &&& msg_pos + msg_len <= memory.len()
            &&& last->message@ == lossy_text(memory.subrange(msg_pos as int, msg_pos + msg_len))
            &&& memory_vals(pre, memory, vals_pos as int, vals_len as nat) == Ok::<Seq<Val>, Fault>(last->args@)
        },
{
}

/// Bumping the running contract bumps it and no other; bumping by address bumps the contract
/// that the address is of.
pub proof fn law_bumped_by_address(
    pre: Host,
    post: Host,
    other: Host,
    contract: AddressObject,
    low: u32,
    high: u32,
)
    requires
        val_ok(pre.objs(), contract.to_val()),
        does_bump_current_contract_instance_and_code(pre, post, low, high, Ok(())),
        does_bump_contract_instance_and_code(pre, other, contract, low, high, Ok(())),
    ensures
        runs_a_contract(pre),
        pre.ledger is Some,
        at(pre, contract.handle)->Address_0 is Contract,
        ({
            let (own, foreign) = (
                KeyModel::ContractInstance(running(pre)),
                KeyModel::ContractInstance(at(pre, contract.handle)->Address_0->Contract_0),
            );
            let (m, n, k) = (pre.storage@, post.storage@, other.storage@);
            let li = pre.ledger->Some_0;
            &&& m.contains_key(own) && n.contains_key(own) && m.contains_key(foreign) && k.contains_key(foreign)
            &&& n[own].data == m[own].data && k[foreign].data == m[foreign].data
            &&& is_bumped(m[own].expiration_ledger, n[own].expiration_ledger, li, low, high)
            &&& is_bumped(m[foreign].expiration_ledger, k[foreign].expiration_ledger, li, low, high)
        }),
{
    law_bumped_contract_lives_on(pre, post, running(pre), low, high);
    let h = looks_at(pre, contract.handle, ObjectTag::AddressObject).0;
    law_bumped_contract_lives_on(h, other, at(pre, contract.handle)->Address_0->Contract_0, low, high);
}

/// A contract that was made by its id is in the ledger with its code and no data.
pub proof fn law_contract_made_by_id(
    pre: Host,
    post: Host,
    id: Hash32,
    executable: ContractExecutable,
    res: Result<(), HostError>,
)
    requires
        does_create_contract_with_id(pre, post, id, executable, res),
    ensures
        ({
            let (m, n, key) = (pre.storage@, post.storage@, KeyModel::ContractInstance(id));
            &&& res is Ok <==> !m.contains_key(key) && pre.ledger is Some && (executable matches ContractExecutable::Wasm(
                hash,
            ) ==> m.contains_key(KeyModel::ContractCode(hash)))
            &&& res is Ok ==> n.contains_key(key) && n[key].data == DataModel::ContractInstance(
                executable,
                Seq::<Deep>::empty(),
            ) && same_but(m, n, key)
            &&& res is Err ==> post == pre
        }),
{
}

/// Code that was uploaded is in the ledger, under its hash; code that was not there yet was
/// checked first, and code that did not pass is not put there.
pub proof fn law_uploaded_code<F: FnOnce(&[u8]) -> Result<(), HostError>>(
    check_wasm: F,
    pre: Host,
    post: Host,
    wasm: BytesObject,
    res: Result<BytesObject, HostError>,
)
    requires
        pre.wf(),
        val_ok(pre.objs(), wasm.to_val()),
        uploads(check_wasm, pre, post, wasm, res),
    ensures
        ({
            let code = bytes_at(pre, wasm);
            let key = KeyModel::ContractCode(hash_of_bytes(sha256_hash(code)));
            let (m, n) = (pre.storage@, post.storage@);
            &&& res matches Ok(r) ==> at(post, r.handle) == ObjModel::Blob(BlobKind::Bytes, sha256_hash(code))
                && n.contains_key(key) && same_but(m, n, key)
            &&& res is Ok && m.contains_key(key) ==> n == m
            &&& res is Ok && !m.contains_key(key) ==> n[key].data == DataModel::ContractCode(code) && exists|s: &[u8]|
                s@ == code && #[trigger] check_wasm.ensures((s,), Ok(()))
            &&& (forall|s: &[u8], r: Result<(), HostError>| #[trigger] check_wasm.ensures((s,), r) ==> r is Err)
                && !m.contains_key(key) ==> res is Err && n == m
        }),
{
    let h = looks_at(pre, wasm.handle, ObjectTag::BytesObject).0;
    let code = bytes_at(pre, wasm);
    let key = KeyModel::ContractCode(hash_of_bytes(sha256_hash(code)));
    let charged = charge_bulk(h, code.len() as int, 1);
    if looks_at(pre, wasm.handle, ObjectTag::BytesObject).1 is Ok && charged.1 is Ok {
        if pre.storage@.contains_key(key) {
            law_code_is_put(charged.0, post, code, sha256_hash(code), res);
        } else {
            let (s, checked) = choose|s: &[u8], checked: Result<(), HostError>| #[trigger]
                check_wasm.ensures((s,), checked) && s@ == code && match checked {
                    Err(e) => post == charged.0 && res == Err::<BytesObject, HostError>(e),
                    Ok(_) => puts_code(charged.0, post, code, sha256_hash(code), res),
                };
            if checked is Ok {
                assert(checked->Ok_0 == ());
                assert(checked == Ok::<(), HostError>(()));
                assert(check_wasm.ensures((s,), Ok(())));
                law_code_is_put(charged.0, post, code, sha256_hash(code), res);
            }
        }
    }
}

/// A new host knows nothing: no account, no ledger, no objects, no calls, no log, no agreements
/// and no seed; it enforces agreements and keeps no notes.
pub proof fn law_fresh_host(host: Host)
    requires
        is_fresh(host),
    ensures
        host.source_account is None && host.ledger is None && host.base_prng is None,
        host.objs().len() == 0 && host.context@.len() == 0 && host.events@.len() == 0 && given(host).len() == 0,
        host.authorization_manager.mode == AuthorizationMode::Enforcing,
        host.diagnostic_level == DiagnosticLevel::Off,
        current_contract(host) is Err,
{
}

/// What is about to run is refused if and only if the name of the function or an argument is
/// not a good value.
pub proof fn law_bad_calls_are_refused(objs: Seq<ObjModel>, frame: Frame)
    ensures
        frame.contract_call() is None ==> frame_fault(objs, frame) is None,
        frame.contract_call() matches Some((_, name, args)) ==> (frame_fault(objs, frame) is None <==> val_fault(
            objs,
            name.to_val(),
        ) is None && forall|i: int| 0 <= i < args.len() ==> val_fault(objs, #[trigger] args[i]) is None),
{
    if let Some((_, _, args)) = frame.contract_call() {
        lemma_no_fault(objs, args);
    }
}

proof fn lemma_no_fault(objs: Seq<ObjModel>, s: Seq<Val>)
    ensures
        vals_fault(objs, s) is None <==> forall|i: int| 0 <= i < s.len() ==> val_fault(objs, #[trigger] s[i]) is None,
    decreases s.len(),
{
    if s.len() > 0 {
        lemma_no_fault(objs, s.drop_last());
        assert forall|i: int| 0 <= i < s.len() - 1 implies s.drop_last()[i] == #[trigger] s[i] by {
        }
    }
}

/// An error that a contract would not handle is noted with the frame of a test contract, if one
/// is running; all else stays as it is.
pub proof fn law_escalations_are_marked(pre: Host, post: Host, error: Error)
    requires
        marks_frame(pre, post, error),
    ensures
        pre.context@.len() > 0 && pre.context@.last().frame is TestContract ==> {
            let (before, after) = (pre.context@.last(), post.context@.last());
            &&& post.context@.len() == pre.context@.len()
            &&& forall|i: int| 0 <= i < pre.context@.len() - 1 ==> #[trigger] post.context@[i] == pre.context@[i]
            &&& after.frame is TestContract
            &&& after.frame->panic == Some(error)
            &&& after.frame.contract_call() == before.frame.contract_call()
            &&& after.instance == before.instance && after.storage == before.storage && after.prng == before.prng
        },
        pre.context@.len() == 0 || !(pre.context@.last().frame is TestContract) ==> post == pre,
        post == (Host { context: post.context, ..pre }),
{
    if pre.context@.len() > 0 && pre.context@.last().frame is TestContract {
        assert forall|i: int| 0 <= i < pre.context@.len() - 1 implies #[trigger] post.context@[i] == pre.context@[i] by {
            assert(post.context@.drop_last()[i] == pre.context@.drop_last()[i]);
        }
    }
}

/// What goes wrong in a way with a name goes wrong with these errors.
pub proof fn law_named_faults()
    ensures
        crate::host_auth::auth_fault() == (ScErrorType::Auth, ScErrorCode::InvalidAction),
        crate::host_call::reentry_fault() == (ScErrorType::Context, ScErrorCode::InvalidAction),
        crate::host_map::depth_fault() == (ScErrorType::Context, ScErrorCode::ExceededLimit),
        crate::host_memory::outside_memory() == (ScErrorType::WasmVm, ScErrorCode::IndexBounds),
        budget_error().error == (Error { type_: ScErrorType::Budget, code: 5 }),
{
}

} // verus!
