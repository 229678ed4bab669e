//! What agreements are good for.

use crate::bignum::U256;
use crate::error::{Fault, HostError, ScErrorType};
use crate::host::{
    charge_bulk, AuthorizationMode, AuthorizedInvocation, Host, DEFAULT_HOST_DEPTH_LIMIT, VAL_SIZE,
};
use crate::host_auth::{
    agreements, asks, asks_of, find_agreement, requires_auth, requires_auth_for_args, same_function,
    sets_agreements, AuthorizationEntry, AuthorizedFunctionEntry, FunctionModel,
};
use crate::host_auth_entries::{
    call_of, creation_of, does_authorize_as_curr_contract, entries_of, entry_of, fields_of, has_keys, variant_of,
};
use crate::host_contract::hash_of_bytes;
use crate::host_convert::{lemma_tree_vals, tree_vals};
use crate::host_object::looks_at;
use crate::ledger_laws::{running, runs_a_contract};
use crate::model::{
    deep, deep_seq, extends, law_values_are_immutable, lemma_vals_ok_extends, nesting, obj_ok,
    seq_levels, val_ok, vals_ok, BlobKind, Deep, Hash32, ObjModel, ScAddress,
};
use crate::order_laws::{blob_of, object_of};
use crate::scval::sc_deep;
use crate::val::{spec_handle_to_index, AddressObject, ObjectTag, Symbol, Val, VecObject};
use vstd::prelude::*;
use vstd::string::*;

verus! {

/// Whether two lists of values denote the same.
pub open spec fn same_values(objs: Seq<ObjModel>, s: Seq<Val>, t: Seq<Val>) -> bool {
    &&& s.len() == t.len()
    &&& forall|j: int| 0 <= j < s.len() ==> deep(objs, #[trigger] s[j]) == deep(objs, t[j])
}

/// Whether an agreement is one of an address, not used up yet, to a call: of the same
/// contract, of a function with the very same name, with arguments that denote the
/// same.
pub open spec fn is_for_call(
    objs: Seq<ObjModel>,
    inv: AuthorizedInvocation,
    address: ScAddress,
    id: Hash32,
    name: Seq<u8>,
    args: Seq<Val>,
) -> bool {
    &&& !inv.is_exhausted
    &&& inv.address == address
    &&& inv.function is ContractFn
    &&& inv.function->contract_id == id
    &&& inv.function->function_name@ == name
    &&& same_values(objs, inv.function->args@, args)
}

/// Whether an agreement is one of an address, not used up yet, to the making of a
/// contract: by the same deployer, with the same salt and of the same code.
pub open spec fn is_for_creation(
    inv: AuthorizedInvocation,
    address: ScAddress,
    deployer: ScAddress,
    salt: U256,
    wasm_hash: Hash32,
) -> bool {
    &&& !inv.is_exhausted
    &&& inv.address == address
    &&& inv.function is CreateContract
    &&& inv.function->deployer == deployer
    &&& inv.function->salt == salt
    &&& inv.function->wasm_hash == wasm_hash
}

/// The agreements of a host.
pub open spec fn given(host: Host) -> Seq<AuthorizedInvocation> {
    host.authorization_manager.invocations@
}

/// Of some agreements one was used up, and nothing else changed of them.
pub open spec fn one_is_used(before: Seq<AuthorizedInvocation>, after: Seq<AuthorizedInvocation>, i: int) -> bool {
    &&& 0 <= i < before.len()
    &&& after.len() == before.len()
    &&& after[i].is_exhausted
    &&& after[i].address == before[i].address
    &&& after[i].function == before[i].function
    &&& forall|j: int| 0 <= j < before.len() && j != i ==> #[trigger] after[j] == before[j]
}

/// Whether an address is that of the contract that called the running one.
pub open spec fn is_caller(host: Host, address: ScAddress) -> bool {
    let n = host.context@.len();
    &&& n >= 2
    &&& host.context@[n - 2].frame.contract_call() is Some
    &&& address == ScAddress::Contract(host.context@[n - 2].frame.contract_call()->Some_0.0)
}

/// Whether a call is what is running: of a contract, of a function by the characters
/// of its name, with arguments.
pub open spec fn is_running_call(host: Host, id: Hash32, name: Seq<u8>, args: Seq<Val>) -> bool {
    &&& host.context@.len() > 0
    &&& host.context@.last().frame.contract_call() is Some
    &&& ({
        let call = host.context@.last().frame.contract_call()->Some_0;
        &&& call.0 == id
        &&& blob_of(host.objs(), call.1.to_val()) == Some((BlobKind::Symbol, name))
        &&& call.2 == args
    })
}

/// Where agreements are enforced, an address that is not the caller agrees to the
/// running call only by an agreement to that very call: same contract, same name,
/// same arguments. The agreement is used up by it, and no other is.
pub proof fn law_auth_needs_agreement_to_the_call(
    pre: Host,
    post: Host,
    address: AddressObject,
    who: ScAddress,
    id: Hash32,
    name: Seq<u8>,
    args: Seq<Val>,
)
    requires
        pre.wf(),
        requires_auth(pre, post, address, Ok(())),
        pre.authorization_manager.mode == AuthorizationMode::Enforcing,
        pre.objs()[spec_handle_to_index(address.handle)] == ObjModel::Address(who),
        is_running_call(pre, id, name, args),
        !is_caller(pre, who),
    ensures
        exists|i: int| #[trigger]
            one_is_used(given(pre), given(post), i) && is_for_call(pre.objs(), given(pre)[i], who, id, name, args),
        post == (Host { budget: post.budget, authorization_manager: post.authorization_manager, ..pre }),
{
    assert(pre.context@.last().ok(pre.objs()));
    let asked = looks_at(
        charge_bulk(pre, args.len() as int, VAL_SIZE as int).0,
        address.handle,
        ObjectTag::AddressObject,
    ).0;
    lemma_asked_for_call(asked, post, who, id, name, args, crate::host_auth::invoker(pre));
    assert(given(asked) == given(pre) && asked.objs() == pre.objs());
    let i = choose|i: int| #[trigger]
        one_is_used(given(asked), given(post), i) && is_for_call(
            asked.objs(),
            given(asked)[i],
            who,
            id,
            name,
            args,
        );
    assert(one_is_used(given(pre), given(post), i));
}

/// Likewise where the address is asked with other arguments.
pub proof fn law_auth_for_args_needs_agreement_to_them(
    pre: Host,
    post: Host,
    address: AddressObject,
    list: VecObject,
    who: ScAddress,
    id: Hash32,
    name: Seq<u8>,
    own: Seq<Val>,
    args: Seq<Val>,
)
    requires
        pre.wf(),
        requires_auth_for_args(pre, post, address, list, Ok(())),
        pre.authorization_manager.mode == AuthorizationMode::Enforcing,
        pre.objs()[spec_handle_to_index(address.handle)] == ObjModel::Address(who),
        pre.objs()[spec_handle_to_index(list.handle)] == ObjModel::Vector(args),
        is_running_call(pre, id, name, own),
        !is_caller(pre, who),
    ensures
        exists|i: int| #[trigger]
            one_is_used(given(pre), given(post), i) && is_for_call(pre.objs(), given(pre)[i], who, id, name, args),
        post == (Host { budget: post.budget, authorization_manager: post.authorization_manager, ..pre }),
{
    assert(pre.context@.last().ok(pre.objs()));
    let h = looks_at(pre, list.handle, ObjectTag::VecObject).0;
    let asked = looks_at(
        charge_bulk(h, args.len() as int, VAL_SIZE as int).0,
        address.handle,
        ObjectTag::AddressObject,
    ).0;
    lemma_asked_for_call(asked, post, who, id, name, args, crate::host_auth::invoker(pre));
    assert(given(asked) == given(pre) && asked.objs() == pre.objs());
    let i = choose|i: int| #[trigger]
        one_is_used(given(asked), given(post), i) && is_for_call(
            asked.objs(),
            given(asked)[i],
            who,
            id,
            name,
            args,
        );
    assert(one_is_used(given(pre), given(post), i));
}

/// Likewise where a known address is asked.
pub proof fn law_known_address_needs_agreement(
    pre: Host,
    post: Host,
    who: ScAddress,
    id: Hash32,
    name: Seq<u8>,
    args: Seq<Val>,
)
    requires
        pre.wf(),
        asks_of(pre, post, who, Ok(())),
        pre.authorization_manager.mode == AuthorizationMode::Enforcing,
        is_running_call(pre, id, name, args),
        !is_caller(pre, who),
    ensures
        exists|i: int| #[trigger]
            one_is_used(given(pre), given(post), i) && is_for_call(pre.objs(), given(pre)[i], who, id, name, args),
        post == (Host { authorization_manager: post.authorization_manager, ..pre }),
{
    assert(pre.context@.last().ok(pre.objs()));
    lemma_asked_for_call(pre, post, who, id, name, args, crate::host_auth::invoker(pre));
}

proof fn lemma_asked_for_call(
    pre: Host,
    post: Host,
    who: ScAddress,
    id: Hash32,
    name: Seq<u8>,
    args: Seq<Val>,
    actor: Option<Hash32>,
)
    requires
        asks(pre, post, who, FunctionModel::ContractFn(id, name, args), actor, Ok(())),
        pre.authorization_manager.mode == AuthorizationMode::Enforcing,
        actor is None || who != ScAddress::Contract(actor->Some_0),
    ensures
        exists|i: int| #[trigger]
            one_is_used(given(pre), given(post), i) && is_for_call(pre.objs(), given(pre)[i], who, id, name, args),
        post == (Host { authorization_manager: post.authorization_manager, ..pre }),
{
    let f = FunctionModel::ContractFn(id, name, args);
    let objs = pre.objs();
    lemma_found(objs, given(pre), who, f, 0);
    let i = find_agreement(objs, given(pre), who, f, 0)->Ok_0->Some_0 as int;
    let inv = given(pre)[i];
    let a = inv.function->args@;
    assert(deep_seq(objs, a) == deep_seq(objs, args));
    assert(a.len() == deep_seq(objs, a).len() && args.len() == deep_seq(objs, args).len());
    assert forall|j: int| 0 <= j < a.len() implies deep(objs, #[trigger] a[j]) == deep(objs, args[j]) by {
        assert(deep_seq(objs, a)[j] == deep_seq(objs, args)[j]);
    }
    assert(one_is_used(given(pre), given(post), i));
}

/// Where agreements are enforced, an address agrees to the making of a contract only
/// by an agreement to the making of that very contract.
pub proof fn law_creation_needs_agreement_to_it(
    pre: Host,
    post: Host,
    who: ScAddress,
    deployer: ScAddress,
    salt: U256,
    wasm_hash: Hash32,
    actor: Option<Hash32>,
)
    requires
        asks(pre, post, who, FunctionModel::CreateContract(deployer, salt, wasm_hash), actor, Ok(())),
        pre.authorization_manager.mode == AuthorizationMode::Enforcing,
        actor is None || who != ScAddress::Contract(actor->Some_0),
    ensures
        exists|i: int| #[trigger]
            one_is_used(given(pre), given(post), i) && is_for_creation(given(pre)[i], who, deployer, salt, wasm_hash),
        post == (Host { authorization_manager: post.authorization_manager, ..pre }),
{
    let f = FunctionModel::CreateContract(deployer, salt, wasm_hash);
    lemma_found(pre.objs(), given(pre), who, f, 0);
    let i = find_agreement(pre.objs(), given(pre), who, f, 0)->Ok_0->Some_0 as int;
    assert(one_is_used(given(pre), given(post), i));
}

proof fn lemma_found(objs: Seq<ObjModel>, s: Seq<AuthorizedInvocation>, who: ScAddress, f: FunctionModel, i: nat)
    ensures
        find_agreement(objs, s, who, f, i) matches Ok(Some(k)) ==> {
            &&& i <= k < s.len()
            &&& !s[k as int].is_exhausted
            &&& s[k as int].address == who
            &&& same_function(objs, s[k as int].function@, f) == Ok::<bool, Fault>(true)
        },
    decreases s.len() - i,
{
    if i < s.len() {
        lemma_found(objs, s, who, f, i + 1);
    }
}

/// The caller of the running contract agrees to the running call without more, and no
/// agreement is used up.
pub proof fn law_caller_agrees(pre: Host, post: Host, who: ScAddress, res: Result<(), HostError>)
    requires
        asks_of(pre, post, who, res),
        pre.context@.len() > 0,
        pre.context@.last().frame.contract_call() is Some,
        is_caller(pre, who),
    ensures
        res == Ok::<(), HostError>(()),
        post == pre,
{
}

/// Where agreements are enforced, one agreement to the running call, not used up yet,
/// is enough, if the arguments do not nest too deep and the budget allows the asking.
pub proof fn law_agreement_suffices(
    pre: Host,
    post: Host,
    who: ScAddress,
    id: Hash32,
    name: Seq<u8>,
    args: Seq<Val>,
    res: Result<(), HostError>,
    k: int,
)
    requires
        pre.wf(),
        asks_of(pre, post, who, res),
        pre.authorization_manager.mode == AuthorizationMode::Enforcing,
        is_running_call(pre, id, name, args),
        forall|j: int| 0 <= j < args.len() ==> nesting(deep(pre.objs(), #[trigger] args[j])) <= DEFAULT_HOST_DEPTH_LIMIT,
        0 <= k < given(pre).len(),
        is_for_call(pre.objs(), given(pre)[k], who, id, name, args),
    ensures
        res == Ok::<(), HostError>(()),
{
    assert(pre.context@.last().ok(pre.objs()));
    lemma_covered(pre.objs(), given(pre), who, id, name, args, k, 0);
}

/// Likewise where the address is asked through its object.
pub proof fn law_agreement_suffices_for_objects(
    pre: Host,
    post: Host,
    address: AddressObject,
    who: ScAddress,
    id: Hash32,
    name: Seq<u8>,
    args: Seq<Val>,
    res: Result<(), HostError>,
    k: int,
)
    requires
        pre.wf(),
        requires_auth(pre, post, address, res),
        pre.authorization_manager.mode == AuthorizationMode::Enforcing,
        looks_at(
            charge_bulk(pre, args.len() as int, VAL_SIZE as int).0,
            address.handle,
            ObjectTag::AddressObject,
        ).1 == Ok::<ObjModel, HostError>(ObjModel::Address(who)),
        charge_bulk(pre, args.len() as int, VAL_SIZE as int).1 is Ok,
        is_running_call(pre, id, name, args),
        forall|j: int| 0 <= j < args.len() ==> nesting(deep(pre.objs(), #[trigger] args[j])) <= DEFAULT_HOST_DEPTH_LIMIT,
        0 <= k < given(pre).len(),
        is_for_call(pre.objs(), given(pre)[k], who, id, name, args),
    ensures
        res == Ok::<(), HostError>(()),
{
    assert(pre.context@.last().ok(pre.objs()));
    lemma_covered(pre.objs(), given(pre), who, id, name, args, k, 0);
}

proof fn lemma_covered(
    objs: Seq<ObjModel>,
    s: Seq<AuthorizedInvocation>,
    who: ScAddress,
    id: Hash32,
    name: Seq<u8>,
    args: Seq<Val>,
    k: int,
    i: nat,
)
    requires
        i <= k < s.len(),
        is_for_call(objs, s[k], who, id, name, args),
        forall|j: int| 0 <= j < args.len() ==> nesting(deep(objs, #[trigger] args[j])) <= DEFAULT_HOST_DEPTH_LIMIT,
    ensures
        find_agreement(objs, s, who, FunctionModel::ContractFn(id, name, args), i) matches Ok(Some(_)),
    decreases s.len() - i,
{
    let f = FunctionModel::ContractFn(id, name, args);
    let inv = s[i as int];
    if inv.function is ContractFn {
        let a = inv.function->args@;
        lemma_levels_within(deep_seq(objs, a), deep_seq(objs, args), 0);
        if same_values(objs, a, args) {
            assert(deep_seq(objs, a) =~= deep_seq(objs, args)) by {
                assert forall|j: int| 0 <= j < a.len() implies deep_seq(objs, a)[j] == deep_seq(objs, args)[j] by {
                    assert(deep(objs, a[j]) == deep(objs, args[j]));
                }
            }
        }
    }
    if i < k {
        lemma_covered(objs, s, who, id, name, args, k, i + 1);
    }
}

proof fn lemma_levels_within(x: Seq<Deep>, y: Seq<Deep>, i: nat)
    requires
        forall|j: int| 0 <= j < y.len() ==> nesting(#[trigger] y[j]) <= DEFAULT_HOST_DEPTH_LIMIT,
    ensures
        seq_levels(x, y, i) <= DEFAULT_HOST_DEPTH_LIMIT,
    decreases x.len() - i,
{
    if i < x.len() && i < y.len() {
        crate::model::law_order_levels_bounded(x[i as int], y[i as int]);
        lemma_levels_within(x, y, i + 1);
    }
}

/// Where agreements are still to be collected, what an address is asked is noted, by
/// the very contract, name and arguments; only below the outermost call it may be
/// refused.
pub proof fn law_recording_notes_the_call(
    pre: Host,
    post: Host,
    who: ScAddress,
    id: Hash32,
    name: Seq<u8>,
    args: Seq<Val>,
    disable_non_root_auth: bool,
    res: Result<(), HostError>,
)
    requires
        pre.wf(),
        asks_of(pre, post, who, res),
        pre.authorization_manager.mode == (AuthorizationMode::Recording { disable_non_root_auth }),
        is_running_call(pre, id, name, args),
        !is_caller(pre, who),
    ensures
        disable_non_root_auth && pre.context@.len() > 1 ==> res is Err && post == pre,
        !disable_non_root_auth || pre.context@.len() == 1 ==> {
            let last = given(post).last();
            &&& res is Ok
            &&& given(post).len() == given(pre).len() + 1
            &&& given(post).drop_last() == given(pre)
            &&& last.address == who
            &&& last.function is ContractFn
            &&& last.function->contract_id == id
            &&& last.function->function_name@ == name
            &&& last.function->args@ == args
        },
{
    assert(pre.context@.last().ok(pre.objs()));
}

/// The agreements that a host is given are those that it has: of the same addresses,
/// to the same things, in the same order, and none is used up.
pub proof fn law_given_agreements_are_there(
    pre: Host,
    post: Host,
    entries: Seq<AuthorizationEntry>,
    i: int,
)
    requires
        pre.wf(),
        sets_agreements(pre, post, entries, Ok(())),
        0 <= i < entries.len(),
    ensures
        given(post).len() == entries.len(),
        post.authorization_manager.mode == AuthorizationMode::Enforcing,
        !given(post)[i].is_exhausted,
        entries[i].credentials is SourceAccount ==> pre.source_account is Some && given(post)[i].address
            == ScAddress::Account(pre.source_account->Some_0),
        entries[i].credentials is Address ==> given(post)[i].address == entries[i].credentials->Address_0,
        entries[i].function is ContractFn ==> {
            let (f, g) = (entries[i].function, given(post)[i].function);
            &&& g is ContractFn
            &&& g->contract_id == f->contract_id
            &&& g->function_name@ == f->function_name@
            &&& g->args@.len() == f->args@.len()
            &&& forall|j: int|
                0 <= j < f->args@.len() ==> deep(post.objs(), #[trigger] g->args@[j]) == sc_deep(f->args@[j])
        },
        entries[i].function is CreateContract ==> {
            let (f, g) = (entries[i].function, given(post)[i].function);
            &&& g is CreateContract
            &&& g->deployer == f->deployer
            &&& g->salt == f->salt
            &&& g->wasm_hash == f->wasm_hash
        },
{
    lemma_agreements(pre, entries, entries.len(), i);
    let list = agreements(pre, entries, entries.len()).1->Ok_0;
    assert(given(post)[i].function@ == list[i].1);
}

proof fn lemma_agreements(pre: Host, entries: Seq<AuthorizationEntry>, n: nat, i: int)
    requires
        pre.wf(),
        0 <= n <= entries.len(),
        agreements(pre, entries, n).1 is Ok,
    ensures
        crate::model::table_ok(agreements(pre, entries, n).0),
        agreements(pre, entries, n).1->Ok_0.len() == n,
        0 <= i < n ==> {
            let (objs, list) = (agreements(pre, entries, n).0, agreements(pre, entries, n).1->Ok_0);
            &&& entries[i].credentials is SourceAccount ==> pre.source_account is Some && list[i].0
                == ScAddress::Account(pre.source_account->Some_0)
            &&& entries[i].credentials is Address ==> list[i].0 == entries[i].credentials->Address_0
            &&& entries[i].function is ContractFn ==> {
                let f = entries[i].function;
                &&& list[i].1 is ContractFn
                &&& list[i].1->ContractFn_0 == f->contract_id
                &&& list[i].1->ContractFn_1 == f->function_name@
                &&& list[i].1->ContractFn_2.len() == f->args@.len()
                &&& vals_ok(objs, list[i].1->ContractFn_2)
                &&& forall|j: int|
                    0 <= j < f->args@.len() ==> deep(objs, #[trigger] list[i].1->ContractFn_2[j]) == sc_deep(
                        f->args@[j],
                    )
            }
            &&& entries[i].function is CreateContract ==> {
                let f = entries[i].function;
                list[i].1 == FunctionModel::CreateContract(f->deployer, f->salt, f->wasm_hash)
            }
        },
    decreases n,
{
    if n > 0 {
        lemma_agreements(pre, entries, (n - 1) as nat, i);
        let before = agreements(pre, entries, (n - 1) as nat);
        let after = agreements(pre, entries, n);
        let f = entries[n - 1].function;
        if let AuthorizedFunctionEntry::ContractFn { args, .. } = f {
            lemma_tree_vals(before.0, args@, args@.len(), DEFAULT_HOST_DEPTH_LIMIT as nat);
            let vals = tree_vals(before.0, args@, args@.len(), DEFAULT_HOST_DEPTH_LIMIT as nat).1->Ok_0;
            assert forall|j: int| 0 <= j < args@.len() implies deep(after.0, #[trigger] vals[j]) == sc_deep(args@[j]) by {
                assert(deep_seq(after.0, vals)[j] == sc_deep(args@[j]));
            }
        }
        assert(extends(before.0, after.0));
        if 0 <= i < n - 1 {
            let old_list = before.1->Ok_0;
            assert(after.1->Ok_0[i] == old_list[i]);
            if entries[i].function is ContractFn {
                let vals = old_list[i].1->ContractFn_2;
                lemma_vals_ok_extends(before.0, after.0, vals);
                assert forall|j: int| 0 <= j < vals.len() implies deep(after.0, #[trigger] vals[j]) == sc_deep(
                    entries[i].function->args@[j],
                ) by {
                    assert(val_ok(before.0, vals[j]));
                    law_values_are_immutable(before.0, after.0, vals[j]);
                }
            }
        }
    }
}

/// Where agreements are enforced, an address that has none left is refused, with an error
/// of authorization, and nothing changes.
pub proof fn law_no_agreement_is_refused(
    pre: Host,
    post: Host,
    who: ScAddress,
    f: FunctionModel,
    actor: Option<Hash32>,
    res: Result<(), HostError>,
)
    requires
        asks(pre, post, who, f, actor, res),
        pre.authorization_manager.mode == AuthorizationMode::Enforcing,
        actor is None || who != ScAddress::Contract(actor->Some_0),
        forall|i: int|
            0 <= i < given(pre).len() ==> (#[trigger] given(pre)[i]).is_exhausted || given(pre)[i].address != who,
    ensures
        post == pre,
        res is Err,
        res->Err_0.error.type_ == ScErrorType::Auth,
        res->Err_0.error.code == 6,
{
    lemma_none_left(pre.objs(), given(pre), who, f, 0);
}

proof fn lemma_none_left(objs: Seq<ObjModel>, s: Seq<AuthorizedInvocation>, who: ScAddress, f: FunctionModel, i: nat)
    requires
        forall|j: int| 0 <= j < s.len() ==> (#[trigger] s[j]).is_exhausted || s[j].address != who,
    ensures
        find_agreement(objs, s, who, f, i) == Ok::<Option<nat>, Fault>(None),
    decreases s.len() - i,
{
    if i < s.len() {
        lemma_none_left(objs, s, who, f, i + 1);
    }
}

/// What a contract agrees to in advance it agrees to itself: each new agreement is its own,
/// stands after all others and is not used up, and the others are as they were.
pub proof fn law_contract_agrees_in_advance(pre: Host, post: Host, list: VecObject, res: Result<(), HostError>)
    requires
        does_authorize_as_curr_contract(pre, post, list, res),
    ensures
        res is Ok ==> {
            &&& runs_a_contract(pre)
            &&& given(post).len() >= given(pre).len()
            &&& forall|i: int| 0 <= i < given(pre).len() ==> #[trigger] given(post)[i] == given(pre)[i]
            &&& forall|i: int|
                given(pre).len() <= i < given(post).len() ==> {
                    &&& (#[trigger] given(post)[i]).address == ScAddress::Contract(running(pre))
                    &&& !given(post)[i].is_exhausted
                }
            &&& post == (Host { budget: post.budget, authorization_manager: post.authorization_manager, ..pre })
        },
        res is Err ==> given(post) == given(pre),
{
    if res is Ok {
        let n = given(pre).len();
        assert forall|i: int| n <= i < given(post).len() implies {
            &&& (#[trigger] given(post)[i]).address == ScAddress::Contract(running(pre))
            &&& !given(post)[i].is_exhausted
        } by {
            assert(given(post)[n + (i - n)].address == ScAddress::Contract(running(pre)));
        }
    }
}

/// Whether a value is a map of symbols, in their order, to values.
pub open spec fn is_record(objs: Seq<ObjModel>, v: Val, names: Seq<Seq<u8>>, values: Seq<Val>) -> bool {
    &&& v is Object
    &&& v->Object_0.tag == ObjectTag::MapObject
    &&& object_of(objs, v) is Mapping
    &&& object_of(objs, v)->Mapping_0.len() == names.len()
    &&& names.len() == values.len()
    &&& forall|i: int|
        0 <= i < names.len() ==> {
            &&& blob_of(objs, (#[trigger] object_of(objs, v)->Mapping_0[i]).0) == Some((BlobKind::Symbol, names[i]))
            &&& object_of(objs, v)->Mapping_0[i].1 == values[i]
        }
}

/// The call that a value with arguments, contract and name describes is the call of that
/// contract, by that name and with those arguments.
pub proof fn law_described_call(
    host: Host,
    v: Val,
    args: Val,
    contract: Val,
    name: Val,
    id: Hash32,
    text: Seq<u8>,
)
    requires
        host.wf(),
        val_ok(host.objs(), v),
        is_record(
            host.objs(),
            v,
            seq!["args".spec_bytes(), "contract".spec_bytes(), "fn_name".spec_bytes()],
            seq![args, contract, name],
        ),
        args is Object && args->Object_0.tag == ObjectTag::VecObject,
        contract is Object && contract->Object_0.tag == ObjectTag::AddressObject,
        object_of(host.objs(), contract) == ObjModel::Address(ScAddress::Contract(id)),
        blob_of(host.objs(), name) == Some((BlobKind::Symbol, text)),
    ensures
        call_of(host.objs(), v) == Some(FunctionModel::ContractFn(id, text, object_of(host.objs(), args)->Vector_0)),
{
    let names = seq!["args".spec_bytes(), "contract".spec_bytes(), "fn_name".spec_bytes()];
    let m = object_of(host.objs(), v)->Mapping_0;
    assert(m[0].1 == args && m[1].1 == contract && m[2].1 == name);
    let k = spec_handle_to_index(v->Object_0.handle) as int;
    assert(obj_ok(host.objs().take(k), host.objs()[k]));
    assert forall|i: int| 0 <= i < m.len() implies val_ok(host.objs(), (#[trigger] m[i]).0) && val_ok(
        host.objs(),
        m[i].1,
    ) by {
        assert(val_ok(host.objs().take(k), m[i].0) && val_ok(host.objs().take(k), m[i].1));
    }
    assert(has_keys(host.objs(), m, names));
}

/// Whether a value is a vector of a symbol and one thing more.
pub open spec fn is_variant(objs: Seq<ObjModel>, v: Val, name: Seq<u8>, content: Val) -> bool {
    &&& v is Object
    &&& v->Object_0.tag == ObjectTag::VecObject
    &&& object_of(objs, v) is Vector
    &&& object_of(objs, v)->Vector_0.len() == 2
    &&& blob_of(objs, object_of(objs, v)->Vector_0[0]) == Some((BlobKind::Symbol, name))
    &&& object_of(objs, v)->Vector_0[1] == content
}

/// Whether a value is a byte string.
pub open spec fn is_bytes(objs: Seq<ObjModel>, v: Val, s: Seq<u8>) -> bool {
    &&& v is Object
    &&& v->Object_0.tag == ObjectTag::BytesObject
    &&& object_of(objs, v) == ObjModel::Blob(BlobKind::Bytes, s)
}

proof fn lemma_record(host: Host, v: Val, names: Seq<Seq<u8>>, values: Seq<Val>)
    requires
        host.wf(),
        val_ok(host.objs(), v),
        is_record(host.objs(), v, names, values),
    ensures
        fields_of(host.objs(), v, names) == Some(values),
        forall|i: int| 0 <= i < values.len() ==> val_ok(host.objs(), #[trigger] values[i]),
{
    let m = object_of(host.objs(), v)->Mapping_0;
    let k = spec_handle_to_index(v->Object_0.handle) as int;
    assert(obj_ok(host.objs().take(k), host.objs()[k]));
    assert forall|i: int| 0 <= i < m.len() implies val_ok(host.objs(), (#[trigger] m[i]).0) && val_ok(
        host.objs(),
        m[i].1,
    ) by {
        assert(val_ok(host.objs().take(k), m[i].0) && val_ok(host.objs().take(k), m[i].1));
    }
    assert(has_keys(host.objs(), m, names));
    assert(crate::host_map::values_of(m) =~= values) by {
        assert forall|i: int| 0 <= i < m.len() implies crate::host_map::values_of(m)[i] == values[i] by {
            assert(m[i].1 == values[i]);
        }
    }
    assert forall|i: int| 0 <= i < values.len() implies val_ok(host.objs(), #[trigger] values[i]) by {
        assert(m[i].1 == values[i]);
    }
}

proof fn lemma_variant(host: Host, v: Val, name: Seq<u8>, content: Val)
    requires
        host.wf(),
        val_ok(host.objs(), v),
        is_variant(host.objs(), v, name, content),
    ensures
        variant_of(host.objs(), v) == Some((name, content)),
        val_ok(host.objs(), content),
{
    let s = object_of(host.objs(), v)->Vector_0;
    let k = spec_handle_to_index(v->Object_0.handle) as int;
    assert(obj_ok(host.objs().take(k), host.objs()[k]));
    assert(val_ok(host.objs().take(k), s[0]) && val_ok(host.objs().take(k), s[1]));
}

/// The making of a contract that a value with code and salt describes is the making of that
/// contract by the running one.
pub proof fn law_described_creation(
    host: Host,
    deployer: ScAddress,
    v: Val,
    executable: Val,
    hash: Val,
    salt: Val,
    hash_bytes: Seq<u8>,
    salt_bytes: Seq<u8>,
)
    requires
        host.wf(),
        val_ok(host.objs(), v),
        is_record(host.objs(), v, seq!["executable".spec_bytes(), "salt".spec_bytes()], seq![executable, salt]),
        is_variant(host.objs(), executable, "Wasm".spec_bytes(), hash),
        is_bytes(host.objs(), hash, hash_bytes),
        is_bytes(host.objs(), salt, salt_bytes),
        hash_bytes.len() == 32,
        salt_bytes.len() == 32,
    ensures
        creation_of(host.objs(), deployer, v) == Some(
            FunctionModel::CreateContract(deployer, hash_of_bytes(salt_bytes).0, hash_of_bytes(hash_bytes)),
        ),
{
    let names = seq!["executable".spec_bytes(), "salt".spec_bytes()];
    let values = seq![executable, salt];
    lemma_record(host, v, names, values);
    assert(val_ok(host.objs(), values[0]) && val_ok(host.objs(), values[1]));
    lemma_variant(host, executable, "Wasm".spec_bytes(), hash);
}

/// What an entry of calls agrees to is first its call and then, in their order, what its own
/// entries agree to; an entry of the making of a contract agrees to just that.
pub proof fn law_described_entry(
    host: Host,
    deployer: ScAddress,
    v: Val,
    content: Val,
    call: Val,
    subs: Val,
    levels: nat,
)
    requires
        host.wf(),
        val_ok(host.objs(), v),
        levels > 0,
    ensures
        is_variant(host.objs(), v, "Contract".spec_bytes(), content) && is_record(
            host.objs(),
            content,
            seq!["context".spec_bytes(), "sub_invocations".spec_bytes()],
            seq![call, subs],
        ) && call_of(host.objs(), call) is Some && subs is Object && subs->Object_0.tag == ObjectTag::VecObject ==> {
            let list = object_of(host.objs(), subs)->Vector_0;
            let more = entries_of(host.objs(), deployer, list, list.len(), (levels - 1) as nat);
            let all = entry_of(host.objs(), deployer, v, levels);
            &&& all is Some <==> more is Some
            &&& all is Some ==> all->Some_0.len() == more->Some_0.len() + 1 && all->Some_0[0] == call_of(
                host.objs(),
                call,
            )->Some_0 && forall|i: int| 0 <= i < more->Some_0.len() ==> all->Some_0[i + 1] == #[trigger] more->Some_0[i]
        },
        is_variant(host.objs(), v, "CreateContractHostFn".spec_bytes(), content) && creation_of(
            host.objs(),
            deployer,
            content,
        ) is Some ==> entry_of(host.objs(), deployer, v, levels) == Some(
            seq![creation_of(host.objs(), deployer, content)->Some_0],
        ),
{
    if is_variant(host.objs(), v, "Contract".spec_bytes(), content) {
        lemma_variant(host, v, "Contract".spec_bytes(), content);
        let names = seq!["context".spec_bytes(), "sub_invocations".spec_bytes()];
        let values = seq![call, subs];
        if is_record(host.objs(), content, names, values) {
            lemma_record(host, content, names, values);
            assert(val_ok(host.objs(), values[1]));
        }
    }
    if is_variant(host.objs(), v, "CreateContractHostFn".spec_bytes(), content) {
        lemma_variant(host, v, "CreateContractHostFn".spec_bytes(), content);
        lemma_entry_names();
    }
}

proof fn lemma_entry_names()
    ensures
        "Contract".spec_bytes() != "CreateContractHostFn".spec_bytes(),
{
    reveal_strlit("Contract");
    reveal_strlit("CreateContractHostFn");
    vstd::utf8::encode_utf8_decode_utf8("Contract"@);
    vstd::utf8::encode_utf8_decode_utf8("CreateContractHostFn"@);
    assert("Contract"@.len() != "CreateContractHostFn"@.len());
}

/// What a list of entries agrees to is what its entries agree to, one after the other.
pub proof fn law_described_entries(
    objs: Seq<ObjModel>,
    deployer: ScAddress,
    s: Seq<Val>,
    n: nat,
    levels: nat,
)
    requires
        n > 0,
    ensures
        entries_of(objs, deployer, s, 0, levels) == Some(Seq::<FunctionModel>::empty()),
        ({
            let (before, one) = (
                entries_of(objs, deployer, s, (n - 1) as nat, levels),
                entry_of(objs, deployer, s[n - 1], levels),
            );
            let all = entries_of(objs, deployer, s, n, levels);
            &&& all is Some <==> before is Some && one is Some
            &&& all is Some ==> all->Some_0.len() == before->Some_0.len() + one->Some_0.len() && (forall|i: int|
                0 <= i < before->Some_0.len() ==> #[trigger] all->Some_0[i] == before->Some_0[i]) && (forall|i: int|
                0 <= i < one->Some_0.len() ==> all->Some_0[before->Some_0.len() + i] == #[trigger] one->Some_0[i])
        }),
{
}

} // verus!
