//! What addresses have agreed to, and the checks that they have.

use crate::bignum::U256;
use crate::error::{Fault, HostError, ScErrorCode, ScErrorType};
use crate::host::{
    charge_bulk, fails, invocations_ok, runs_out, AuthorizationManager, AuthorizationMode, AuthorizedFunction,
    AuthorizedInvocation, Frame, Host, DEFAULT_HOST_DEPTH_LIMIT, VAL_SIZE,
};
use crate::host_convert::{lemma_tree_vals, sets_objs, tree_vals};
use crate::host_frame::no_frame;
use crate::host_map::depth_fault;
use crate::host_object::{gives_up, looks_at};
use crate::host_symbol::{lemma_symbol_text, symbol_text};
use crate::model::{deep_seq, extends, lemma_vals_ok_extends, seq_levels, val_ok, vals_ok, Hash32, ObjModel, ScAddress};
use crate::scval::ScVal;
use crate::symbol::small_symbol_to_bytes;
use crate::util::{bytes_eq, copy_bytes, copy_vals};
use crate::val::{AddressObject, ObjectTag, Symbol, Val, VecObject};
use vstd::prelude::*;

verus! {

/// What an address can agree to.
pub enum FunctionModel {
    ContractFn(Hash32, Seq<u8>, Seq<Val>),
    CreateContract(ScAddress, U256, Hash32),
}

impl View for AuthorizedFunction {
    type V = FunctionModel;

    open spec fn view(&self) -> FunctionModel {
        match self {
            AuthorizedFunction::ContractFn { contract_id, function_name, args } => FunctionModel::ContractFn(
                *contract_id,
                function_name@,
                args@,
            ),
            AuthorizedFunction::CreateContract { deployer, salt, wasm_hash } => FunctionModel::CreateContract(
                *deployer,
                *salt,
                *wasm_hash,
            ),
        }
    }
}

/// Who signs for an agreement: the account that pays for the transaction, or an
/// address of its own.
#[derive(Clone, Copy, PartialEq, Eq, Structural, Debug)]
pub enum Credentials {
    SourceAccount,
    Address(ScAddress),
}

/// What is agreed to, as it comes with a transaction.
pub enum AuthorizedFunctionEntry {
    ContractFn { contract_id: Hash32, function_name: Vec<u8>, args: Vec<ScVal> },
    CreateContract { deployer: ScAddress, salt: U256, wasm_hash: Hash32 },
}

/// An agreement, as it comes with a transaction.
///
/// An agreement of an address of its own carries no signature here. Whoever makes
/// one has checked the signature, that its nonce was not used before and that it
/// has not expired.
pub struct AuthorizationEntry {
    pub credentials: Credentials,
    pub function: AuthorizedFunctionEntry,
}

/// The fault of something that was not agreed to.
pub open spec fn auth_fault() -> Fault {
    (ScErrorType::Auth, ScErrorCode::InvalidAction)
}

/// Whether two things that can be agreed to are the same: the arguments of calls
/// are compared by what they denote.
pub open spec fn same_function(objs: Seq<ObjModel>, f: FunctionModel, g: FunctionModel) -> Result<bool, Fault> {
    match (f, g) {
        (FunctionModel::ContractFn(c1, n1, a1), FunctionModel::ContractFn(c2, n2, a2)) => if c1 != c2 || n1 != n2 {
            Ok(false)
        } else if seq_levels(deep_seq(objs, a1), deep_seq(objs, a2), 0) > DEFAULT_HOST_DEPTH_LIMIT {
            Err(depth_fault())
        } else {
            Ok(deep_seq(objs, a1) == deep_seq(objs, a2))
        },
        (FunctionModel::CreateContract(d1, s1, w1), FunctionModel::CreateContract(d2, s2, w2)) => Ok(
            d1 == d2 && s1 == s2 && w1 == w2,
        ),
        _ => Ok(false),
    }
}

/// The first agreement from position `i` on that covers something and is not
/// used up, or the fault of a comparison on the way there.
pub open spec fn find_agreement(
    objs: Seq<ObjModel>,
    s: Seq<AuthorizedInvocation>,
    address: ScAddress,
    f: FunctionModel,
    i: nat,
) -> Result<Option<nat>, Fault>
    decreases s.len() - i,
{
    if i >= s.len() {
        Ok(None)
    } else if s[i as int].is_exhausted || s[i as int].address != address {
        find_agreement(objs, s, address, f, i + 1)
    } else {
        match same_function(objs, s[i as int].function@, f) {
            Err(e) => Err(e),
            Ok(true) => Ok(Some(i)),
            Ok(false) => find_agreement(objs, s, address, f, i + 1),
        }
    }
}

/// Only the agreements have changed.
pub open spec fn sets_invocations(pre: Host, post: Host) -> bool {
    &&& post.wf()
    &&& post == (Host { authorization_manager: post.authorization_manager, ..pre })
    &&& post.authorization_manager.mode == pre.authorization_manager.mode
}

/// An agreement is used up.
pub open spec fn uses_up(pre: Host, post: Host, i: int) -> bool {
    let before = pre.authorization_manager.invocations@;
    let after = post.authorization_manager.invocations@;
    &&& sets_invocations(pre, post)
    &&& 0 <= i < before.len()
    &&& after == before.update(i, after[i])
    &&& after[i] == (AuthorizedInvocation { is_exhausted: true, ..before[i] })
}

/// It is noted that an address was asked.
pub open spec fn notes(pre: Host, post: Host, address: ScAddress, f: FunctionModel) -> bool {
    let before = pre.authorization_manager.invocations@;
    let after = post.authorization_manager.invocations@;
    &&& sets_invocations(pre, post)
    &&& after.len() == before.len() + 1
    &&& after.drop_last() == before
    &&& after.last().address == address
    &&& after.last().function@ == f
    &&& after.last().is_exhausted
}

/// An address is asked whether it agrees. A contract agrees to what it does
/// itself. Anything else needs an agreement, which is used up by it; or it is
/// noted, where agreements are still to be collected.
pub open spec fn asks(
    pre: Host,
    post: Host,
    address: ScAddress,
    f: FunctionModel,
    actor: Option<Hash32>,
    res: Result<(), HostError>,
) -> bool {
    if actor is Some && address == ScAddress::Contract(actor->Some_0) {
        post == pre && res == Ok::<(), HostError>(())
    } else {
        match pre.authorization_manager.mode {
            AuthorizationMode::Recording { disable_non_root_auth } => if disable_non_root_auth && pre.context@.len()
                > 1 {
                fails(pre, post, res, auth_fault())
            } else {
                notes(pre, post, address, f) && res == Ok::<(), HostError>(())
            },
            AuthorizationMode::Enforcing => match find_agreement(
                pre.objs(),
                pre.authorization_manager.invocations@,
                address,
                f,
                0,
            ) {
                Err(e) => fails(pre, post, res, e),
                Ok(None) => fails(pre, post, res, auth_fault()),
                Ok(Some(i)) => uses_up(pre, post, i as int) && res == Ok::<(), HostError>(()),
            },
        }
    }
}

/// The contract that called the running one.
pub open spec fn invoker(host: Host) -> Option<Hash32> {
    let n = host.context@.len();
    if n < 2 {
        None
    } else {
        match host.context@[n - 2].frame.contract_call() {
            Some((id, _, _)) => Some(id),
            None => None,
        }
    }
}

/// The running call, or the fault that there is none.
pub open spec fn running_call(host: Host) -> Result<(Hash32, Symbol, Seq<Val>), Fault> {
    if host.context@.len() == 0 {
        Err(no_frame())
    } else {
        match host.context@.last().frame.contract_call() {
            Some(call) => Ok(call),
            None => Err((ScErrorType::Context, ScErrorCode::InternalError)),
        }
    }
}

/// An address is asked whether it agrees to the running call, with the given
/// arguments.
pub open spec fn asks_for_call(
    pre: Host,
    post: Host,
    address: AddressObject,
    args: Seq<Val>,
    res: Result<(), HostError>,
) -> bool {
    match running_call(pre) {
        Err(f) => fails(pre, post, res, f),
        Ok((id, fn_name, _)) => match looks_at(pre, address.handle, ObjectTag::AddressObject) {
            (h, Err(e)) => gives_up(h, post, res, e),
            (h, Ok(obj)) => asks(
                h,
                post,
                obj->Address_0,
                FunctionModel::ContractFn(id, symbol_text(pre.objs(), fn_name)->Ok_0, args),
                invoker(pre),
                res,
            ),
        },
    }
}

/// An address is asked whether it agrees to the running call, with its arguments.
/// Copying them is charged for.
pub open spec fn requires_auth(pre: Host, post: Host, address: AddressObject, res: Result<(), HostError>) -> bool {
    match running_call(pre) {
        Err(f) => fails(pre, post, res, f),
        Ok((_, _, args)) => {
            let copied = charge_bulk(pre, args.len() as int, VAL_SIZE as int);
            if copied.1 is Err {
                runs_out(copied, post, res)
            } else {
                asks_for_call(copied.0, post, address, args, res)
            }
        },
    }
}

/// An address is asked whether it agrees to the running call, with the arguments in
/// a vector. Looking it up and copying it are charged for.
pub open spec fn requires_auth_for_args(
    pre: Host,
    post: Host,
    address: AddressObject,
    args: VecObject,
    res: Result<(), HostError>,
) -> bool {
    match looks_at(pre, args.handle, ObjectTag::VecObject) {
        (h, Err(e)) => gives_up(h, post, res, e),
        (h, Ok(obj)) => {
            let copied = charge_bulk(h, obj->Vector_0.len() as int, VAL_SIZE as int);
            if copied.1 is Err {
                runs_out(copied, post, res)
            } else {
                asks_for_call(copied.0, post, address, obj->Vector_0, res)
            }
        },
    }
}

/// All agreements are replaced by given ones.
pub open spec fn sets_agreements(
    pre: Host,
    post: Host,
    entries: Seq<AuthorizationEntry>,
    res: Result<(), HostError>,
) -> bool {
    &&& post.objs() == agreements(pre, entries, entries.len()).0
    &&& match agreements(pre, entries, entries.len()).1 {
        Err(f) => {
            &&& post == (Host { objects: post.objects, ..pre })
            &&& res == Err::<(), HostError>(pre.spec_err(f))
        },
        Ok(list) => {
            &&& post == (Host {
                objects: post.objects,
                authorization_manager: post.authorization_manager,
                ..pre
            })
            &&& post.authorization_manager.mode == AuthorizationMode::Enforcing
            &&& are_fresh_agreements(post.authorization_manager.invocations@, list)
            &&& res == Ok::<(), HostError>(())
        },
    }
}

/// Who signs for an agreement, if that is known.
pub open spec fn signer(host: Host, c: Credentials) -> Result<ScAddress, Fault> {
    match c {
        Credentials::Address(a) => Ok(a),
        Credentials::SourceAccount => match host.source_account {
            Some(account) => Ok(ScAddress::Account(account)),
            None => Err((ScErrorType::Auth, ScErrorCode::InternalError)),
        },
    }
}

/// What is agreed to, with its arguments made into values.
pub open spec fn function_of_entry(objs: Seq<ObjModel>, f: AuthorizedFunctionEntry) -> (
    Seq<ObjModel>,
    Result<FunctionModel, Fault>,
) {
    match f {
        AuthorizedFunctionEntry::ContractFn { contract_id, function_name, args } => {
            let out = tree_vals(objs, args@, args@.len(), DEFAULT_HOST_DEPTH_LIMIT as nat);
            (
                out.0,
                match out.1 {
                    Ok(vals) => Ok(FunctionModel::ContractFn(contract_id, function_name@, vals)),
                    Err(f) => Err(f),
                },
            )
        },
        AuthorizedFunctionEntry::CreateContract { deployer, salt, wasm_hash } => (
            objs,
            Ok(FunctionModel::CreateContract(deployer, salt, wasm_hash)),
        ),
    }
}

/// The first `n` of a list of agreements, with their arguments made into values
/// in turn.
pub open spec fn agreements(host: Host, s: Seq<AuthorizationEntry>, n: nat) -> (
    Seq<ObjModel>,
    Result<Seq<(ScAddress, FunctionModel)>, Fault>,
)
    decreases n,
{
    if n == 0 {
        (host.objs(), Ok(Seq::empty()))
    } else {
        let before = agreements(host, s, (n - 1) as nat);
        match (before.1, signer(host, s[n - 1].credentials)) {
            (Err(_), _) => before,
            (Ok(_), Err(f)) => (before.0, Err(f)),
            (Ok(list), Ok(address)) => {
                let out = function_of_entry(before.0, s[n - 1].function);
                match out.1 {
                    Err(f) => (out.0, Err(f)),
                    Ok(f) => (out.0, Ok(list.push((address, f)))),
                }
            },
        }
    }
}

/// Whether a list of agreements is the given one, with none used up yet.
pub open spec fn are_fresh_agreements(s: Seq<AuthorizedInvocation>, list: Seq<(ScAddress, FunctionModel)>) -> bool {
    &&& s.len() == list.len()
    &&& forall|i: int|
        0 <= i < s.len() ==> {
            &&& (#[trigger] s[i]).address == list[i].0
            &&& s[i].function@ == list[i].1
            &&& !s[i].is_exhausted
        }
}

proof fn lemma_agreements_failure(host: Host, s: Seq<AuthorizationEntry>, n: nat, end: nat)
    requires
        n <= end,
        agreements(host, s, n).1 is Err,
    ensures
        agreements(host, s, end) == agreements(host, s, n),
    decreases end,
{
    if n < end {
        lemma_agreements_failure(host, s, n, (end - 1) as nat);
    }
}

/// What nobody agreed to is refused, and changes nothing: with no agreement left
/// that names the address, the answer is that the action is invalid, except to
/// the contract that acts itself.
pub proof fn law_no_agreement_is_refused(
    pre: Host,
    post: Host,
    address: ScAddress,
    f: FunctionModel,
    actor: Option<Hash32>,
    res: Result<(), HostError>,
)
    requires
        pre.authorization_manager.mode == AuthorizationMode::Enforcing,
        forall|i: int|
            0 <= i < pre.authorization_manager.invocations@.len() ==> (
            #[trigger] pre.authorization_manager.invocations@[i]).is_exhausted
                || pre.authorization_manager.invocations@[i].address != address,
        actor is None || address != ScAddress::Contract(actor->Some_0),
        asks(pre, post, address, f, actor, res),
    ensures
        post == pre,
        res == Err::<(), HostError>(pre.spec_err(auth_fault())),
{
    lemma_no_agreement(pre.objs(), pre.authorization_manager.invocations@, address, f, 0);
}

proof fn lemma_no_agreement(
    objs: Seq<ObjModel>,
    s: Seq<AuthorizedInvocation>,
    address: ScAddress,
    f: FunctionModel,
    i: nat,
)
    requires
        forall|i: int| 0 <= i < s.len() ==> (#[trigger] s[i]).is_exhausted || s[i].address != address,
    ensures
        find_agreement(objs, s, address, f, i) == Ok::<Option<nat>, Fault>(None),
    decreases s.len() - i,
{
    if i < s.len() {
        let here = s[i as int];
        lemma_no_agreement(objs, s, address, f, i + 1);
    }
}

/// An agreement that was used up covers the thing that it was used for, was
/// there, and is of no use again.
pub proof fn law_agreement_is_used_once(
    pre: Host,
    post: Host,
    address: ScAddress,
    f: FunctionModel,
    actor: Option<Hash32>,
)
    requires
        pre.authorization_manager.mode == AuthorizationMode::Enforcing,
        actor is None || address != ScAddress::Contract(actor->Some_0),
        asks(pre, post, address, f, actor, Ok(())),
    ensures
        exists|i: int|
            {
                &&& 0 <= i < pre.authorization_manager.invocations@.len()
                &&& !(#[trigger] pre.authorization_manager.invocations@[i]).is_exhausted
                &&& pre.authorization_manager.invocations@[i].address == address
                &&& same_function(pre.objs(), pre.authorization_manager.invocations@[i].function@, f) == Ok::<
                    bool,
                    Fault,
                >(true)
                &&& post.authorization_manager.invocations@[i].is_exhausted
            },
{
    lemma_found_agreement(pre.objs(), pre.authorization_manager.invocations@, address, f, 0);
    let i = find_agreement(pre.objs(), pre.authorization_manager.invocations@, address, f, 0)->Ok_0->Some_0;
    let here = pre.authorization_manager.invocations@[i as int];
}

proof fn lemma_found_agreement(
    objs: Seq<ObjModel>,
    s: Seq<AuthorizedInvocation>,
    address: ScAddress,
    f: FunctionModel,
    i: nat,
)
    ensures
        find_agreement(objs, s, address, f, i) matches Ok(Some(k)) ==> {
            &&& k < s.len()
            &&& !s[k as int].is_exhausted
            &&& s[k as int].address == address
            &&& same_function(objs, s[k as int].function@, f) == Ok::<bool, Fault>(true)
        },
    decreases s.len() - i,
{
    if i < s.len() {
        lemma_found_agreement(objs, s, address, f, i + 1);
    }
}

impl Host {
    fn is_same_function(&self, f: &AuthorizedFunction, g: &AuthorizedFunction) -> (res: Result<bool, HostError>)
        requires
            self.wf(),
            f.ok(self.objs()),
            g.ok(self.objs()),
        ensures
            res == match same_function(self.objs(), f@, g@) {
                Ok(b) => Ok::<bool, HostError>(b),
                Err(e) => Err(self.spec_err(e)),
            },
    {
        match (f, g) {
            (
                AuthorizedFunction::ContractFn { contract_id: c1, function_name: n1, args: a1 },
                AuthorizedFunction::ContractFn { contract_id: c2, function_name: n2, args: a2 },
            ) => {
                if *c1 != *c2 || !bytes_eq(n1.as_slice(), n2.as_slice()) {
                    return Ok(false);
                }
                let order: i64 = self.order_lists(a1.as_slice(), a2.as_slice(), DEFAULT_HOST_DEPTH_LIMIT)?;
                proof {
                    let (x, y) = (deep_seq(self.objs(), a1@), deep_seq(self.objs(), a2@));
                    crate::model::law_order_zero(
                        crate::model::Deep::Vector(x),
                        crate::model::Deep::Vector(y),
                    );
                }
                Ok(order == 0)
            },
            (
                AuthorizedFunction::CreateContract { deployer: d1, salt: s1, wasm_hash: w1 },
                AuthorizedFunction::CreateContract { deployer: d2, salt: s2, wasm_hash: w2 },
            ) => Ok(*d1 == *d2 && *s1 == *s2 && *w1 == *w2),
            _ => Ok(false),
        }
    }

    fn find_agreement_for(&self, address: ScAddress, f: &AuthorizedFunction) -> (res: Result<Option<usize>, HostError>)
        requires
            self.wf(),
            f.ok(self.objs()),
        ensures
            match (
                res,
                find_agreement(self.objs(), self.authorization_manager.invocations@, address, f@, 0),
            ) {
                (Ok(Some(i)), Ok(Some(j))) => i == j && i < self.authorization_manager.invocations@.len(),
                (Ok(None), Ok(None)) => true,
                (Err(e), Err(g)) => e == self.spec_err(g),
                _ => false,
            },
    {
        let ghost s = self.authorization_manager.invocations@;
        let mut i: usize = 0;
        while i < self.authorization_manager.invocations.len()
            invariant
                self.wf(),
                f.ok(self.objs()),
                s == self.authorization_manager.invocations@,
                i <= s.len(),
                find_agreement(self.objs(), s, address, f@, 0) == find_agreement(
                    self.objs(),
                    s,
                    address,
                    f@,
                    i as nat,
                ),
            decreases s.len() - i,
        {
            let inv = &self.authorization_manager.invocations[i];
            assert(s[i as int].function.ok(self.objs()));
            if !inv.is_exhausted && inv.address == address {
                if self.is_same_function(&inv.function, f)? {
                    return Ok(Some(i));
                }
            }
            i += 1;
        }
        Ok(None)
    }

    /// Asks an address whether it agrees to something.
    pub(crate) fn ask(&mut self, address: ScAddress, f: AuthorizedFunction, actor: Option<Hash32>) -> (res: Result<
        (),
        HostError,
    >)
        requires
            old(self).wf(),
            f.ok(old(self).objs()),
        ensures
            final(self).wf(),
            asks(*old(self), *final(self), address, f@, actor, res),
    {
        if let Some(id) = actor {
            if address == ScAddress::Contract(id) {
                return Ok(());
            }
        }
        let ghost pre = *self;
        match self.authorization_manager.mode {
            AuthorizationMode::Recording { disable_non_root_auth } => {
                if disable_non_root_auth && self.context.len() > 1 {
                    return Err(self.err(ScErrorType::Auth, ScErrorCode::InvalidAction));
                }
                self.authorization_manager.invocations.push(
                    AuthorizedInvocation { address, function: f, is_exhausted: true },
                );
                proof {
                    let after = self.authorization_manager.invocations@;
                    assert(after.drop_last() =~= pre.authorization_manager.invocations@);
                    assert forall|i: int| 0 <= i < after.len() implies (#[trigger] after[i]).function.ok(
                        self.objs(),
                    ) by {
                        if i < after.len() - 1 {
                            assert(pre.authorization_manager.invocations@[i].function.ok(pre.objs()));
                        }
                    }
                }
                Ok(())
            },
            AuthorizationMode::Enforcing => {
                match self.find_agreement_for(address, &f)? {
                    Some(i) => {
                        self.authorization_manager.invocations[i].is_exhausted = true;
                        proof {
                            let after = self.authorization_manager.invocations@;
                            assert(after =~= pre.authorization_manager.invocations@.update(i as int, after[i as int]));
                            assert forall|i: int| 0 <= i < after.len() implies (#[trigger] after[i]).function.ok(
                                self.objs(),
                            ) by {
                                assert(pre.authorization_manager.invocations@[i].function.ok(pre.objs()));
                            }
                        }
                        Ok(())
                    },
                    None => Err(self.err(ScErrorType::Auth, ScErrorCode::InvalidAction)),
                }
            },
        }
    }

    /// The characters of a symbol.
    pub(crate) fn symbol_bytes(&self, sym: Symbol) -> (res: Result<Vec<u8>, HostError>)
        requires
            self.wf(),
        ensures
            match res {
                Ok(s) => symbol_text(self.objs(), sym) == Ok::<Seq<u8>, Fault>(s@),
                Err(e) => symbol_text(self.objs(), sym) matches Err(f) && e == self.spec_err(f),
            },
    {
        match sym {
            Symbol::Small(body) => Ok(small_symbol_to_bytes(body)),
            Symbol::Object(o) => Ok(copy_bytes(self.visit_symbol(o)?.as_slice())),
        }
    }

    /// The running call.
    fn current_call(&self) -> (res: Result<(Hash32, Symbol, Vec<Val>), HostError>)
        requires
            self.wf(),
        ensures
            match res {
                Ok((id, fn_name, args)) => {
                    &&& running_call(*self) == Ok::<(Hash32, Symbol, Seq<Val>), Fault>((id, fn_name, args@))
                    &&& val_ok(self.objs(), fn_name.to_val())
                    &&& vals_ok(self.objs(), args@)
                },
                Err(e) => running_call(*self) matches Err(f) && e == self.spec_err(f),
            },
    {
        let frame = self.current_frame()?;
        proof {
            assert(self.context@[self.context@.len() - 1].ok(self.objs()));
        }
        match frame {
            Frame::ContractVM { contract_id, fn_name, args } => Ok((*contract_id, *fn_name, copy_vals(args.as_slice()))),
            Frame::HostFunction => Err(self.err(ScErrorType::Context, ScErrorCode::InternalError)),
            Frame::Token { contract_id, fn_name, args } => Ok((*contract_id, *fn_name, copy_vals(args.as_slice()))),
            Frame::TestContract { contract_id, fn_name, args, .. } => Ok(
                (*contract_id, *fn_name, copy_vals(args.as_slice())),
            ),
        }
    }

    /// The contract that called the running one.
    pub(crate) fn invoker_contract(&self) -> (id: Option<Hash32>)
        ensures
            id == invoker(*self),
    {
        let n: usize = self.context.len();
        if n < 2 {
            return None;
        }
        match &self.context[n - 2].frame {
            Frame::ContractVM { contract_id, .. } => Some(*contract_id),
            Frame::Token { contract_id, .. } => Some(*contract_id),
            Frame::TestContract { contract_id, .. } => Some(*contract_id),
            Frame::HostFunction => None,
        }
    }

    fn ask_for_call(&mut self, address: AddressObject, args: Vec<Val>) -> (res: Result<(), HostError>)
        requires
            old(self).wf(),
            vals_ok(old(self).objs(), args@),
        ensures
            final(self).wf(),
            asks_for_call(*old(self), *final(self), address, args@, res),
    {
        let (contract_id, fn_name, _) = self.current_call()?;
        proof {
            lemma_symbol_text(self.objs(), fn_name);
        }
        self.charge_visit()?;
        let address = self.visit_address(address)?;
        let function_name = self.symbol_bytes(fn_name)?;
        let actor = self.invoker_contract();
        self.ask(address, AuthorizedFunction::ContractFn { contract_id, function_name, args }, actor)
    }

    /// Asks an address whether it agrees to the running call, with other
    /// arguments. Copying the arguments is charged for.
    pub fn require_auth_for_args(&mut self, address: AddressObject, args: VecObject) -> (res: Result<(), HostError>)
        requires
            old(self).wf(),
        ensures
            final(self).wf(),
            requires_auth_for_args(*old(self), *final(self), address, args, res),
    {
        self.charge_visit()?;
        let args = self.call_args_from_obj(args)?;
        self.charge_bulk_init_cpy(args.len() as u64, VAL_SIZE)?;
        self.ask_for_call(address, args)
    }

    /// Asks an address whether it agrees to the running call. Copying the arguments
    /// of the call is charged for.
    pub fn require_auth(&mut self, address: AddressObject) -> (res: Result<(), HostError>)
        requires
            old(self).wf(),
        ensures
            final(self).wf(),
            requires_auth(*old(self), *final(self), address, res),
    {
        let (_, _, args) = self.current_call()?;
        self.charge_bulk_init_cpy(args.len() as u64, VAL_SIZE)?;
        self.ask_for_call(address, args)
    }

    /// Asks an address whether it agrees to the running call, the address being
    /// known.
    pub(crate) fn require_auth_of(&mut self, address: ScAddress) -> (res: Result<(), HostError>)
        requires
            old(self).wf(),
        ensures
            final(self).wf(),
            asks_of(*old(self), *final(self), address, res),
    {
        let (contract_id, fn_name, args) = self.current_call()?;
        proof {
            lemma_symbol_text(self.objs(), fn_name);
        }
        let function_name = self.symbol_bytes(fn_name)?;
        let actor = self.invoker_contract();
        self.ask(address, AuthorizedFunction::ContractFn { contract_id, function_name, args }, actor)
    }

    fn function_from_entry(&mut self, f: &AuthorizedFunctionEntry) -> (res: Result<AuthorizedFunction, HostError>)
        requires
            old(self).wf(),
        ensures
            final(self).wf(),
            extends(old(self).objs(), final(self).objs()),
            ({
                let out = function_of_entry(old(self).objs(), *f);
                &&& sets_objs(*old(self), *final(self), out.0)
                &&& match res {
                    Ok(g) => out.1 == Ok::<FunctionModel, Fault>(g@) && g.ok(final(self).objs()),
                    Err(e) => out.1 matches Err(f) && e == old(self).spec_err(f),
                }
            }),
    {
        match f {
            AuthorizedFunctionEntry::ContractFn { contract_id, function_name, args } => {
                proof {
                    lemma_tree_vals(self.objs(), args@, args@.len(), DEFAULT_HOST_DEPTH_LIMIT as nat);
                }
                let vals = self.list_to_vals(args, DEFAULT_HOST_DEPTH_LIMIT)?;
                Ok(
                    AuthorizedFunction::ContractFn {
                        contract_id: *contract_id,
                        function_name: copy_bytes(function_name.as_slice()),
                        args: vals,
                    },
                )
            },
            AuthorizedFunctionEntry::CreateContract { deployer, salt, wasm_hash } => Ok(
                AuthorizedFunction::CreateContract { deployer: *deployer, salt: *salt, wasm_hash: *wasm_hash },
            ),
        }
    }

    /// Replaces all agreements by those that come with a transaction. They are
    /// taken as they are: the caller has checked signatures, nonces and expirations.
    pub fn set_authorization_entries(&mut self, auth_entries: Vec<AuthorizationEntry>) -> (res: Result<(), HostError>)
        requires
            old(self).wf(),
        ensures
            final(self).wf(),
            sets_agreements(*old(self), *final(self), auth_entries@, res),
    {
        let ghost pre = *self;
        let ghost s = auth_entries@;
        let ghost mut list: Seq<(ScAddress, FunctionModel)> = Seq::empty();
        let mut invocations: Vec<AuthorizedInvocation> = Vec::new();
        let mut i: usize = 0;
        while i < auth_entries.len()
            invariant
                self.wf(),
                pre == *old(self),
                s == auth_entries@,
                i <= s.len(),
                *self == (Host { objects: self.objects, ..pre }),
                agreements(pre, s, i as nat) == (self.objs(), Ok::<Seq<(ScAddress, FunctionModel)>, Fault>(list)),
                are_fresh_agreements(invocations@, list),
                invocations_ok(self.objs(), invocations@),
            decreases s.len() - i,
        {
            let entry = &auth_entries[i];
            let address = match entry.credentials {
                Credentials::Address(a) => a,
                Credentials::SourceAccount => match self.source_account {
                    Some(account) => ScAddress::Account(account),
                    None => {
                        proof {
                            lemma_agreements_failure(pre, s, (i + 1) as nat, s.len());
                        }
                        return Err(self.err(ScErrorType::Auth, ScErrorCode::InternalError));
                    },
                },
            };
            let ghost mid = *self;
            match self.function_from_entry(&entry.function) {
                Ok(function) => {
                    proof {
                        list = list.push((address, function@));
                        assert forall|j: int| 0 <= j < invocations@.len() implies (
                        #[trigger] invocations@[j]).function.ok(self.objs()) by {
                            assert(invocations@[j].function.ok(mid.objs()));
                            if let AuthorizedFunction::ContractFn { args, .. } = invocations@[j].function {
                                lemma_vals_ok_extends(mid.objs(), self.objs(), args@);
                            }
                        }
                    }
                    invocations.push(AuthorizedInvocation { address, function, is_exhausted: false });
                },
                Err(e) => {
                    proof {
                        lemma_agreements_failure(pre, s, (i + 1) as nat, s.len());
                    }
                    return Err(e);
                },
            }
            i += 1;
        }
        self.authorization_manager = AuthorizationManager { mode: AuthorizationMode::Enforcing, invocations };
        Ok(())
    }
}

/// A known address is asked whether it agrees to the running call.
pub open spec fn asks_of(pre: Host, post: Host, address: ScAddress, res: Result<(), HostError>) -> bool {
    match running_call(pre) {
        Err(f) => fails(pre, post, res, f),
        Ok((id, fn_name, args)) => asks(
            pre,
            post,
            address,
            FunctionModel::ContractFn(id, symbol_text(pre.objs(), fn_name)->Ok_0, args),
            invoker(pre),
            res,
        ),
    }
}

} // verus!
