//! The token contract.

use super::admin::{administrator, read_administrator, with_administrator, write_administrator};
use super::allowance::{
    live_allowance, read_allowance, spend_allowance, spent_allowance, with_allowance, write_allowance,
};
use super::asset_info::{asset_info, has_asset_info, read_asset_info, with_asset_info, write_asset_info};
use super::balance::{
    authorized, balance_amount, check_clawbackable, clawbackable, get_spendable_balance, is_authorized, read_balance,
    receive_balance, received, spend_balance, spend_balance_no_authorization_check, spent, taken,
    with_authorization, write_authorization,
};
use super::event::report;
use super::instance::{
    raise, token_error, token_instance, Entries, INSTANCE_BUMP_AMOUNT, INSTANCE_LIFETIME_THRESHOLD,
};
use super::metadata::{metadata, read_metadata, set_metadata, with_metadata, DECIMAL};
use crate::bignum::{be_bytes, u256_from_be_bytes, u256_to_be_bytes};
use crate::error::{bare, bare_error, ContractError, HostError, ScErrorCode, ScErrorType};
use crate::host::{fails, Event, Host, Setting, TokenEvent};
use crate::host_auth::asks_of;
use crate::host_contract::{
    asset_contract_id, bump_instance_and_code, hash_of_bytes, lemma_u256_of_int, reads_asset,
};
use crate::host_frame::current_contract;
use crate::host_ledger::sets_storage;
use crate::host_object::{bytes_handle, gives_up, stores_blob, stores_copy, string_handle};
use crate::model::{AccountId, BlobKind, Hash32, ScAddress};
use crate::storage::{AllowanceValue, AssetInfo, AssetModel};
use crate::val::{BytesObject, StringObject};
use crate::xdr::{asset_of_xdr, has_lengths, is_utf8, Asset, AssetBytes};
use vstd::prelude::*;
use vstd::utf8::valid_utf8;

verus! {

/// The ledger entries so far, and the error that ended it.
pub type Step = (Entries, Option<HostError>);

/// One more change, unless there was an error.
pub open spec fn then_do(s: Step, out: Result<Entries, HostError>) -> Step {
    match (s.1, out) {
        (Some(_), _) => s,
        (None, Err(e)) => (s.0, Some(e)),
        (None, Ok(m)) => (m, None),
    }
}

/// The running token contract is given more life.
pub open spec fn bump_step(host: Host, id: Hash32) -> Step {
    let out = bump_instance_and_code(host, id, INSTANCE_LIFETIME_THRESHOLD, INSTANCE_BUMP_AMOUNT);
    (
        out.0,
        match out.1 {
            None => None,
            Some(f) => Some(host.spec_err(f)),
        },
    )
}

/// What a token contract can be asked to do.
pub enum Action {
    Approve { from: ScAddress, spender: ScAddress, amount: i128, expiration_ledger: u32 },
    Transfer { from: ScAddress, to: ScAddress, amount: i128 },
    TransferFrom { spender: ScAddress, from: ScAddress, to: ScAddress, amount: i128 },
    Burn { from: ScAddress, amount: i128 },
    BurnFrom { spender: ScAddress, from: ScAddress, amount: i128 },
    Clawback { from: ScAddress, amount: i128 },
    SetAuthorized { addr: ScAddress, authorize: bool },
    Mint { to: ScAddress, amount: i128 },
    SetAdmin { new_admin: ScAddress },
}

/// The amount that an action is about, if it is about one.
pub open spec fn amount_of(action: Action) -> i128 {
    match action {
        Action::Approve { amount, .. } => amount,
        Action::Transfer { amount, .. } => amount,
        Action::TransferFrom { amount, .. } => amount,
        Action::Burn { amount, .. } => amount,
        Action::BurnFrom { amount, .. } => amount,
        Action::Clawback { amount, .. } => amount,
        Action::Mint { amount, .. } => amount,
        _ => 0,
    }
}

/// Whether an action is the administrator's.
pub open spec fn is_admin_action(action: Action) -> bool {
    action is Clawback || action is SetAuthorized || action is Mint || action is SetAdmin
}

/// Who has to agree to an action, or the error that comes before that is asked.
pub open spec fn guard(host: Host, action: Action) -> Result<ScAddress, HostError> {
    if amount_of(action) < 0 {
        Err(token_error(host.setting(), ContractError::NegativeAmountError))
    } else {
        match action {
            Action::Approve { from, .. } => Ok(from),
            Action::Transfer { from, .. } => Ok(from),
            Action::TransferFrom { spender, .. } => Ok(spender),
            _ => match current_contract(host) {
                Err(f) => Err(host.spec_err(f)),
                Ok(id) => match action {
                    Action::Burn { from, .. } => match non_native(host, id) {
                        Err(e) => Err(e),
                        Ok(_) => Ok(from),
                    },
                    Action::BurnFrom { spender, .. } => match non_native(host, id) {
                        Err(e) => Err(e),
                        Ok(_) => Ok(spender),
                    },
                    Action::Clawback { from, .. } => match clawbackable(host.setting(), host.storage@, id, from) {
                        Err(e) => Err(e),
                        Ok(_) => administrator(host.setting(), host.storage@, id),
                    },
                    _ => administrator(host.setting(), host.storage@, id),
                },
            },
        }
    }
}

/// Whether a token stands for an asset with an issuer, or the error that it does
/// not.
pub open spec fn non_native(host: Host, id: Hash32) -> Result<(), HostError> {
    match asset_info(host.setting(), host.storage@, id) {
        Err(e) => Err(e),
        Ok(a) => if a is Native {
            Err(token_error(host.setting(), ContractError::OperationNotSupportedError))
        } else {
            Ok(())
        },
    }
}

/// What an action does to the ledger entries.
pub open spec fn steps(host: Host, id: Hash32, action: Action) -> Step {
    let s = bump_step(host, id);
    match action {
        Action::Approve { from, spender, amount, expiration_ledger } => then_do(
            s,
            with_allowance(host.setting(), s.0, id, from, spender, AllowanceValue { amount, expiration_ledger }),
        ),
        Action::Transfer { from, to, amount } => moves(host.setting(), s, id, from, to, amount),
        Action::TransferFrom { spender, from, to, amount } => moves(
            host.setting(),
            then_do(s, spent_allowance(host.setting(), s.0, id, from, spender, amount)),
            id,
            from,
            to,
            amount,
        ),
        Action::Burn { from, amount } => then_do(s, spent(host.setting(), s.0, id, from, amount)),
        Action::BurnFrom { spender, from, amount } => {
            let t = then_do(s, spent_allowance(host.setting(), s.0, id, from, spender, amount));
            then_do(t, spent(host.setting(), t.0, id, from, amount))
        },
        Action::Clawback { from, amount } => then_do(s, taken(host.setting(), s.0, id, from, amount)),
        Action::SetAuthorized { addr, authorize } => then_do(
            s,
            with_authorization(host.setting(), s.0, id, addr, authorize),
        ),
        Action::Mint { to, amount } => then_do(s, received(host.setting(), s.0, id, to, amount)),
        Action::SetAdmin { new_admin } => then_do(s, with_administrator(host.setting(), s.0, id, new_admin)),
    }
}

/// An amount is taken from one holder and given to another.
pub open spec fn moves(w: Setting, s: Step, id: Hash32, from: ScAddress, to: ScAddress, amount: i128) -> Step {
    let t = then_do(s, spent(w, s.0, id, from, amount));
    then_do(t, received(w, t.0, id, to, amount))
}

/// What is reported of an action that an address agreed to.
pub open spec fn event_of(action: Action, who: ScAddress) -> TokenEvent {
    match action {
        Action::Approve { from, spender, amount, expiration_ledger } => TokenEvent::Approve {
            from,
            spender,
            amount,
            expiration_ledger,
        },
        Action::Transfer { from, to, amount } => TokenEvent::Transfer { from, to, amount },
        Action::TransferFrom { from, to, amount, .. } => TokenEvent::Transfer { from, to, amount },
        Action::Burn { from, amount } => TokenEvent::Burn { from, amount },
        Action::BurnFrom { from, amount, .. } => TokenEvent::Burn { from, amount },
        Action::Clawback { from, amount } => TokenEvent::Clawback { admin: who, from, amount },
        Action::SetAuthorized { addr, authorize } => TokenEvent::SetAuthorized { admin: who, id: addr, authorize },
        Action::Mint { to, amount } => TokenEvent::Mint { admin: who, to, amount },
        Action::SetAdmin { new_admin } => TokenEvent::SetAdmin { admin: who, new_admin },
    }
}

/// The contract that is running, where one is.
pub open spec fn running_id(host: Host) -> Hash32 {
    current_contract(host)->Ok_0
}

/// With its agreement at hand, an action is done and reported. What it did to the
/// ledger entries before an error stays.
pub open spec fn acts(
    pre: Host,
    post: Host,
    asked: Result<(), HostError>,
    action: Action,
    who: ScAddress,
    res: Result<(), HostError>,
) -> bool {
    match asked {
        Err(e) => post == pre && res == asked,
        Ok(_) => {
            let s = steps(pre, running_id(pre), action);
            match s.1 {
                Some(e) => sets_storage(pre, post, s.0) && res == Err::<(), HostError>(e),
                None => {
                    &&& res == Ok::<(), HostError>(())
                    &&& post.wf()
                    &&& post.storage@ == s.0
                    &&& post.events@ == pre.events@.push(
                        Event::Token { contract_id: running_id(pre), event: event_of(action, who) },
                    )
                    &&& post == (Host { storage: post.storage, events: post.events, ..pre })
                },
            }
        },
    }
}

/// The token contract does what it was asked to: it looks whether that can be
/// asked at all, asks who has to agree, and does it.
pub open spec fn performs(pre: Host, post: Host, action: Action, res: Result<(), HostError>) -> bool {
    match guard(pre, action) {
        Err(e) => post == pre && res == Err::<(), HostError>(e),
        Ok(who) => exists|mid: Host, asked: Result<(), HostError>| #[trigger]
            asks_of(pre, mid, who, asked) && acts(mid, post, asked, action, who, res),
    }
}

/// The running token contract is given more life, and then something is read.
pub open spec fn bumps_and_reads<T>(
    pre: Host,
    post: Host,
    read: Result<T, HostError>,
    res: Result<T, HostError>,
) -> bool {
    match current_contract(pre) {
        Err(f) => fails(pre, post, res, f),
        Ok(id) => {
            let s = bump_step(pre, id);
            &&& sets_storage(pre, post, s.0)
            &&& res == match s.1 {
                Some(e) => Err::<T, HostError>(e),
                None => read,
            }
        },
    }
}

/// The ledger entries after the running token contract was given more life.
pub open spec fn bumped_entries(host: Host) -> Entries {
    bump_step(host, running_id(host)).0
}

/// The asset that a token is made for.
pub open spec fn asset_of_bytes(a: AssetBytes) -> AssetModel {
    match a {
        AssetBytes::Native => AssetModel::Native,
        AssetBytes::CreditAlphanum4(code, issuer) => AssetModel::AlphaNum4(
            code,
            AccountId(hash_of_bytes(issuer).0),
        ),
        AssetBytes::CreditAlphanum12(code, issuer) => AssetModel::AlphaNum12(
            code,
            AccountId(hash_of_bytes(issuer).0),
        ),
    }
}

/// The code of an asset, if it has one.
pub open spec fn code_of(a: AssetModel) -> Option<Seq<u8>> {
    match a {
        AssetModel::Native => None,
        AssetModel::AlphaNum4(code, _) => Some(code),
        AssetModel::AlphaNum12(code, _) => Some(code),
    }
}

/// What a new token writes down: its administrator, who is the issuer, if there
/// is one; then its asset, whose code must be text; then its name and symbol.
pub open spec fn init_steps(host: Host, id: Hash32, a: AssetModel) -> Step {
    let t = admin_steps(host, id, a);
    let u = then_do(t, with_asset_info(host.setting(), t.0, id, a));
    then_do(u, with_metadata(host.setting(), u.0, id))
}

/// The first of what a new token writes down: its administrator. The code of its
/// asset must be text.
pub open spec fn admin_steps(host: Host, id: Hash32, a: AssetModel) -> Step {
    let s = (host.storage@, None);
    match super::asset_info::issuer_of(a) {
        None => s,
        Some(issuer) => {
            let t = then_do(s, with_administrator(host.setting(), s.0, id, ScAddress::Account(issuer)));
            if t.1 is None && !valid_utf8(code_of(a)->Some_0) {
                (t.0, Some(bare_error((ScErrorType::Value, ScErrorCode::UnexpectedType))))
            } else {
                t
            }
        },
    }
}

/// The outcome of steps.
pub open spec fn outcome_of(s: Step) -> Result<(), HostError> {
    match s.1 {
        None => Ok(()),
        Some(e) => Err(e),
    }
}

/// The code and the issuer of an asset are made into objects, a text and a byte
/// string, as far as there is room and the budget allows it.
pub open spec fn makes_asset_objects(
    pre: Host,
    post: Host,
    code: Seq<u8>,
    issuer: AccountId,
    res: Result<(), HostError>,
) -> bool {
    exists|mid: Host, text: Result<u32, HostError>| #[trigger]
        stores_copy(pre, mid, BlobKind::Text, code, text) && match text {
            Err(e) => post == mid && res == Err::<(), HostError>(e),
            Ok(_) => exists|key: Result<u32, HostError>| #[trigger]
                stores_copy(mid, post, BlobKind::Bytes, be_bytes(issuer.0@, 32), key) && res == match key {
                    Ok(_) => Ok::<(), HostError>(()),
                    Err(e) => Err(e),
                },
        }
}

/// A new token writes down what it is. The code and the issuer of its asset become
/// objects, after the administrator was written and before the asset is.
pub open spec fn writes_token(pre: Host, post: Host, id: Hash32, a: AssetModel, res: Result<(), HostError>) -> bool {
    let s = init_steps(pre, id, a);
    let t = admin_steps(pre, id, a);
    if code_of(a) is None || t.1 is Some {
        sets_storage(pre, post, s.0) && res == outcome_of(s)
    } else {
        exists|named: Host, mid: Host, made: Result<(), HostError>| #[trigger]
            makes_asset_objects(named, mid, code_of(a)->Some_0, super::asset_info::issuer_of(a)->Some_0, made)
                && sets_storage(pre, named, t.0) && match made {
                Err(e) => post == mid && res == Err::<(), HostError>(e),
                Ok(_) => sets_storage(mid, post, s.0) && res == outcome_of(s),
            }
    }
}

/// A token that was written down has written down all of it, and has changed
/// nothing else but the table of objects and the budget.
pub proof fn lemma_token_written(pre: Host, post: Host, id: Hash32, a: AssetModel)
    requires
        writes_token(pre, post, id, a, Ok(())),
    ensures
        init_steps(pre, id, a).1 is None,
        post.storage@ == init_steps(pre, id, a).0,
        post == (Host { storage: post.storage, objects: post.objects, budget: post.budget, ..pre }),
{
}

/// The asset that a new token is to be made for, or the error that it cannot be:
/// the token must be new, and its id must be the one of the asset's contract.
pub open spec fn init_guard(host: Host, asset_bytes: BytesObject) -> (Host, Result<AssetModel, HostError>) {
    match current_contract(host) {
        Err(f) => (host, Err(host.spec_err(f))),
        Ok(id) => match token_instance(host.setting(), host.storage@, id) {
            Err(e) => (host, Err(e)),
            Ok(t) => if t.asset_info is Some {
                (host, Err(token_error(host.setting(), ContractError::AlreadyInitializedError)))
            } else {
                match reads_asset(host, asset_bytes) {
                    (h, Err(e)) => (h, Err(e)),
                    (h, Ok(bytes)) => (
                        h,
                        match asset_contract_id(h, bytes) {
                            Err(f) => Err(h.spec_err(f)),
                            Ok(expected) => if expected != id {
                                Err(token_error(h.setting(), ContractError::InternalError))
                            } else {
                                Ok(asset_of_bytes(asset_of_xdr(bytes)->Some_0))
                            },
                        },
                    ),
                }
            },
        },
    }
}

/// A new token is made.
pub open spec fn inits(pre: Host, post: Host, asset_bytes: BytesObject, res: Result<(), HostError>) -> bool {
    match init_guard(pre, asset_bytes) {
        (h, Err(e)) => gives_up(h, post, res, e),
        (h, Ok(a)) => writes_token(h, post, running_id(pre), a, res),
    }
}

/// A text of a token is made into an object.
pub open spec fn reads_text(
    pre: Host,
    post: Host,
    text: Result<Seq<u8>, HostError>,
    res: Result<StringObject, HostError>,
) -> bool {
    match text {
        Err(e) => post == pre && res == Err::<StringObject, HostError>(e),
        Ok(s) => stores_blob(pre, post, BlobKind::Text, s, string_handle(res)),
    }
}

/// The name and the symbol of the running token.
pub open spec fn running_metadata(host: Host) -> Result<(Seq<u8>, Seq<u8>), HostError> {
    match current_contract(host) {
        Err(f) => Err(host.spec_err(f)),
        Ok(id) => metadata(host.setting(), host.storage@, id),
    }
}

/// What a holder has is told, and the token kept alive.
pub open spec fn tells_balance(pre: Host, post: Host, addr: ScAddress, res: Result<i128, HostError>) -> bool {
    bumps_and_reads(pre, post, balance_amount(pre.setting(), bumped_entries(pre), running_id(pre), addr), res)
}

/// Whether a holder may use what it has is told, and the token kept alive.
pub open spec fn tells_authorized(pre: Host, post: Host, addr: ScAddress, res: Result<bool, HostError>) -> bool {
    bumps_and_reads(pre, post, authorized(pre.setting(), bumped_entries(pre), running_id(pre), addr), res)
}

/// What a spender may use is told, and the token kept alive.
pub open spec fn tells_allowance(
    pre: Host,
    post: Host,
    from: ScAddress,
    spender: ScAddress,
    res: Result<i128, HostError>,
) -> bool {
    bumps_and_reads(
        pre,
        post,
        match live_allowance(pre.setting(), bumped_entries(pre), running_id(pre), from, spender) {
            Ok(a) => Ok(a.amount),
            Err(x) => Err(x),
        },
        res,
    )
}

/// The name of the token is told.
pub open spec fn tells_name(pre: Host, post: Host, res: Result<StringObject, HostError>) -> bool {
    reads_text(
        pre,
        post,
        match running_metadata(pre) {
            Ok(m) => Ok(m.0),
            Err(x) => Err(x),
        },
        res,
    )
}

/// The symbol of the token is told.
pub open spec fn tells_symbol(pre: Host, post: Host, res: Result<StringObject, HostError>) -> bool {
    reads_text(
        pre,
        post,
        match running_metadata(pre) {
            Ok(m) => Ok(m.1),
            Err(x) => Err(x),
        },
        res,
    )
}

/// The administrator of the token is told.
pub open spec fn tells_admin(host: Host, res: Result<ScAddress, HostError>) -> bool {
    res == match current_contract(host) {
        Err(f) => Err::<ScAddress, HostError>(host.spec_err(f)),
        Ok(id) => administrator(host.setting(), host.storage@, id),
    }
}

pub trait TokenTrait {
    /// Makes the running contract the token of an asset. It fails if the id of
    /// the contract is not the one that follows from the asset.
    ///
    /// No administrator is set for the native asset, so whatever checks the
    /// administrator always fails for it.
    fn init_asset(e: &mut Host, asset_bytes: BytesObject) -> (res: Result<(), HostError>)
        requires
            old(e).wf(),
        ensures
            final(e).wf(),
            inits(*old(e), *final(e), asset_bytes, res),
    ;

    fn allowance(e: &mut Host, from: ScAddress, spender: ScAddress) -> (res: Result<i128, HostError>)
        requires
            old(e).wf(),
        ensures
            final(e).wf(),
            tells_allowance(*old(e), *final(e), from, spender, res),
    ;

    fn approve(e: &mut Host, from: ScAddress, spender: ScAddress, amount: i128, expiration_ledger: u32) -> (res: Result<
        (),
        HostError,
    >)
        requires
            old(e).wf(),
        ensures
            final(e).wf(),
            performs(*old(e), *final(e), Action::Approve { from, spender, amount, expiration_ledger }, res),
    ;

    fn balance(e: &mut Host, addr: ScAddress) -> (res: Result<i128, HostError>)
        requires
            old(e).wf(),
        ensures
            final(e).wf(),
            tells_balance(*old(e), *final(e), addr, res),
    ;

    fn spendable_balance(e: &mut Host, addr: ScAddress) -> (res: Result<i128, HostError>)
        requires
            old(e).wf(),
        ensures
            final(e).wf(),
            tells_balance(*old(e), *final(e), addr, res),
    ;

    fn authorized(e: &mut Host, addr: ScAddress) -> (res: Result<bool, HostError>)
        requires
            old(e).wf(),
        ensures
            final(e).wf(),
            tells_authorized(*old(e), *final(e), addr, res),
    ;

    fn transfer(e: &mut Host, from: ScAddress, to: ScAddress, amount: i128) -> (res: Result<(), HostError>)
        requires
            old(e).wf(),
        ensures
            final(e).wf(),
            performs(*old(e), *final(e), Action::Transfer { from, to, amount }, res),
    ;

    fn transfer_from(e: &mut Host, spender: ScAddress, from: ScAddress, to: ScAddress, amount: i128) -> (res: Result<
        (),
        HostError,
    >)
        requires
            old(e).wf(),
        ensures
            final(e).wf(),
            performs(*old(e), *final(e), Action::TransferFrom { spender, from, to, amount }, res),
    ;

    fn burn(e: &mut Host, from: ScAddress, amount: i128) -> (res: Result<(), HostError>)
        requires
            old(e).wf(),
        ensures
            final(e).wf(),
            performs(*old(e), *final(e), Action::Burn { from, amount }, res),
    ;

    fn burn_from(e: &mut Host, spender: ScAddress, from: ScAddress, amount: i128) -> (res: Result<(), HostError>)
        requires
            old(e).wf(),
        ensures
            final(e).wf(),
            performs(*old(e), *final(e), Action::BurnFrom { spender, from, amount }, res),
    ;

    fn set_authorized(e: &mut Host, addr: ScAddress, authorize: bool) -> (res: Result<(), HostError>)
        requires
            old(e).wf(),
        ensures
            final(e).wf(),
            performs(*old(e), *final(e), Action::SetAuthorized { addr, authorize }, res),
    ;

    fn mint(e: &mut Host, to: ScAddress, amount: i128) -> (res: Result<(), HostError>)
        requires
            old(e).wf(),
        ensures
            final(e).wf(),
            performs(*old(e), *final(e), Action::Mint { to, amount }, res),
    ;

    fn clawback(e: &mut Host, from: ScAddress, amount: i128) -> (res: Result<(), HostError>)
        requires
            old(e).wf(),
        ensures
            final(e).wf(),
            performs(*old(e), *final(e), Action::Clawback { from, amount }, res),
    ;

    fn set_admin(e: &mut Host, new_admin: ScAddress) -> (res: Result<(), HostError>)
        requires
            old(e).wf(),
        ensures
            final(e).wf(),
            performs(*old(e), *final(e), Action::SetAdmin { new_admin }, res),
    ;

    fn admin(e: &Host) -> (res: Result<ScAddress, HostError>)
        requires
            e.wf(),
        ensures
            tells_admin(*e, res),
    ;

    fn decimals(e: &Host) -> (res: Result<u32, HostError>)
        ensures
            res == Ok::<u32, HostError>(DECIMAL),
    ;

    fn name(e: &mut Host) -> (res: Result<StringObject, HostError>)
        requires
            old(e).wf(),
        ensures
            final(e).wf(),
            tells_name(*old(e), *final(e), res),
    ;

    fn symbol(e: &mut Host) -> (res: Result<StringObject, HostError>)
        requires
            old(e).wf(),
        ensures
            final(e).wf(),
            tells_symbol(*old(e), *final(e), res),
    ;
}

pub struct Token;

/// Fails if an amount is negative.
pub fn check_nonnegative_amount(e: &Host, amount: i128) -> (res: Result<(), HostError>)
    ensures
        res == if amount < 0 {
            Err::<(), HostError>(token_error(e.setting(), ContractError::NegativeAmountError))
        } else {
            Ok(())
        },
{
    if amount < 0 {
        Err(raise(e, ContractError::NegativeAmountError))
    } else {
        Ok(())
    }
}

/// Fails if the running token stands for the native asset.
pub fn check_non_native(e: &Host) -> (res: Result<(), HostError>)
    requires
        e.wf(),
    ensures
        res == match current_contract(*e) {
            Err(f) => Err::<(), HostError>(e.spec_err(f)),
            Ok(id) => non_native(*e, id),
        },
{
    let id = e.get_current_contract_id_internal()?;
    match read_asset_info(e, id)? {
        AssetInfo::Native => Err(raise(e, ContractError::OperationNotSupportedError)),
        AssetInfo::AlphaNum4 { .. } => Ok(()),
        AssetInfo::AlphaNum12 { .. } => Ok(()),
    }
}

/// The issuer's account, of the bytes of its key.
fn account_from_bytes(key: &[u8]) -> (a: AccountId)
    requires
        key@.len() == 32,
    ensures
        a == AccountId(hash_of_bytes(key@).0),
{
    let x = u256_from_be_bytes(key);
    proof {
        lemma_u256_of_int(x);
    }
    AccountId(x)
}

fn bump_instance(e: &mut Host, id: Hash32) -> (res: Result<(), HostError>)
    requires
        old(e).wf(),
    ensures
        final(e).wf(),
        sets_storage(*old(e), *final(e), bump_step(*old(e), id).0),
        res == match bump_step(*old(e), id).1 {
            None => Ok::<(), HostError>(()),
            Some(x) => Err(x),
        },
{
    e.bump_contract_instance_and_code_from_contract_id(id, INSTANCE_LIFETIME_THRESHOLD, INSTANCE_BUMP_AMOUNT)
}

/// Takes an amount from one holder and gives it to another.
fn move_balance(e: &mut Host, id: Hash32, from: ScAddress, to: ScAddress, amount: i128) -> (res: Result<(), HostError>)
    requires
        old(e).wf(),
        amount >= 0,
    ensures
        final(e).wf(),
        sets_storage(*old(e), *final(e), moves(old(e).setting(), (old(e).storage@, None), id, from, to, amount).0),
        res == match moves(old(e).setting(), (old(e).storage@, None), id, from, to, amount).1 {
            None => Ok::<(), HostError>(()),
            Some(x) => Err(x),
        },
{
    spend_balance(e, id, from, amount)?;
    receive_balance(e, id, to, amount)
}

/// Takes an amount from one holder that allowed it, and gives it to another.
fn move_allowed_balance(
    e: &mut Host,
    id: Hash32,
    spender: ScAddress,
    from: ScAddress,
    to: ScAddress,
    amount: i128,
) -> (res: Result<(), HostError>)
    requires
        old(e).wf(),
        amount >= 0,
    ensures
        final(e).wf(),
        ({
            let s = steps(*old(e), id, Action::TransferFrom { spender, from, to, amount });
            &&& sets_storage(*old(e), *final(e), s.0)
            &&& res == match s.1 {
                None => Ok::<(), HostError>(()),
                Some(x) => Err(x),
            }
        }),
{
    bump_instance(e, id)?;
    spend_allowance(e, id, from, spender, amount)?;
    move_balance(e, id, from, to, amount)
}

/// Makes objects of the code and of the issuer of an asset.
fn make_asset_objects(e: &mut Host, code: &[u8], issuer: AccountId) -> (res: Result<(), HostError>)
    requires
        old(e).wf(),
    ensures
        final(e).wf(),
        makes_asset_objects(*old(e), *final(e), code@, issuer, res),
{
    let ghost pre = *e;
    let text = e.string_from_bytes(code);
    let ghost mid = *e;
    assert(stores_copy(pre, mid, BlobKind::Text, code@, string_handle(text)));
    text?;
    let key = e.bytes_new_from_slice(u256_to_be_bytes(issuer.0).as_slice());
    assert(stores_copy(mid, *e, BlobKind::Bytes, be_bytes(issuer.0@, 32), bytes_handle(key)));
    key?;
    Ok(())
}

/// Makes a contract the token of an asset, where its id is the expected one.
pub fn init_asset_with_id(e: &mut Host, id: Hash32, expected: Hash32, asset: Asset) -> (res: Result<(), HostError>)
    requires
        old(e).wf(),
        has_lengths(asset@),
    ensures
        final(e).wf(),
        if id != expected {
            *final(e) == *old(e) && res == Err::<(), HostError>(
                token_error(old(e).setting(), ContractError::InternalError),
            )
        } else {
            writes_token(*old(e), *final(e), id, asset_of_bytes(asset@), res)
        },
{
    if id != expected {
        return Err(raise(e, ContractError::InternalError));
    }
    match asset {
        Asset::Native => {
            write_asset_info(e, id, AssetInfo::Native)?;
            // No administrator for the native token.
        },
        Asset::CreditAlphanum4 { asset_code, issuer } => {
            let issuer = account_from_bytes(issuer.as_slice());
            write_administrator(e, id, ScAddress::Account(issuer))?;
            if !is_utf8(asset_code.as_slice()) {
                return Err(bare(ScErrorType::Value, ScErrorCode::UnexpectedType));
            }
            let ghost named = *e;
            let made = make_asset_objects(e, asset_code.as_slice(), issuer);
            assert(makes_asset_objects(named, *e, asset_code@, issuer, made));
            made?;
            write_asset_info(e, id, AssetInfo::AlphaNum4 { asset_code, issuer })?;
        },
        Asset::CreditAlphanum12 { asset_code, issuer } => {
            let issuer = account_from_bytes(issuer.as_slice());
            write_administrator(e, id, ScAddress::Account(issuer))?;
            if !is_utf8(asset_code.as_slice()) {
                return Err(bare(ScErrorType::Value, ScErrorCode::UnexpectedType));
            }
            let ghost named = *e;
            let made = make_asset_objects(e, asset_code.as_slice(), issuer);
            assert(makes_asset_objects(named, *e, asset_code@, issuer, made));
            made?;
            write_asset_info(e, id, AssetInfo::AlphaNum12 { asset_code, issuer })?;
        },
    }
    // The name and the symbol follow from the asset.
    set_metadata(e, id)
}

impl TokenTrait for Token {
    fn init_asset(e: &mut Host, asset_bytes: BytesObject) -> (res: Result<(), HostError>) {
        let id = e.get_current_contract_id_internal()?;
        if has_asset_info(e, id)? {
            return Err(raise(e, ContractError::AlreadyInitializedError));
        }
        let (asset, bytes) = e.read_asset(asset_bytes)?;
        let expected = e.get_asset_contract_id_hash(bytes.as_slice())?;
        init_asset_with_id(e, id, expected, asset)
    }

    fn allowance(e: &mut Host, from: ScAddress, spender: ScAddress) -> (res: Result<i128, HostError>) {
        let id = e.get_current_contract_id_internal()?;
        bump_instance(e, id)?;
        read_allowance(e, id, from, spender)
    }

    fn approve(e: &mut Host, from: ScAddress, spender: ScAddress, amount: i128, expiration_ledger: u32) -> (res: Result<
        (),
        HostError,
    >) {
        check_nonnegative_amount(e, amount)?;
        let ghost pre = *e;
        let asked = e.require_auth_of(from);
        assert(asks_of(pre, *e, from, asked));
        asked?;
        let id = e.get_current_contract_id_internal()?;
        bump_instance(e, id)?;
        write_allowance(e, id, from, spender, amount, expiration_ledger)?;
        report(e, id, TokenEvent::Approve { from, spender, amount, expiration_ledger });
        Ok(())
    }

    fn balance(e: &mut Host, addr: ScAddress) -> (res: Result<i128, HostError>) {
        let id = e.get_current_contract_id_internal()?;
        bump_instance(e, id)?;
        read_balance(e, id, addr)
    }

    fn spendable_balance(e: &mut Host, addr: ScAddress) -> (res: Result<i128, HostError>) {
        let id = e.get_current_contract_id_internal()?;
        bump_instance(e, id)?;
        get_spendable_balance(e, id, addr)
    }

    fn authorized(e: &mut Host, addr: ScAddress) -> (res: Result<bool, HostError>) {
        let id = e.get_current_contract_id_internal()?;
        bump_instance(e, id)?;
        is_authorized(e, id, addr)
    }

    fn transfer(e: &mut Host, from: ScAddress, to: ScAddress, amount: i128) -> (res: Result<(), HostError>) {
        check_nonnegative_amount(e, amount)?;
        let ghost pre = *e;
        let asked = e.require_auth_of(from);
        assert(asks_of(pre, *e, from, asked));
        asked?;
        let id = e.get_current_contract_id_internal()?;
        bump_instance(e, id)?;
        move_balance(e, id, from, to, amount)?;
        report(e, id, TokenEvent::Transfer { from, to, amount });
        Ok(())
    }

    fn transfer_from(e: &mut Host, spender: ScAddress, from: ScAddress, to: ScAddress, amount: i128) -> (res: Result<
        (),
        HostError,
    >) {
        check_nonnegative_amount(e, amount)?;
        let ghost pre = *e;
        let asked = e.require_auth_of(spender);
        assert(asks_of(pre, *e, spender, asked));
        asked?;
        let id = e.get_current_contract_id_internal()?;
        move_allowed_balance(e, id, spender, from, to, amount)?;
        report(e, id, TokenEvent::Transfer { from, to, amount });
        Ok(())
    }

    fn burn(e: &mut Host, from: ScAddress, amount: i128) -> (res: Result<(), HostError>) {
        check_nonnegative_amount(e, amount)?;
        check_non_native(e)?;
        let ghost pre = *e;
        let asked = e.require_auth_of(from);
        assert(asks_of(pre, *e, from, asked));
        asked?;
        let id = e.get_current_contract_id_internal()?;
        bump_instance(e, id)?;
        spend_balance(e, id, from, amount)?;
        report(e, id, TokenEvent::Burn { from, amount });
        Ok(())
    }

    fn burn_from(e: &mut Host, spender: ScAddress, from: ScAddress, amount: i128) -> (res: Result<(), HostError>) {
        check_nonnegative_amount(e, amount)?;
        check_non_native(e)?;
        let ghost pre = *e;
        let asked = e.require_auth_of(spender);
        assert(asks_of(pre, *e, spender, asked));
        asked?;
        let id = e.get_current_contract_id_internal()?;
        bump_instance(e, id)?;
        spend_allowance(e, id, from, spender, amount)?;
        spend_balance(e, id, from, amount)?;
        report(e, id, TokenEvent::Burn { from, amount });
        Ok(())
    }

    fn clawback(e: &mut Host, from: ScAddress, amount: i128) -> (res: Result<(), HostError>) {
        check_nonnegative_amount(e, amount)?;
        let id = e.get_current_contract_id_internal()?;
        check_clawbackable(e, id, from)?;
        let admin = read_administrator(e, id)?;
        let ghost pre = *e;
        let asked = e.require_auth_of(admin);
        assert(asks_of(pre, *e, admin, asked));
        asked?;
        bump_instance(e, id)?;
        spend_balance_no_authorization_check(e, id, from, amount)?;
        report(e, id, TokenEvent::Clawback { admin, from, amount });
        Ok(())
    }

    fn set_authorized(e: &mut Host, addr: ScAddress, authorize: bool) -> (res: Result<(), HostError>) {
        let id = e.get_current_contract_id_internal()?;
        let admin = read_administrator(e, id)?;
        let ghost pre = *e;
        let asked = e.require_auth_of(admin);
        assert(asks_of(pre, *e, admin, asked));
        asked?;
        bump_instance(e, id)?;
        write_authorization(e, id, addr, authorize)?;
        report(e, id, TokenEvent::SetAuthorized { admin, id: addr, authorize });
        Ok(())
    }

    fn mint(e: &mut Host, to: ScAddress, amount: i128) -> (res: Result<(), HostError>) {
        check_nonnegative_amount(e, amount)?;
        let id = e.get_current_contract_id_internal()?;
        let admin = read_administrator(e, id)?;
        let ghost pre = *e;
        let asked = e.require_auth_of(admin);
        assert(asks_of(pre, *e, admin, asked));
        asked?;
        bump_instance(e, id)?;
        receive_balance(e, id, to, amount)?;
        report(e, id, TokenEvent::Mint { admin, to, amount });
        Ok(())
    }

    fn set_admin(e: &mut Host, new_admin: ScAddress) -> (res: Result<(), HostError>) {
        let id = e.get_current_contract_id_internal()?;
        let admin = read_administrator(e, id)?;
        let ghost pre = *e;
        let asked = e.require_auth_of(admin);
        assert(asks_of(pre, *e, admin, asked));
        asked?;
        bump_instance(e, id)?;
        write_administrator(e, id, new_admin)?;
        report(e, id, TokenEvent::SetAdmin { admin, new_admin });
        Ok(())
    }

    fn admin(e: &Host) -> (res: Result<ScAddress, HostError>) {
        let id = e.get_current_contract_id_internal()?;
        read_administrator(e, id)
    }

    fn decimals(e: &Host) -> (res: Result<u32, HostError>) {
        Ok(DECIMAL)
    }

    fn name(e: &mut Host) -> (res: Result<StringObject, HostError>) {
        let id = e.get_current_contract_id_internal()?;
        let m = read_metadata(e, id)?;
        e.add_string(m.name)
    }

    fn symbol(e: &mut Host) -> (res: Result<StringObject, HostError>) {
        let id = e.get_current_contract_id_internal()?;
        let m = read_metadata(e, id)?;
        e.add_string(m.symbol)
    }
}

} // verus!
