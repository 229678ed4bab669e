//! What holders have of a token.

use super::asset_info::{issuer_flags, read_issuer_flags};
use super::instance::{applies, put_entry, raise, token_error, with_entry, Entries};
use crate::error::{ContractError, HostError, ScErrorCode, ScErrorType};
use crate::host::{Host, Setting};
use crate::model::{Hash32, ScAddress};
use crate::storage::{
    BalanceValue, ContractDataDurability, DataModel, KeyModel, LedgerEntryData, LedgerKey,
};
use vstd::prelude::*;

verus! {

/// What a holder has of a token, if it ever had any.
pub open spec fn balance_entry(w: Setting, m: Entries, c: Hash32, a: ScAddress) -> Result<
    Option<BalanceValue>,
    HostError,
> {
    let key = KeyModel::TokenBalance(c, a);
    if !m.contains_key(key) {
        Ok(None)
    } else {
        match m[key].data {
            DataModel::TokenBalance(b) => Ok(Some(b)),
            _ => Err(w.err((ScErrorType::Storage, ScErrorCode::InternalError))),
        }
    }
}

pub open spec fn with_balance(w: Setting, m: Entries, c: Hash32, a: ScAddress, b: BalanceValue) -> Result<
    Entries,
    HostError,
> {
    with_entry(
        w,
        m,
        KeyModel::TokenBalance(c, a),
        ContractDataDurability::Persistent,
        DataModel::TokenBalance(b),
    )
}

/// How much a holder has of a token.
pub open spec fn balance_amount(w: Setting, m: Entries, c: Hash32, a: ScAddress) -> Result<i128, HostError> {
    match balance_entry(w, m, c, a) {
        Err(e) => Err(e),
        Ok(Some(b)) => Ok(b.amount),
        Ok(None) => Ok(0),
    }
}

/// Whether a holder may use its balance. One that never had any may, unless the
/// issuer wants to be asked first.
pub open spec fn authorized(w: Setting, m: Entries, c: Hash32, a: ScAddress) -> Result<bool, HostError> {
    match balance_entry(w, m, c, a) {
        Err(e) => Err(e),
        Ok(Some(b)) => Ok(b.authorized),
        Ok(None) => match issuer_flags(w, m, c) {
            Err(e) => Err(e),
            Ok(flags) => Ok(!flags.auth_required),
        },
    }
}

/// Takes an amount from a holder, whether or not the holder may use it.
pub open spec fn taken(w: Setting, m: Entries, c: Hash32, a: ScAddress, amount: i128) -> Result<Entries, HostError> {
    match balance_entry(w, m, c, a) {
        Err(e) => Err(e),
        Ok(Some(b)) => if b.amount < amount {
            Err(token_error(w, ContractError::BalanceError))
        } else {
            with_balance(w, m, c, a, BalanceValue { amount: (b.amount - amount) as i128, ..b })
        },
        Ok(None) => if amount > 0 {
            Err(token_error(w, ContractError::BalanceError))
        } else {
            Ok(m)
        },
    }
}

/// Takes an amount from a holder that may use it.
pub open spec fn spent(w: Setting, m: Entries, c: Hash32, a: ScAddress, amount: i128) -> Result<Entries, HostError> {
    match authorized(w, m, c, a) {
        Err(e) => Err(e),
        Ok(false) => Err(token_error(w, ContractError::BalanceDeauthorizedError)),
        Ok(true) => taken(w, m, c, a, amount),
    }
}

/// The balance of a holder, or the one that it starts with.
pub open spec fn balance_or_new(w: Setting, m: Entries, c: Hash32, a: ScAddress, may_use: bool) -> Result<
    BalanceValue,
    HostError,
> {
    match balance_entry(w, m, c, a) {
        Err(e) => Err(e),
        Ok(Some(b)) => Ok(b),
        Ok(None) => match issuer_flags(w, m, c) {
            Err(e) => Err(e),
            Ok(flags) => Ok(BalanceValue { amount: 0, authorized: may_use, clawback: flags.clawback_enabled }),
        },
    }
}

/// Gives an amount to a holder that may use it.
pub open spec fn received(w: Setting, m: Entries, c: Hash32, a: ScAddress, amount: i128) -> Result<Entries, HostError> {
    match authorized(w, m, c, a) {
        Err(e) => Err(e),
        Ok(false) => Err(token_error(w, ContractError::BalanceDeauthorizedError)),
        Ok(true) => match balance_or_new(w, m, c, a, true) {
            Err(e) => Err(e),
            Ok(b) => if b.amount + amount > i128::MAX {
                Err(token_error(w, ContractError::BalanceError))
            } else {
                with_balance(w, m, c, a, BalanceValue { amount: (b.amount + amount) as i128, ..b })
            },
        },
    }
}

/// Lets a holder use its balance or not. An issuer that gave up the right cannot
/// take the use away.
pub open spec fn with_authorization(w: Setting, m: Entries, c: Hash32, a: ScAddress, authorize: bool) -> Result<
    Entries,
    HostError,
> {
    match issuer_flags(w, m, c) {
        Err(e) => Err(e),
        Ok(flags) => if !authorize && !flags.auth_revocable {
            Err(token_error(w, ContractError::OperationNotSupportedError))
        } else {
            match balance_or_new(w, m, c, a, authorize) {
                Err(e) => Err(e),
                Ok(b) => with_balance(w, m, c, a, BalanceValue { authorized: authorize, ..b }),
            }
        },
    }
}

/// Whether the administrator may take the balance of a holder, or the error that
/// it may not.
pub open spec fn clawbackable(w: Setting, m: Entries, c: Hash32, a: ScAddress) -> Result<(), HostError> {
    match balance_entry(w, m, c, a) {
        Err(e) => Err(e),
        Ok(Some(b)) => if b.clawback {
            Ok(())
        } else {
            Err(token_error(w, ContractError::BalanceError))
        },
        Ok(None) => Err(token_error(w, ContractError::BalanceError)),
    }
}

/// What is taken from a holder is what it has less, and nobody else has more or
/// less.
pub proof fn law_taking(w: Setting, m: Entries, c: Hash32, a: ScAddress, amount: i128)
    requires
        taken(w, m, c, a, amount) is Ok,
        amount >= 0,
    ensures
        ({
            let out = taken(w, m, c, a, amount)->Ok_0;
            &&& balance_amount(w, m, c, a) is Ok
            &&& balance_amount(w, out, c, a) is Ok
            &&& balance_amount(w, out, c, a)->Ok_0 == balance_amount(w, m, c, a)->Ok_0 - amount
            &&& forall|k: KeyModel|
                k != KeyModel::TokenBalance(c, a) ==> (#[trigger] out.contains_key(k) == m.contains_key(k)) && (
                m.contains_key(k) ==> out[k] == m[k])
        }),
{
}

/// What is given to a holder is what it has more, and nobody else has more or
/// less.
pub proof fn law_giving(w: Setting, m: Entries, c: Hash32, a: ScAddress, amount: i128)
    requires
        received(w, m, c, a, amount) is Ok,
        amount >= 0,
    ensures
        ({
            let out = received(w, m, c, a, amount)->Ok_0;
            &&& balance_amount(w, m, c, a) is Ok
            &&& balance_amount(w, out, c, a) is Ok
            &&& balance_amount(w, out, c, a)->Ok_0 == balance_amount(w, m, c, a)->Ok_0 + amount
            &&& forall|k: KeyModel|
                k != KeyModel::TokenBalance(c, a) ==> (#[trigger] out.contains_key(k) == m.contains_key(k)) && (
                m.contains_key(k) ==> out[k] == m[k])
        }),
{
}

fn read_balance_entry(e: &Host, c: Hash32, holder: ScAddress) -> (res: Result<Option<BalanceValue>, HostError>)
    requires
        e.wf(),
    ensures
        res == balance_entry(e.setting(), e.storage@, c, holder),
{
    match e.storage.get(&LedgerKey::TokenBalance { contract: c, holder }) {
        None => Ok(None),
        Some(entry) => match &entry.data {
            LedgerEntryData::TokenBalance(b) => Ok(Some(*b)),
            _ => Err(e.err(ScErrorType::Storage, ScErrorCode::InternalError)),
        },
    }
}

fn write_balance_entry(e: &mut Host, c: Hash32, holder: ScAddress, b: BalanceValue) -> (res: Result<(), HostError>)
    requires
        old(e).wf(),
    ensures
        final(e).wf(),
        applies(*old(e), *final(e), with_balance(old(e).setting(), old(e).storage@, c, holder, b), res),
{
    put_entry(
        e,
        LedgerKey::TokenBalance { contract: c, holder },
        ContractDataDurability::Persistent,
        LedgerEntryData::TokenBalance(b),
    )
}

pub(crate) fn read_balance(e: &Host, c: Hash32, a: ScAddress) -> (res: Result<i128, HostError>)
    requires
        e.wf(),
    ensures
        res == balance_amount(e.setting(), e.storage@, c, a),
{
    match read_balance_entry(e, c, a)? {
        Some(b) => Ok(b.amount),
        None => Ok(0),
    }
}

pub(crate) fn get_spendable_balance(e: &Host, c: Hash32, a: ScAddress) -> (res: Result<i128, HostError>)
    requires
        e.wf(),
    ensures
        res == balance_amount(e.setting(), e.storage@, c, a),
{
    read_balance(e, c, a)
}

pub(crate) fn is_authorized(e: &Host, c: Hash32, a: ScAddress) -> (res: Result<bool, HostError>)
    requires
        e.wf(),
    ensures
        res == authorized(e.setting(), e.storage@, c, a),
{
    match read_balance_entry(e, c, a)? {
        Some(b) => Ok(b.authorized),
        None => Ok(!read_issuer_flags(e, c)?.auth_required),
    }
}

pub(crate) fn spend_balance_no_authorization_check(e: &mut Host, c: Hash32, a: ScAddress, amount: i128) -> (res: Result<
    (),
    HostError,
>)
    requires
        old(e).wf(),
        amount >= 0,
    ensures
        final(e).wf(),
        applies(*old(e), *final(e), taken(old(e).setting(), old(e).storage@, c, a, amount), res),
{
    match read_balance_entry(e, c, a)? {
        Some(b) => {
            if b.amount < amount {
                return Err(raise(e, ContractError::BalanceError));
            }
            let amount: i128 = b.amount - amount;
            write_balance_entry(e, c, a, BalanceValue { amount, authorized: b.authorized, clawback: b.clawback })
        },
        None => {
            if amount > 0 {
                Err(raise(e, ContractError::BalanceError))
            } else {
                Ok(())
            }
        },
    }
}

pub(crate) fn spend_balance(e: &mut Host, c: Hash32, a: ScAddress, amount: i128) -> (res: Result<(), HostError>)
    requires
        old(e).wf(),
        amount >= 0,
    ensures
        final(e).wf(),
        applies(*old(e), *final(e), spent(old(e).setting(), old(e).storage@, c, a, amount), res),
{
    if !is_authorized(e, c, a)? {
        return Err(raise(e, ContractError::BalanceDeauthorizedError));
    }
    spend_balance_no_authorization_check(e, c, a, amount)
}

fn read_balance_or_new(e: &Host, c: Hash32, a: ScAddress, may_use: bool) -> (res: Result<BalanceValue, HostError>)
    requires
        e.wf(),
    ensures
        res == balance_or_new(e.setting(), e.storage@, c, a, may_use),
{
    match read_balance_entry(e, c, a)? {
        Some(b) => Ok(b),
        None => {
            let clawback = read_issuer_flags(e, c)?.clawback_enabled;
            Ok(BalanceValue { amount: 0, authorized: may_use, clawback })
        },
    }
}

pub(crate) fn receive_balance(e: &mut Host, c: Hash32, a: ScAddress, amount: i128) -> (res: Result<(), HostError>)
    requires
        old(e).wf(),
        amount >= 0,
    ensures
        final(e).wf(),
        applies(*old(e), *final(e), received(old(e).setting(), old(e).storage@, c, a, amount), res),
{
    if !is_authorized(e, c, a)? {
        return Err(raise(e, ContractError::BalanceDeauthorizedError));
    }
    let b = read_balance_or_new(e, c, a, true)?;
    match b.amount.checked_add(amount) {
        None => Err(raise(e, ContractError::BalanceError)),
        Some(sum) => {
            write_balance_entry(e, c, a, BalanceValue { amount: sum, authorized: b.authorized, clawback: b.clawback })
        },
    }
}

pub(crate) fn write_authorization(e: &mut Host, c: Hash32, a: ScAddress, authorize: bool) -> (res: Result<
    (),
    HostError,
>)
    requires
        old(e).wf(),
    ensures
        final(e).wf(),
        applies(*old(e), *final(e), with_authorization(old(e).setting(), old(e).storage@, c, a, authorize), res),
{
    let flags = read_issuer_flags(e, c)?;
    if !authorize && !flags.auth_revocable {
        return Err(raise(e, ContractError::OperationNotSupportedError));
    }
    let b = read_balance_or_new(e, c, a, authorize)?;
    write_balance_entry(e, c, a, BalanceValue { amount: b.amount, authorized: authorize, clawback: b.clawback })
}

pub(crate) fn check_clawbackable(e: &Host, c: Hash32, a: ScAddress) -> (res: Result<(), HostError>)
    requires
        e.wf(),
    ensures
        res == clawbackable(e.setting(), e.storage@, c, a),
{
    match read_balance_entry(e, c, a)? {
        Some(b) => if b.clawback {
            Ok(())
        } else {
            Err(raise(e, ContractError::BalanceError))
        },
        None => Err(raise(e, ContractError::BalanceError)),
    }
}

} // verus!
