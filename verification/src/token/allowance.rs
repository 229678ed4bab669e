//! What spenders may take from holders.

use super::instance::{applies, raise, token_error, Entries};
use crate::error::{ContractError, HostError, ScErrorCode, ScErrorType};
use crate::host::{Host, LedgerInfo, Setting};
use crate::host_context::{last_expiration, no_ledger};
use crate::host_ledger::first_expiration;
use crate::model::{Hash32, ScAddress};
use crate::storage::{
    AllowanceValue, ContractDataDurability, DataModel, EntryModel, KeyModel, LedgerEntry, LedgerEntryData, LedgerKey,
};
use vstd::prelude::*;

verus! {

/// What a holder allowed a spender at some time, if anything.
pub open spec fn allowance_entry(w: Setting, m: Entries, c: Hash32, from: ScAddress, spender: ScAddress) -> Result<
    Option<AllowanceValue>,
    HostError,
> {
    let key = KeyModel::TokenAllowance(c, from, spender);
    if !m.contains_key(key) {
        Ok(None)
    } else {
        match m[key].data {
            DataModel::TokenAllowance(a) => Ok(Some(a)),
            _ => Err(w.err((ScErrorType::Storage, ScErrorCode::InternalError))),
        }
    }
}

/// What a spender may take from a holder now, and until when: nothing, after the
/// time for it has passed.
pub open spec fn live_allowance(w: Setting, m: Entries, c: Hash32, from: ScAddress, spender: ScAddress) -> Result<
    AllowanceValue,
    HostError,
> {
    match allowance_entry(w, m, c, from, spender) {
        Err(e) => Err(e),
        Ok(None) => Ok(AllowanceValue { amount: 0, expiration_ledger: 0 }),
        Ok(Some(a)) => match w.ledger {
            None => Err(w.err(no_ledger())),
            Some(li) => if a.expiration_ledger < li.sequence_number {
                Ok(AllowanceValue { amount: 0, expiration_ledger: a.expiration_ledger })
            } else {
                Ok(a)
            },
        },
    }
}

/// Allows a spender to take an amount until a ledger. The ledger must not have
/// passed, and must not be later than entries may live, unless nothing is
/// allowed.
pub open spec fn with_allowance(
    w: Setting,
    m: Entries,
    c: Hash32,
    from: ScAddress,
    spender: ScAddress,
    a: AllowanceValue,
) -> Result<Entries, HostError> {
    let key = KeyModel::TokenAllowance(c, from, spender);
    match w.ledger {
        None => Err(w.err(no_ledger())),
        Some(li) => if a.amount > 0 && (a.expiration_ledger < li.sequence_number || a.expiration_ledger
            > last_expiration(li)) {
            Err(token_error(w, ContractError::AllowanceError))
        } else {
            let base = if m.contains_key(key) {
                m[key].expiration_ledger
            } else {
                first_expiration(w.ledger, ContractDataDurability::Temporary)->Ok_0
            };
            let expiration_ledger = if a.amount > 0 && a.expiration_ledger > base {
                a.expiration_ledger
            } else {
                base
            };
            Ok(m.insert(key, EntryModel { data: DataModel::TokenAllowance(a), expiration_ledger }))
        },
    }
}

/// Uses up part of what a spender may take.
pub open spec fn spent_allowance(
    w: Setting,
    m: Entries,
    c: Hash32,
    from: ScAddress,
    spender: ScAddress,
    amount: i128,
) -> Result<Entries, HostError> {
    match live_allowance(w, m, c, from, spender) {
        Err(e) => Err(e),
        Ok(a) => if a.amount < amount {
            Err(token_error(w, ContractError::AllowanceError))
        } else if amount > 0 {
            with_allowance(
                w,
                m,
                c,
                from,
                spender,
                AllowanceValue { amount: (a.amount - amount) as i128, ..a },
            )
        } else {
            Ok(m)
        },
    }
}

/// What was allowed can be taken until its time has passed, and not after.
pub proof fn law_allowance_is_read_back(
    w: Setting,
    m: Entries,
    c: Hash32,
    from: ScAddress,
    spender: ScAddress,
    a: AllowanceValue,
    later: Setting,
    now: LedgerInfo,
)
    requires
        with_allowance(w, m, c, from, spender, a) is Ok,
        later.ledger == Some(now),
    ensures
        live_allowance(later, with_allowance(w, m, c, from, spender, a)->Ok_0, c, from, spender) == Ok::<
            AllowanceValue,
            HostError,
        >(
            if a.expiration_ledger < now.sequence_number {
                AllowanceValue { amount: 0, ..a }
            } else {
                a
            },
        ),
{
}

/// What is used of an allowance is what is left of it less, and no other entry
/// changes.
pub proof fn law_spending_allowance(
    w: Setting,
    m: Entries,
    c: Hash32,
    from: ScAddress,
    spender: ScAddress,
    amount: i128,
)
    requires
        amount >= 0,
        spent_allowance(w, m, c, from, spender, amount) is Ok,
    ensures
        ({
            let out = spent_allowance(w, m, c, from, spender, amount)->Ok_0;
            &&& live_allowance(w, m, c, from, spender) is Ok
            &&& live_allowance(w, out, c, from, spender) is Ok
            &&& live_allowance(w, out, c, from, spender)->Ok_0.amount == live_allowance(
                w,
                m,
                c,
                from,
                spender,
            )->Ok_0.amount - amount
            &&& forall|k: KeyModel|
                k != KeyModel::TokenAllowance(c, from, spender) ==> (#[trigger] out.contains_key(k)
                    == m.contains_key(k)) && (m.contains_key(k) ==> out[k] == m[k])
        }),
{
}

fn read_allowance_entry(e: &Host, c: Hash32, from: ScAddress, spender: ScAddress) -> (res: Result<
    Option<AllowanceValue>,
    HostError,
>)
    requires
        e.wf(),
    ensures
        res == allowance_entry(e.setting(), e.storage@, c, from, spender),
{
    match e.storage.get(&LedgerKey::TokenAllowance { contract: c, from, spender }) {
        None => Ok(None),
        Some(entry) => match &entry.data {
            LedgerEntryData::TokenAllowance(a) => Ok(Some(*a)),
            _ => Err(e.err(ScErrorType::Storage, ScErrorCode::InternalError)),
        },
    }
}

fn read_live_allowance(e: &Host, c: Hash32, from: ScAddress, spender: ScAddress) -> (res: Result<
    AllowanceValue,
    HostError,
>)
    requires
        e.wf(),
    ensures
        res == live_allowance(e.setting(), e.storage@, c, from, spender),
{
    match read_allowance_entry(e, c, from, spender)? {
        None => Ok(AllowanceValue { amount: 0, expiration_ledger: 0 }),
        Some(a) => {
            let sequence: u32 = e.get_ledger_sequence()?;
            if a.expiration_ledger < sequence {
                Ok(AllowanceValue { amount: 0, expiration_ledger: a.expiration_ledger })
            } else {
                Ok(a)
            }
        },
    }
}

pub(crate) fn read_allowance(e: &Host, c: Hash32, from: ScAddress, spender: ScAddress) -> (res: Result<
    i128,
    HostError,
>)
    requires
        e.wf(),
    ensures
        res == match live_allowance(e.setting(), e.storage@, c, from, spender) {
            Ok(a) => Ok::<i128, HostError>(a.amount),
            Err(x) => Err(x),
        },
{
    Ok(read_live_allowance(e, c, from, spender)?.amount)
}

pub(crate) fn write_allowance(
    e: &mut Host,
    c: Hash32,
    from: ScAddress,
    spender: ScAddress,
    amount: i128,
    expiration: u32,
) -> (res: Result<(), HostError>)
    requires
        old(e).wf(),
    ensures
        final(e).wf(),
        applies(
            *old(e),
            *final(e),
            with_allowance(
                old(e).setting(),
                old(e).storage@,
                c,
                from,
                spender,
                AllowanceValue { amount, expiration_ledger: expiration },
            ),
            res,
        ),
{
    let sequence: u32 = e.get_ledger_sequence()?;
    let max: u32 = e.get_max_expiration_ledger()?;
    if amount > 0 && (expiration < sequence || expiration > max) {
        return Err(raise(e, ContractError::AllowanceError));
    }
    let key = LedgerKey::TokenAllowance { contract: c, from, spender };
    let current: Option<u32> = match e.storage.get(&key) {
        Some(entry) => Some(entry.expiration_ledger),
        None => None,
    };
    let base: u32 = match current {
        Some(n) => n,
        None => e.get_min_expiration_ledger(ContractDataDurability::Temporary)?,
    };
    let expiration_ledger: u32 = if amount > 0 && expiration > base {
        expiration
    } else {
        base
    };
    let data = LedgerEntryData::TokenAllowance(AllowanceValue { amount, expiration_ledger: expiration });
    e.storage.put(key, LedgerEntry { data, expiration_ledger });
    Ok(())
}

pub(crate) fn spend_allowance(e: &mut Host, c: Hash32, from: ScAddress, spender: ScAddress, amount: i128) -> (res:
    Result<(), HostError>)
    requires
        old(e).wf(),
        amount >= 0,
    ensures
        final(e).wf(),
        applies(*old(e), *final(e), spent_allowance(old(e).setting(), old(e).storage@, c, from, spender, amount), res),
{
    let a = read_live_allowance(e, c, from, spender)?;
    if a.amount < amount {
        return Err(raise(e, ContractError::AllowanceError));
    }
    if amount > 0 {
        let left: i128 = a.amount - amount;
        write_allowance(e, c, from, spender, left, a.expiration_ledger)
    } else {
        Ok(())
    }
}

} // verus!
