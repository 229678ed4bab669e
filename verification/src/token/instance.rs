//! What a token contract keeps with its instance.

use crate::error::{ContractError, Error, HostError, ScErrorCode, ScErrorType};
use crate::host::{Host, Setting};
use crate::host_ledger::{first_expiration, sets_storage};
use crate::model::Hash32;
use crate::storage::{
    token_instance_copy, ContractDataDurability, DataModel, EntryModel, KeyModel, LedgerEntry, LedgerEntryData,
    LedgerKey, TokenInstance, TokenModel,
};
use vstd::prelude::*;

verus! {

/// How many ledgers close in a day.
pub const DAY_IN_LEDGERS: u32 = 17280;

/// How long a token contract lives after it was used, in ledgers.
pub const INSTANCE_BUMP_AMOUNT: u32 = 7 * 17280;

/// Up to how many ledgers before its end a token contract is given more life.
pub const INSTANCE_LIFETIME_THRESHOLD: u32 = 6 * 17280;

/// Ledger entries.
pub type Entries = Map<KeyModel, EntryModel>;

/// An error of the token contract, as a host raises it.
pub open spec fn token_error(w: Setting, e: ContractError) -> HostError {
    w.error(Error { type_: ScErrorType::Contract, code: e.spec_number() })
}

pub(crate) fn raise(host: &Host, e: ContractError) -> (r: HostError)
    ensures
        r == token_error(host.setting(), e),
{
    host.error(Error::from_contract_error(e.number()))
}

/// The ledger entries are changed to given ones, or there is an error and they
/// are not.
pub open spec fn applies(pre: Host, post: Host, out: Result<Entries, HostError>, res: Result<(), HostError>) -> bool {
    match out {
        Err(e) => post == pre && res == Err::<(), HostError>(e),
        Ok(m) => sets_storage(pre, post, m) && res == Ok::<(), HostError>(()),
    }
}

/// An entry is put under a key; one that is there keeps its expiration.
pub open spec fn with_entry(
    w: Setting,
    m: Entries,
    key: KeyModel,
    durability: ContractDataDurability,
    data: DataModel,
) -> Result<Entries, HostError> {
    let expiration = if m.contains_key(key) {
        Ok(m[key].expiration_ledger)
    } else {
        first_expiration(w.ledger, durability)
    };
    match expiration {
        Err(f) => Err(w.err(f)),
        Ok(expiration_ledger) => Ok(m.insert(key, EntryModel { data, expiration_ledger })),
    }
}

/// What a token contract keeps with its instance; nothing, before it was made.
pub open spec fn token_instance(w: Setting, m: Entries, c: Hash32) -> Result<TokenModel, HostError> {
    let key = KeyModel::TokenInstance(c);
    if !m.contains_key(key) {
        Ok(TokenModel { asset_info: None, admin: None, metadata: None })
    } else {
        match m[key].data {
            DataModel::TokenInstance(t) => Ok(t),
            _ => Err(w.err((ScErrorType::Storage, ScErrorCode::InternalError))),
        }
    }
}

pub open spec fn with_token_instance(w: Setting, m: Entries, c: Hash32, t: TokenModel) -> Result<Entries, HostError> {
    with_entry(
        w,
        m,
        KeyModel::TokenInstance(c),
        ContractDataDurability::Persistent,
        DataModel::TokenInstance(t),
    )
}

/// Puts an entry under a key.
pub(crate) fn put_entry(
    e: &mut Host,
    key: LedgerKey,
    durability: ContractDataDurability,
    data: LedgerEntryData,
) -> (res: Result<(), HostError>)
    requires
        old(e).wf(),
    ensures
        final(e).wf(),
        applies(*old(e), *final(e), with_entry(old(e).setting(), old(e).storage@, key@, durability, data@), res),
{
    let current: Option<u32> = match e.storage.get(&key) {
        Some(entry) => Some(entry.expiration_ledger),
        None => None,
    };
    let expiration_ledger: u32 = match current {
        Some(n) => n,
        None => e.get_min_expiration_ledger(durability)?,
    };
    e.storage.put(key, LedgerEntry { data, expiration_ledger });
    Ok(())
}

pub(crate) fn read_token_instance(e: &Host, c: Hash32) -> (res: Result<TokenInstance, HostError>)
    requires
        e.wf(),
    ensures
        match res {
            Ok(t) => token_instance(e.setting(), e.storage@, c) == Ok::<TokenModel, HostError>(t@),
            Err(x) => token_instance(e.setting(), e.storage@, c) == Err::<TokenModel, HostError>(x),
        },
{
    match e.storage.get(&LedgerKey::TokenInstance { contract: c }) {
        None => Ok(TokenInstance { asset_info: None, admin: None, metadata: None }),
        Some(entry) => match &entry.data {
            LedgerEntryData::TokenInstance(t) => Ok(token_instance_copy(t)),
            _ => Err(e.err(ScErrorType::Storage, ScErrorCode::InternalError)),
        },
    }
}

pub(crate) fn write_token_instance(e: &mut Host, c: Hash32, t: TokenInstance) -> (res: Result<(), HostError>)
    requires
        old(e).wf(),
    ensures
        final(e).wf(),
        applies(*old(e), *final(e), with_token_instance(old(e).setting(), old(e).storage@, c, t@), res),
{
    put_entry(
        e,
        LedgerKey::TokenInstance { contract: c },
        ContractDataDurability::Persistent,
        LedgerEntryData::TokenInstance(t),
    )
}

} // verus!
