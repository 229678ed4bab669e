//! The asset that a token stands for, and what its issuer demands.

use super::instance::{
    applies, raise, read_token_instance, token_error, token_instance, with_token_instance, write_token_instance,
    Entries,
};
use crate::error::{ContractError, HostError, ScErrorCode, ScErrorType};
use crate::host::{Host, Setting};
use crate::model::{AccountId, Hash32};
use crate::storage::{
    AccountFlags, AssetInfo, AssetModel, DataModel, KeyModel, LedgerEntryData, LedgerKey, TokenInstance, TokenModel,
};
use vstd::prelude::*;

verus! {

/// The asset that a token stands for.
pub open spec fn asset_info(w: Setting, m: Entries, c: Hash32) -> Result<AssetModel, HostError> {
    match token_instance(w, m, c) {
        Err(e) => Err(e),
        Ok(t) => match t.asset_info {
            Some(a) => Ok(a),
            None => Err(w.err((ScErrorType::Storage, ScErrorCode::MissingValue))),
        },
    }
}

pub open spec fn with_asset_info(w: Setting, m: Entries, c: Hash32, a: AssetModel) -> Result<Entries, HostError> {
    match token_instance(w, m, c) {
        Err(e) => Err(e),
        Ok(t) => with_token_instance(w, m, c, TokenModel { asset_info: Some(a), ..t }),
    }
}

pub(crate) fn has_asset_info(e: &Host, c: Hash32) -> (res: Result<bool, HostError>)
    requires
        e.wf(),
    ensures
        res == match token_instance(e.setting(), e.storage@, c) {
            Err(x) => Err::<bool, HostError>(x),
            Ok(t) => Ok(t.asset_info is Some),
        },
{
    Ok(read_token_instance(e, c)?.asset_info.is_some())
}

pub(crate) fn read_asset_info(e: &Host, c: Hash32) -> (res: Result<AssetInfo, HostError>)
    requires
        e.wf(),
    ensures
        match res {
            Ok(a) => asset_info(e.setting(), e.storage@, c) == Ok::<AssetModel, HostError>(a@),
            Err(x) => asset_info(e.setting(), e.storage@, c) == Err::<AssetModel, HostError>(x),
        },
{
    match read_token_instance(e, c)?.asset_info {
        Some(a) => Ok(a),
        None => Err(e.err(ScErrorType::Storage, ScErrorCode::MissingValue)),
    }
}

pub(crate) fn write_asset_info(e: &mut Host, c: Hash32, a: AssetInfo) -> (res: Result<(), HostError>)
    requires
        old(e).wf(),
    ensures
        final(e).wf(),
        applies(*old(e), *final(e), with_asset_info(old(e).setting(), old(e).storage@, c, a@), res),
{
    let t = read_token_instance(e, c)?;
    write_token_instance(e, c, TokenInstance { asset_info: Some(a), admin: t.admin, metadata: t.metadata })
}

/// The issuer of an asset, if it has one.
pub open spec fn issuer_of(a: AssetModel) -> Option<AccountId> {
    match a {
        AssetModel::Native => None,
        AssetModel::AlphaNum4(_, issuer) => Some(issuer),
        AssetModel::AlphaNum12(_, issuer) => Some(issuer),
    }
}

/// What the issuer of a token's asset demands of its holders: nothing, if there
/// is no issuer.
pub open spec fn issuer_flags(w: Setting, m: Entries, c: Hash32) -> Result<AccountFlags, HostError> {
    match asset_info(w, m, c) {
        Err(e) => Err(e),
        Ok(a) => match issuer_of(a) {
            None => Ok(AccountFlags { auth_required: false, auth_revocable: false, clawback_enabled: false }),
            Some(issuer) => if !m.contains_key(KeyModel::Account(issuer)) {
                Err(token_error(w, ContractError::AccountMissingError))
            } else {
                match m[KeyModel::Account(issuer)].data {
                    DataModel::Account(flags) => Ok(flags),
                    _ => Err(w.err((ScErrorType::Storage, ScErrorCode::InternalError))),
                }
            },
        },
    }
}

pub(crate) fn read_issuer_flags(e: &Host, c: Hash32) -> (res: Result<AccountFlags, HostError>)
    requires
        e.wf(),
    ensures
        res == issuer_flags(e.setting(), e.storage@, c),
{
    let id = match read_asset_info(e, c)? {
        AssetInfo::Native => {
            return Ok(AccountFlags { auth_required: false, auth_revocable: false, clawback_enabled: false });
        },
        AssetInfo::AlphaNum4 { issuer, .. } => issuer,
        AssetInfo::AlphaNum12 { issuer, .. } => issuer,
    };
    match e.storage.get(&LedgerKey::Account { id }) {
        None => Err(raise(e, ContractError::AccountMissingError)),
        Some(entry) => match &entry.data {
            LedgerEntryData::Account(flags) => Ok(*flags),
            _ => Err(e.err(ScErrorType::Storage, ScErrorCode::InternalError)),
        },
    }
}

} // verus!
