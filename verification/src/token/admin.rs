//! The administrator of a token.

use super::instance::{
    applies, read_token_instance, token_instance, with_token_instance, write_token_instance, Entries,
};
use crate::error::{HostError, ScErrorCode, ScErrorType};
use crate::host::{Host, Setting};
use crate::model::{Hash32, ScAddress};
use crate::storage::{TokenInstance, TokenModel};
use vstd::prelude::*;

verus! {

/// The administrator of a token, if it has one.
pub open spec fn administrator(w: Setting, m: Entries, c: Hash32) -> Result<ScAddress, HostError> {
    match token_instance(w, m, c) {
        Err(e) => Err(e),
        Ok(t) => match t.admin {
            Some(a) => Ok(a),
            None => Err(w.err((ScErrorType::Storage, ScErrorCode::MissingValue))),
        },
    }
}

pub open spec fn with_administrator(w: Setting, m: Entries, c: Hash32, admin: ScAddress) -> Result<Entries, HostError> {
    match token_instance(w, m, c) {
        Err(e) => Err(e),
        Ok(t) => with_token_instance(w, m, c, TokenModel { admin: Some(admin), ..t }),
    }
}

pub(crate) fn read_administrator(e: &Host, c: Hash32) -> (res: Result<ScAddress, HostError>)
    requires
        e.wf(),
    ensures
        res == administrator(e.setting(), e.storage@, c),
{
    match read_token_instance(e, c)?.admin {
        Some(a) => Ok(a),
        None => Err(e.err(ScErrorType::Storage, ScErrorCode::MissingValue)),
    }
}

pub(crate) fn write_administrator(e: &mut Host, c: Hash32, admin: ScAddress) -> (res: Result<(), HostError>)
    requires
        old(e).wf(),
    ensures
        final(e).wf(),
        applies(*old(e), *final(e), with_administrator(old(e).setting(), old(e).storage@, c, admin), res),
{
    let t = read_token_instance(e, c)?;
    write_token_instance(e, c, TokenInstance { asset_info: t.asset_info, admin: Some(admin), metadata: t.metadata })
}

} // verus!
