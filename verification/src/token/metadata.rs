//! What a token calls itself.

use super::asset_info::{asset_info, read_asset_info};
use super::instance::{
    applies, read_token_instance, token_instance, with_token_instance, write_token_instance, Entries,
};
use crate::bignum::{be_bytes, lemma_be_bytes_len, u256_to_be_bytes};
use crate::error::{HostError, ScErrorCode, ScErrorType};
use crate::host::{Host, Setting};
use crate::model::{AccountId, Hash32};
use crate::storage::{AssetInfo, AssetModel, TokenInstance, TokenMetadata, TokenModel};
use crate::util::copy_bytes;
use crate::xdr::{account_strkey, account_to_strkey};
use vstd::prelude::*;

verus! {

/// How many decimal places amounts of a token have.
pub const DECIMAL: u32 = 7;

/// The text `native`.
pub open spec fn native_text() -> Seq<u8> {
    seq![0x6e, 0x61, 0x74, 0x69, 0x76, 0x65]
}

/// A code without the zero bytes that fill it up.
pub open spec fn trimmed(code: Seq<u8>) -> Seq<u8>
    decreases code.len(),
{
    if code.len() > 0 && code.last() == 0 {
        trimmed(code.drop_last())
    } else {
        code
    }
}

/// The name of an asset with an issuer: its code, a colon and the issuer's key as
/// text.
pub open spec fn issued_name(code: Seq<u8>, issuer: AccountId) -> Seq<u8> {
    trimmed(code).push(0x3a) + account_strkey(be_bytes(issuer.0@, 32))
}

/// The name and the symbol of an asset.
pub open spec fn name_and_symbol(a: AssetModel) -> (Seq<u8>, Seq<u8>) {
    match a {
        AssetModel::Native => (native_text(), native_text()),
        AssetModel::AlphaNum4(code, issuer) => (issued_name(code, issuer), trimmed(code)),
        AssetModel::AlphaNum12(code, issuer) => (issued_name(code, issuer), trimmed(code)),
    }
}

pub open spec fn with_metadata(w: Setting, m: Entries, c: Hash32) -> Result<Entries, HostError> {
    match asset_info(w, m, c) {
        Err(e) => Err(e),
        Ok(a) => match token_instance(w, m, c) {
            Err(e) => Err(e),
            Ok(t) => with_token_instance(w, m, c, TokenModel { metadata: Some(name_and_symbol(a)), ..t }),
        },
    }
}

/// The name and the symbol that a token was given.
pub open spec fn metadata(w: Setting, m: Entries, c: Hash32) -> Result<(Seq<u8>, Seq<u8>), HostError> {
    match token_instance(w, m, c) {
        Err(e) => Err(e),
        Ok(t) => match t.metadata {
            Some(x) => Ok(x),
            None => Err(w.err((ScErrorType::Storage, ScErrorCode::MissingValue))),
        },
    }
}

fn trim_code(code: &[u8]) -> (r: Vec<u8>)
    ensures
        r@ == trimmed(code@),
{
    let mut n: usize = code.len();
    assert(code@.take(n as int) =~= code@);
    while n > 0 && code[n - 1] == 0
        invariant
            n <= code@.len(),
            trimmed(code@) == trimmed(code@.take(n as int)),
        decreases n,
    {
        assert(code@.take(n as int).drop_last() =~= code@.take(n - 1));
        n -= 1;
    }
    let mut r: Vec<u8> = Vec::new();
    let mut i: usize = 0;
    while i < n
        invariant
            i <= n <= code@.len(),
            r@ == code@.take(i as int),
        decreases n - i,
    {
        r.push(code[i]);
        assert(r@ =~= code@.take(i + 1));
        i += 1;
    }
    r
}

/// The name and the symbol of an asset with an issuer, whose key is given as
/// text.
pub fn issued_metadata(code: &[u8], issuer_text: &[u8]) -> (r: TokenMetadata)
    ensures
        r.name@ == trimmed(code@).push(0x3a) + issuer_text@,
        r.symbol@ == trimmed(code@),
{
    let symbol = trim_code(code);
    let mut name = copy_bytes(symbol.as_slice());
    name.push(0x3a);
    name.extend_from_slice(issuer_text);
    assert(name@ =~= trimmed(code@).push(0x3a) + issuer_text@);
    TokenMetadata { name, symbol }
}

fn metadata_of_issued(code: &[u8], issuer: AccountId) -> (r: TokenMetadata)
    ensures
        r.name@ == issued_name(code@, issuer),
        r.symbol@ == trimmed(code@),
{
    let key = u256_to_be_bytes(issuer.0);
    proof {
        lemma_be_bytes_len(issuer.0@, 32);
    }
    let text = account_to_strkey(key.as_slice());
    issued_metadata(code, text.as_slice())
}

fn native_bytes() -> (r: Vec<u8>)
    ensures
        r@ == native_text(),
{
    let r: Vec<u8> = vec![0x6e, 0x61, 0x74, 0x69, 0x76, 0x65];
    assert(r@ =~= native_text());
    r
}

pub(crate) fn set_metadata(e: &mut Host, c: Hash32) -> (res: Result<(), HostError>)
    requires
        old(e).wf(),
    ensures
        final(e).wf(),
        applies(*old(e), *final(e), with_metadata(old(e).setting(), old(e).storage@, c), res),
{
    let metadata = match read_asset_info(e, c)? {
        AssetInfo::Native => TokenMetadata { name: native_bytes(), symbol: native_bytes() },
        AssetInfo::AlphaNum4 { asset_code, issuer } => metadata_of_issued(asset_code.as_slice(), issuer),
        AssetInfo::AlphaNum12 { asset_code, issuer } => metadata_of_issued(asset_code.as_slice(), issuer),
    };
    let t = read_token_instance(e, c)?;
    write_token_instance(e, c, TokenInstance { asset_info: t.asset_info, admin: t.admin, metadata: Some(metadata) })
}

pub(crate) fn read_metadata(e: &Host, c: Hash32) -> (res: Result<TokenMetadata, HostError>)
    requires
        e.wf(),
    ensures
        match res {
            Ok(x) => metadata(e.setting(), e.storage@, c) == Ok::<(Seq<u8>, Seq<u8>), HostError>((x.name@, x.symbol@)),
            Err(x) => metadata(e.setting(), e.storage@, c) == Err::<(Seq<u8>, Seq<u8>), HostError>(x),
        },
{
    match read_token_instance(e, c)?.metadata {
        Some(x) => Ok(x),
        None => Err(e.err(ScErrorType::Storage, ScErrorCode::MissingValue)),
    }
}

} // verus!
