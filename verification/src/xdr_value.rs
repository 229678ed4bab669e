//! Values in their XDR form.

use crate::bignum::{I256, U256};
use crate::error::{Error, ScErrorType};
use crate::host::DEFAULT_HOST_DEPTH_LIMIT;
use crate::model::{nesting, AccountId, Deep, Hash32, ScAddress};
use crate::scval::{sc_deep, ScMapEntry, ScVal};
use ethnum::U256 as Word256;
use stellar_xdr::curr::int128_helpers::{
    i128_from_pieces, i128_hi, i128_lo, u128_from_pieces, u128_hi, u128_lo,
};
use stellar_xdr::curr::ScMapEntry as XdrEntry;
use stellar_xdr::curr::ScVal as XdrVal;
use stellar_xdr::curr::{
    self, Int128Parts, Int256Parts, Limits, PublicKey, ReadXdr, ScBytes, ScError, ScMap, ScString, ScSymbol, ScVec,
    UInt128Parts, UInt256Parts, Uint256, WriteXdr,
};
use vstd::prelude::*;

verus! {

/// How deep XDR forms may nest. A level of a value takes several of these.
pub const DEFAULT_XDR_RW_DEPTH_LIMIT: u32 = 500;

/// What can be wrong with an XDR form: it nests too deep, or it is not the form
/// of a value.
#[derive(Clone, Copy, PartialEq, Eq, Structural, Debug)]
pub enum XdrFault {
    TooDeep,
    Malformed,
}

/// A value of the XDR crate.
#[verifier::external_type_specification]
#[verifier::external_body]
pub struct ExXdrVal(XdrVal);

/// A map entry of the XDR crate.
#[verifier::external_type_specification]
#[verifier::external_body]
pub struct ExXdrEntry(XdrEntry);

/// What the value denotes that bytes are the XDR form of, within a depth.
pub uninterp spec fn tree_of_xdr(bytes: Seq<u8>, depth: u32) -> Result<Deep, XdrFault>;

/// The XDR form, within a depth, of a value that denotes a thing.
pub uninterp spec fn xdr_of_tree(d: Deep, depth: u32) -> Result<Seq<u8>, XdrFault>;

/// Calls `stellar_xdr::curr::ScVal::from_xdr`, with no more to be read than there
/// are bytes: the value that the bytes are the form of, or what is wrong with
/// them; which it is depends on the bytes and the depth alone. The forms of the
/// ledger's own keys and instances, and of absent vectors and maps, are no forms
/// of values. The depth is bounded because the reading recurses.
#[verifier::external_body]
pub(crate) fn scval_from_xdr(bytes: &[u8], depth: u32) -> (t: Result<ScVal, XdrFault>)
    requires
        depth <= DEFAULT_XDR_RW_DEPTH_LIMIT,
    ensures
        match (t, tree_of_xdr(bytes@, depth)) {
            (Ok(t), Ok(d)) => sc_deep(t) == d,
            (Err(e), Err(f)) => e == f,
            _ => false,
        },
{
    match XdrVal::from_xdr(bytes, Limits { depth, len: bytes.len() }) {
        Ok(v) => from_xdr_val(v).ok_or(XdrFault::Malformed),
        Err(curr::Error::DepthLimitExceeded) => Err(XdrFault::TooDeep),
        Err(_) => Err(XdrFault::Malformed),
    }
}

/// Calls `stellar_xdr::curr::ScVal::to_xdr`: the form of a value, or what is wrong
/// with the value; which it is depends on what the value denotes and on the depth
/// alone. What was written within a depth is read back within it. The nesting and
/// the depth are bounded because the writing recurses.
#[verifier::external_body]
pub(crate) fn scval_to_xdr(t: &ScVal, depth: u32) -> (bytes: Result<Vec<u8>, XdrFault>)
    requires
        depth <= DEFAULT_XDR_RW_DEPTH_LIMIT,
        nesting(sc_deep(*t)) <= DEFAULT_HOST_DEPTH_LIMIT,
    ensures
        match (bytes, xdr_of_tree(sc_deep(*t), depth)) {
            (Ok(b), Ok(s)) => b@ == s && tree_of_xdr(s, depth) == Ok::<Deep, XdrFault>(sc_deep(*t)),
            (Err(e), Err(f)) => e == f,
            _ => false,
        },
{
    let v = to_xdr_val(t).ok_or(XdrFault::Malformed)?;
    match v.to_xdr(Limits::depth(depth)) {
        Ok(b) => Ok(b),
        Err(curr::Error::DepthLimitExceeded) => Err(XdrFault::TooDeep),
        Err(_) => Err(XdrFault::Malformed),
    }
}

/// Converts a value of the XDR crate, for `scval_from_xdr`, which says what comes
/// of it.
#[verifier::external_body]
fn from_xdr_val(v: XdrVal) -> (t: Option<ScVal>) {
    match v {
        XdrVal::Bytes(s) => Some(ScVal::Bytes(s.0.into())),
        XdrVal::String(s) => Some(ScVal::Text(s.0.into())),
        XdrVal::Symbol(s) => Some(ScVal::Symbol(s.0.into())),
        XdrVal::Vec(Some(s)) => {
            Some(ScVal::ScVec(s.0.into_vec().into_iter().map(from_xdr_val).collect::<Option<Vec<ScVal>>>()?))
        },
        XdrVal::Map(Some(m)) => {
            Some(ScVal::ScMap(m.0.into_vec().into_iter().map(from_xdr_entry).collect::<Option<Vec<ScMapEntry>>>()?))
        },
        other => from_xdr_small(other),
    }
}

/// Converts a map entry of the XDR crate, for `scval_from_xdr`.
#[verifier::external_body]
fn from_xdr_entry(e: XdrEntry) -> (t: Option<ScMapEntry>) {
    Some(ScMapEntry { key: from_xdr_val(e.key)?, val: from_xdr_val(e.val)? })
}

/// Converts a value of the XDR crate of up to 64 bits, for `scval_from_xdr`.
#[verifier::external_body]
fn from_xdr_small(v: XdrVal) -> (t: Option<ScVal>) {
    match v {
        XdrVal::Bool(b) => Some(ScVal::Bool(b)),
        XdrVal::Void => Some(ScVal::Void),
        XdrVal::U32(x) => Some(ScVal::U32(x)),
        XdrVal::I32(x) => Some(ScVal::I32(x)),
        XdrVal::U64(x) => Some(ScVal::U64(x)),
        XdrVal::I64(x) => Some(ScVal::I64(x)),
        XdrVal::Timepoint(x) => Some(ScVal::Timepoint(x.0)),
        XdrVal::Duration(x) => Some(ScVal::Duration(x.0)),
        other => from_xdr_wide(other),
    }
}

/// Converts a wide number or an address of the XDR crate, for `scval_from_xdr`.
#[verifier::external_body]
fn from_xdr_wide(v: XdrVal) -> (t: Option<ScVal>) {
    match v {
        XdrVal::U128(p) => Some(ScVal::U128(u128_from_pieces(p.hi, p.lo))),
        XdrVal::I128(p) => Some(ScVal::I128(i128_from_pieces(p.hi, p.lo))),
        XdrVal::U256(p) => {
            let (hi, lo) = (u128_from_pieces(p.hi_hi, p.hi_lo), u128_from_pieces(p.lo_hi, p.lo_lo));
            Some(ScVal::U256(U256 { hi, lo }))
        },
        XdrVal::I256(p) => {
            let (hi, lo) = (i128_from_pieces(p.hi_hi, p.hi_lo), u128_from_pieces(p.lo_hi, p.lo_lo));
            Some(ScVal::I256(I256 { hi, lo }))
        },
        other => from_xdr_address(other),
    }
}

/// Converts an address of the XDR crate, for `scval_from_xdr`.
#[verifier::external_body]
fn from_xdr_address(v: XdrVal) -> (t: Option<ScVal>) {
    match v {
        XdrVal::Address(curr::ScAddress::Account(curr::AccountId(PublicKey::PublicKeyTypeEd25519(k)))) => {
            let (hi, lo) = Word256::from_be_bytes(k.0).into_words();
            Some(ScVal::Address(ScAddress::Account(AccountId(U256 { hi, lo }))))
        },
        XdrVal::Address(curr::ScAddress::Contract(h)) => {
            let (hi, lo) = Word256::from_be_bytes(h.0).into_words();
            Some(ScVal::Address(ScAddress::Contract(Hash32(U256 { hi, lo }))))
        },
        other => from_xdr_error(other),
    }
}

/// Converts an error value of the XDR crate, for `scval_from_xdr`.
#[verifier::external_body]
fn from_xdr_error(v: XdrVal) -> (t: Option<ScVal>) {
    let (type_, code) = match v {
        XdrVal::Error(ScError::Contract(c)) => (ScErrorType::Contract, c),
        XdrVal::Error(ScError::WasmVm(c)) => (ScErrorType::WasmVm, c as u32),
        XdrVal::Error(ScError::Context(c)) => (ScErrorType::Context, c as u32),
        XdrVal::Error(ScError::Storage(c)) => (ScErrorType::Storage, c as u32),
        XdrVal::Error(ScError::Object(c)) => (ScErrorType::Object, c as u32),
        other => return from_xdr_late_error(other),
    };
    Some(ScVal::Error(Error { type_, code }))
}

/// Converts an error value of one of the later types of the XDR crate, for
/// `scval_from_xdr`. What is left after that is no value.
#[verifier::external_body]
fn from_xdr_late_error(v: XdrVal) -> (t: Option<ScVal>) {
    let (type_, code) = match v {
        XdrVal::Error(ScError::Crypto(c)) => (ScErrorType::Crypto, c as u32),
        XdrVal::Error(ScError::Events(c)) => (ScErrorType::Events, c as u32),
        XdrVal::Error(ScError::Budget(c)) => (ScErrorType::Budget, c as u32),
        XdrVal::Error(ScError::Value(c)) => (ScErrorType::Value, c as u32),
        XdrVal::Error(ScError::Auth(c)) => (ScErrorType::Auth, c as u32),
        _ => return None,
    };
    Some(ScVal::Error(Error { type_, code }))
}

/// Converts a value to one of the XDR crate, for `scval_to_xdr`, which says what
/// comes of it.
#[verifier::external_body]
fn to_xdr_val(t: &ScVal) -> (v: Option<XdrVal>) {
    match t {
        ScVal::ScVec(s) => {
            let list = s.iter().map(to_xdr_val).collect::<Option<Vec<XdrVal>>>()?;
            Some(XdrVal::Vec(Some(ScVec(list.try_into().ok()?))))
        },
        ScVal::ScMap(m) => {
            let list = m.iter().map(to_xdr_entry).collect::<Option<Vec<XdrEntry>>>()?;
            Some(XdrVal::Map(Some(ScMap(list.try_into().ok()?))))
        },
        ScVal::Bytes(s) => Some(XdrVal::Bytes(ScBytes(s.clone().try_into().ok()?))),
        other => to_xdr_text(other),
    }
}

/// Converts a text to a value of the XDR crate, for `scval_to_xdr`.
#[verifier::external_body]
fn to_xdr_text(t: &ScVal) -> (v: Option<XdrVal>) {
    match t {
        ScVal::Text(s) => Some(XdrVal::String(ScString(s.clone().try_into().ok()?))),
        ScVal::Symbol(s) => Some(XdrVal::Symbol(ScSymbol(s.clone().try_into().ok()?))),
        other => to_xdr_small(other),
    }
}

/// Converts a map entry to one of the XDR crate, for `scval_to_xdr`.
#[verifier::external_body]
fn to_xdr_entry(e: &ScMapEntry) -> (v: Option<XdrEntry>) {
    Some(XdrEntry { key: to_xdr_val(&e.key)?, val: to_xdr_val(&e.val)? })
}

/// Converts a value of up to 64 bits to one of the XDR crate, for `scval_to_xdr`.
#[verifier::external_body]
fn to_xdr_small(t: &ScVal) -> (v: Option<XdrVal>) {
    match t {
        ScVal::Bool(b) => Some(XdrVal::Bool(*b)),
        ScVal::Void => Some(XdrVal::Void),
        ScVal::U32(x) => Some(XdrVal::U32(*x)),
        ScVal::I32(x) => Some(XdrVal::I32(*x)),
        ScVal::U64(x) => Some(XdrVal::U64(*x)),
        ScVal::I64(x) => Some(XdrVal::I64(*x)),
        ScVal::Timepoint(x) => Some(XdrVal::Timepoint(curr::TimePoint(*x))),
        ScVal::Duration(x) => Some(XdrVal::Duration(curr::Duration(*x))),
        ScVal::Error(e) => to_xdr_error(*e),
        other => to_xdr_wide(other),
    }
}

/// Converts a number of 128 bits or an address to a value of the XDR crate, for
/// `scval_to_xdr`.
#[verifier::external_body]
fn to_xdr_wide(t: &ScVal) -> (v: Option<XdrVal>) {
    match t {
        ScVal::U128(x) => Some(XdrVal::U128(UInt128Parts { hi: u128_hi(*x), lo: u128_lo(*x) })),
        ScVal::I128(x) => Some(XdrVal::I128(Int128Parts { hi: i128_hi(*x), lo: i128_lo(*x) })),
        ScVal::Address(a) => to_xdr_address(*a),
        other => to_xdr_widest(other),
    }
}

/// Converts a number of 256 bits to a value of the XDR crate, for `scval_to_xdr`.
#[verifier::external_body]
fn to_xdr_widest(t: &ScVal) -> (v: Option<XdrVal>) {
    match t {
        ScVal::U256(x) => {
            let (hi_hi, hi_lo, lo_hi, lo_lo) = (u128_hi(x.hi), u128_lo(x.hi), u128_hi(x.lo), u128_lo(x.lo));
            Some(XdrVal::U256(UInt256Parts { hi_hi, hi_lo, lo_hi, lo_lo }))
        },
        ScVal::I256(x) => {
            let (hi_hi, hi_lo, lo_hi, lo_lo) = (i128_hi(x.hi), i128_lo(x.hi), u128_hi(x.lo), u128_lo(x.lo));
            Some(XdrVal::I256(Int256Parts { hi_hi, hi_lo, lo_hi, lo_lo }))
        },
        _ => None,
    }
}

/// Converts an address to a value of the XDR crate, for `scval_to_xdr`.
#[verifier::external_body]
fn to_xdr_address(a: ScAddress) -> (v: Option<XdrVal>) {
    Some(XdrVal::Address(match a {
        ScAddress::Account(a) => {
            let key = Uint256(Word256::from_words(a.0.hi, a.0.lo).to_be_bytes());
            curr::ScAddress::Account(curr::AccountId(PublicKey::PublicKeyTypeEd25519(key)))
        },
        ScAddress::Contract(c) => {
            curr::ScAddress::Contract(curr::Hash(Word256::from_words(c.0.hi, c.0.lo).to_be_bytes()))
        },
    }))
}

/// Converts an error value to one of the XDR crate, for `scval_to_xdr`.
#[verifier::external_body]
fn to_xdr_error(e: Error) -> (v: Option<XdrVal>) {
    let code = i32::try_from(e.code).ok().and_then(|c| curr::ScErrorCode::try_from(c).ok());
    Some(XdrVal::Error(match e.type_ {
        ScErrorType::Contract => ScError::Contract(e.code),
        ScErrorType::WasmVm => ScError::WasmVm(code?),
        ScErrorType::Context => ScError::Context(code?),
        ScErrorType::Storage => ScError::Storage(code?),
        ScErrorType::Object => ScError::Object(code?),
        ScErrorType::Crypto => ScError::Crypto(code?),
        ScErrorType::Events => ScError::Events(code?),
        ScErrorType::Budget => ScError::Budget(code?),
        ScErrorType::Value => ScError::Value(code?),
        ScErrorType::Auth => ScError::Auth(code?),
    }))
}

/// The value that bytes are the XDR form of.
pub fn read_scval(bytes: &[u8]) -> (t: Result<ScVal, XdrFault>)
    ensures
        match (t, tree_of_xdr(bytes@, DEFAULT_XDR_RW_DEPTH_LIMIT)) {
            (Ok(t), Ok(d)) => sc_deep(t) == d,
            (Err(e), Err(f)) => e == f,
            _ => false,
        },
{
    scval_from_xdr(bytes, DEFAULT_XDR_RW_DEPTH_LIMIT)
}

} // verus!
