//! Numbers as objects, their pieces and their bytes, and 256-bit arithmetic.

use crate::bignum::{
    be_bytes, fits_i256, fits_u256, from_be, from_pieces, i128_from_pieces, i128_hi, i128_lo, i256_checked_add,
    i256_checked_div, i256_checked_mul, i256_checked_pow, i256_checked_shl, i256_checked_shr, i256_checked_sub,
    i256_from_be_bytes, i256_from_pieces, i256_into_pieces, i256_to_be_bytes, lemma_be_bytes_len, truncated_div, two128,
    two256, two64, u128_from_pieces, u128_hi, u128_lo, u256_checked_add, u256_checked_div, u256_checked_mul,
    u256_checked_pow, u256_checked_shl, u256_checked_shr, u256_checked_sub, u256_from_be_bytes, u256_from_pieces,
    u256_into_pieces, u256_to_be_bytes, wrap_i256, I256, U256,
};
use crate::budget::ContractCostType;
use crate::error::{bare, bare_error, Fault, HostError, ScErrorCode, ScErrorType};
use crate::host::{charge, fails, runs_out, Host};
use crate::host_convert::{adds, num_val, sets_objs};
use crate::host_object::{
    after_visit, bytes_handle, duration_handle, gives_up, i128_handle, i256_handle, i64_handle, looks_at, stores,
    timepoint_handle, u128_handle, u256_handle, u64_handle, visit,
};
use crate::model::{Hash32, BlobKind, NumKind, ObjModel};
use crate::val::{
    BytesObject, DurationObject, I128Object, I256Object, I256Val, I64Object, ObjectTag, TimepointObject, U128Object,
    U256Object, U256Val, U64Object, U64Val, Val,
};
use vstd::arithmetic::power::pow;
use vstd::arithmetic::power2::pow2;
use vstd::prelude::*;

verus! {

/// The fault of an arithmetic result that does not fit, or is none.
pub open spec fn arith_fault() -> Fault {
    (ScErrorType::Object, ScErrorCode::ArithDomain)
}

/// The fault of a byte string that has not the length that it must have.
pub open spec fn size_fault() -> Fault {
    (ScErrorType::Object, ScErrorCode::UnexpectedSize)
}

/// Two to the power of 192.
pub open spec fn two192() -> int {
    0x1_0000_0000_0000_0000_0000_0000_0000_0000_0000_0000_0000_0000int
}

/// The number that an unsigned 256-bit value is, or what is wrong with its
/// handle.
pub open spec fn u256_of(objs: Seq<ObjModel>, v: U256Val) -> Result<int, Fault> {
    match v {
        U256Val::Small(x) => Ok(x as int),
        U256Val::Object(o) => match visit(objs, o.handle, ObjectTag::U256Object) {
            Ok(ObjModel::Num(_, x)) => Ok(x),
            Ok(_) => Err((ScErrorType::Object, ScErrorCode::UnexpectedType)),
            Err(f) => Err(f),
        },
    }
}

/// The number that a signed 256-bit value is, or what is wrong with its handle.
pub open spec fn i256_of(objs: Seq<ObjModel>, v: I256Val) -> Result<int, Fault> {
    match v {
        I256Val::Small(x) => Ok(x as int),
        I256Val::Object(o) => match visit(objs, o.handle, ObjectTag::I256Object) {
            Ok(ObjModel::Num(_, x)) => Ok(x),
            Ok(_) => Err((ScErrorType::Object, ScErrorCode::UnexpectedType)),
            Err(f) => Err(f),
        },
    }
}

/// An unsigned 256-bit value is read: looking up an object is charged for.
pub open spec fn reads_u256(host: Host, v: U256Val) -> (Host, Result<int, HostError>) {
    match v {
        U256Val::Small(x) => (host, Ok(x as int)),
        U256Val::Object(o) => match looks_at(host, o.handle, ObjectTag::U256Object) {
            (h, Err(e)) => (h, Err(e)),
            (h, Ok(obj)) => (h, Ok(obj->Num_1)),
        },
    }
}

/// A signed 256-bit value is read, likewise.
pub open spec fn reads_i256(host: Host, v: I256Val) -> (Host, Result<int, HostError>) {
    match v {
        I256Val::Small(x) => (host, Ok(x as int)),
        I256Val::Object(o) => match looks_at(host, o.handle, ObjectTag::I256Object) {
            (h, Err(e)) => (h, Err(e)),
            (h, Ok(obj)) => (h, Ok(obj->Num_1)),
        },
    }
}

/// A value and, if there is one, another are read.
pub open spec fn reads_u256s(host: Host, a: U256Val, b: Option<U256Val>) -> (Host, Option<HostError>) {
    match reads_u256(host, a) {
        (h, Err(e)) => (h, Some(e)),
        (h, Ok(_)) => match b {
            None => (h, None),
            Some(b) => match reads_u256(h, b) {
                (h, Err(e)) => (h, Some(e)),
                (h, Ok(_)) => (h, None),
            },
        },
    }
}

pub open spec fn reads_i256s(host: Host, a: I256Val, b: Option<I256Val>) -> (Host, Option<HostError>) {
    match reads_i256(host, a) {
        (h, Err(e)) => (h, Some(e)),
        (h, Ok(_)) => match b {
            None => (h, None),
            Some(b) => match reads_i256(h, b) {
                (h, Err(e)) => (h, Some(e)),
                (h, Ok(_)) => (h, None),
            },
        },
    }
}

pub open spec fn u64_result(res: Result<U64Val, HostError>) -> Result<Val, HostError> {
    match res {
        Ok(v) => Ok(v.to_val()),
        Err(e) => Err(e),
    }
}

pub open spec fn u256_result(res: Result<U256Val, HostError>) -> Result<Val, HostError> {
    match res {
        Ok(v) => Ok(v.to_val()),
        Err(e) => Err(e),
    }
}

pub open spec fn i256_result(res: Result<I256Val, HostError>) -> Result<Val, HostError> {
    match res {
        Ok(v) => Ok(v.to_val()),
        Err(e) => Err(e),
    }
}

/// An operation on unsigned 256-bit values: it is charged for, both arguments
/// are looked up, and the result, if there is one, is made into a value.
pub open spec fn u256_operation(
    pre: Host,
    post: Host,
    cost: ContractCostType,
    lhs: U256Val,
    rhs: Option<U256Val>,
    out: Option<int>,
    res: Result<U256Val, HostError>,
) -> bool {
    let charged = charge(pre, cost, None);
    if charged.1 is Err {
        runs_out(charged, post, res)
    } else {
        match (reads_u256s(charged.0, lhs, rhs), out) {
            ((h, Some(e)), _) => gives_up(h, post, res, e),
            ((h, None), None) => fails(h, post, res, arith_fault()),
            ((h, None), Some(x)) => adds(h, post, u256_result(res), num_val(pre.objs(), NumKind::U256, x)),
        }
    }
}

/// An operation on signed 256-bit values, likewise.
pub open spec fn i256_operation(
    pre: Host,
    post: Host,
    cost: ContractCostType,
    lhs: I256Val,
    rhs: Option<I256Val>,
    out: Option<int>,
    res: Result<I256Val, HostError>,
) -> bool {
    let charged = charge(pre, cost, None);
    if charged.1 is Err {
        runs_out(charged, post, res)
    } else {
        match (reads_i256s(charged.0, lhs, rhs), out) {
            ((h, Some(e)), _) => gives_up(h, post, res, e),
            ((h, None), None) => fails(h, post, res, arith_fault()),
            ((h, None), Some(x)) => adds(h, post, i256_result(res), num_val(pre.objs(), NumKind::I256, x)),
        }
    }
}

pub open spec fn if_u256(x: int) -> Option<int> {
    if fits_u256(x) {
        Some(x)
    } else {
        None
    }
}

pub open spec fn if_i256(x: int) -> Option<int> {
    if fits_i256(x) {
        Some(x)
    } else {
        None
    }
}

/// The pieces of a number, by division.
pub proof fn lemma_pieces(x: int, a: int, b: u64, c: u64, d: u64)
    requires
        x == from_pieces(a, b as int, c as int, d as int),
    ensures
        a == x / two192(),
        b == (x / two128()) % two64(),
        c == (x / two64()) % two64(),
        d == x % two64(),
{
    let lo = c * two64() + d;
    let hi = a * two64() + b;
    assert(x / two128() == hi && x % two128() == lo) by {
        lemma_split(x, hi, lo, two128());
    }
    assert(hi % two64() == b) by {
        lemma_split(hi, a, b as int, two64());
    }
    assert(x / two192() == a) by {
        lemma_split(x, a, b * two128() + lo, two192());
    }
    assert(x / two64() == hi * two64() + c && x % two64() == d) by {
        lemma_split(x, hi * two64() + c, d as int, two64());
    }
    assert((hi * two64() + c) % two64() == c) by {
        lemma_split(hi * two64() + c, hi, c as int, two64());
    }
}

proof fn lemma_split(x: int, q: int, r: int, m: int)
    requires
        x == q * m + r,
        0 <= r < m,
    ensures
        x / m == q,
        x % m == r,
{
    vstd::arithmetic::div_mod::lemma_fundamental_div_mod_converse(x, m, q, r);
}

impl Host {
    /// An unsigned 64-bit number as an object.
    pub fn obj_from_u64(&mut self, x: u64) -> (res: Result<U64Object, HostError>)
        requires
            old(self).wf(),
        ensures
            final(self).wf(),
            does_obj_from_u64(*old(self), *final(self), x, res),
    {
        self.add_u64(x)
    }

    pub fn obj_to_u64(&mut self, obj: U64Object) -> (res: Result<u64, HostError>)
        requires
            old(self).wf(),
        ensures
            final(self).wf(),
            does_obj_to_u64(*old(self), *final(self), obj, res),
    {
        self.charge_visit()?;
        self.visit_u64(obj)
    }

    /// A signed 64-bit number as an object.
    pub fn obj_from_i64(&mut self, x: i64) -> (res: Result<I64Object, HostError>)
        requires
            old(self).wf(),
        ensures
            final(self).wf(),
            does_obj_from_i64(*old(self), *final(self), x, res),
    {
        self.add_i64(x)
    }

    pub fn obj_to_i64(&mut self, obj: I64Object) -> (res: Result<i64, HostError>)
        requires
            old(self).wf(),
        ensures
            final(self).wf(),
            does_obj_to_i64(*old(self), *final(self), obj, res),
    {
        self.charge_visit()?;
        self.visit_i64(obj)
    }

    /// A point in time as an object.
    pub fn timepoint_obj_from_u64(&mut self, x: u64) -> (res: Result<TimepointObject, HostError>)
        requires
            old(self).wf(),
        ensures
            final(self).wf(),
            does_timepoint_obj_from_u64(*old(self), *final(self), x, res),
    {
        self.add_timepoint(x)
    }

    pub fn timepoint_obj_to_u64(&mut self, obj: TimepointObject) -> (res: Result<u64, HostError>)
        requires
            old(self).wf(),
        ensures
            final(self).wf(),
            does_timepoint_obj_to_u64(*old(self), *final(self), obj, res),
    {
        self.charge_visit()?;
        self.visit_timepoint(obj)
    }

    /// A length of time as an object.
    pub fn duration_obj_from_u64(&mut self, x: u64) -> (res: Result<DurationObject, HostError>)
        requires
            old(self).wf(),
        ensures
            final(self).wf(),
            does_duration_obj_from_u64(*old(self), *final(self), x, res),
    {
        self.add_duration(x)
    }

    pub fn duration_obj_to_u64(&mut self, obj: DurationObject) -> (res: Result<u64, HostError>)
        requires
            old(self).wf(),
        ensures
            final(self).wf(),
            does_duration_obj_to_u64(*old(self), *final(self), obj, res),
    {
        self.charge_visit()?;
        self.visit_duration(obj)
    }

    /// An unsigned 128-bit number as an object, of its two halves.
    pub fn obj_from_u128_pieces(&mut self, hi: u64, lo: u64) -> (res: Result<U128Object, HostError>)
        requires
            old(self).wf(),
        ensures
            final(self).wf(),
            does_obj_from_u128_pieces(*old(self), *final(self), hi, lo, res),
    {
        self.add_u128(u128_from_pieces(hi, lo))
    }

    pub fn obj_to_u128_lo64(&mut self, obj: U128Object) -> (res: Result<u64, HostError>)
        requires
            old(self).wf(),
        ensures
            final(self).wf(),
            does_obj_to_u128_lo64(*old(self), *final(self), obj, res),
    {
        self.charge_visit()?;
        Ok(u128_lo(self.visit_u128(obj)?))
    }

    pub fn obj_to_u128_hi64(&mut self, obj: U128Object) -> (res: Result<u64, HostError>)
        requires
            old(self).wf(),
        ensures
            final(self).wf(),
            does_obj_to_u128_hi64(*old(self), *final(self), obj, res),
    {
        self.charge_visit()?;
        Ok(u128_hi(self.visit_u128(obj)?))
    }

    /// A signed 128-bit number as an object, of its two halves.
    pub fn obj_from_i128_pieces(&mut self, hi: i64, lo: u64) -> (res: Result<I128Object, HostError>)
        requires
            old(self).wf(),
        ensures
            final(self).wf(),
            does_obj_from_i128_pieces(*old(self), *final(self), hi, lo, res),
    {
        self.add_i128(i128_from_pieces(hi, lo))
    }

    pub fn obj_to_i128_lo64(&mut self, obj: I128Object) -> (res: Result<u64, HostError>)
        requires
            old(self).wf(),
        ensures
            final(self).wf(),
            does_obj_to_i128_lo64(*old(self), *final(self), obj, res),
    {
        self.charge_visit()?;
        Ok(i128_lo(self.visit_i128(obj)?))
    }

    pub fn obj_to_i128_hi64(&mut self, obj: I128Object) -> (res: Result<i64, HostError>)
        requires
            old(self).wf(),
        ensures
            final(self).wf(),
            does_obj_to_i128_hi64(*old(self), *final(self), obj, res),
    {
        self.charge_visit()?;
        Ok(i128_hi(self.visit_i128(obj)?))
    }

    /// An unsigned 256-bit number as an object, of its four pieces.
    pub fn obj_from_u256_pieces(&mut self, hi_hi: u64, hi_lo: u64, lo_hi: u64, lo_lo: u64) -> (res: Result<
        U256Object,
        HostError,
    >)
        requires
            old(self).wf(),
        ensures
            final(self).wf(),
            does_obj_from_u256_pieces(*old(self), *final(self), hi_hi, hi_lo, lo_hi, lo_lo, res),
    {
        self.add_u256(u256_from_pieces(hi_hi, hi_lo, lo_hi, lo_lo))
    }

    pub fn obj_to_u256_hi_hi(&mut self, obj: U256Object) -> (res: Result<u64, HostError>)
        requires
            old(self).wf(),
        ensures
            final(self).wf(),
            does_obj_to_u256_hi_hi(*old(self), *final(self), obj, res),
    {
        self.charge_visit()?;
        let x = self.visit_u256(obj)?;
        let pieces = u256_into_pieces(x);
        proof {
            lemma_pieces(x@, pieces.0 as int, pieces.1, pieces.2, pieces.3);
        }
        Ok(pieces.0)
    }

    pub fn obj_to_u256_hi_lo(&mut self, obj: U256Object) -> (res: Result<u64, HostError>)
        requires
            old(self).wf(),
        ensures
            final(self).wf(),
            does_obj_to_u256_hi_lo(*old(self), *final(self), obj, res),
    {
        self.charge_visit()?;
        let x = self.visit_u256(obj)?;
        let pieces = u256_into_pieces(x);
        proof {
            lemma_pieces(x@, pieces.0 as int, pieces.1, pieces.2, pieces.3);
        }
        Ok(pieces.1)
    }

    pub fn obj_to_u256_lo_hi(&mut self, obj: U256Object) -> (res: Result<u64, HostError>)
        requires
            old(self).wf(),
        ensures
            final(self).wf(),
            does_obj_to_u256_lo_hi(*old(self), *final(self), obj, res),
    {
        self.charge_visit()?;
        let x = self.visit_u256(obj)?;
        let pieces = u256_into_pieces(x);
        proof {
            lemma_pieces(x@, pieces.0 as int, pieces.1, pieces.2, pieces.3);
        }
        Ok(pieces.2)
    }

    pub fn obj_to_u256_lo_lo(&mut self, obj: U256Object) -> (res: Result<u64, HostError>)
        requires
            old(self).wf(),
        ensures
            final(self).wf(),
            does_obj_to_u256_lo_lo(*old(self), *final(self), obj, res),
    {
        self.charge_visit()?;
        let x = self.visit_u256(obj)?;
        let pieces = u256_into_pieces(x);
        proof {
            lemma_pieces(x@, pieces.0 as int, pieces.1, pieces.2, pieces.3);
        }
        Ok(pieces.3)
    }

    /// The unsigned 256-bit number that 32 bytes stand for, the most
    /// significant first.
    pub fn u256_val_from_be_bytes(&mut self, bytes: BytesObject) -> (res: Result<U256Val, HostError>)
        requires
            old(self).wf(),
        ensures
            final(self).wf(),
            does_u256_val_from_be_bytes(*old(self), *final(self), bytes, res),
    {
        self.charge_visit()?;
        let s = self.visit_bytes(bytes)?;
        self.check_length(s.as_slice(), 32)?;
        let x = u256_from_be_bytes(s.as_slice());
        self.u256_val(x)
    }

    /// The 32 bytes of an unsigned 256-bit number, the most significant
    /// first.
    pub fn u256_val_to_be_bytes(&mut self, val: U256Val) -> (res: Result<BytesObject, HostError>)
        requires
            old(self).wf(),
        ensures
            final(self).wf(),
            does_u256_val_to_be_bytes(*old(self), *final(self), val, res),
    {
        let x = self.u256_from_val(val)?;
        let bytes = u256_to_be_bytes(x);
        proof {
            lemma_be_bytes_len(x@, 32);
        }
        self.add_bytes(bytes)
    }

    /// Makes a value of an unsigned 256-bit number.
    pub(crate) fn u256_val(&mut self, x: U256) -> (res: Result<U256Val, HostError>)
        requires
            old(self).wf(),
        ensures
            final(self).wf(),
            adds(*old(self), *final(self), u256_result(res), num_val(old(self).objs(), NumKind::U256, x@)),
    {
        match self.u256_to_val(x)? {
            Val::U256Small(x) => Ok(U256Val::Small(x)),
            Val::Object(o) => Ok(U256Val::Object(U256Object { handle: o.handle })),
            _ => Ok(U256Val::Small(0)),
        }
    }

    fn u256_from_val(&mut self, v: U256Val) -> (res: Result<U256, HostError>)
        requires
            old(self).wf(),
        ensures
            final(self).wf(),
            *final(self) == reads_u256(*old(self), v).0,
            match res {
                Ok(x) => {
                    &&& reads_u256(*old(self), v).1 == Ok::<int, HostError>(x@)
                    &&& u256_of(old(self).objs(), v) == Ok::<int, Fault>(x@)
                },
                Err(e) => reads_u256(*old(self), v).1 == Err::<int, HostError>(e),
            },
    {
        match v {
            U256Val::Small(x) => Ok(U256::from_u128(x as u128)),
            U256Val::Object(o) => {
                self.charge_visit()?;
                self.visit_u256(o)
            },
        }
    }

    /// The sum of two unsigned 256-bit numbers; fails where it does not fit.
    pub fn u256_add(&mut self, lhs: U256Val, rhs: U256Val) -> (res: Result<U256Val, HostError>)
        requires
            old(self).wf(),
        ensures
            final(self).wf(),
            does_u256_add(*old(self), *final(self), lhs, rhs, res),
    {
        self.charge_budget(ContractCostType::Int256AddSub, None)?;
        let a = self.u256_from_val(lhs)?;
        let b = self.u256_from_val(rhs)?;
        match u256_checked_add(a, b) {
            Some(x) => self.u256_val(x),
            None => Err(self.err(ScErrorType::Object, ScErrorCode::ArithDomain)),
        }
    }

    /// The difference of two unsigned 256-bit numbers; fails where it does not fit.
    pub fn u256_sub(&mut self, lhs: U256Val, rhs: U256Val) -> (res: Result<U256Val, HostError>)
        requires
            old(self).wf(),
        ensures
            final(self).wf(),
            does_u256_sub(*old(self), *final(self), lhs, rhs, res),
    {
        self.charge_budget(ContractCostType::Int256AddSub, None)?;
        let a = self.u256_from_val(lhs)?;
        let b = self.u256_from_val(rhs)?;
        match u256_checked_sub(a, b) {
            Some(x) => self.u256_val(x),
            None => Err(self.err(ScErrorType::Object, ScErrorCode::ArithDomain)),
        }
    }

    /// The product of two unsigned 256-bit numbers; fails where it does not fit.
    pub fn u256_mul(&mut self, lhs: U256Val, rhs: U256Val) -> (res: Result<U256Val, HostError>)
        requires
            old(self).wf(),
        ensures
            final(self).wf(),
            does_u256_mul(*old(self), *final(self), lhs, rhs, res),
    {
        self.charge_budget(ContractCostType::Int256Mul, None)?;
        let a = self.u256_from_val(lhs)?;
        let b = self.u256_from_val(rhs)?;
        match u256_checked_mul(a, b) {
            Some(x) => self.u256_val(x),
            None => Err(self.err(ScErrorType::Object, ScErrorCode::ArithDomain)),
        }
    }

    /// The quotient of two unsigned 256-bit numbers, its fraction dropped; fails where the divisor is zero.
    pub fn u256_div(&mut self, lhs: U256Val, rhs: U256Val) -> (res: Result<U256Val, HostError>)
        requires
            old(self).wf(),
        ensures
            final(self).wf(),
            does_u256_div(*old(self), *final(self), lhs, rhs, res),
    {
        self.charge_budget(ContractCostType::Int256Div, None)?;
        let a = self.u256_from_val(lhs)?;
        let b = self.u256_from_val(rhs)?;
        match u256_checked_div(a, b) {
            Some(x) => self.u256_val(x),
            None => Err(self.err(ScErrorType::Object, ScErrorCode::ArithDomain)),
        }
    }

    /// A power of an unsigned 256-bit number; fails where it does not fit.
    pub fn u256_pow(&mut self, lhs: U256Val, rhs: u32) -> (res: Result<U256Val, HostError>)
        requires
            old(self).wf(),
        ensures
            final(self).wf(),
            does_u256_pow(*old(self), *final(self), lhs, rhs, res),
    {
        self.charge_budget(ContractCostType::Int256Pow, None)?;
        let a = self.u256_from_val(lhs)?;
        match u256_checked_pow(a, rhs) {
            Some(x) => self.u256_val(x),
            None => Err(self.err(ScErrorType::Object, ScErrorCode::ArithDomain)),
        }
    }

    /// An unsigned 256-bit number shifted up, what leaves the range dropped; fails
    /// where the shift is not below 256.
    pub fn u256_shl(&mut self, lhs: U256Val, rhs: u32) -> (res: Result<U256Val, HostError>)
        requires
            old(self).wf(),
        ensures
            final(self).wf(),
            does_u256_shl(*old(self), *final(self), lhs, rhs, res),
    {
        self.charge_budget(ContractCostType::Int256Shift, None)?;
        let a = self.u256_from_val(lhs)?;
        match u256_checked_shl(a, rhs) {
            Some(x) => self.u256_val(x),
            None => Err(self.err(ScErrorType::Object, ScErrorCode::ArithDomain)),
        }
    }

    /// An unsigned 256-bit number shifted down; fails where the shift is
    /// not below 256.
    pub fn u256_shr(&mut self, lhs: U256Val, rhs: u32) -> (res: Result<U256Val, HostError>)
        requires
            old(self).wf(),
        ensures
            final(self).wf(),
            does_u256_shr(*old(self), *final(self), lhs, rhs, res),
    {
        self.charge_budget(ContractCostType::Int256Shift, None)?;
        let a = self.u256_from_val(lhs)?;
        match u256_checked_shr(a, rhs) {
            Some(x) => self.u256_val(x),
            None => Err(self.err(ScErrorType::Object, ScErrorCode::ArithDomain)),
        }
    }

    /// A signed 256-bit number as an object, of its four pieces.
    pub fn obj_from_i256_pieces(&mut self, hi_hi: i64, hi_lo: u64, lo_hi: u64, lo_lo: u64) -> (res: Result<
        I256Object,
        HostError,
    >)
        requires
            old(self).wf(),
        ensures
            final(self).wf(),
            does_obj_from_i256_pieces(*old(self), *final(self), hi_hi, hi_lo, lo_hi, lo_lo, res),
    {
        self.add_i256(i256_from_pieces(hi_hi, hi_lo, lo_hi, lo_lo))
    }

    pub fn obj_to_i256_hi_hi(&mut self, obj: I256Object) -> (res: Result<i64, HostError>)
        requires
            old(self).wf(),
        ensures
            final(self).wf(),
            does_obj_to_i256_hi_hi(*old(self), *final(self), obj, res),
    {
        self.charge_visit()?;
        let x = self.visit_i256(obj)?;
        let pieces = i256_into_pieces(x);
        proof {
            lemma_pieces(x@, pieces.0 as int, pieces.1, pieces.2, pieces.3);
        }
        Ok(pieces.0)
    }

    pub fn obj_to_i256_hi_lo(&mut self, obj: I256Object) -> (res: Result<u64, HostError>)
        requires
            old(self).wf(),
        ensures
            final(self).wf(),
            does_obj_to_i256_hi_lo(*old(self), *final(self), obj, res),
    {
        self.charge_visit()?;
        let x = self.visit_i256(obj)?;
        let pieces = i256_into_pieces(x);
        proof {
            lemma_pieces(x@, pieces.0 as int, pieces.1, pieces.2, pieces.3);
        }
        Ok(pieces.1)
    }

    pub fn obj_to_i256_lo_hi(&mut self, obj: I256Object) -> (res: Result<u64, HostError>)
        requires
            old(self).wf(),
        ensures
            final(self).wf(),
            does_obj_to_i256_lo_hi(*old(self), *final(self), obj, res),
    {
        self.charge_visit()?;
        let x = self.visit_i256(obj)?;
        let pieces = i256_into_pieces(x);
        proof {
            lemma_pieces(x@, pieces.0 as int, pieces.1, pieces.2, pieces.3);
        }
        Ok(pieces.2)
    }

    pub fn obj_to_i256_lo_lo(&mut self, obj: I256Object) -> (res: Result<u64, HostError>)
        requires
            old(self).wf(),
        ensures
            final(self).wf(),
            does_obj_to_i256_lo_lo(*old(self), *final(self), obj, res),
    {
        self.charge_visit()?;
        let x = self.visit_i256(obj)?;
        let pieces = i256_into_pieces(x);
        proof {
            lemma_pieces(x@, pieces.0 as int, pieces.1, pieces.2, pieces.3);
        }
        Ok(pieces.3)
    }

    /// The signed 256-bit number that 32 bytes stand for in two's complement, the most
    /// significant first.
    pub fn i256_val_from_be_bytes(&mut self, bytes: BytesObject) -> (res: Result<I256Val, HostError>)
        requires
            old(self).wf(),
        ensures
            final(self).wf(),
            does_i256_val_from_be_bytes(*old(self), *final(self), bytes, res),
    {
        self.charge_visit()?;
        let s = self.visit_bytes(bytes)?;
        self.check_length(s.as_slice(), 32)?;
        let x = i256_from_be_bytes(s.as_slice());
        match self.i256_val(x) {
            Ok(v) => Ok(v),
            Err(_) => Err(bare(ScErrorType::Value, ScErrorCode::UnexpectedType)),
        }
    }

    /// The 32 bytes of a signed 256-bit number in two's complement, the most significant
    /// first.
    pub fn i256_val_to_be_bytes(&mut self, val: I256Val) -> (res: Result<BytesObject, HostError>)
        requires
            old(self).wf(),
        ensures
            final(self).wf(),
            does_i256_val_to_be_bytes(*old(self), *final(self), val, res),
    {
        let x = self.i256_from_val(val)?;
        let bytes = i256_to_be_bytes(x);
        proof {
            lemma_be_bytes_len(x@, 32);
        }
        self.add_bytes(bytes)
    }

    /// Makes a value of a signed 256-bit number.
    pub(crate) fn i256_val(&mut self, x: I256) -> (res: Result<I256Val, HostError>)
        requires
            old(self).wf(),
        ensures
            final(self).wf(),
            adds(*old(self), *final(self), i256_result(res), num_val(old(self).objs(), NumKind::I256, x@)),
    {
        match self.i256_to_val(x)? {
            Val::I256Small(x) => Ok(I256Val::Small(x)),
            Val::Object(o) => Ok(I256Val::Object(I256Object { handle: o.handle })),
            _ => Ok(I256Val::Small(0)),
        }
    }

    fn i256_from_val(&mut self, v: I256Val) -> (res: Result<I256, HostError>)
        requires
            old(self).wf(),
        ensures
            final(self).wf(),
            *final(self) == reads_i256(*old(self), v).0,
            match res {
                Ok(x) => {
                    &&& reads_i256(*old(self), v).1 == Ok::<int, HostError>(x@)
                    &&& i256_of(old(self).objs(), v) == Ok::<int, Fault>(x@)
                },
                Err(e) => reads_i256(*old(self), v).1 == Err::<int, HostError>(e),
            },
    {
        match v {
            I256Val::Small(x) => Ok(I256::from_i128(x as i128)),
            I256Val::Object(o) => {
                self.charge_visit()?;
                self.visit_i256(o)
            },
        }
    }

    /// The sum of two signed 256-bit numbers; fails where it does not fit.
    pub fn i256_add(&mut self, lhs: I256Val, rhs: I256Val) -> (res: Result<I256Val, HostError>)
        requires
            old(self).wf(),
        ensures
            final(self).wf(),
            does_i256_add(*old(self), *final(self), lhs, rhs, res),
    {
        self.charge_budget(ContractCostType::Int256AddSub, None)?;
        let a = self.i256_from_val(lhs)?;
        let b = self.i256_from_val(rhs)?;
        match i256_checked_add(a, b) {
            Some(x) => self.i256_val(x),
            None => Err(self.err(ScErrorType::Object, ScErrorCode::ArithDomain)),
        }
    }

    /// The difference of two signed 256-bit numbers; fails where it does not fit.
    pub fn i256_sub(&mut self, lhs: I256Val, rhs: I256Val) -> (res: Result<I256Val, HostError>)
        requires
            old(self).wf(),
        ensures
            final(self).wf(),
            does_i256_sub(*old(self), *final(self), lhs, rhs, res),
    {
        self.charge_budget(ContractCostType::Int256AddSub, None)?;
        let a = self.i256_from_val(lhs)?;
        let b = self.i256_from_val(rhs)?;
        match i256_checked_sub(a, b) {
            Some(x) => self.i256_val(x),
            None => Err(self.err(ScErrorType::Object, ScErrorCode::ArithDomain)),
        }
    }

    /// The product of two signed 256-bit numbers; fails where it does not fit.
    pub fn i256_mul(&mut self, lhs: I256Val, rhs: I256Val) -> (res: Result<I256Val, HostError>)
        requires
            old(self).wf(),
        ensures
            final(self).wf(),
            does_i256_mul(*old(self), *final(self), lhs, rhs, res),
    {
        self.charge_budget(ContractCostType::Int256Mul, None)?;
        let a = self.i256_from_val(lhs)?;
        let b = self.i256_from_val(rhs)?;
        match i256_checked_mul(a, b) {
            Some(x) => self.i256_val(x),
            None => Err(self.err(ScErrorType::Object, ScErrorCode::ArithDomain)),
        }
    }

    /// The quotient of two signed 256-bit numbers, its fraction dropped; fails
    /// where the divisor is zero or it does not fit.
    pub fn i256_div(&mut self, lhs: I256Val, rhs: I256Val) -> (res: Result<I256Val, HostError>)
        requires
            old(self).wf(),
        ensures
            final(self).wf(),
            does_i256_div(*old(self), *final(self), lhs, rhs, res),
    {
        self.charge_budget(ContractCostType::Int256Div, None)?;
        let a = self.i256_from_val(lhs)?;
        let b = self.i256_from_val(rhs)?;
        match i256_checked_div(a, b) {
            Some(x) => self.i256_val(x),
            None => Err(self.err(ScErrorType::Object, ScErrorCode::ArithDomain)),
        }
    }

    /// A power of a signed 256-bit number; fails where it does not fit.
    pub fn i256_pow(&mut self, lhs: I256Val, rhs: u32) -> (res: Result<I256Val, HostError>)
        requires
            old(self).wf(),
        ensures
            final(self).wf(),
            does_i256_pow(*old(self), *final(self), lhs, rhs, res),
    {
        self.charge_budget(ContractCostType::Int256Pow, None)?;
        let a = self.i256_from_val(lhs)?;
        match i256_checked_pow(a, rhs) {
            Some(x) => self.i256_val(x),
            None => Err(self.err(ScErrorType::Object, ScErrorCode::ArithDomain)),
        }
    }

    /// A signed 256-bit number shifted up, what leaves the range dropped; fails
    /// where the shift is not below 256.
    pub fn i256_shl(&mut self, lhs: I256Val, rhs: u32) -> (res: Result<I256Val, HostError>)
        requires
            old(self).wf(),
        ensures
            final(self).wf(),
            does_i256_shl(*old(self), *final(self), lhs, rhs, res),
    {
        self.charge_budget(ContractCostType::Int256Shift, None)?;
        let a = self.i256_from_val(lhs)?;
        match i256_checked_shl(a, rhs) {
            Some(x) => self.i256_val(x),
            None => Err(self.err(ScErrorType::Object, ScErrorCode::ArithDomain)),
        }
    }

    /// A signed 256-bit number shifted down, its sign kept; fails where the shift is
    /// not below 256.
    pub fn i256_shr(&mut self, lhs: I256Val, rhs: u32) -> (res: Result<I256Val, HostError>)
        requires
            old(self).wf(),
        ensures
            final(self).wf(),
            does_i256_shr(*old(self), *final(self), lhs, rhs, res),
    {
        self.charge_budget(ContractCostType::Int256Shift, None)?;
        let a = self.i256_from_val(lhs)?;
        match i256_checked_shr(a, rhs) {
            Some(x) => self.i256_val(x),
            None => Err(self.err(ScErrorType::Object, ScErrorCode::ArithDomain)),
        }
    }

    /// Makes a value of an unsigned 64-bit number.
    pub(crate) fn u64_val(&mut self, x: u64) -> (res: Result<U64Val, HostError>)
        requires
            old(self).wf(),
        ensures
            final(self).wf(),
            adds(*old(self), *final(self), u64_result(res), num_val(old(self).objs(), NumKind::U64, x as int)),
    {
        match self.u64_to_val(x)? {
            Val::U64Small(x) => Ok(U64Val::Small(x)),
            Val::Object(o) => Ok(U64Val::Object(U64Object { handle: o.handle })),
            _ => Ok(U64Val::Small(0)),
        }
    }

    /// Fails unless a byte string has the length that it must have.
    pub(crate) fn check_length(&self, s: &[u8], len: usize) -> (res: Result<(), HostError>)
        ensures
            res == if s@.len() == len {
                Ok::<(), HostError>(())
            } else {
                Err(self.spec_err(size_fault()))
            },
    {
        if s.len() == len {
            Ok(())
        } else {
            Err(self.err(ScErrorType::Object, ScErrorCode::UnexpectedSize))
        }
    }

    /// The number of a byte string of 32 bytes.
    pub(crate) fn u256_from_bytesobj_input(&self, obj: BytesObject) -> (res: Result<U256, HostError>)
        requires
            self.wf(),
        ensures
            match res {
                Ok(x) => bytes_as_number(self.objs(), obj) == Ok::<int, Fault>(x@),
                Err(e) => bytes_as_number(self.objs(), obj) matches Err(f) && e == self.spec_err(f),
            },
    {
        let s = self.visit_bytes(obj)?;
        self.check_length(s.as_slice(), 32)?;
        Ok(u256_from_be_bytes(s.as_slice()))
    }

    /// The hash that a byte string of 32 bytes is.
    pub(crate) fn hash_from_bytesobj_input(&self, obj: BytesObject) -> (res: Result<Hash32, HostError>)
        requires
            self.wf(),
        ensures
            match res {
                Ok(h) => bytes_as_number(self.objs(), obj) == Ok::<int, Fault>(h.0@),
                Err(e) => bytes_as_number(self.objs(), obj) matches Err(f) && e == self.spec_err(f),
            },
    {
        Ok(Hash32(self.u256_from_bytesobj_input(obj)?))
    }
}

/// A byte string of 32 bytes is read as a number: looking it up is charged for.
pub open spec fn reads_number(host: Host, obj: BytesObject) -> (Host, Result<int, HostError>) {
    after_visit(host, bytes_as_number(host.objs(), obj))
}

/// The number that a byte string object of 32 bytes stands for, or what is wrong
/// with it.
pub open spec fn bytes_as_number(objs: Seq<ObjModel>, obj: BytesObject) -> Result<int, Fault> {
    match visit(objs, obj.handle, ObjectTag::BytesObject) {
        Err(f) => Err(f),
        Ok(o) => if o->Blob_1.len() == 32 {
            Ok(from_be(o->Blob_1))
        } else {
            Err(size_fault())
        },
    }
}

/// What `u256_add` does.
pub open spec fn does_u256_add(
    pre: Host,
    post: Host,
    lhs: U256Val,
    rhs: U256Val,
    res: Result<U256Val, HostError>,
) -> bool {
    u256_operation(
        pre,
        post,
        ContractCostType::Int256AddSub,
        lhs,
        Some(rhs),
        if_u256(u256_of(pre.objs(), lhs)->Ok_0 + u256_of(pre.objs(), rhs)->Ok_0),
        res,
    )
}

/// What `u256_sub` does.
pub open spec fn does_u256_sub(
    pre: Host,
    post: Host,
    lhs: U256Val,
    rhs: U256Val,
    res: Result<U256Val, HostError>,
) -> bool {
    u256_operation(
        pre,
        post,
        ContractCostType::Int256AddSub,
        lhs,
        Some(rhs),
        if_u256(u256_of(pre.objs(), lhs)->Ok_0 - u256_of(pre.objs(), rhs)->Ok_0),
        res,
    )
}

/// What `u256_mul` does.
pub open spec fn does_u256_mul(
    pre: Host,
    post: Host,
    lhs: U256Val,
    rhs: U256Val,
    res: Result<U256Val, HostError>,
) -> bool {
    u256_operation(
        pre,
        post,
        ContractCostType::Int256Mul,
        lhs,
        Some(rhs),
        if_u256(u256_of(pre.objs(), lhs)->Ok_0 * u256_of(pre.objs(), rhs)->Ok_0),
        res,
    )
}

/// What `u256_div` does.
pub open spec fn does_u256_div(
    pre: Host,
    post: Host,
    lhs: U256Val,
    rhs: U256Val,
    res: Result<U256Val, HostError>,
) -> bool {
    u256_operation(
        pre,
        post,
        ContractCostType::Int256Div,
        lhs,
        Some(rhs),
        if u256_of(pre.objs(), rhs)->Ok_0 == 0 {
            None
        } else {
            Some(u256_of(pre.objs(), lhs)->Ok_0 / u256_of(pre.objs(), rhs)->Ok_0)
        },
        res,
    )
}

/// What `u256_pow` does.
pub open spec fn does_u256_pow(
    pre: Host,
    post: Host,
    lhs: U256Val,
    rhs: u32,
    res: Result<U256Val, HostError>,
) -> bool {
    u256_operation(
        pre,
        post,
        ContractCostType::Int256Pow,
        lhs,
        None,
        if_u256(pow(u256_of(pre.objs(), lhs)->Ok_0, rhs as nat)),
        res,
    )
}

/// What `u256_shl` does.
pub open spec fn does_u256_shl(
    pre: Host,
    post: Host,
    lhs: U256Val,
    rhs: u32,
    res: Result<U256Val, HostError>,
) -> bool {
    u256_operation(
        pre,
        post,
        ContractCostType::Int256Shift,
        lhs,
        None,
        if rhs < 256 {
            Some((u256_of(pre.objs(), lhs)->Ok_0 * pow2(rhs as nat)) % two256())
        } else {
            None
        },
        res,
    )
}

/// What `u256_shr` does.
pub open spec fn does_u256_shr(
    pre: Host,
    post: Host,
    lhs: U256Val,
    rhs: u32,
    res: Result<U256Val, HostError>,
) -> bool {
    u256_operation(
        pre,
        post,
        ContractCostType::Int256Shift,
        lhs,
        None,
        if rhs < 256 {
            Some(u256_of(pre.objs(), lhs)->Ok_0 / (pow2(rhs as nat) as int))
        } else {
            None
        },
        res,
    )
}

/// What `i256_add` does.
pub open spec fn does_i256_add(
    pre: Host,
    post: Host,
    lhs: I256Val,
    rhs: I256Val,
    res: Result<I256Val, HostError>,
) -> bool {
    i256_operation(
        pre,
        post,
        ContractCostType::Int256AddSub,
        lhs,
        Some(rhs),
        if_i256(i256_of(pre.objs(), lhs)->Ok_0 + i256_of(pre.objs(), rhs)->Ok_0),
        res,
    )
}

/// What `i256_sub` does.
pub open spec fn does_i256_sub(
    pre: Host,
    post: Host,
    lhs: I256Val,
    rhs: I256Val,
    res: Result<I256Val, HostError>,
) -> bool {
    i256_operation(
        pre,
        post,
        ContractCostType::Int256AddSub,
        lhs,
        Some(rhs),
        if_i256(i256_of(pre.objs(), lhs)->Ok_0 - i256_of(pre.objs(), rhs)->Ok_0),
        res,
    )
}

/// What `i256_mul` does.
pub open spec fn does_i256_mul(
    pre: Host,
    post: Host,
    lhs: I256Val,
    rhs: I256Val,
    res: Result<I256Val, HostError>,
) -> bool {
    i256_operation(
        pre,
        post,
        ContractCostType::Int256Mul,
        lhs,
        Some(rhs),
        if_i256(i256_of(pre.objs(), lhs)->Ok_0 * i256_of(pre.objs(), rhs)->Ok_0),
        res,
    )
}

/// What `i256_div` does.
pub open spec fn does_i256_div(
    pre: Host,
    post: Host,
    lhs: I256Val,
    rhs: I256Val,
    res: Result<I256Val, HostError>,
) -> bool {
    i256_operation(
        pre,
        post,
        ContractCostType::Int256Div,
        lhs,
        Some(rhs),
        if i256_of(pre.objs(), rhs)->Ok_0 == 0 {
            None
        } else {
            if_i256(truncated_div(i256_of(pre.objs(), lhs)->Ok_0, i256_of(pre.objs(), rhs)->Ok_0))
        },
        res,
    )
}

/// What `i256_pow` does.
pub open spec fn does_i256_pow(
    pre: Host,
    post: Host,
    lhs: I256Val,
    rhs: u32,
    res: Result<I256Val, HostError>,
) -> bool {
    i256_operation(
        pre,
        post,
        ContractCostType::Int256Pow,
        lhs,
        None,
        if_i256(pow(i256_of(pre.objs(), lhs)->Ok_0, rhs as nat)),
        res,
    )
}

/// What `i256_shl` does.
pub open spec fn does_i256_shl(
    pre: Host,
    post: Host,
    lhs: I256Val,
    rhs: u32,
    res: Result<I256Val, HostError>,
) -> bool {
    i256_operation(
        pre,
        post,
        ContractCostType::Int256Shift,
        lhs,
        None,
        if rhs < 256 {
            Some(wrap_i256(i256_of(pre.objs(), lhs)->Ok_0 * pow2(rhs as nat)))
        } else {
            None
        },
        res,
    )
}

/// What `i256_shr` does.
pub open spec fn does_i256_shr(
    pre: Host,
    post: Host,
    lhs: I256Val,
    rhs: u32,
    res: Result<I256Val, HostError>,
) -> bool {
    i256_operation(
        pre,
        post,
        ContractCostType::Int256Shift,
        lhs,
        None,
        if rhs < 256 {
            Some(i256_of(pre.objs(), lhs)->Ok_0 / (pow2(rhs as nat) as int))
        } else {
            None
        },
        res,
    )
}

/// What `u256_val_from_be_bytes` does.
pub open spec fn does_u256_val_from_be_bytes(
    pre: Host,
    post: Host,
    bytes: BytesObject,
    res: Result<U256Val, HostError>,
) -> bool {
    match looks_at(pre, bytes.handle, ObjectTag::BytesObject) {
        (h, Err(e)) => gives_up(h, post, res, e),
        (h, Ok(obj)) => if obj->Blob_1.len() != 32 {
            fails(h, post, res, size_fault())
        } else {
            adds(
                h,
                post,
                u256_result(res),
                num_val(pre.objs(), NumKind::U256, from_be(obj->Blob_1)),
            )
        },
    }
}

/// What `u256_val_to_be_bytes` does.
pub open spec fn does_u256_val_to_be_bytes(
    pre: Host,
    post: Host,
    val: U256Val,
    res: Result<BytesObject, HostError>,
) -> bool {
    match reads_u256(pre, val) {
        (h, Err(e)) => gives_up(h, post, res, e),
        (h, Ok(x)) => stores(
            h,
            post,
            ObjModel::Blob(BlobKind::Bytes, be_bytes(x, 32)),
            bytes_handle(res),
        ),
    }
}

/// What `i256_val_from_be_bytes` does.
pub open spec fn does_i256_val_from_be_bytes(
    pre: Host,
    post: Host,
    bytes: BytesObject,
    res: Result<I256Val, HostError>,
) -> bool {
    match looks_at(pre, bytes.handle, ObjectTag::BytesObject) {
        (h, Err(e)) => gives_up(h, post, res, e),
        (h, Ok(obj)) => if obj->Blob_1.len() != 32 {
            fails(h, post, res, size_fault())
        } else {
            let out = num_val(pre.objs(), NumKind::I256, wrap_i256(from_be(obj->Blob_1)));
            &&& sets_objs(h, post, out.0)
            &&& i256_result(res) == match out.1 {
                Ok(v) => Ok::<Val, HostError>(v),
                Err(_) => Err(bare_error((ScErrorType::Value, ScErrorCode::UnexpectedType))),
            }
        },
    }
}

/// What `i256_val_to_be_bytes` does.
pub open spec fn does_i256_val_to_be_bytes(
    pre: Host,
    post: Host,
    val: I256Val,
    res: Result<BytesObject, HostError>,
) -> bool {
    match reads_i256(pre, val) {
        (h, Err(e)) => gives_up(h, post, res, e),
        (h, Ok(x)) => stores(
            h,
            post,
            ObjModel::Blob(BlobKind::Bytes, be_bytes(x, 32)),
            bytes_handle(res),
        ),
    }
}

/// What `obj_from_u64` does.
pub open spec fn does_obj_from_u64(
    pre: Host,
    post: Host,
    x: u64,
    res: Result<U64Object, HostError>,
) -> bool {
    stores(pre, post, ObjModel::Num(NumKind::U64, x as int), u64_handle(res))
}

/// What `obj_to_u64` does.
pub open spec fn does_obj_to_u64(
    pre: Host,
    post: Host,
    obj: U64Object,
    res: Result<u64, HostError>,
) -> bool {
    match looks_at(pre, obj.handle, ObjectTag::U64Object) {
        (h, Err(e)) => gives_up(h, post, res, e),
        (h, Ok(o)) => post == h && res is Ok && res->Ok_0 == o->Num_1,
    }
}

/// What `obj_from_i64` does.
pub open spec fn does_obj_from_i64(
    pre: Host,
    post: Host,
    x: i64,
    res: Result<I64Object, HostError>,
) -> bool {
    stores(pre, post, ObjModel::Num(NumKind::I64, x as int), i64_handle(res))
}

/// What `obj_to_i64` does.
pub open spec fn does_obj_to_i64(
    pre: Host,
    post: Host,
    obj: I64Object,
    res: Result<i64, HostError>,
) -> bool {
    match looks_at(pre, obj.handle, ObjectTag::I64Object) {
        (h, Err(e)) => gives_up(h, post, res, e),
        (h, Ok(o)) => post == h && res is Ok && res->Ok_0 == o->Num_1,
    }
}

/// What `timepoint_obj_from_u64` does.
pub open spec fn does_timepoint_obj_from_u64(
    pre: Host,
    post: Host,
    x: u64,
    res: Result<TimepointObject, HostError>,
) -> bool {
    stores(pre, post, ObjModel::Num(NumKind::Timepoint, x as int), timepoint_handle(res))
}

/// What `timepoint_obj_to_u64` does.
pub open spec fn does_timepoint_obj_to_u64(
    pre: Host,
    post: Host,
    obj: TimepointObject,
    res: Result<u64, HostError>,
) -> bool {
    match looks_at(pre, obj.handle, ObjectTag::TimepointObject) {
        (h, Err(e)) => gives_up(h, post, res, e),
        (h, Ok(o)) => post == h && res is Ok && res->Ok_0 == o->Num_1,
    }
}

/// What `duration_obj_from_u64` does.
pub open spec fn does_duration_obj_from_u64(
    pre: Host,
    post: Host,
    x: u64,
    res: Result<DurationObject, HostError>,
) -> bool {
    stores(pre, post, ObjModel::Num(NumKind::Duration, x as int), duration_handle(res))
}

/// What `duration_obj_to_u64` does.
pub open spec fn does_duration_obj_to_u64(
    pre: Host,
    post: Host,
    obj: DurationObject,
    res: Result<u64, HostError>,
) -> bool {
    match looks_at(pre, obj.handle, ObjectTag::DurationObject) {
        (h, Err(e)) => gives_up(h, post, res, e),
        (h, Ok(o)) => post == h && res is Ok && res->Ok_0 == o->Num_1,
    }
}

/// What `obj_from_u128_pieces` does.
pub open spec fn does_obj_from_u128_pieces(
    pre: Host,
    post: Host,
    hi: u64,
    lo: u64,
    res: Result<U128Object, HostError>,
) -> bool {
    stores(pre, post, ObjModel::Num(NumKind::U128, hi * two64() + lo), u128_handle(res))
}

/// What `obj_to_u128_lo64` does.
pub open spec fn does_obj_to_u128_lo64(
    pre: Host,
    post: Host,
    obj: U128Object,
    res: Result<u64, HostError>,
) -> bool {
    match looks_at(pre, obj.handle, ObjectTag::U128Object) {
        (h, Err(e)) => gives_up(h, post, res, e),
        (h, Ok(o)) => post == h && res is Ok && res->Ok_0 == o->Num_1 % two64(),
    }
}

/// What `obj_to_u128_hi64` does.
pub open spec fn does_obj_to_u128_hi64(
    pre: Host,
    post: Host,
    obj: U128Object,
    res: Result<u64, HostError>,
) -> bool {
    match looks_at(pre, obj.handle, ObjectTag::U128Object) {
        (h, Err(e)) => gives_up(h, post, res, e),
        (h, Ok(o)) => post == h && res is Ok && res->Ok_0 == o->Num_1 / two64(),
    }
}

/// What `obj_from_i128_pieces` does.
pub open spec fn does_obj_from_i128_pieces(
    pre: Host,
    post: Host,
    hi: i64,
    lo: u64,
    res: Result<I128Object, HostError>,
) -> bool {
    stores(pre, post, ObjModel::Num(NumKind::I128, hi * two64() + lo), i128_handle(res))
}

/// What `obj_to_i128_lo64` does.
pub open spec fn does_obj_to_i128_lo64(
    pre: Host,
    post: Host,
    obj: I128Object,
    res: Result<u64, HostError>,
) -> bool {
    match looks_at(pre, obj.handle, ObjectTag::I128Object) {
        (h, Err(e)) => gives_up(h, post, res, e),
        (h, Ok(o)) => post == h && res is Ok && res->Ok_0 == o->Num_1 % two64(),
    }
}

/// What `obj_to_i128_hi64` does.
pub open spec fn does_obj_to_i128_hi64(
    pre: Host,
    post: Host,
    obj: I128Object,
    res: Result<i64, HostError>,
) -> bool {
    match looks_at(pre, obj.handle, ObjectTag::I128Object) {
        (h, Err(e)) => gives_up(h, post, res, e),
        (h, Ok(o)) => post == h && res is Ok && res->Ok_0 == o->Num_1 / two64(),
    }
}

/// What `obj_from_u256_pieces` does.
pub open spec fn does_obj_from_u256_pieces(
    pre: Host,
    post: Host,
    hi_hi: u64,
    hi_lo: u64,
    lo_hi: u64,
    lo_lo: u64,
    res: Result<U256Object, HostError>,
) -> bool {
    stores(
        pre,
        post,
        ObjModel::Num(
            NumKind::U256,
            from_pieces(hi_hi as int, hi_lo as int, lo_hi as int, lo_lo as int),
        ),
        u256_handle(res),
    )
}

/// What `obj_to_u256_hi_hi` does.
pub open spec fn does_obj_to_u256_hi_hi(
    pre: Host,
    post: Host,
    obj: U256Object,
    res: Result<u64, HostError>,
) -> bool {
    match looks_at(pre, obj.handle, ObjectTag::U256Object) {
        (h, Err(e)) => gives_up(h, post, res, e),
        (h, Ok(o)) => post == h && res is Ok && res->Ok_0 == o->Num_1 / two192(),
    }
}

/// What `obj_to_u256_hi_lo` does.
pub open spec fn does_obj_to_u256_hi_lo(
    pre: Host,
    post: Host,
    obj: U256Object,
    res: Result<u64, HostError>,
) -> bool {
    match looks_at(pre, obj.handle, ObjectTag::U256Object) {
        (h, Err(e)) => gives_up(h, post, res, e),
        (h, Ok(o)) => post == h && res is Ok && res->Ok_0 == (o->Num_1 / two128()) % two64(),
    }
}

/// What `obj_to_u256_lo_hi` does.
pub open spec fn does_obj_to_u256_lo_hi(
    pre: Host,
    post: Host,
    obj: U256Object,
    res: Result<u64, HostError>,
) -> bool {
    match looks_at(pre, obj.handle, ObjectTag::U256Object) {
        (h, Err(e)) => gives_up(h, post, res, e),
        (h, Ok(o)) => post == h && res is Ok && res->Ok_0 == (o->Num_1 / two64()) % two64(),
    }
}

/// What `obj_to_u256_lo_lo` does.
pub open spec fn does_obj_to_u256_lo_lo(
    pre: Host,
    post: Host,
    obj: U256Object,
    res: Result<u64, HostError>,
) -> bool {
    match looks_at(pre, obj.handle, ObjectTag::U256Object) {
        (h, Err(e)) => gives_up(h, post, res, e),
        (h, Ok(o)) => post == h && res is Ok && res->Ok_0 == o->Num_1 % two64(),
    }
}

/// What `obj_from_i256_pieces` does.
pub open spec fn does_obj_from_i256_pieces(
    pre: Host,
    post: Host,
    hi_hi: i64,
    hi_lo: u64,
    lo_hi: u64,
    lo_lo: u64,
    res: Result<I256Object, HostError>,
) -> bool {
    stores(
        pre,
        post,
        ObjModel::Num(
            NumKind::I256,
            from_pieces(hi_hi as int, hi_lo as int, lo_hi as int, lo_lo as int),
        ),
        i256_handle(res),
    )
}

/// What `obj_to_i256_hi_hi` does.
pub open spec fn does_obj_to_i256_hi_hi(
    pre: Host,
    post: Host,
    obj: I256Object,
    res: Result<i64, HostError>,
) -> bool {
    match looks_at(pre, obj.handle, ObjectTag::I256Object) {
        (h, Err(e)) => gives_up(h, post, res, e),
        (h, Ok(o)) => post == h && res is Ok && res->Ok_0 == o->Num_1 / two192(),
    }
}

/// What `obj_to_i256_hi_lo` does.
pub open spec fn does_obj_to_i256_hi_lo(
    pre: Host,
    post: Host,
    obj: I256Object,
    res: Result<u64, HostError>,
) -> bool {
    match looks_at(pre, obj.handle, ObjectTag::I256Object) {
        (h, Err(e)) => gives_up(h, post, res, e),
        (h, Ok(o)) => post == h && res is Ok && res->Ok_0 == (o->Num_1 / two128()) % two64(),
    }
}

/// What `obj_to_i256_lo_hi` does.
pub open spec fn does_obj_to_i256_lo_hi(
    pre: Host,
    post: Host,
    obj: I256Object,
    res: Result<u64, HostError>,
) -> bool {
    match looks_at(pre, obj.handle, ObjectTag::I256Object) {
        (h, Err(e)) => gives_up(h, post, res, e),
        (h, Ok(o)) => post == h && res is Ok && res->Ok_0 == (o->Num_1 / two64()) % two64(),
    }
}

/// What `obj_to_i256_lo_lo` does.
pub open spec fn does_obj_to_i256_lo_lo(
    pre: Host,
    post: Host,
    obj: I256Object,
    res: Result<u64, HostError>,
) -> bool {
    match looks_at(pre, obj.handle, ObjectTag::I256Object) {
        (h, Err(e)) => gives_up(h, post, res, e),
        (h, Ok(o)) => post == h && res is Ok && res->Ok_0 == o->Num_1 % two64(),
    }
}

} // verus!
