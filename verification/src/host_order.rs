//! The order of values.

use crate::bignum::{I256, U256};
use crate::budget::ContractCostType;
use crate::error::{Error, HostError, ScErrorCode, ScErrorType};
use crate::host::{charge, fails, Host, HostObject, DEFAULT_HOST_DEPTH_LIMIT};
use crate::host_object::{gives_up, val_fault};
use crate::model::{
    address_order, bytes_order, deep, deep_order, deep_seq, int_order, interleave, lemma_deep_mapping,
    lemma_deep_vector, lemma_interleave_ok, order_levels, seq_levels, seq_order, type_rank, val_ok, vals_ok, BlobKind,
    Deep, NumKind, ObjModel, ScAddress,
};
use crate::symbol::small_symbol_to_bytes;
use crate::val::{Object, Val};
use vstd::prelude::*;

verus! {

/// The outermost level of what a value denotes: the same for a small value and
/// for an object of the same number or symbol.
enum Outline<'a> {
    Bool(bool),
    Void,
    Error(Error),
    Unsigned(NumKind, U256),
    Signed(NumKind, I256),
    Packed(Vec<u8>),
    Blob(BlobKind, &'a Vec<u8>),
    Vector(&'a Vec<Val>),
    Mapping(&'a Vec<(Val, Val)>),
    Address(ScAddress),
}

spec fn outline_deep(objs: Seq<ObjModel>, o: Outline) -> Deep {
    match o {
        Outline::Bool(b) => Deep::Bool(b),
        Outline::Void => Deep::Void,
        Outline::Error(e) => Deep::Error(e),
        Outline::Unsigned(k, x) => Deep::Num(k, x@),
        Outline::Signed(k, x) => Deep::Num(k, x@),
        Outline::Packed(s) => Deep::Blob(BlobKind::Symbol, s@),
        Outline::Blob(k, s) => Deep::Blob(k, s@),
        Outline::Vector(s) => Deep::Vector(deep_seq(objs, s@)),
        Outline::Mapping(m) => Deep::Mapping(deep_seq(objs, interleave(m@))),
        Outline::Address(a) => Deep::Address(a),
    }
}

spec fn is_signed(k: NumKind) -> bool {
    k == NumKind::I32 || k == NumKind::I64 || k == NumKind::I128 || k == NumKind::I256
}

spec fn outline_ok(objs: Seq<ObjModel>, o: Outline) -> bool {
    match o {
        Outline::Unsigned(k, _) => !is_signed(k),
        Outline::Signed(k, _) => is_signed(k),
        Outline::Vector(s) => vals_ok(objs, s@),
        Outline::Mapping(m) => vals_ok(objs, interleave(m@)),
        _ => true,
    }
}

impl<'a> Outline<'a> {
    /// The place of the type among the types.
    fn rank(&self) -> (r: u32)
        ensures
            forall|objs: Seq<ObjModel>| r == type_rank(#[trigger] outline_deep(objs, *self)),
    {
        match self {
            Outline::Bool(_) => 0,
            Outline::Void => 1,
            Outline::Error(_) => 2,
            Outline::Unsigned(k, _) => num_rank(*k),
            Outline::Signed(k, _) => num_rank(*k),
            Outline::Packed(_) => 15,
            Outline::Blob(BlobKind::Bytes, _) => 13,
            Outline::Blob(BlobKind::Text, _) => 14,
            Outline::Blob(BlobKind::Symbol, _) => 15,
            Outline::Vector(_) => 16,
            Outline::Mapping(_) => 17,
            Outline::Address(_) => 18,
        }
    }
}

fn num_rank(k: NumKind) -> (r: u32)
    ensures
        forall|x: int| r == #[trigger] type_rank(Deep::Num(k, x)),
{
    match k {
        NumKind::U32 => 3,
        NumKind::I32 => 4,
        NumKind::U64 => 5,
        NumKind::I64 => 6,
        NumKind::Timepoint => 7,
        NumKind::Duration => 8,
        NumKind::U128 => 9,
        NumKind::I128 => 10,
        NumKind::U256 => 11,
        NumKind::I256 => 12,
    }
}

fn order_u32(a: u32, b: u32) -> (o: i64)
    ensures
        o == int_order(a as int, b as int),
{
    if a < b {
        -1
    } else if a > b {
        1
    } else {
        0
    }
}

pub(crate) fn order_u256(a: U256, b: U256) -> (o: i64)
    ensures
        o == int_order(a@, b@),
{
    if a.hi < b.hi {
        -1
    } else if a.hi > b.hi {
        1
    } else if a.lo < b.lo {
        -1
    } else if a.lo > b.lo {
        1
    } else {
        0
    }
}

fn order_i256(a: I256, b: I256) -> (o: i64)
    ensures
        o == int_order(a@, b@),
{
    if a.hi < b.hi {
        -1
    } else if a.hi > b.hi {
        1
    } else if a.lo < b.lo {
        -1
    } else if a.lo > b.lo {
        1
    } else {
        0
    }
}

/// Dictionary order of byte strings.
pub(crate) fn order_bytes(a: &[u8], b: &[u8]) -> (o: i64)
    ensures
        o == bytes_order(a@, b@, 0),
{
    let mut i: usize = 0;
    while i < a.len() && i < b.len()
        invariant
            i <= a@.len(),
            i <= b@.len(),
            bytes_order(a@, b@, 0) == bytes_order(a@, b@, i as nat),
        decreases a@.len() - i,
    {
        if a[i] < b[i] {
            return -1;
        }
        if a[i] > b[i] {
            return 1;
        }
        i += 1;
    }
    if a.len() < b.len() {
        -1
    } else if a.len() > b.len() {
        1
    } else {
        0
    }
}

fn order_addresses(a: ScAddress, b: ScAddress) -> (o: i64)
    ensures
        o == address_order(a, b),
{
    match (a, b) {
        (ScAddress::Account(x), ScAddress::Account(y)) => order_u256(x.0, y.0),
        (ScAddress::Contract(x), ScAddress::Contract(y)) => order_u256(x.0, y.0),
        (ScAddress::Account(_), ScAddress::Contract(_)) => -1,
        (ScAddress::Contract(_), ScAddress::Account(_)) => 1,
    }
}

fn order_errors(a: Error, b: Error) -> (o: i64)
    ensures
        o == deep_order(Deep::Error(a), Deep::Error(b)),
{
    if a.type_ != b.type_ {
        order_u32(a.type_.number(), b.type_.number())
    } else {
        order_u32(a.code, b.code)
    }
}

impl Host {
    fn outline_small<'a>(&'a self, v: Val) -> (o: Outline<'a>)
        requires
            val_ok(self.objs(), v),
            !(v is Object),
        ensures
            outline_ok(self.objs(), o),
            outline_deep(self.objs(), o) == deep(self.objs(), v),
    {
        match v {
            Val::Bool(b) => Outline::Bool(b),
            Val::Void => Outline::Void,
            Val::Error(e) => Outline::Error(e),
            Val::U32(x) => Outline::Unsigned(NumKind::U32, U256::from_u128(x as u128)),
            Val::I32(x) => Outline::Signed(NumKind::I32, I256::from_i128(x as i128)),
            Val::U64Small(x) => Outline::Unsigned(NumKind::U64, U256::from_u128(x as u128)),
            Val::I64Small(x) => Outline::Signed(NumKind::I64, I256::from_i128(x as i128)),
            Val::TimepointSmall(x) => Outline::Unsigned(NumKind::Timepoint, U256::from_u128(x as u128)),
            Val::DurationSmall(x) => Outline::Unsigned(NumKind::Duration, U256::from_u128(x as u128)),
            Val::U128Small(x) => Outline::Unsigned(NumKind::U128, U256::from_u128(x as u128)),
            Val::I128Small(x) => Outline::Signed(NumKind::I128, I256::from_i128(x as i128)),
            Val::U256Small(x) => Outline::Unsigned(NumKind::U256, U256::from_u128(x as u128)),
            Val::I256Small(x) => Outline::Signed(NumKind::I256, I256::from_i128(x as i128)),
            Val::SymbolSmall(body) => Outline::Packed(small_symbol_to_bytes(body)),
            Val::Object(_) => Outline::Void,
            Val::Bad(_) => Outline::Void,
        }
    }

    fn outline_object<'a>(&'a self, o: Object) -> (r: Outline<'a>)
        requires
            self.wf(),
            val_ok(self.objs(), Val::Object(o)),
        ensures
            outline_ok(self.objs(), r),
            outline_deep(self.objs(), r) == deep(self.objs(), Val::Object(o)),
    {
        let index: usize = crate::val::handle_to_index(o.handle);
        let ghost obj = self.objs()[index as int];
        match &self.objects[index] {
            HostObject::U64(x) => Outline::Unsigned(NumKind::U64, U256::from_u128(*x as u128)),
            HostObject::I64(x) => Outline::Signed(NumKind::I64, I256::from_i128(*x as i128)),
            HostObject::TimePoint(x) => Outline::Unsigned(NumKind::Timepoint, U256::from_u128(*x as u128)),
            HostObject::Duration(x) => Outline::Unsigned(NumKind::Duration, U256::from_u128(*x as u128)),
            HostObject::U128(x) => Outline::Unsigned(NumKind::U128, U256::from_u128(*x)),
            HostObject::I128(x) => Outline::Signed(NumKind::I128, I256::from_i128(*x)),
            HostObject::U256(x) => Outline::Unsigned(NumKind::U256, *x),
            HostObject::I256(x) => Outline::Signed(NumKind::I256, *x),
            HostObject::Bytes(s) => Outline::Blob(BlobKind::Bytes, s),
            HostObject::Text(s) => Outline::Blob(BlobKind::Text, s),
            HostObject::Symbol(s) => Outline::Blob(BlobKind::Symbol, s),
            HostObject::HostVec(s) => {
                proof {
                    lemma_deep_vector(self.objs(), o);
                }
                Outline::Vector(s)
            },
            HostObject::HostMap(m) => {
                proof {
                    lemma_deep_mapping(self.objs(), o);
                    lemma_interleave_ok(self.objs(), m@);
                }
                Outline::Mapping(m)
            },
            HostObject::Address(a) => Outline::Address(*a),
        }
    }

    /// Orders two values: -1, 0 or 1 as the first comes before, is, or comes
    /// after the second. Fails if more levels would have to be looked at than
    /// are allowed.
    pub(crate) fn order_vals(&self, a: Val, b: Val, levels: u32) -> (res: Result<i64, HostError>)
        requires
            self.wf(),
            val_ok(self.objs(), a),
            val_ok(self.objs(), b),
        ensures
            match res {
                Ok(o) => {
                    &&& order_levels(deep(self.objs(), a), deep(self.objs(), b)) <= levels
                    &&& o == deep_order(deep(self.objs(), a), deep(self.objs(), b))
                },
                Err(e) => {
                    &&& order_levels(deep(self.objs(), a), deep(self.objs(), b)) > levels
                    &&& e == self.spec_err((ScErrorType::Context, ScErrorCode::ExceededLimit))
                },
            },
        decreases levels, 0nat,
    {
        if levels == 0 {
            return Err(self.err(ScErrorType::Context, ScErrorCode::ExceededLimit));
        }
        let oa = match a {
            Val::Object(o) => self.outline_object(o),
            _ => self.outline_small(a),
        };
        let ob = match b {
            Val::Object(o) => self.outline_object(o),
            _ => self.outline_small(b),
        };
        self.order_outlines(&oa, &ob, levels - 1)
    }

    fn order_outlines(&self, a: &Outline, b: &Outline, levels: u32) -> (res: Result<i64, HostError>)
        requires
            self.wf(),
            outline_ok(self.objs(), *a),
            outline_ok(self.objs(), *b),
        ensures
            match res {
                Ok(o) => {
                    &&& order_levels(outline_deep(self.objs(), *a), outline_deep(self.objs(), *b)) <= levels + 1
                    &&& o == deep_order(outline_deep(self.objs(), *a), outline_deep(self.objs(), *b))
                },
                Err(e) => {
                    &&& order_levels(outline_deep(self.objs(), *a), outline_deep(self.objs(), *b)) > levels + 1
                    &&& e == self.spec_err((ScErrorType::Context, ScErrorCode::ExceededLimit))
                },
            },
        decreases levels, 2nat,
    {
        let (ra, rb): (u32, u32) = (a.rank(), b.rank());
        let ghost (da, db) = (outline_deep(self.objs(), *a), outline_deep(self.objs(), *b));
        assert(ra == type_rank(da) && rb == type_rank(db));
        if ra != rb {
            return Ok(order_u32(ra, rb));
        }
        match (a, b) {
            (Outline::Bool(x), Outline::Bool(y)) => Ok(
                if *x == *y {
                    0
                } else if *y {
                    -1
                } else {
                    1
                },
            ),
            (Outline::Error(x), Outline::Error(y)) => Ok(order_errors(*x, *y)),
            (Outline::Unsigned(_, x), Outline::Unsigned(_, y)) => Ok(order_u256(*x, *y)),
            (Outline::Signed(_, x), Outline::Signed(_, y)) => Ok(order_i256(*x, *y)),
            (Outline::Packed(x), Outline::Packed(y)) => Ok(order_bytes(x.as_slice(), y.as_slice())),
            (Outline::Packed(x), Outline::Blob(_, y)) => Ok(order_bytes(x.as_slice(), y.as_slice())),
            (Outline::Blob(_, x), Outline::Packed(y)) => Ok(order_bytes(x.as_slice(), y.as_slice())),
            (Outline::Blob(_, x), Outline::Blob(_, y)) => Ok(order_bytes(x.as_slice(), y.as_slice())),
            (Outline::Vector(x), Outline::Vector(y)) => self.order_lists(x.as_slice(), y.as_slice(), levels),
            (Outline::Mapping(x), Outline::Mapping(y)) => self.order_pairs(x.as_slice(), y.as_slice(), levels),
            (Outline::Address(x), Outline::Address(y)) => Ok(order_addresses(*x, *y)),
            _ => Ok(0),
        }
    }

    /// Dictionary order of lists of values.
    pub(crate) fn order_lists(&self, a: &[Val], b: &[Val], levels: u32) -> (res: Result<i64, HostError>)
        requires
            self.wf(),
            vals_ok(self.objs(), a@),
            vals_ok(self.objs(), b@),
        ensures
            match res {
                Ok(o) => {
                    &&& seq_levels(deep_seq(self.objs(), a@), deep_seq(self.objs(), b@), 0) <= levels
                    &&& o == seq_order(deep_seq(self.objs(), a@), deep_seq(self.objs(), b@), 0)
                },
                Err(e) => {
                    &&& seq_levels(deep_seq(self.objs(), a@), deep_seq(self.objs(), b@), 0) > levels
                    &&& e == self.spec_err((ScErrorType::Context, ScErrorCode::ExceededLimit))
                },
            },
        decreases levels, 1nat,
    {
        let ghost (da, db) = (deep_seq(self.objs(), a@), deep_seq(self.objs(), b@));
        let mut i: usize = 0;
        while i < a.len() && i < b.len()
            invariant
                self.wf(),
                vals_ok(self.objs(), a@),
                vals_ok(self.objs(), b@),
                da == deep_seq(self.objs(), a@),
                db == deep_seq(self.objs(), b@),
                i <= a@.len(),
                i <= b@.len(),
                seq_order(da, db, 0) == seq_order(da, db, i as nat),
                seq_levels(da, db, 0) <= levels <==> seq_levels(da, db, i as nat) <= levels,
            decreases a@.len() - i,
        {
            let c: i64 = self.order_vals(a[i], b[i], levels)?;
            if c != 0 {
                return Ok(c);
            }
            i += 1;
        }
        if a.len() < b.len() {
            Ok(-1)
        } else if a.len() > b.len() {
            Ok(1)
        } else {
            Ok(0)
        }
    }

    /// Dictionary order of maps: keys and values in turn.
    fn order_pairs(&self, a: &[(Val, Val)], b: &[(Val, Val)], levels: u32) -> (res: Result<i64, HostError>)
        requires
            self.wf(),
            vals_ok(self.objs(), interleave(a@)),
            vals_ok(self.objs(), interleave(b@)),
        ensures
            ({
                let (da, db) = (deep_seq(self.objs(), interleave(a@)), deep_seq(self.objs(), interleave(b@)));
                match res {
                    Ok(o) => seq_levels(da, db, 0) <= levels && o == seq_order(da, db, 0),
                    Err(e) => {
                        &&& seq_levels(da, db, 0) > levels
                        &&& e == self.spec_err((ScErrorType::Context, ScErrorCode::ExceededLimit))
                    },
                }
            }),
        decreases levels, 1nat,
    {
        let ghost (sa, sb) = (interleave(a@), interleave(b@));
        let ghost (da, db) = (deep_seq(self.objs(), sa), deep_seq(self.objs(), sb));
        let mut i: usize = 0;
        while i < a.len() && i < b.len()
            invariant
                self.wf(),
                sa == interleave(a@),
                sb == interleave(b@),
                vals_ok(self.objs(), sa),
                vals_ok(self.objs(), sb),
                da == deep_seq(self.objs(), sa),
                db == deep_seq(self.objs(), sb),
                i <= a@.len(),
                i <= b@.len(),
                seq_order(da, db, 0) == seq_order(da, db, (2 * i) as nat),
                seq_levels(da, db, 0) <= levels <==> seq_levels(da, db, (2 * i) as nat) <= levels,
            decreases a@.len() - i,
        {
            proof {
                assert(sa[2 * i] == a@[i as int].0 && sb[2 * i] == b@[i as int].0);
                assert(sa[2 * i + 1] == a@[i as int].1 && sb[2 * i + 1] == b@[i as int].1);
            }
            let c: i64 = self.order_vals(a[i].0, b[i].0, levels)?;
            if c != 0 {
                return Ok(c);
            }
            proof {
                let j = (2 * i) as nat;
                assert(seq_order(da, db, j) == seq_order(da, db, j + 1));
                assert(seq_levels(da, db, j) <= levels <==> seq_levels(da, db, j + 1) <= levels);
                assert(j + 2 == 2 * (i + 1));
            }
            let c: i64 = self.order_vals(a[i].1, b[i].1, levels)?;
            if c != 0 {
                return Ok(c);
            }
            i += 1;
        }
        if a.len() < b.len() {
            Ok(-1)
        } else if a.len() > b.len() {
            Ok(1)
        } else {
            Ok(0)
        }
    }

    /// Orders two values of which at least one is an object: -1, 0 or 1 as the
    /// first comes before, is, or comes after the second.
    ///
    /// The objects themselves do not count as a level. Looking them up is charged
    /// for.
    pub fn obj_cmp(&mut self, a: Val, b: Val) -> (res: Result<i64, HostError>)
        requires
            old(self).wf(),
        ensures
            final(self).wf(),
            compares(*old(self), *final(self), a, b, res),
    {
        self.check_val_integrity(a)?;
        self.check_val_integrity(b)?;
        if let Val::Object(_) = a {
            self.charge_visit()?;
        }
        if let Val::Object(_) = b {
            self.charge_visit()?;
        }
        match (a, b) {
            (Val::Object(x), Val::Object(y)) => {
                self.order_outlines(&self.outline_object(x), &self.outline_object(y), DEFAULT_HOST_DEPTH_LIMIT)
            },
            (Val::Object(x), _) => {
                self.order_outlines(&self.outline_object(x), &self.outline_small(b), DEFAULT_HOST_DEPTH_LIMIT)
            },
            (_, Val::Object(y)) => {
                self.order_outlines(&self.outline_small(a), &self.outline_object(y), DEFAULT_HOST_DEPTH_LIMIT)
            },
            (_, _) => Err(self.err(ScErrorType::Value, ScErrorCode::UnexpectedType)),
        }
    }
}

/// Two values of which at least one is an object are compared.
pub open spec fn compares(pre: Host, post: Host, a: Val, b: Val, res: Result<i64, HostError>) -> bool {
    match (val_fault(pre.objs(), a), val_fault(pre.objs(), b)) {
        (Some(f), _) => fails(pre, post, res, f),
        (None, Some(f)) => fails(pre, post, res, f),
        (None, None) => if !(a is Object) && !(b is Object) {
            fails(pre, post, res, (ScErrorType::Value, ScErrorCode::UnexpectedType))
        } else {
            match visits_objects(pre, a, b) {
                (h, Err(e)) => gives_up(h, post, res, e),
                (h, Ok(_)) => if order_levels(deep(h.objs(), a), deep(h.objs(), b)) > DEFAULT_HOST_DEPTH_LIMIT + 1 {
                    fails(h, post, res, (ScErrorType::Context, ScErrorCode::ExceededLimit))
                } else {
                    &&& post == h
                    &&& res is Ok
                    &&& res->Ok_0 == deep_order(deep(h.objs(), a), deep(h.objs(), b))
                },
            }
        },
    }
}

/// Those of two values that are objects are looked up.
pub open spec fn visits_objects(host: Host, a: Val, b: Val) -> (Host, Result<(), HostError>) {
    let first = if a is Object {
        charge(host, ContractCostType::VisitObject, None)
    } else {
        (host, Ok(()))
    };
    if first.1 is Ok && b is Object {
        charge(first.0, ContractCostType::VisitObject, None)
    } else {
        first
    }
}

} // verus!
