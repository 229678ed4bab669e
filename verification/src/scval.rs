//! Values in the form in which the ledger keeps them: trees with no handles.

use crate::bignum::{I256, U256};
use crate::error::Error;
use crate::model::{BlobKind, Deep, NumKind, ScAddress};
use crate::util::{bytes_eq, copy_bytes};
use vstd::prelude::*;

verus! {

/// A value without handles. A map is the list of its entries.
pub enum ScVal {
    Bool(bool),
    Void,
    Error(Error),
    U32(u32),
    I32(i32),
    U64(u64),
    I64(i64),
    Timepoint(u64),
    Duration(u64),
    U128(u128),
    I128(i128),
    U256(U256),
    I256(I256),
    Bytes(Vec<u8>),
    Text(Vec<u8>),
    Symbol(Vec<u8>),
    ScVec(Vec<ScVal>),
    ScMap(Vec<ScMapEntry>),
    Address(ScAddress),
}

/// An entry of a map.
pub struct ScMapEntry {
    pub key: ScVal,
    pub val: ScVal,
}

/// What a tree denotes.
pub open spec fn sc_deep(v: ScVal) -> Deep
    decreases v,
{
    match v {
        ScVal::Bool(b) => Deep::Bool(b),
        ScVal::Void => Deep::Void,
        ScVal::Error(e) => Deep::Error(e),
        ScVal::U32(x) => Deep::Num(NumKind::U32, x as int),
        ScVal::I32(x) => Deep::Num(NumKind::I32, x as int),
        ScVal::U64(x) => Deep::Num(NumKind::U64, x as int),
        ScVal::I64(x) => Deep::Num(NumKind::I64, x as int),
        ScVal::Timepoint(x) => Deep::Num(NumKind::Timepoint, x as int),
        ScVal::Duration(x) => Deep::Num(NumKind::Duration, x as int),
        ScVal::U128(x) => Deep::Num(NumKind::U128, x as int),
        ScVal::I128(x) => Deep::Num(NumKind::I128, x as int),
        ScVal::U256(x) => Deep::Num(NumKind::U256, x@),
        ScVal::I256(x) => Deep::Num(NumKind::I256, x@),
        ScVal::Bytes(s) => Deep::Blob(BlobKind::Bytes, s@),
        ScVal::Text(s) => Deep::Blob(BlobKind::Text, s@),
        ScVal::Symbol(s) => Deep::Blob(BlobKind::Symbol, s@),
        ScVal::ScVec(s) => Deep::Vector(sc_deep_seq(s@)),
        ScVal::ScMap(m) => Deep::Mapping(sc_deep_entries(m@)),
        ScVal::Address(a) => Deep::Address(a),
    }
}

/// What each tree of a list denotes.
pub open spec fn sc_deep_seq(s: Seq<ScVal>) -> Seq<Deep>
    decreases s,
{
    Seq::new(
        s.len(),
        |j: int|
            if 0 <= j < s.len() {
                sc_deep(s[j])
            } else {
                Deep::Void
            },
    )
}

/// What the keys and values of a list of entries denote, in turn.
pub open spec fn sc_deep_entries(m: Seq<ScMapEntry>) -> Seq<Deep>
    decreases m,
{
    Seq::new(
        2 * m.len(),
        |j: int|
            if 0 <= j < 2 * m.len() {
                if j % 2 == 0 {
                    sc_deep(m[j / 2].key)
                } else {
                    sc_deep(m[j / 2].val)
                }
            } else {
                Deep::Void
            },
    )
}

/// Whether two trees denote the same.
pub fn sc_eq(a: &ScVal, b: &ScVal) -> (r: bool)
    ensures
        r == (sc_deep(*a) == sc_deep(*b)),
    decreases *a, 0nat,
{
    match (a, b) {
        (ScVal::Bool(x), ScVal::Bool(y)) => *x == *y,
        (ScVal::Void, ScVal::Void) => true,
        (ScVal::Error(x), ScVal::Error(y)) => *x == *y,
        (ScVal::U32(x), ScVal::U32(y)) => *x == *y,
        (ScVal::I32(x), ScVal::I32(y)) => *x == *y,
        (ScVal::U64(x), ScVal::U64(y)) => *x == *y,
        (ScVal::I64(x), ScVal::I64(y)) => *x == *y,
        (ScVal::Timepoint(x), ScVal::Timepoint(y)) => *x == *y,
        (ScVal::Duration(x), ScVal::Duration(y)) => *x == *y,
        (ScVal::U128(x), ScVal::U128(y)) => *x == *y,
        (ScVal::I128(x), ScVal::I128(y)) => *x == *y,
        (ScVal::U256(x), ScVal::U256(y)) => {
            proof {
                crate::bignum::lemma_u256_view(*x, *y);
            }
            *x == *y
        },
        (ScVal::I256(x), ScVal::I256(y)) => {
            proof {
                crate::bignum::lemma_i256_view(*x, *y);
            }
            *x == *y
        },
        (ScVal::Bytes(x), ScVal::Bytes(y)) => bytes_eq(x, y),
        (ScVal::Text(x), ScVal::Text(y)) => bytes_eq(x, y),
        (ScVal::Symbol(x), ScVal::Symbol(y)) => bytes_eq(x, y),
        (ScVal::ScVec(x), ScVal::ScVec(y)) => sc_list_eq(x, y),
        (ScVal::ScMap(x), ScVal::ScMap(y)) => sc_entries_eq(x, y),
        (ScVal::Address(x), ScVal::Address(y)) => *x == *y,
        _ => false,
    }
}

fn sc_list_eq(a: &Vec<ScVal>, b: &Vec<ScVal>) -> (r: bool)
    ensures
        r == (sc_deep_seq(a@) == sc_deep_seq(b@)),
    decreases *a, 1nat,
{
    if a.len() != b.len() {
        assert(sc_deep_seq(a@).len() != sc_deep_seq(b@).len());
        return false;
    }
    let mut i: usize = 0;
    while i < a.len()
        invariant
            i <= a@.len() == b@.len(),
            forall|j: int| 0 <= j < i ==> sc_deep_seq(a@)[j] == sc_deep_seq(b@)[j],
        decreases a@.len() - i,
    {
        proof {
            assert(decreases_to!(a => a@));
            assert(decreases_to!(a@ => a@[i as int]));
        }
        if !sc_eq(&a[i], &b[i]) {
            assert(sc_deep_seq(a@)[i as int] != sc_deep_seq(b@)[i as int]);
            return false;
        }
        i = i + 1;
    }
    assert(sc_deep_seq(a@) =~= sc_deep_seq(b@));
    true
}

fn sc_entries_eq(a: &Vec<ScMapEntry>, b: &Vec<ScMapEntry>) -> (r: bool)
    ensures
        r == (sc_deep_entries(a@) == sc_deep_entries(b@)),
    decreases *a, 1nat,
{
    if a.len() != b.len() {
        assert(sc_deep_entries(a@).len() != sc_deep_entries(b@).len());
        return false;
    }
    let mut i: usize = 0;
    while i < a.len()
        invariant
            i <= a@.len() == b@.len(),
            forall|j: int| 0 <= j < 2 * i ==> sc_deep_entries(a@)[j] == sc_deep_entries(b@)[j],
        decreases a@.len() - i,
    {
        proof {
            assert(decreases_to!(a => a@));
            assert(decreases_to!(a@ => a@[i as int]));
            assert(sc_deep_entries(a@)[2 * i] == sc_deep(a@[i as int].key));
            assert(sc_deep_entries(b@)[2 * i] == sc_deep(b@[i as int].key));
            assert(sc_deep_entries(a@)[2 * i + 1] == sc_deep(a@[i as int].val));
            assert(sc_deep_entries(b@)[2 * i + 1] == sc_deep(b@[i as int].val));
        }
        if !sc_eq(&a[i].key, &b[i].key) || !sc_eq(&a[i].val, &b[i].val) {
            return false;
        }
        i = i + 1;
    }
    assert(sc_deep_entries(a@) =~= sc_deep_entries(b@));
    true
}

/// A tree that denotes the same.
pub fn sc_copy(v: &ScVal) -> (r: ScVal)
    ensures
        sc_deep(r) == sc_deep(*v),
    decreases *v, 0nat,
{
    match v {
        ScVal::Bool(b) => ScVal::Bool(*b),
        ScVal::Void => ScVal::Void,
        ScVal::Error(e) => ScVal::Error(*e),
        ScVal::U32(x) => ScVal::U32(*x),
        ScVal::I32(x) => ScVal::I32(*x),
        ScVal::U64(x) => ScVal::U64(*x),
        ScVal::I64(x) => ScVal::I64(*x),
        ScVal::Timepoint(x) => ScVal::Timepoint(*x),
        ScVal::Duration(x) => ScVal::Duration(*x),
        ScVal::U128(x) => ScVal::U128(*x),
        ScVal::I128(x) => ScVal::I128(*x),
        ScVal::U256(x) => ScVal::U256(*x),
        ScVal::I256(x) => ScVal::I256(*x),
        ScVal::Bytes(s) => ScVal::Bytes(copy_bytes(s)),
        ScVal::Text(s) => ScVal::Text(copy_bytes(s)),
        ScVal::Symbol(s) => ScVal::Symbol(copy_bytes(s)),
        ScVal::ScVec(s) => ScVal::ScVec(sc_copy_list(s)),
        ScVal::ScMap(m) => ScVal::ScMap(sc_copy_entries(m)),
        ScVal::Address(a) => ScVal::Address(*a),
    }
}

fn sc_copy_list(s: &Vec<ScVal>) -> (r: Vec<ScVal>)
    ensures
        sc_deep_seq(r@) == sc_deep_seq(s@),
    decreases *s, 1nat,
{
    let mut r: Vec<ScVal> = Vec::new();
    let mut i: usize = 0;
    while i < s.len()
        invariant
            i <= s@.len(),
            r@.len() == i,
            forall|j: int| 0 <= j < i ==> sc_deep(#[trigger] r@[j]) == sc_deep(s@[j]),
        decreases s@.len() - i,
    {
        proof {
            assert(decreases_to!(s => s@));
            assert(decreases_to!(s@ => s@[i as int]));
        }
        r.push(sc_copy(&s[i]));
        i = i + 1;
    }
    assert(sc_deep_seq(r@) =~= sc_deep_seq(s@));
    r
}

pub fn sc_copy_entries(m: &Vec<ScMapEntry>) -> (r: Vec<ScMapEntry>)
    ensures
        sc_deep_entries(r@) == sc_deep_entries(m@),
    decreases *m, 1nat,
{
    let mut r: Vec<ScMapEntry> = Vec::new();
    let mut i: usize = 0;
    while i < m.len()
        invariant
            i <= m@.len(),
            r@.len() == i,
            forall|j: int|
                0 <= j < i ==> sc_deep((#[trigger] r@[j]).key) == sc_deep(m@[j].key) && sc_deep(r@[j].val) == sc_deep(
                    m@[j].val,
                ),
        decreases m@.len() - i,
    {
        proof {
            assert(decreases_to!(m => m@));
            assert(decreases_to!(m@ => m@[i as int]));
        }
        let key = sc_copy(&m[i].key);
        let val = sc_copy(&m[i].val);
        r.push(ScMapEntry { key, val });
        i = i + 1;
    }
    assert forall|j: int| 0 <= j < 2 * m@.len() implies #[trigger] sc_deep_entries(r@)[j] == sc_deep_entries(m@)[j] by {
        let e = r@[j / 2];
    }
    assert(sc_deep_entries(r@) =~= sc_deep_entries(m@));
    r
}

} // verus!
