//! The mathematical model of values: what a tagged value denotes once all
//! handles are followed, and the total order on what values denote.

use crate::bignum::U256;
use crate::error::Error;
use crate::symbol::{is_symbol, small_symbol_bytes};
use crate::val::{is_relative_object_handle, spec_handle_to_index, Object, ObjectTag, Val, MAX_OBJECTS};
use vstd::prelude::*;

verus! {

/// A 32-byte hash, as the number that its bytes stand for.
#[derive(Clone, Copy, PartialEq, Eq, Structural, Debug)]
pub struct Hash32(pub U256);

/// An account, known by its 32-byte public key.
#[derive(Clone, Copy, PartialEq, Eq, Structural, Debug)]
pub struct AccountId(pub U256);

/// The address of an account or of a contract.
#[derive(Clone, Copy, PartialEq, Eq, Structural, Debug)]
pub enum ScAddress {
    Account(AccountId),
    Contract(Hash32),
}

/// The numeric types.
#[derive(Clone, Copy, PartialEq, Eq, Structural, Debug)]
pub enum NumKind {
    U32,
    I32,
    U64,
    I64,
    Timepoint,
    Duration,
    U128,
    I128,
    U256,
    I256,
}

/// The types that are strings of bytes.
#[derive(Clone, Copy, PartialEq, Eq, Structural, Debug)]
pub enum BlobKind {
    Bytes,
    Text,
    Symbol,
}

/// What a value denotes, with no handles left in it.
///
/// A map is the list of its keys and values in turn, in the order of its keys.
pub enum Deep {
    Bool(bool),
    Void,
    Error(Error),
    Num(NumKind, int),
    Blob(BlobKind, Seq<u8>),
    Vector(Seq<Deep>),
    Mapping(Seq<Deep>),
    Address(ScAddress),
}

/// The contents of a host object.
pub enum ObjModel {
    Num(NumKind, int),
    Blob(BlobKind, Seq<u8>),
    Vector(Seq<Val>),
    Mapping(Seq<(Val, Val)>),
    Address(ScAddress),
}

impl ObjModel {
    /// The type of the handles that may point at the object.
    pub open spec fn tag(self) -> ObjectTag {
        match self {
            ObjModel::Num(NumKind::I64, _) => ObjectTag::I64Object,
            ObjModel::Num(NumKind::Timepoint, _) => ObjectTag::TimepointObject,
            ObjModel::Num(NumKind::Duration, _) => ObjectTag::DurationObject,
            ObjModel::Num(NumKind::U128, _) => ObjectTag::U128Object,
            ObjModel::Num(NumKind::I128, _) => ObjectTag::I128Object,
            ObjModel::Num(NumKind::U256, _) => ObjectTag::U256Object,
            ObjModel::Num(NumKind::I256, _) => ObjectTag::I256Object,
            ObjModel::Num(_, _) => ObjectTag::U64Object,
            ObjModel::Blob(BlobKind::Bytes, _) => ObjectTag::BytesObject,
            ObjModel::Blob(BlobKind::Text, _) => ObjectTag::StringObject,
            ObjModel::Blob(BlobKind::Symbol, _) => ObjectTag::SymbolObject,
            ObjModel::Vector(_) => ObjectTag::VecObject,
            ObjModel::Mapping(_) => ObjectTag::MapObject,
            ObjModel::Address(_) => ObjectTag::AddressObject,
        }
    }
}

/// The keys and values of a map in turn.
pub open spec fn interleave(m: Seq<(Val, Val)>) -> Seq<Val> {
    Seq::new(
        2 * m.len(),
        |j: int|
            if j % 2 == 0 {
                m[j / 2].0
            } else {
                m[j / 2].1
            },
    )
}

/// Zero for a small value, and for a handle one more than its table position:
/// what an object refers to has a smaller rank than any handle of the object.
pub open spec fn rank(v: Val) -> nat {
    match v {
        Val::Object(o) => (spec_handle_to_index(o.handle) + 1) as nat,
        _ => 0,
    }
}

/// What a value denotes, given the table that its handles point into.
pub open spec fn deep(objs: Seq<ObjModel>, v: Val) -> Deep
    decreases rank(v),
{
    match v {
        Val::Bool(b) => Deep::Bool(b),
        Val::Void | Val::Bad(_) => Deep::Void,
        Val::Error(e) => Deep::Error(e),
        Val::U32(x) => Deep::Num(NumKind::U32, x as int),
        Val::I32(x) => Deep::Num(NumKind::I32, x as int),
        Val::U64Small(x) => Deep::Num(NumKind::U64, x as int),
        Val::I64Small(x) => Deep::Num(NumKind::I64, x as int),
        Val::TimepointSmall(x) => Deep::Num(NumKind::Timepoint, x as int),
        Val::DurationSmall(x) => Deep::Num(NumKind::Duration, x as int),
        Val::U128Small(x) => Deep::Num(NumKind::U128, x as int),
        Val::I128Small(x) => Deep::Num(NumKind::I128, x as int),
        Val::U256Small(x) => Deep::Num(NumKind::U256, x as int),
        Val::I256Small(x) => Deep::Num(NumKind::I256, x as int),
        Val::SymbolSmall(x) => Deep::Blob(BlobKind::Symbol, small_symbol_bytes(x as int)),
        Val::Object(o) => match objs[spec_handle_to_index(o.handle)] {
            ObjModel::Num(k, x) => Deep::Num(k, x),
            ObjModel::Blob(k, s) => Deep::Blob(k, s),
            ObjModel::Address(a) => Deep::Address(a),
            ObjModel::Vector(s) => Deep::Vector(
                Seq::new(
                    s.len(),
                    |j: int|
                        if rank(s[j]) < rank(v) {
                            deep(objs, s[j])
                        } else {
                            Deep::Void
                        },
                ),
            ),
            ObjModel::Mapping(m) => {
                let s = interleave(m);
                Deep::Mapping(
                    Seq::new(
                        s.len(),
                        |j: int|
                            if rank(s[j]) < rank(v) {
                                deep(objs, s[j])
                            } else {
                                Deep::Void
                            },
                    ),
                )
            },
        },
    }
}

/// What each value of a list denotes.
pub open spec fn deep_seq(objs: Seq<ObjModel>, s: Seq<Val>) -> Seq<Deep> {
    Seq::new(s.len(), |j: int| deep(objs, s[j]))
}

/// Where values of each type stand in the order of types.
pub open spec fn type_rank(d: Deep) -> int {
    match d {
        Deep::Bool(_) => 0,
        Deep::Void => 1,
        Deep::Error(_) => 2,
        Deep::Num(NumKind::U32, _) => 3,
        Deep::Num(NumKind::I32, _) => 4,
        Deep::Num(NumKind::U64, _) => 5,
        Deep::Num(NumKind::I64, _) => 6,
        Deep::Num(NumKind::Timepoint, _) => 7,
        Deep::Num(NumKind::Duration, _) => 8,
        Deep::Num(NumKind::U128, _) => 9,
        Deep::Num(NumKind::I128, _) => 10,
        Deep::Num(NumKind::U256, _) => 11,
        Deep::Num(NumKind::I256, _) => 12,
        Deep::Blob(BlobKind::Bytes, _) => 13,
        Deep::Blob(BlobKind::Text, _) => 14,
        Deep::Blob(BlobKind::Symbol, _) => 15,
        Deep::Vector(_) => 16,
        Deep::Mapping(_) => 17,
        Deep::Address(_) => 18,
    }
}

pub open spec fn int_order(a: int, b: int) -> int {
    if a < b {
        -1
    } else if a > b {
        1
    } else {
        0
    }
}

/// Dictionary order of byte strings, from position `i` on.
pub open spec fn bytes_order(a: Seq<u8>, b: Seq<u8>, i: nat) -> int
    decreases a.len() - i,
{
    if i >= a.len() || i >= b.len() {
        int_order(a.len() as int, b.len() as int)
    } else if a[i as int] != b[i as int] {
        int_order(a[i as int] as int, b[i as int] as int)
    } else {
        bytes_order(a, b, i + 1)
    }
}

pub open spec fn address_order(a: ScAddress, b: ScAddress) -> int {
    match (a, b) {
        (ScAddress::Account(x), ScAddress::Account(y)) => int_order(x.0@, y.0@),
        (ScAddress::Contract(x), ScAddress::Contract(y)) => int_order(x.0@, y.0@),
        (ScAddress::Account(_), ScAddress::Contract(_)) => -1,
        (ScAddress::Contract(_), ScAddress::Account(_)) => 1,
    }
}

/// The order of what values denote: -1, 0 or 1 as the first comes before, is,
/// or comes after the second. Types come first; then numbers go by size,
/// strings, vectors and maps by dictionary order.
pub open spec fn deep_order(a: Deep, b: Deep) -> int
    decreases a, 0nat,
{
    if type_rank(a) != type_rank(b) {
        int_order(type_rank(a), type_rank(b))
    } else {
        match (a, b) {
            (Deep::Bool(x), Deep::Bool(y)) => if x == y {
                0
            } else if y {
                -1
            } else {
                1
            },
            (Deep::Error(x), Deep::Error(y)) => if x.type_ != y.type_ {
                int_order(x.type_.spec_number() as int, y.type_.spec_number() as int)
            } else {
                int_order(x.code as int, y.code as int)
            },
            (Deep::Num(_, x), Deep::Num(_, y)) => int_order(x, y),
            (Deep::Blob(_, x), Deep::Blob(_, y)) => bytes_order(x, y, 0),
            (Deep::Vector(x), Deep::Vector(y)) => seq_order(x, y, 0),
            (Deep::Mapping(x), Deep::Mapping(y)) => seq_order(x, y, 0),
            (Deep::Address(x), Deep::Address(y)) => address_order(x, y),
            _ => 0,
        }
    }
}

/// Dictionary order of lists, from position `i` on.
pub open spec fn seq_order(a: Seq<Deep>, b: Seq<Deep>, i: nat) -> int
    decreases a, (if i <= a.len() { a.len() - i } else { 0 }) as nat,
{
    if i >= a.len() || i >= b.len() {
        int_order(a.len() as int, b.len() as int)
    } else {
        let c = deep_order(a[i as int], b[i as int]);
        if c != 0 {
            c
        } else {
            seq_order(a, b, i + 1)
        }
    }
}

proof fn lemma_bytes_order_flip(a: Seq<u8>, b: Seq<u8>, i: nat)
    ensures
        bytes_order(b, a, i) == -bytes_order(a, b, i),
        -1 <= bytes_order(a, b, i) <= 1,
    decreases a.len() - i,
{
    if i < a.len() && i < b.len() {
        lemma_bytes_order_flip(a, b, i + 1);
    }
}

proof fn lemma_bytes_order_zero(a: Seq<u8>, b: Seq<u8>, i: nat)
    requires
        i <= a.len(),
        i <= b.len(),
        forall|j: int| 0 <= j < i ==> a[j] == b[j],
    ensures
        bytes_order(a, b, i) == 0 <==> a == b,
    decreases a.len() - i,
{
    if i < a.len() && i < b.len() {
        if a[i as int] == b[i as int] {
            lemma_bytes_order_zero(a, b, i + 1);
        }
    } else if a.len() == b.len() {
        assert(a =~= b);
    }
}

proof fn lemma_bytes_order_chain(a: Seq<u8>, b: Seq<u8>, c: Seq<u8>, i: nat)
    requires
        bytes_order(a, b, i) <= 0,
        bytes_order(b, c, i) <= 0,
    ensures
        bytes_order(a, c, i) <= 0,
        bytes_order(a, c, i) == 0 ==> bytes_order(a, b, i) == 0 && bytes_order(b, c, i) == 0,
    decreases a.len() - i,
{
    if i < a.len() && i < b.len() && i < c.len() && a[i as int] == b[i as int] && b[i as int] == c[i as int] {
        lemma_bytes_order_chain(a, b, c, i + 1);
    }
}

/// Turning the arguments round turns the order round.
pub proof fn law_order_flip(a: Deep, b: Deep)
    ensures
        deep_order(b, a) == -deep_order(a, b),
        -1 <= deep_order(a, b) <= 1,
    decreases a, 0nat,
{
    match (a, b) {
        (Deep::Blob(_, x), Deep::Blob(_, y)) => lemma_bytes_order_flip(x, y, 0),
        (Deep::Vector(x), Deep::Vector(y)) => lemma_seq_order_flip(x, y, 0),
        (Deep::Mapping(x), Deep::Mapping(y)) => lemma_seq_order_flip(x, y, 0),
        _ => {},
    }
}

proof fn lemma_seq_order_flip(a: Seq<Deep>, b: Seq<Deep>, i: nat)
    ensures
        seq_order(b, a, i) == -seq_order(a, b, i),
        -1 <= seq_order(a, b, i) <= 1,
    decreases a, (if i <= a.len() { a.len() - i } else { 0 }) as nat,
{
    if i < a.len() && i < b.len() {
        law_order_flip(a[i as int], b[i as int]);
        lemma_seq_order_flip(a, b, i + 1);
    }
}

/// Only equal things are neither before nor after one another.
pub proof fn law_order_zero(a: Deep, b: Deep)
    ensures
        deep_order(a, b) == 0 <==> a == b,
    decreases a, 0nat,
{
    match (a, b) {
        (Deep::Blob(_, x), Deep::Blob(_, y)) => lemma_bytes_order_zero(x, y, 0),
        (Deep::Vector(x), Deep::Vector(y)) => lemma_seq_order_zero(x, y, 0),
        (Deep::Mapping(x), Deep::Mapping(y)) => lemma_seq_order_zero(x, y, 0),
        (Deep::Address(x), Deep::Address(y)) => lemma_address_order_zero(x, y),
        _ => {},
    }
}

proof fn lemma_seq_order_zero(a: Seq<Deep>, b: Seq<Deep>, i: nat)
    requires
        i <= a.len(),
        i <= b.len(),
        forall|j: int| 0 <= j < i ==> a[j] == b[j],
    ensures
        seq_order(a, b, i) == 0 <==> a == b,
    decreases a, (if i <= a.len() { a.len() - i } else { 0 }) as nat,
{
    if i < a.len() && i < b.len() {
        law_order_zero(a[i as int], b[i as int]);
        if a[i as int] == b[i as int] {
            lemma_seq_order_zero(a, b, i + 1);
        }
    } else if a.len() == b.len() {
        assert(a =~= b);
    }
}

proof fn lemma_address_order_zero(a: ScAddress, b: ScAddress)
    ensures
        address_order(a, b) == 0 <==> a == b,
{
    match (a, b) {
        (ScAddress::Account(x), ScAddress::Account(y)) => crate::bignum::lemma_u256_view(x.0, y.0),
        (ScAddress::Contract(x), ScAddress::Contract(y)) => crate::bignum::lemma_u256_view(x.0, y.0),
        _ => {},
    }
}

/// What comes before something comes before all that comes after it.
pub proof fn law_order_transitive(a: Deep, b: Deep, c: Deep)
    requires
        deep_order(a, b) <= 0,
        deep_order(b, c) <= 0,
    ensures
        deep_order(a, c) <= 0,
        deep_order(a, c) == 0 ==> deep_order(a, b) == 0 && deep_order(b, c) == 0,
    decreases a, 0nat,
{
    match (a, b, c) {
        (Deep::Blob(_, x), Deep::Blob(_, y), Deep::Blob(_, z)) => {
            if type_rank(a) == type_rank(b) && type_rank(b) == type_rank(c) {
                lemma_bytes_order_chain(x, y, z, 0);
            }
        },
        (Deep::Vector(x), Deep::Vector(y), Deep::Vector(z)) => lemma_seq_order_chain(x, y, z, 0),
        (Deep::Mapping(x), Deep::Mapping(y), Deep::Mapping(z)) => lemma_seq_order_chain(x, y, z, 0),
        _ => {},
    }
}

proof fn lemma_seq_order_chain(a: Seq<Deep>, b: Seq<Deep>, c: Seq<Deep>, i: nat)
    requires
        seq_order(a, b, i) <= 0,
        seq_order(b, c, i) <= 0,
    ensures
        seq_order(a, c, i) <= 0,
        seq_order(a, c, i) == 0 ==> seq_order(a, b, i) == 0 && seq_order(b, c, i) == 0,
    decreases a, (if i <= a.len() { a.len() - i } else { 0 }) as nat,
{
    if i < a.len() && i < b.len() && i < c.len() {
        let (x, y, z) = (a[i as int], b[i as int], c[i as int]);
        law_order_transitive(x, y, z);
        if deep_order(x, y) == 0 && deep_order(y, z) == 0 {
            law_order_zero(x, y);
            lemma_seq_order_chain(a, b, c, i + 1);
        }
    }
}

/// How many levels a thing nests: one, and one more for each vector or map
/// around the deepest thing in it.
pub open spec fn nesting(d: Deep) -> nat
    decreases d, 0nat,
{
    match d {
        Deep::Vector(s) => 1 + nesting_seq(s, 0),
        Deep::Mapping(s) => 1 + nesting_seq(s, 0),
        _ => 1,
    }
}

/// The deepest nesting in a list, from position `i` on.
pub open spec fn nesting_seq(s: Seq<Deep>, i: nat) -> nat
    decreases s, (if i <= s.len() { s.len() - i } else { 0 }) as nat,
{
    if i >= s.len() {
        0
    } else {
        larger(nesting(s[i as int]), nesting_seq(s, i + 1))
    }
}

pub open spec fn larger(a: nat, b: nat) -> nat {
    if a < b {
        b
    } else {
        a
    }
}

/// How many levels have to be looked at to order two things. Lists are looked
/// at up to their first difference.
pub open spec fn order_levels(a: Deep, b: Deep) -> nat
    decreases a, 0nat,
{
    match (a, b) {
        (Deep::Vector(x), Deep::Vector(y)) => 1 + seq_levels(x, y, 0),
        (Deep::Mapping(x), Deep::Mapping(y)) => 1 + seq_levels(x, y, 0),
        _ => 1,
    }
}

/// How many levels have to be looked at to order two lists, from position `i`
/// on.
pub open spec fn seq_levels(a: Seq<Deep>, b: Seq<Deep>, i: nat) -> nat
    decreases a, (if i <= a.len() { a.len() - i } else { 0 }) as nat,
{
    if i >= a.len() || i >= b.len() {
        0
    } else {
        let here = order_levels(a[i as int], b[i as int]);
        if deep_order(a[i as int], b[i as int]) != 0 {
            here
        } else {
            larger(here, seq_levels(a, b, i + 1))
        }
    }
}

/// To order two things, neither has to be looked at deeper than it nests.
pub proof fn law_order_levels_bounded(a: Deep, b: Deep)
    ensures
        order_levels(a, b) <= nesting(a),
        order_levels(a, b) <= nesting(b),
    decreases a, 0nat,
{
    match (a, b) {
        (Deep::Vector(x), Deep::Vector(y)) => lemma_seq_levels_bounded(x, y, 0),
        (Deep::Mapping(x), Deep::Mapping(y)) => lemma_seq_levels_bounded(x, y, 0),
        _ => {},
    }
}

proof fn lemma_seq_levels_bounded(a: Seq<Deep>, b: Seq<Deep>, i: nat)
    ensures
        seq_levels(a, b, i) <= nesting_seq(a, i),
        seq_levels(a, b, i) <= nesting_seq(b, i),
    decreases a, (if i <= a.len() { a.len() - i } else { 0 }) as nat,
{
    if i < a.len() && i < b.len() {
        law_order_levels_bounded(a[i as int], b[i as int]);
        lemma_seq_levels_bounded(a, b, i + 1);
    }
}

// The object table.

/// Whether a value is well formed and, if it is a handle, is an absolute handle
/// of an object of the type that it claims.
pub open spec fn val_ok(objs: Seq<ObjModel>, v: Val) -> bool {
    &&& v.in_range()
    &&& match v {
        Val::Object(o) => {
            &&& !is_relative_object_handle(o.handle)
            &&& spec_handle_to_index(o.handle) < objs.len()
            &&& objs[spec_handle_to_index(o.handle)].tag() == o.tag
        },
        _ => true,
    }
}

pub open spec fn vals_ok(objs: Seq<ObjModel>, s: Seq<Val>) -> bool {
    forall|i: int| 0 <= i < s.len() ==> val_ok(objs, #[trigger] s[i])
}

/// What the key at a position of a map denotes.
pub open spec fn key_at(objs: Seq<ObjModel>, m: Seq<(Val, Val)>, i: int) -> Deep {
    deep(objs, m[i].0)
}

/// Whether the keys of a map are in strictly rising order.
pub open spec fn sorted(objs: Seq<ObjModel>, m: Seq<(Val, Val)>) -> bool {
    forall|i: int, j: int|
        0 <= i < j < m.len() ==> deep_order(#[trigger] key_at(objs, m, i), #[trigger] key_at(objs, m, j)) < 0
}

/// Whether the keys and values of a map are well formed, and its keys in order.
pub open spec fn map_ok(objs: Seq<ObjModel>, m: Seq<(Val, Val)>) -> bool {
    &&& forall|i: int| 0 <= i < m.len() ==> val_ok(objs, (#[trigger] m[i]).0) && val_ok(objs, m[i].1)
    &&& sorted(objs, m)
}

/// Whether an object may be added to the table.
pub open spec fn obj_ok(objs: Seq<ObjModel>, o: ObjModel) -> bool {
    match o {
        ObjModel::Num(_, _) | ObjModel::Address(_) => true,
        ObjModel::Blob(BlobKind::Symbol, s) => is_symbol(s),
        ObjModel::Blob(_, s) => s.len() <= u32::MAX,
        ObjModel::Vector(s) => vals_ok(objs, s),
        ObjModel::Mapping(m) => map_ok(objs, m),
    }
}

/// The invariant of the object table: each object refers only to objects that
/// were there before it.
pub open spec fn table_ok(objs: Seq<ObjModel>) -> bool {
    &&& objs.len() <= MAX_OBJECTS
    &&& forall|i: int| 0 <= i < objs.len() ==> obj_ok(objs.take(i), #[trigger] objs[i])
}

/// Whether one table is the other with objects added at its end.
pub open spec fn extends(objs: Seq<ObjModel>, more: Seq<ObjModel>) -> bool {
    &&& objs.len() <= more.len()
    &&& forall|i: int| 0 <= i < objs.len() ==> #[trigger] objs[i] == more[i]
}

pub proof fn lemma_interleave_ok(objs: Seq<ObjModel>, m: Seq<(Val, Val)>)
    ensures
        interleave(m).len() == 2 * m.len(),
        forall|i: int|
            0 <= i < m.len() ==> (#[trigger] m[i]).0 == interleave(m)[2 * i] && m[i].1 == interleave(m)[2 * i + 1],
        map_ok(objs, m) ==> vals_ok(objs, interleave(m)),
{
    assert forall|i: int| map_ok(objs, m) && 0 <= i < interleave(m).len() implies val_ok(
        objs,
        #[trigger] interleave(m)[i],
    ) by {
        let p = m[i / 2];
    }
}

/// What a value denotes does not change when objects are added.
pub proof fn law_values_are_immutable(objs: Seq<ObjModel>, more: Seq<ObjModel>, v: Val)
    requires
        table_ok(objs),
        extends(objs, more),
        val_ok(objs, v),
    ensures
        val_ok(more, v),
        deep(more, v) == deep(objs, v),
    decreases rank(v),
{
    if let Val::Object(o) = v {
        let k = spec_handle_to_index(o.handle);
        assert(obj_ok(objs.take(k), objs[k]));
        match objs[k] {
            ObjModel::Vector(s) => {
                assert forall|j: int| 0 <= j < s.len() implies rank(s[j]) < rank(v) && deep(more, #[trigger] s[j])
                    == deep(objs, s[j]) by {
                    assert(val_ok(objs.take(k), s[j]));
                    law_values_are_immutable(objs, more, s[j]);
                }
                assert(deep(more, v)->Vector_0 =~= deep(objs, v)->Vector_0);
            },
            ObjModel::Mapping(m) => {
                let s = interleave(m);
                lemma_interleave_ok(objs.take(k), m);
                assert forall|j: int| 0 <= j < s.len() implies rank(s[j]) < rank(v) && deep(more, #[trigger] s[j])
                    == deep(objs, s[j]) by {
                    assert(val_ok(objs.take(k), s[j]));
                    law_values_are_immutable(objs, more, s[j]);
                }
                assert(deep(more, v)->Mapping_0 =~= deep(objs, v)->Mapping_0);
            },
            _ => {},
        }
    }
}

/// What a handle of a vector denotes, and that its elements are well formed.
pub proof fn lemma_deep_vector(objs: Seq<ObjModel>, o: Object)
    requires
        table_ok(objs),
        val_ok(objs, Val::Object(o)),
        objs[spec_handle_to_index(o.handle)] is Vector,
    ensures
        ({
            let s = objs[spec_handle_to_index(o.handle)]->Vector_0;
            &&& vals_ok(objs, s)
            &&& deep(objs, Val::Object(o)) == Deep::Vector(deep_seq(objs, s))
            &&& forall|j: int| 0 <= j < s.len() ==> rank(#[trigger] s[j]) < rank(Val::Object(o))
        }),
{
    let k = spec_handle_to_index(o.handle);
    let s = objs[k]->Vector_0;
    assert(obj_ok(objs.take(k), objs[k]));
    assert forall|j: int| 0 <= j < s.len() implies val_ok(objs, #[trigger] s[j]) && rank(s[j]) < rank(
        Val::Object(o),
    ) by {
        assert(val_ok(objs.take(k), s[j]));
    }
    assert(deep(objs, Val::Object(o))->Vector_0 =~= deep_seq(objs, s));
}

/// What a handle of a map denotes, and that the map is well formed.
pub proof fn lemma_deep_mapping(objs: Seq<ObjModel>, o: Object)
    requires
        table_ok(objs),
        val_ok(objs, Val::Object(o)),
        objs[spec_handle_to_index(o.handle)] is Mapping,
    ensures
        ({
            let m = objs[spec_handle_to_index(o.handle)]->Mapping_0;
            &&& map_ok(objs, m)
            &&& deep(objs, Val::Object(o)) == Deep::Mapping(deep_seq(objs, interleave(m)))
            &&& forall|j: int|
                0 <= j < m.len() ==> rank((#[trigger] m[j]).0) < rank(Val::Object(o)) && rank(m[j].1) < rank(
                    Val::Object(o),
                )
        }),
{
    let k = spec_handle_to_index(o.handle);
    let m = objs[k]->Mapping_0;
    let s = interleave(m);
    let before = objs.take(k);
    assert(obj_ok(before, objs[k]));
    lemma_interleave_ok(before, m);
    assert forall|j: int| 0 <= j < s.len() implies val_ok(objs, #[trigger] s[j]) && rank(s[j]) < rank(
        Val::Object(o),
    ) by {
        assert(val_ok(before, s[j]));
    }
    assert(deep(objs, Val::Object(o))->Mapping_0 =~= deep_seq(objs, s));
    lemma_take_ok(objs, k);
    lemma_map_ok_extends(before, objs, m);
    assert forall|j: int| 0 <= j < m.len() implies rank((#[trigger] m[j]).0) < rank(Val::Object(o)) && rank(m[j].1)
        < rank(Val::Object(o)) by {
        assert(val_ok(before, m[j].0) && val_ok(before, m[j].1));
    }
}

/// A table cut short is still a table.
pub proof fn lemma_take_ok(objs: Seq<ObjModel>, k: int)
    requires
        table_ok(objs),
        0 <= k <= objs.len(),
    ensures
        table_ok(objs.take(k)),
        extends(objs.take(k), objs),
{
    assert forall|i: int| 0 <= i < k implies obj_ok(objs.take(k).take(i), #[trigger] objs.take(k)[i]) by {
        assert(obj_ok(objs.take(i), objs[i]));
        assert(objs.take(k).take(i) =~= objs.take(i));
    }
}

/// Maps stay well formed when objects are added.
pub proof fn lemma_map_ok_extends(objs: Seq<ObjModel>, more: Seq<ObjModel>, m: Seq<(Val, Val)>)
    requires
        table_ok(objs),
        extends(objs, more),
        map_ok(objs, m),
    ensures
        map_ok(more, m),
        forall|i: int| 0 <= i < m.len() ==> #[trigger] key_at(more, m, i) == key_at(objs, m, i),
{
    assert forall|i: int| 0 <= i < m.len() implies val_ok(more, (#[trigger] m[i]).0) && val_ok(more, m[i].1)
        && key_at(more, m, i) == key_at(objs, m, i) by {
        law_values_are_immutable(objs, more, m[i].0);
        law_values_are_immutable(objs, more, m[i].1);
    }
    assert forall|i: int| 0 <= i < m.len() implies #[trigger] key_at(more, m, i) == key_at(objs, m, i) by {
        let p = m[i];
    }
}

/// Lists of values stay well formed when objects are added.
pub proof fn lemma_vals_ok_extends(objs: Seq<ObjModel>, more: Seq<ObjModel>, s: Seq<Val>)
    requires
        table_ok(objs),
        extends(objs, more),
        vals_ok(objs, s),
    ensures
        vals_ok(more, s),
        deep_seq(more, s) == deep_seq(objs, s),
{
    assert forall|i: int| 0 <= i < s.len() implies val_ok(more, #[trigger] s[i]) && deep(more, s[i]) == deep(
        objs,
        s[i],
    ) by {
        law_values_are_immutable(objs, more, s[i]);
    }
    assert(deep_seq(more, s) =~= deep_seq(objs, s));
}

/// Adding an object that refers only to the table keeps the table's invariant.
pub proof fn lemma_push_ok(objs: Seq<ObjModel>, o: ObjModel)
    requires
        table_ok(objs),
        obj_ok(objs, o),
        objs.len() < MAX_OBJECTS,
    ensures
        table_ok(objs.push(o)),
        extends(objs, objs.push(o)),
{
    let more = objs.push(o);
    assert forall|i: int| 0 <= i < more.len() implies obj_ok(more.take(i), #[trigger] more[i]) by {
        if i < objs.len() {
            assert(obj_ok(objs.take(i), objs[i]));
            assert(more.take(i) =~= objs.take(i));
        } else {
            assert(more.take(i) =~= objs);
        }
    }
}

} // verus!
