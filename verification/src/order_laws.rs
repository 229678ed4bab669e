//! What the order of values is.

use crate::error::{Error, HostError, ScErrorCode, ScErrorType};
use crate::host::{charge, Host, DEFAULT_HOST_DEPTH_LIMIT};
use crate::budget::ContractCostType;
use crate::host_order::compares;
use crate::model::{
    bytes_order, deep, deep_order, deep_seq, interleave, law_order_levels_bounded, law_order_zero, lemma_deep_mapping,
    lemma_deep_vector, nesting, nesting_seq, order_levels, seq_levels, seq_order, val_ok, BlobKind, Deep, NumKind,
    ObjModel, ScAddress,
};
use crate::symbol::small_symbol_bytes;
use crate::val::{spec_handle_to_index, ObjectTag, Val};
use vstd::prelude::*;

verus! {

/// The object that a value is.
pub open spec fn object_of(objs: Seq<ObjModel>, v: Val) -> ObjModel {
    objs[spec_handle_to_index(v->Object_0.handle)]
}

/// The bytes of a byte string, text or symbol, be it an object or small.
pub open spec fn blob_of(objs: Seq<ObjModel>, v: Val) -> Option<(BlobKind, Seq<u8>)> {
    match v {
        Val::SymbolSmall(x) => Some((BlobKind::Symbol, small_symbol_bytes(x as int))),
        Val::Object(_) => match object_of(objs, v) {
            ObjModel::Blob(kind, s) => Some((kind, s)),
            _ => None,
        },
        _ => None,
    }
}

/// The number that a value is, be it an object or small, with its type.
pub open spec fn number_of(objs: Seq<ObjModel>, v: Val) -> Option<(NumKind, int)> {
    match v {
        Val::U32(x) => Some((NumKind::U32, x as int)),
        Val::I32(x) => Some((NumKind::I32, x as int)),
        Val::U64Small(x) => Some((NumKind::U64, x as int)),
        Val::I64Small(x) => Some((NumKind::I64, x as int)),
        Val::TimepointSmall(x) => Some((NumKind::Timepoint, x as int)),
        Val::DurationSmall(x) => Some((NumKind::Duration, x as int)),
        Val::U128Small(x) => Some((NumKind::U128, x as int)),
        Val::I128Small(x) => Some((NumKind::I128, x as int)),
        Val::U256Small(x) => Some((NumKind::U256, x as int)),
        Val::I256Small(x) => Some((NumKind::I256, x as int)),
        Val::Object(_) => match object_of(objs, v) {
            ObjModel::Num(kind, x) => Some((kind, x)),
            _ => None,
        },
        _ => None,
    }
}

/// The number that the ledger's protocol gives to the type of a value.
pub open spec fn type_number(objs: Seq<ObjModel>, v: Val) -> int {
    match v {
        Val::Bool(_) => 0,
        Val::Void | Val::Bad(_) => 1,
        Val::Error(_) => 2,
        Val::U32(_) => 3,
        Val::I32(_) => 4,
        Val::U64Small(_) => 5,
        Val::I64Small(_) => 6,
        Val::TimepointSmall(_) => 7,
        Val::DurationSmall(_) => 8,
        Val::U128Small(_) => 9,
        Val::I128Small(_) => 10,
        Val::U256Small(_) => 11,
        Val::I256Small(_) => 12,
        Val::SymbolSmall(_) => 15,
        Val::Object(o) => match o.tag {
            ObjectTag::U64Object => 5,
            ObjectTag::I64Object => 6,
            ObjectTag::TimepointObject => 7,
            ObjectTag::DurationObject => 8,
            ObjectTag::U128Object => 9,
            ObjectTag::I128Object => 10,
            ObjectTag::U256Object => 11,
            ObjectTag::I256Object => 12,
            ObjectTag::BytesObject => 13,
            ObjectTag::StringObject => 14,
            ObjectTag::SymbolObject => 15,
            ObjectTag::VecObject => 16,
            ObjectTag::MapObject => 17,
            ObjectTag::AddressObject => 18,
        },
    }
}

/// Whether two lists agree up to a position.
pub open spec fn agree_before<T>(s: Seq<T>, t: Seq<T>, i: int) -> bool {
    forall|j: int| 0 <= j < i ==> #[trigger] s[j] == t[j]
}

/// Byte strings, texts and symbols are ordered as in a dictionary: the first byte in
/// which they differ decides, whatever their lengths are, and what the other starts
/// with comes first.
pub proof fn law_strings_go_by_first_difference(
    pre: Host,
    post: Host,
    a: Val,
    b: Val,
    r: i64,
    kind: BlobKind,
    s: Seq<u8>,
    t: Seq<u8>,
)
    requires
        compares(pre, post, a, b, Ok(r)),
        blob_of(pre.objs(), a) == Some((kind, s)),
        blob_of(pre.objs(), b) == Some((kind, t)),
    ensures
        forall|i: int|
            0 <= i < s.len() && i < t.len() && #[trigger] s[i] != t[i] && agree_before(s, t, i) ==> {
                &&& r == -1 <==> s[i] < t[i]
                &&& r == 1 <==> s[i] > t[i]
            },
        s.len() < t.len() && agree_before(s, t, s.len() as int) ==> r == -1,
        s.len() > t.len() && agree_before(s, t, t.len() as int) ==> r == 1,
        r == 0 <==> s == t,
{
    assert(r == bytes_order(s, t, 0));
    law_order_zero(Deep::Blob(kind, s), Deep::Blob(kind, t));
    assert forall|i: int|
        0 <= i < s.len() && i < t.len() && #[trigger] s[i] != t[i] && agree_before(s, t, i) implies {
        &&& r == -1 <==> s[i] < t[i]
        &&& r == 1 <==> s[i] > t[i]
    } by {
        lemma_bytes_skip(s, t, 0, i as nat);
    }
    if s.len() < t.len() && agree_before(s, t, s.len() as int) {
        lemma_bytes_skip(s, t, 0, s.len());
    }
    if s.len() > t.len() && agree_before(s, t, t.len() as int) {
        lemma_bytes_skip(s, t, 0, t.len());
    }
}

proof fn lemma_bytes_skip(s: Seq<u8>, t: Seq<u8>, i: nat, n: nat)
    requires
        i <= n <= s.len(),
        n <= t.len(),
        agree_before(s, t, n as int),
    ensures
        bytes_order(s, t, i) == bytes_order(s, t, n),
    decreases n - i,
{
    if i < n {
        assert(s[i as int] == t[i as int]);
        lemma_bytes_skip(s, t, i + 1, n);
    }
}

/// Numbers of one type are ordered by size, be they objects or small.
pub proof fn law_numbers_go_by_size(
    pre: Host,
    post: Host,
    a: Val,
    b: Val,
    r: i64,
    kind: NumKind,
    x: int,
    y: int,
)
    requires
        compares(pre, post, a, b, Ok(r)),
        number_of(pre.objs(), a) == Some((kind, x)),
        number_of(pre.objs(), b) == Some((kind, y)),
    ensures
        r == -1 <==> x < y,
        r == 0 <==> x == y,
        r == 1 <==> x > y,
{
}

/// Values of different types are ordered by the numbers of their types.
pub proof fn law_types_go_by_number(pre: Host, post: Host, a: Val, b: Val, r: i64)
    requires
        compares(pre, post, a, b, Ok(r)),
        type_number(pre.objs(), a) != type_number(pre.objs(), b),
    ensures
        r == -1 <==> type_number(pre.objs(), a) < type_number(pre.objs(), b),
        r == 1 <==> type_number(pre.objs(), a) > type_number(pre.objs(), b),
{
}

/// Accounts come before contracts, and both go by the size of their keys and ids.
pub proof fn law_addresses_go_by_key(pre: Host, post: Host, a: Val, b: Val, r: i64, x: ScAddress, y: ScAddress)
    requires
        compares(pre, post, a, b, Ok(r)),
        a is Object,
        b is Object,
        object_of(pre.objs(), a) == ObjModel::Address(x),
        object_of(pre.objs(), b) == ObjModel::Address(y),
    ensures
        x is Account && y is Contract ==> r == -1,
        x is Contract && y is Account ==> r == 1,
        x is Account && y is Account ==> {
            &&& r == -1 <==> x->Account_0.0@ < y->Account_0.0@
            &&& r == 1 <==> x->Account_0.0@ > y->Account_0.0@
        },
        x is Contract && y is Contract ==> {
            &&& r == -1 <==> x->Contract_0.0@ < y->Contract_0.0@
            &&& r == 1 <==> x->Contract_0.0@ > y->Contract_0.0@
        },
{
}

/// Vectors are ordered as in a dictionary: the first elements that denote different
/// things decide, and what the other starts with comes first.
pub proof fn law_vectors_go_by_first_difference(
    pre: Host,
    post: Host,
    a: Val,
    b: Val,
    r: i64,
    s: Seq<Val>,
    t: Seq<Val>,
)
    requires
        pre.wf(),
        compares(pre, post, a, b, Ok(r)),
        a is Object,
        b is Object,
        object_of(pre.objs(), a) == ObjModel::Vector(s),
        object_of(pre.objs(), b) == ObjModel::Vector(t),
    ensures
        ({
            let (x, y) = (deep_seq(pre.objs(), s), deep_seq(pre.objs(), t));
            &&& forall|i: int|
                0 <= i < s.len() && i < t.len() && #[trigger] x[i] != y[i] && agree_before(x, y, i) ==> r == deep_order(
                    deep(pre.objs(), s[i]),
                    deep(pre.objs(), t[i]),
                )
            &&& s.len() < t.len() && agree_before(x, y, s.len() as int) ==> r == -1
            &&& s.len() > t.len() && agree_before(x, y, t.len() as int) ==> r == 1
            &&& r == 0 <==> x == y
        }),
{
    let (x, y) = (deep_seq(pre.objs(), s), deep_seq(pre.objs(), t));
    lemma_deep_vector(pre.objs(), a->Object_0);
    lemma_deep_vector(pre.objs(), b->Object_0);
    lemma_lists_go_by_first_difference(x, y);
    law_order_zero(Deep::Vector(x), Deep::Vector(y));
}

/// What vectors that differ in one place only are ordered by is how the elements in
/// that place are: two vectors compare as two of their elements do, if those are
/// where they first differ.
pub proof fn law_vectors_compare_as_elements(
    pre: Host,
    post: Host,
    a: Val,
    b: Val,
    r: i64,
    s: Seq<Val>,
    t: Seq<Val>,
    i: int,
    other: Host,
    c: i64,
)
    requires
        pre.wf(),
        compares(pre, post, a, b, Ok(r)),
        a is Object,
        b is Object,
        object_of(pre.objs(), a) == ObjModel::Vector(s),
        object_of(pre.objs(), b) == ObjModel::Vector(t),
        0 <= i < s.len(),
        i < t.len(),
        deep(pre.objs(), s[i]) != deep(pre.objs(), t[i]),
        agree_before(deep_seq(pre.objs(), s), deep_seq(pre.objs(), t), i),
        compares(pre, other, s[i], t[i], Ok(c)),
    ensures
        r == c,
{
    law_vectors_go_by_first_difference(pre, post, a, b, r, s, t);
    let (x, y) = (deep_seq(pre.objs(), s), deep_seq(pre.objs(), t));
    assert(x[i] != y[i]);
}

/// Maps are ordered as the lists of their keys and values in turn: the first key or
/// value that denotes another thing decides, and what the other starts with comes
/// first.
#[verifier::rlimit(40)]
#[verifier::spinoff_prover]
pub proof fn law_maps_go_by_first_difference(
    pre: Host,
    post: Host,
    a: Val,
    b: Val,
    r: i64,
    m: Seq<(Val, Val)>,
    n: Seq<(Val, Val)>,
    i: int,
)
    requires
        pre.wf(),
        compares(pre, post, a, b, Ok(r)),
        a is Object,
        b is Object,
        object_of(pre.objs(), a) == ObjModel::Mapping(m),
        object_of(pre.objs(), b) == ObjModel::Mapping(n),
        0 <= i <= m.len(),
        i <= n.len(),
        forall|j: int|
            0 <= j < i ==> deep(pre.objs(), (#[trigger] m[j]).0) == deep(pre.objs(), n[j].0) && deep(
                pre.objs(),
                m[j].1,
            ) == deep(pre.objs(), n[j].1),
    ensures
        i < m.len() && i < n.len() && deep(pre.objs(), m[i].0) != deep(pre.objs(), n[i].0) ==> r == deep_order(
            deep(pre.objs(), m[i].0),
            deep(pre.objs(), n[i].0),
        ),
        i < m.len() && i < n.len() && deep(pre.objs(), m[i].0) == deep(pre.objs(), n[i].0) && deep(pre.objs(), m[i].1)
            != deep(pre.objs(), n[i].1) ==> r == deep_order(deep(pre.objs(), m[i].1), deep(pre.objs(), n[i].1)),
        i == m.len() && i < n.len() ==> r == -1,
        i < m.len() && i == n.len() ==> r == 1,
        i == m.len() && i == n.len() ==> r == 0,
{
    let objs = pre.objs();
    lemma_deep_mapping(objs, a->Object_0);
    lemma_deep_mapping(objs, b->Object_0);
    lemma_entries_go_by_first_difference(objs, m, n, i);
    law_order_zero(
        Deep::Mapping(deep_seq(objs, interleave(m))),
        Deep::Mapping(deep_seq(objs, interleave(n))),
    );
}

#[verifier::rlimit(40)]
#[verifier::spinoff_prover]
proof fn lemma_entries_go_by_first_difference(
    objs: Seq<ObjModel>,
    m: Seq<(Val, Val)>,
    n: Seq<(Val, Val)>,
    i: int,
)
    requires
        0 <= i <= m.len(),
        i <= n.len(),
        forall|j: int|
            0 <= j < i ==> deep(objs, (#[trigger] m[j]).0) == deep(objs, n[j].0) && deep(objs, m[j].1) == deep(
                objs,
                n[j].1,
            ),
    ensures
        ({
            let (x, y) = (deep_seq(objs, interleave(m)), deep_seq(objs, interleave(n)));
            let r = seq_order(x, y, 0);
            &&& i < m.len() && i < n.len() && deep(objs, m[i].0) != deep(objs, n[i].0) ==> r == deep_order(
                deep(objs, m[i].0),
                deep(objs, n[i].0),
            )
            &&& i < m.len() && i < n.len() && deep(objs, m[i].0) == deep(objs, n[i].0) && deep(objs, m[i].1) != deep(
                objs,
                n[i].1,
            ) ==> r == deep_order(deep(objs, m[i].1), deep(objs, n[i].1))
            &&& i == m.len() && i < n.len() ==> r == -1
            &&& i < m.len() && i == n.len() ==> r == 1
            &&& i == m.len() && i == n.len() ==> x == y
        }),
{
    let (s, t) = (interleave(m), interleave(n));
    let (x, y) = (deep_seq(objs, s), deep_seq(objs, t));
    lemma_lists_go_by_first_difference(x, y);
    assert forall|j: int| 0 <= j < 2 * i implies #[trigger] x[j] == y[j] by {
        let p = m[j / 2];
        assert(s[j] == if j % 2 == 0 { m[j / 2].0 } else { m[j / 2].1 });
        assert(t[j] == if j % 2 == 0 { n[j / 2].0 } else { n[j / 2].1 });
    }
    if i < m.len() && i < n.len() {
        assert(s[2 * i] == m[i].0 && t[2 * i] == n[i].0);
        assert(s[2 * i + 1] == m[i].1 && t[2 * i + 1] == n[i].1);
        if deep(objs, m[i].0) != deep(objs, n[i].0) {
            assert(x[2 * i] != y[2 * i]);
        } else if deep(objs, m[i].1) != deep(objs, n[i].1) {
            assert(x[2 * i + 1] != y[2 * i + 1]);
            assert(agree_before(x, y, 2 * i + 1));
        }
    } else if i == m.len() && i == n.len() {
        assert(x =~= y);
    }
}

proof fn lemma_lists_go_by_first_difference(x: Seq<Deep>, y: Seq<Deep>)
    ensures
        forall|i: int|
            0 <= i < x.len() && i < y.len() && #[trigger] x[i] != y[i] && agree_before(x, y, i) ==> seq_order(x, y, 0)
                == deep_order(x[i], y[i]),
        x.len() < y.len() && agree_before(x, y, x.len() as int) ==> seq_order(x, y, 0) == -1,
        x.len() > y.len() && agree_before(x, y, y.len() as int) ==> seq_order(x, y, 0) == 1,
{
    assert forall|i: int|
        0 <= i < x.len() && i < y.len() && #[trigger] x[i] != y[i] && agree_before(x, y, i) implies seq_order(x, y, 0)
        == deep_order(x[i], y[i]) by {
        lemma_list_skip(x, y, 0, i as nat);
        law_order_zero(x[i], y[i]);
    }
    if x.len() < y.len() && agree_before(x, y, x.len() as int) {
        lemma_list_skip(x, y, 0, x.len());
    }
    if x.len() > y.len() && agree_before(x, y, y.len() as int) {
        lemma_list_skip(x, y, 0, y.len());
    }
}

proof fn lemma_list_skip(x: Seq<Deep>, y: Seq<Deep>, i: nat, n: nat)
    requires
        i <= n <= x.len(),
        n <= y.len(),
        agree_before(x, y, n as int),
    ensures
        seq_order(x, y, i) == seq_order(x, y, n),
    decreases n - i,
{
    if i < n {
        assert(x[i as int] == y[i as int]);
        law_order_zero(x[i as int], y[i as int]);
        lemma_list_skip(x, y, i + 1, n);
    }
}

/// The order of what elements of vectors, keys and values denote, where it is not
/// that of lists: types go by number, truth comes after falsehood, numbers go by
/// size, errors by type and then by code.
pub proof fn law_order_of_elements(
    p: bool,
    q: bool,
    e: Error,
    f: Error,
    kind: NumKind,
    x: int,
    y: int,
)
    ensures
        deep_order(Deep::Bool(p), Deep::Bool(q)) == -1 <==> !p && q,
        deep_order(Deep::Bool(p), Deep::Bool(q)) == 1 <==> p && !q,
        deep_order(Deep::Num(kind, x), Deep::Num(kind, y)) == -1 <==> x < y,
        deep_order(Deep::Num(kind, x), Deep::Num(kind, y)) == 1 <==> x > y,
        e.type_ == f.type_ ==> (deep_order(Deep::Error(e), Deep::Error(f)) == -1 <==> e.code < f.code),
        e.type_ == f.type_ ==> (deep_order(Deep::Error(e), Deep::Error(f)) == 1 <==> e.code > f.code),
        deep_order(Deep::Void, Deep::Void) == 0,
        deep_order(Deep::Bool(p), Deep::Void) == -1,
        deep_order(Deep::Void, Deep::Error(e)) == -1,
        deep_order(Deep::Error(e), Deep::Num(NumKind::U32, x)) == -1,
        deep_order(Deep::Num(NumKind::U32, x), Deep::Num(NumKind::I32, y)) == -1,
        deep_order(Deep::Num(NumKind::I32, x), Deep::Num(NumKind::U64, y)) == -1,
        deep_order(Deep::Num(NumKind::U64, x), Deep::Num(NumKind::I64, y)) == -1,
        deep_order(Deep::Num(NumKind::I64, x), Deep::Num(NumKind::Timepoint, y)) == -1,
        deep_order(Deep::Num(NumKind::Timepoint, x), Deep::Num(NumKind::Duration, y)) == -1,
        deep_order(Deep::Num(NumKind::Duration, x), Deep::Num(NumKind::U128, y)) == -1,
        deep_order(Deep::Num(NumKind::U128, x), Deep::Num(NumKind::I128, y)) == -1,
        deep_order(Deep::Num(NumKind::I128, x), Deep::Num(NumKind::U256, y)) == -1,
        deep_order(Deep::Num(NumKind::U256, x), Deep::Num(NumKind::I256, y)) == -1,
{
}

/// The number of an error's type.
pub open spec fn error_number(e: Error) -> int {
    match e.type_ {
        ScErrorType::Contract => 0,
        ScErrorType::WasmVm => 1,
        ScErrorType::Context => 2,
        ScErrorType::Storage => 3,
        ScErrorType::Object => 4,
        ScErrorType::Crypto => 5,
        ScErrorType::Events => 6,
        ScErrorType::Budget => 7,
        ScErrorType::Value => 8,
        ScErrorType::Auth => 9,
    }
}

/// Likewise of strings, lists and addresses: every number comes before byte strings, these
/// before texts, these before symbols, these before vectors, these before maps and these
/// before addresses. Errors of two types go by the numbers of the types.
pub proof fn law_order_of_types(
    kind: NumKind,
    x: int,
    s: Seq<u8>,
    t: Seq<u8>,
    v: Seq<Deep>,
    m: Seq<Deep>,
    who: ScAddress,
    e: Error,
    f: Error,
)
    ensures
        deep_order(Deep::Num(kind, x), Deep::Blob(BlobKind::Bytes, s)) == -1,
        deep_order(Deep::Blob(BlobKind::Bytes, s), Deep::Blob(BlobKind::Text, t)) == -1,
        deep_order(Deep::Blob(BlobKind::Text, s), Deep::Blob(BlobKind::Symbol, t)) == -1,
        deep_order(Deep::Blob(BlobKind::Symbol, s), Deep::Vector(v)) == -1,
        deep_order(Deep::Vector(v), Deep::Mapping(m)) == -1,
        deep_order(Deep::Mapping(m), Deep::Address(who)) == -1,
        e.type_ != f.type_ ==> (deep_order(Deep::Error(e), Deep::Error(f)) == -1 <==> error_number(e) < error_number(f)),
        e.type_ != f.type_ ==> (deep_order(Deep::Error(e), Deep::Error(f)) == 1 <==> error_number(e) > error_number(f)),
{
}

/// The order of byte strings, texts and symbols in vectors and maps is the same as
/// that of such objects.
pub proof fn law_order_of_strings_in_lists(kind: BlobKind, s: Seq<u8>, t: Seq<u8>)
    ensures
        forall|i: int|
            0 <= i < s.len() && i < t.len() && #[trigger] s[i] != t[i] && agree_before(s, t, i) ==> {
                &&& deep_order(Deep::Blob(kind, s), Deep::Blob(kind, t)) == -1 <==> s[i] < t[i]
                &&& deep_order(Deep::Blob(kind, s), Deep::Blob(kind, t)) == 1 <==> s[i] > t[i]
            },
        s.len() < t.len() && agree_before(s, t, s.len() as int) ==> deep_order(Deep::Blob(kind, s), Deep::Blob(kind, t))
            == -1,
        s.len() > t.len() && agree_before(s, t, t.len() as int) ==> deep_order(Deep::Blob(kind, s), Deep::Blob(kind, t))
            == 1,
{
    assert forall|i: int|
        0 <= i < s.len() && i < t.len() && #[trigger] s[i] != t[i] && agree_before(s, t, i) implies {
        &&& deep_order(Deep::Blob(kind, s), Deep::Blob(kind, t)) == -1 <==> s[i] < t[i]
        &&& deep_order(Deep::Blob(kind, s), Deep::Blob(kind, t)) == 1 <==> s[i] > t[i]
    } by {
        lemma_bytes_skip(s, t, 0, i as nat);
    }
    if s.len() < t.len() && agree_before(s, t, s.len() as int) {
        lemma_bytes_skip(s, t, 0, s.len());
    }
    if s.len() > t.len() && agree_before(s, t, t.len() as int) {
        lemma_bytes_skip(s, t, 0, t.len());
    }
}

/// Good values of which at least one is an object can be compared, if they do not
/// nest too deep and the budget allows it; two that are no objects never can.
pub proof fn law_objects_can_be_compared(pre: Host, post: Host, a: Val, b: Val, res: Result<i64, HostError>)
    requires
        val_ok(pre.objs(), a),
        val_ok(pre.objs(), b),
        compares(pre, post, a, b, res),
        charge(pre, ContractCostType::VisitObject, None).1 is Ok,
        charge(charge(pre, ContractCostType::VisitObject, None).0, ContractCostType::VisitObject, None).1 is Ok,
    ensures
        (a is Object || b is Object) && (nesting(deep(pre.objs(), a)) <= DEFAULT_HOST_DEPTH_LIMIT + 1 || nesting(
            deep(pre.objs(), b),
        ) <= DEFAULT_HOST_DEPTH_LIMIT + 1) ==> res is Ok && -1 <= res->Ok_0 <= 1,
        !(a is Object) && !(b is Object) ==> res == Err::<i64, HostError>(
            pre.spec_err((ScErrorType::Value, ScErrorCode::UnexpectedType)),
        ),
        post == (Host { budget: post.budget, ..pre }),
{
    law_order_levels_bounded(deep(pre.objs(), a), deep(pre.objs(), b));
    crate::model::law_order_flip(deep(pre.objs(), a), deep(pre.objs(), b));
}

/// How deep a list nests: one level deeper than what nests deepest in it. All else is one
/// level deep, and so is an empty list.
pub proof fn law_nesting(s: Seq<Deep>, d: Deep)
    ensures
        nesting(Deep::Vector(s)) == nesting(Deep::Mapping(s)),
        s.len() == 0 ==> nesting(Deep::Vector(s)) == 1,
        forall|i: int| 0 <= i < s.len() ==> nesting(#[trigger] s[i]) < nesting(Deep::Vector(s)),
        s.len() > 0 ==> exists|i: int|
            0 <= i < s.len() && nesting(Deep::Vector(s)) == 1 + nesting(#[trigger] s[i]),
        !(d is Vector) && !(d is Mapping) ==> nesting(d) == 1,
{
    lemma_nesting_seq(s, 0);
}

proof fn lemma_nesting_seq(s: Seq<Deep>, i: nat)
    requires
        i <= s.len(),
    ensures
        forall|j: int| i <= j < s.len() ==> nesting(#[trigger] s[j]) <= nesting_seq(s, i),
        i == s.len() ==> nesting_seq(s, i) == 0,
        i < s.len() ==> exists|j: int| i <= j < s.len() && nesting_seq(s, i) == nesting(#[trigger] s[j]),
    decreases s.len() - i,
{
    if i < s.len() {
        lemma_nesting_seq(s, i + 1);
        let here = s[i as int];
        if nesting_seq(s, i) != nesting(here) {
            let j = choose|j: int| i + 1 <= j < s.len() && nesting_seq(s, i + 1) == nesting(#[trigger] s[j]);
            assert(i <= j < s.len() && nesting_seq(s, i) == nesting(s[j]));
        }
    }
}

/// How deep a comparison of two lists has to look: one level deeper than the comparison of
/// any two elements before which the lists agree. All else is compared at one level.
pub proof fn law_levels(x: Seq<Deep>, y: Seq<Deep>, a: Deep, b: Deep, i: int)
    requires
        0 <= i < x.len(),
        i < y.len(),
        forall|j: int| 0 <= j < i ==> #[trigger] x[j] == y[j],
    ensures
        order_levels(x[i], y[i]) < order_levels(Deep::Vector(x), Deep::Vector(y)),
        order_levels(Deep::Vector(x), Deep::Vector(y)) == order_levels(Deep::Mapping(x), Deep::Mapping(y)),
        exists|k: int|
            0 <= k < x.len() && k < y.len() && order_levels(Deep::Vector(x), Deep::Vector(y)) == 1 + order_levels(
                #[trigger] x[k],
                y[k],
            ),
        !(a is Vector && b is Vector) && !(a is Mapping && b is Mapping) ==> order_levels(a, b) == 1,
{
    lemma_seq_levels(x, y, i, 0);
}

proof fn lemma_seq_levels(x: Seq<Deep>, y: Seq<Deep>, i: int, n: nat)
    requires
        n <= i < x.len(),
        i < y.len(),
        forall|j: int| 0 <= j < i ==> #[trigger] x[j] == y[j],
    ensures
        order_levels(x[i], y[i]) <= seq_levels(x, y, n),
        exists|k: int| n <= k < x.len() && k < y.len() && seq_levels(x, y, n) == order_levels(#[trigger] x[k], y[k]),
    decreases i - n,
{
    law_order_zero(x[n as int], y[n as int]);
    if n < i {
        assert(x[n as int] == y[n as int]);
        lemma_seq_levels(x, y, i, n + 1);
        if seq_levels(x, y, n) != order_levels(x[n as int], y[n as int]) {
            let k = choose|k: int|
                n + 1 <= k < x.len() && k < y.len() && seq_levels(x, y, n + 1) == order_levels(#[trigger] x[k], y[k]);
            assert(n <= k < x.len() && seq_levels(x, y, n) == order_levels(x[k], y[k]));
        }
    } else {
        lemma_seq_levels_attained(x, y, n);
    }
}

proof fn lemma_seq_levels_attained(x: Seq<Deep>, y: Seq<Deep>, n: nat)
    requires
        n < x.len(),
        n < y.len(),
    ensures
        order_levels(x[n as int], y[n as int]) <= seq_levels(x, y, n),
        exists|k: int| n <= k < x.len() && k < y.len() && seq_levels(x, y, n) == order_levels(#[trigger] x[k], y[k]),
    decreases x.len() - n,
{
    if deep_order(x[n as int], y[n as int]) == 0 && n + 1 < x.len() && n + 1 < y.len() {
        lemma_seq_levels_attained(x, y, n + 1);
        if seq_levels(x, y, n) != order_levels(x[n as int], y[n as int]) {
            let k = choose|k: int|
                n + 1 <= k < x.len() && k < y.len() && seq_levels(x, y, n + 1) == order_levels(#[trigger] x[k], y[k]);
            assert(n <= k < x.len() && seq_levels(x, y, n) == order_levels(x[k], y[k]));
        }
    } else {
        assert(seq_levels(x, y, n) == order_levels(x[n as int], y[n as int])) by {
            reveal_with_fuel(seq_levels, 2);
        }
    }
}

} // verus!
