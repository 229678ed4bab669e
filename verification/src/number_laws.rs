//! What arithmetic on 256-bit values is.

use crate::bignum::{be_bytes, fits_i256, fits_u256, from_be, from_pieces, truncated_div, two128, two256, two64, wrap_i256};
use crate::collection_laws::{at, bytes_at, has_room, is_new, law_free_work_is_allowed};
use crate::budget::ContractCostType;
use crate::error::{HostError, ScErrorCode, ScErrorType};
use crate::host::{charge, Host};
use crate::host_int::{
    does_duration_obj_from_u64, does_duration_obj_to_u64, does_i256_add, does_i256_div, does_i256_mul,
    does_i256_pow, does_i256_shl, does_i256_shr, does_i256_sub, does_i256_val_from_be_bytes,
    does_i256_val_to_be_bytes, does_obj_from_i128_pieces, does_obj_from_i256_pieces, does_obj_from_i64,
    does_obj_from_u128_pieces, does_obj_from_u256_pieces, does_obj_from_u64, does_obj_to_i128_hi64,
    does_obj_to_i128_lo64, does_obj_to_i256_hi_hi, does_obj_to_i256_hi_lo, does_obj_to_i256_lo_hi,
    does_obj_to_i256_lo_lo, does_obj_to_i64, does_obj_to_u128_hi64, does_obj_to_u128_lo64, does_obj_to_u256_hi_hi,
    does_obj_to_u256_hi_lo, does_obj_to_u256_lo_hi, does_obj_to_u256_lo_lo, does_obj_to_u64,
    does_timepoint_obj_from_u64, does_timepoint_obj_to_u64, does_u256_add, does_u256_div, does_u256_mul,
    does_u256_pow, does_u256_shl, does_u256_shr, does_u256_sub, does_u256_val_from_be_bytes,
    does_u256_val_to_be_bytes, two192,
};
use crate::model::{val_ok, BlobKind, NumKind, ObjModel};
use crate::order_laws::number_of;
use crate::val::{
    BytesObject, DurationObject, I128Object, I256Object, I256Val, I64Object, TimepointObject, U128Object,
    U256Object, U256Val, U64Object, Val,
};
use vstd::arithmetic::power::pow;
use vstd::arithmetic::power2::{lemma2_to64, lemma_pow2_adds, pow2};
use vstd::prelude::*;

verus! {

/// Whether a number is one of the unsigned numbers of 256 bits.
pub open spec fn is_u256(x: int) -> bool {
    0 <= x < pow2(256)
}

/// Whether a number is one of the signed numbers of 256 bits.
pub open spec fn is_i256(x: int) -> bool {
    -pow2(255) <= x < pow2(255)
}

/// The unsigned and signed numbers of 256 bits are those between the powers of two.
pub proof fn law_ranges_of_256_bits(x: int)
    ensures
        fits_u256(x) <==> is_u256(x),
        fits_i256(x) <==> is_i256(x),
        two64() == pow2(64),
        two128() == pow2(128),
        two256() == pow2(256),
{
    lemma2_to64();
    lemma_pow2_adds(64, 64);
    lemma_pow2_adds(128, 128);
    lemma_pow2_adds(255, 1);
    assert(0x1_0000_0000_0000_0000 * 0x1_0000_0000_0000_0000 == two128());
}

/// Division that drops the fraction: the quotient is the largest that is not too large,
/// and it is negative only where one of the two numbers is and the other is not.
pub proof fn law_truncated_div(a: int, b: int)
    requires
        b != 0,
    ensures
        ({
            let q = truncated_div(a, b);
            let (x, y, z) = (if a < 0 { -a } else { a }, if b < 0 { -b } else { b }, if q < 0 { -q } else { q });
            &&& z * y <= x < (z + 1) * y
            &&& q > 0 ==> (a > 0 <==> b > 0)
            &&& q < 0 ==> (a > 0 <==> b < 0)
        }),
{
    let q = truncated_div(a, b);
    let (x, y) = (if a < 0 { -a } else { a }, if b < 0 { -b } else { b });
    vstd::arithmetic::div_mod::lemma_fundamental_div_mod(x, y);
    vstd::arithmetic::div_mod::lemma_fundamental_div_mod(x, b);
    let p = x / y;
    assert(x == y * p + x % y && 0 <= x % y < y);
    assert(p >= 0) by (nonlinear_arith)
        requires
            x == y * p + x % y,
            0 <= x % y < y,
            x >= 0,
    ;
    if b < 0 {
        assert(x / b == -p) by {
            assert(x == (-p) * b + x % y) by (nonlinear_arith)
                requires
                    x == y * p + x % y,
                    y == -b,
            ;
            let r = x % b;
            assert(x == b * (x / b) + r && 0 <= r < -b);
            assert(x / b == -p) by (nonlinear_arith)
                requires
                    x == (-p) * b + x % y,
                    x == b * (x / b) + r,
                    0 <= r < -b,
                    0 <= x % y < y,
                    y == -b,
            ;
        }
    }
    assert(p * y <= x < (p + 1) * y) by (nonlinear_arith)
        requires
            x == y * p + x % y,
            0 <= x % y < y,
    ;
}

/// What the range of signed numbers is left by comes in again at its other end: the result
/// is in the range, and differs by a multiple of two to the power of 256.
pub proof fn law_wrap_i256(x: int)
    ensures
        is_i256(wrap_i256(x)),
        (x - wrap_i256(x)) % two256() == 0,
{
    law_ranges_of_256_bits(wrap_i256(x));
    let m = two256();
    vstd::arithmetic::div_mod::lemma_fundamental_div_mod(x, m);
    let q = x / m;
    assert(x - x % m == q * m) by (nonlinear_arith)
        requires
            x == m * q + x % m,
    ;
    vstd::arithmetic::div_mod::lemma_mod_multiples_basic(q, m);
    assert((q + 1) * m == q * m + m) by (nonlinear_arith);
    vstd::arithmetic::div_mod::lemma_mod_multiples_basic(q + 1, m);
}

/// The bytes of a number, the most significant first: the last byte is what is left over
/// when the number is divided by 256, and the others are the bytes of the quotient.
pub proof fn law_be_bytes(x: int, n: nat, s: Seq<u8>, b: u8)
    requires
        n > 0,
    ensures
        be_bytes(x, n).len() == n,
        be_bytes(x, n).last() == x % 256,
        be_bytes(x, n).drop_last() == be_bytes(x / 256, (n - 1) as nat),
        from_be(s.push(b)) == 256 * from_be(s) + b,
        from_be(Seq::<u8>::empty()) == 0,
{
    crate::bignum::lemma_be_bytes_len(x, n);
    assert(s.push(b).drop_last() =~= s);
    assert(be_bytes(x, n).drop_last() =~= be_bytes(x / 256, (n - 1) as nat));
}

proof fn lemma_free(host: Host)
    ensures
        host.budget.is_free() ==> forall|ty: ContractCostType, input: Option<u64>| #[trigger]
            charge(host, ty, input) == (host, Ok::<(), HostError>(())),
{
    if host.budget.is_free() {
        assert forall|ty: ContractCostType, input: Option<u64>| #[trigger] charge(host, ty, input) == (
            host,
            Ok::<(), HostError>(()),
        ) by {
            law_free_work_is_allowed(host, ty, input);
        }
    }
}

/// The sum, where it is an unsigned number of 256 bits.
pub proof fn law_u256_add(
    pre: Host,
    post: Host,
    lhs: U256Val,
    rhs: U256Val,
    x: int,
    y: int,
    res: Result<U256Val, HostError>,
)
    requires
        pre.wf(),
        val_ok(pre.objs(), lhs.to_val()),
        number_of(pre.objs(), lhs.to_val()) == Some((NumKind::U256, x)),
        val_ok(pre.objs(), rhs.to_val()),
        number_of(pre.objs(), rhs.to_val()) == Some((NumKind::U256, y)),
        does_u256_add(pre, post, lhs, rhs, res),
    ensures
        res matches Ok(v) ==> {
            let z = number_of(post.objs(), v.to_val())->Some_0.1;
            &&& number_of(post.objs(), v.to_val()) == Some((NumKind::U256, z))
            &&& is_u256(z)
            &&& z == x + y
        },
        has_room(pre) && (is_u256(x + y)) ==> res is Ok,
        pre.budget.is_free() && !(is_u256(x + y)) ==> res == Err::<U256Val, HostError>(
            pre.spec_err((ScErrorType::Object, ScErrorCode::ArithDomain)),
        ),
{
    lemma_free(pre);
    law_ranges_of_256_bits(x + y);
}

/// The difference, where it is an unsigned number of 256 bits.
pub proof fn law_u256_sub(
    pre: Host,
    post: Host,
    lhs: U256Val,
    rhs: U256Val,
    x: int,
    y: int,
    res: Result<U256Val, HostError>,
)
    requires
        pre.wf(),
        val_ok(pre.objs(), lhs.to_val()),
        number_of(pre.objs(), lhs.to_val()) == Some((NumKind::U256, x)),
        val_ok(pre.objs(), rhs.to_val()),
        number_of(pre.objs(), rhs.to_val()) == Some((NumKind::U256, y)),
        does_u256_sub(pre, post, lhs, rhs, res),
    ensures
        res matches Ok(v) ==> {
            let z = number_of(post.objs(), v.to_val())->Some_0.1;
            &&& number_of(post.objs(), v.to_val()) == Some((NumKind::U256, z))
            &&& is_u256(z)
            &&& z == x - y
        },
        has_room(pre) && (is_u256(x - y)) ==> res is Ok,
        pre.budget.is_free() && !(is_u256(x - y)) ==> res == Err::<U256Val, HostError>(
            pre.spec_err((ScErrorType::Object, ScErrorCode::ArithDomain)),
        ),
{
    lemma_free(pre);
    law_ranges_of_256_bits(x - y);
}

/// The product, where it is an unsigned number of 256 bits.
pub proof fn law_u256_mul(
    pre: Host,
    post: Host,
    lhs: U256Val,
    rhs: U256Val,
    x: int,
    y: int,
    res: Result<U256Val, HostError>,
)
    requires
        pre.wf(),
        val_ok(pre.objs(), lhs.to_val()),
        number_of(pre.objs(), lhs.to_val()) == Some((NumKind::U256, x)),
        val_ok(pre.objs(), rhs.to_val()),
        number_of(pre.objs(), rhs.to_val()) == Some((NumKind::U256, y)),
        does_u256_mul(pre, post, lhs, rhs, res),
    ensures
        res matches Ok(v) ==> {
            let z = number_of(post.objs(), v.to_val())->Some_0.1;
            &&& number_of(post.objs(), v.to_val()) == Some((NumKind::U256, z))
            &&& is_u256(z)
            &&& z == x * y
        },
        has_room(pre) && (is_u256(x * y)) ==> res is Ok,
        pre.budget.is_free() && !(is_u256(x * y)) ==> res == Err::<U256Val, HostError>(
            pre.spec_err((ScErrorType::Object, ScErrorCode::ArithDomain)),
        ),
{
    lemma_free(pre);
    law_ranges_of_256_bits(x * y);
}

/// The power, where it is an unsigned number of 256 bits.
pub proof fn law_u256_pow(
    pre: Host,
    post: Host,
    lhs: U256Val,
    rhs: u32,
    x: int,
    res: Result<U256Val, HostError>,
)
    requires
        pre.wf(),
        val_ok(pre.objs(), lhs.to_val()),
        number_of(pre.objs(), lhs.to_val()) == Some((NumKind::U256, x)),
        does_u256_pow(pre, post, lhs, rhs, res),
    ensures
        res matches Ok(v) ==> {
            let z = number_of(post.objs(), v.to_val())->Some_0.1;
            &&& number_of(post.objs(), v.to_val()) == Some((NumKind::U256, z))
            &&& is_u256(z)
            &&& z == pow(x, rhs as nat)
        },
        has_room(pre) && (is_u256(pow(x, rhs as nat))) ==> res is Ok,
        pre.budget.is_free() && !(is_u256(pow(x, rhs as nat))) ==> res == Err::<U256Val, HostError>(
            pre.spec_err((ScErrorType::Object, ScErrorCode::ArithDomain)),
        ),
{
    lemma_free(pre);
    law_ranges_of_256_bits(pow(x, rhs as nat));
}

/// The sum, where it is a signed number of 256 bits.
pub proof fn law_i256_add(
    pre: Host,
    post: Host,
    lhs: I256Val,
    rhs: I256Val,
    x: int,
    y: int,
    res: Result<I256Val, HostError>,
)
    requires
        pre.wf(),
        val_ok(pre.objs(), lhs.to_val()),
        number_of(pre.objs(), lhs.to_val()) == Some((NumKind::I256, x)),
        val_ok(pre.objs(), rhs.to_val()),
        number_of(pre.objs(), rhs.to_val()) == Some((NumKind::I256, y)),
        does_i256_add(pre, post, lhs, rhs, res),
    ensures
        res matches Ok(v) ==> {
            let z = number_of(post.objs(), v.to_val())->Some_0.1;
            &&& number_of(post.objs(), v.to_val()) == Some((NumKind::I256, z))
            &&& is_i256(z)
            &&& z == x + y
        },
        has_room(pre) && (is_i256(x + y)) ==> res is Ok,
        pre.budget.is_free() && !(is_i256(x + y)) ==> res == Err::<I256Val, HostError>(
            pre.spec_err((ScErrorType::Object, ScErrorCode::ArithDomain)),
        ),
{
    lemma_free(pre);
    law_ranges_of_256_bits(x + y);
}

/// The difference, where it is a signed number of 256 bits.
pub proof fn law_i256_sub(
    pre: Host,
    post: Host,
    lhs: I256Val,
    rhs: I256Val,
    x: int,
    y: int,
    res: Result<I256Val, HostError>,
)
    requires
        pre.wf(),
        val_ok(pre.objs(), lhs.to_val()),
        number_of(pre.objs(), lhs.to_val()) == Some((NumKind::I256, x)),
        val_ok(pre.objs(), rhs.to_val()),
        number_of(pre.objs(), rhs.to_val()) == Some((NumKind::I256, y)),
        does_i256_sub(pre, post, lhs, rhs, res),
    ensures
        res matches Ok(v) ==> {
            let z = number_of(post.objs(), v.to_val())->Some_0.1;
            &&& number_of(post.objs(), v.to_val()) == Some((NumKind::I256, z))
            &&& is_i256(z)
            &&& z == x - y
        },
        has_room(pre) && (is_i256(x - y)) ==> res is Ok,
        pre.budget.is_free() && !(is_i256(x - y)) ==> res == Err::<I256Val, HostError>(
            pre.spec_err((ScErrorType::Object, ScErrorCode::ArithDomain)),
        ),
{
    lemma_free(pre);
    law_ranges_of_256_bits(x - y);
}

/// The product, where it is a signed number of 256 bits.
pub proof fn law_i256_mul(
    pre: Host,
    post: Host,
    lhs: I256Val,
    rhs: I256Val,
    x: int,
    y: int,
    res: Result<I256Val, HostError>,
)
    requires
        pre.wf(),
        val_ok(pre.objs(), lhs.to_val()),
        number_of(pre.objs(), lhs.to_val()) == Some((NumKind::I256, x)),
        val_ok(pre.objs(), rhs.to_val()),
        number_of(pre.objs(), rhs.to_val()) == Some((NumKind::I256, y)),
        does_i256_mul(pre, post, lhs, rhs, res),
    ensures
        res matches Ok(v) ==> {
            let z = number_of(post.objs(), v.to_val())->Some_0.1;
            &&& number_of(post.objs(), v.to_val()) == Some((NumKind::I256, z))
            &&& is_i256(z)
            &&& z == x * y
        },
        has_room(pre) && (is_i256(x * y)) ==> res is Ok,
        pre.budget.is_free() && !(is_i256(x * y)) ==> res == Err::<I256Val, HostError>(
            pre.spec_err((ScErrorType::Object, ScErrorCode::ArithDomain)),
        ),
{
    lemma_free(pre);
    law_ranges_of_256_bits(x * y);
}

/// The power, where it is a signed number of 256 bits.
pub proof fn law_i256_pow(
    pre: Host,
    post: Host,
    lhs: I256Val,
    rhs: u32,
    x: int,
    res: Result<I256Val, HostError>,
)
    requires
        pre.wf(),
        val_ok(pre.objs(), lhs.to_val()),
        number_of(pre.objs(), lhs.to_val()) == Some((NumKind::I256, x)),
        does_i256_pow(pre, post, lhs, rhs, res),
    ensures
        res matches Ok(v) ==> {
            let z = number_of(post.objs(), v.to_val())->Some_0.1;
            &&& number_of(post.objs(), v.to_val()) == Some((NumKind::I256, z))
            &&& is_i256(z)
            &&& z == pow(x, rhs as nat)
        },
        has_room(pre) && (is_i256(pow(x, rhs as nat))) ==> res is Ok,
        pre.budget.is_free() && !(is_i256(pow(x, rhs as nat))) ==> res == Err::<I256Val, HostError>(
            pre.spec_err((ScErrorType::Object, ScErrorCode::ArithDomain)),
        ),
{
    lemma_free(pre);
    law_ranges_of_256_bits(pow(x, rhs as nat));
}

/// The quotient, the fraction dropped, where the divisor is not zero.
pub proof fn law_u256_div(
    pre: Host,
    post: Host,
    lhs: U256Val,
    rhs: U256Val,
    x: int,
    y: int,
    res: Result<U256Val, HostError>,
)
    requires
        pre.wf(),
        val_ok(pre.objs(), lhs.to_val()),
        number_of(pre.objs(), lhs.to_val()) == Some((NumKind::U256, x)),
        val_ok(pre.objs(), rhs.to_val()),
        number_of(pre.objs(), rhs.to_val()) == Some((NumKind::U256, y)),
        does_u256_div(pre, post, lhs, rhs, res),
    ensures
        res matches Ok(v) ==> {
            let z = number_of(post.objs(), v.to_val())->Some_0.1;
            &&& number_of(post.objs(), v.to_val()) == Some((NumKind::U256, z))
            &&& is_u256(z)
            &&& z * y <= x < (z + 1) * y
        },
        has_room(pre) && (y != 0) ==> res is Ok,
        pre.budget.is_free() && !(y != 0) ==> res == Err::<U256Val, HostError>(
            pre.spec_err((ScErrorType::Object, ScErrorCode::ArithDomain)),
        ),
{
    lemma_free(pre);
    lemma_range(pre, lhs, rhs, x, y);
    if y != 0 {
        vstd::arithmetic::div_mod::lemma_fundamental_div_mod(x, y);
        let z = x / y;
        assert(z * y <= x < (z + 1) * y && 0 <= z <= x) by (nonlinear_arith)
            requires
                x == y * z + x % y,
                0 <= x % y < y,
                x >= 0,
        ;
        law_ranges_of_256_bits(z);
        law_ranges_of_256_bits(x);
    }
}

/// The quotient, the fraction dropped, where the divisor is not zero and the quotient is a
/// signed number of 256 bits.
pub proof fn law_i256_div(
    pre: Host,
    post: Host,
    lhs: I256Val,
    rhs: I256Val,
    x: int,
    y: int,
    res: Result<I256Val, HostError>,
)
    requires
        pre.wf(),
        val_ok(pre.objs(), lhs.to_val()),
        number_of(pre.objs(), lhs.to_val()) == Some((NumKind::I256, x)),
        val_ok(pre.objs(), rhs.to_val()),
        number_of(pre.objs(), rhs.to_val()) == Some((NumKind::I256, y)),
        does_i256_div(pre, post, lhs, rhs, res),
    ensures
        res matches Ok(v) ==> {
            let z = number_of(post.objs(), v.to_val())->Some_0.1;
            &&& number_of(post.objs(), v.to_val()) == Some((NumKind::I256, z))
            &&& is_i256(z)
            &&& y != 0 && z == truncated_div(x, y)
        },
        has_room(pre) && (y != 0 && is_i256(truncated_div(x, y))) ==> res is Ok,
        pre.budget.is_free() && !(y != 0 && is_i256(truncated_div(x, y))) ==> res == Err::<I256Val, HostError>(
            pre.spec_err((ScErrorType::Object, ScErrorCode::ArithDomain)),
        ),
{
    lemma_free(pre);
    if y != 0 {
        law_ranges_of_256_bits(truncated_div(x, y));
    }
}

/// A number times a power of two, what is too large dropped, where the power is below 256.
pub proof fn law_u256_shl(
    pre: Host,
    post: Host,
    lhs: U256Val,
    rhs: u32,
    x: int,
    res: Result<U256Val, HostError>,
)
    requires
        pre.wf(),
        val_ok(pre.objs(), lhs.to_val()),
        number_of(pre.objs(), lhs.to_val()) == Some((NumKind::U256, x)),
        does_u256_shl(pre, post, lhs, rhs, res),
    ensures
        res matches Ok(v) ==> {
            let z = number_of(post.objs(), v.to_val())->Some_0.1;
            &&& number_of(post.objs(), v.to_val()) == Some((NumKind::U256, z))
            &&& is_u256(z)
            &&& (x * pow2(rhs as nat) - z) % two256() == 0
        },
        has_room(pre) && (rhs < 256) ==> res is Ok,
        pre.budget.is_free() && !(rhs < 256) ==> res == Err::<U256Val, HostError>(
            pre.spec_err((ScErrorType::Object, ScErrorCode::ArithDomain)),
        ),
{
    lemma_free(pre);
    let p = x * pow2(rhs as nat);
    let m = two256();
    law_ranges_of_256_bits(p % m);
    vstd::arithmetic::div_mod::lemma_fundamental_div_mod(p, m);
    let q = p / m;
    assert(p - p % m == q * m) by (nonlinear_arith)
        requires
            p == m * q + p % m,
    ;
    vstd::arithmetic::div_mod::lemma_mod_multiples_basic(q, m);
}

/// A number times a power of two, brought back into the range, where the power is below
/// 256.
pub proof fn law_i256_shl(
    pre: Host,
    post: Host,
    lhs: I256Val,
    rhs: u32,
    x: int,
    res: Result<I256Val, HostError>,
)
    requires
        pre.wf(),
        val_ok(pre.objs(), lhs.to_val()),
        number_of(pre.objs(), lhs.to_val()) == Some((NumKind::I256, x)),
        does_i256_shl(pre, post, lhs, rhs, res),
    ensures
        res matches Ok(v) ==> {
            let z = number_of(post.objs(), v.to_val())->Some_0.1;
            &&& number_of(post.objs(), v.to_val()) == Some((NumKind::I256, z))
            &&& is_i256(z)
            &&& (x * pow2(rhs as nat) - z) % two256() == 0
        },
        has_room(pre) && (rhs < 256) ==> res is Ok,
        pre.budget.is_free() && !(rhs < 256) ==> res == Err::<I256Val, HostError>(
            pre.spec_err((ScErrorType::Object, ScErrorCode::ArithDomain)),
        ),
{
    lemma_free(pre);
    law_wrap_i256(x * pow2(rhs as nat));
    law_ranges_of_256_bits(wrap_i256(x * pow2(rhs as nat)));
}

/// A number divided by a power of two, rounded down, where the power is below 256.
pub proof fn law_u256_shr(
    pre: Host,
    post: Host,
    lhs: U256Val,
    rhs: u32,
    x: int,
    res: Result<U256Val, HostError>,
)
    requires
        pre.wf(),
        val_ok(pre.objs(), lhs.to_val()),
        number_of(pre.objs(), lhs.to_val()) == Some((NumKind::U256, x)),
        does_u256_shr(pre, post, lhs, rhs, res),
    ensures
        res matches Ok(v) ==> {
            let z = number_of(post.objs(), v.to_val())->Some_0.1;
            &&& number_of(post.objs(), v.to_val()) == Some((NumKind::U256, z))
            &&& is_u256(z)
            &&& z * pow2(rhs as nat) <= x < (z + 1) * pow2(rhs as nat)
        },
        has_room(pre) && (rhs < 256) ==> res is Ok,
        pre.budget.is_free() && !(rhs < 256) ==> res == Err::<U256Val, HostError>(
            pre.spec_err((ScErrorType::Object, ScErrorCode::ArithDomain)),
        ),
{
    lemma_free(pre);
    let p = pow2(rhs as nat) as int;
    vstd::arithmetic::power2::lemma_pow2_pos(rhs as nat);
    vstd::arithmetic::div_mod::lemma_fundamental_div_mod(x, p);
    let z = x / p;
    lemma_number_u(pre, lhs, x);
    law_ranges_of_256_bits(x);
    law_ranges_of_256_bits(z);
    assert(z * p <= x < (z + 1) * p) by (nonlinear_arith)
        requires
            x == p * z + x % p,
            0 <= x % p < p,
    ;
    assert((x >= 0 ==> 0 <= z <= x) && (x < 0 ==> x <= z < 0)) by (nonlinear_arith)
        requires
            z * p <= x < (z + 1) * p,
            p >= 1,
    ;
}

/// A number divided by a power of two, rounded down, where the power is below 256.
pub proof fn law_i256_shr(
    pre: Host,
    post: Host,
    lhs: I256Val,
    rhs: u32,
    x: int,
    res: Result<I256Val, HostError>,
)
    requires
        pre.wf(),
        val_ok(pre.objs(), lhs.to_val()),
        number_of(pre.objs(), lhs.to_val()) == Some((NumKind::I256, x)),
        does_i256_shr(pre, post, lhs, rhs, res),
    ensures
        res matches Ok(v) ==> {
            let z = number_of(post.objs(), v.to_val())->Some_0.1;
            &&& number_of(post.objs(), v.to_val()) == Some((NumKind::I256, z))
            &&& is_i256(z)
            &&& z * pow2(rhs as nat) <= x < (z + 1) * pow2(rhs as nat)
        },
        has_room(pre) && (rhs < 256) ==> res is Ok,
        pre.budget.is_free() && !(rhs < 256) ==> res == Err::<I256Val, HostError>(
            pre.spec_err((ScErrorType::Object, ScErrorCode::ArithDomain)),
        ),
{
    lemma_free(pre);
    let p = pow2(rhs as nat) as int;
    vstd::arithmetic::power2::lemma_pow2_pos(rhs as nat);
    vstd::arithmetic::div_mod::lemma_fundamental_div_mod(x, p);
    let z = x / p;
    lemma_number_i(pre, lhs, x);
    law_ranges_of_256_bits(x);
    law_ranges_of_256_bits(z);
    assert(z * p <= x < (z + 1) * p) by (nonlinear_arith)
        requires
            x == p * z + x % p,
            0 <= x % p < p,
    ;
    assert((x >= 0 ==> 0 <= z <= x) && (x < 0 ==> x <= z < 0)) by (nonlinear_arith)
        requires
            z * p <= x < (z + 1) * p,
            p >= 1,
    ;
}

proof fn lemma_number_u(host: Host, v: U256Val, x: int)
    requires
        host.wf(),
        val_ok(host.objs(), v.to_val()),
        number_of(host.objs(), v.to_val()) == Some((NumKind::U256, x)),
    ensures
        fits_u256(x),
{
    if let Val::Object(o) = v.to_val() {
        let i = crate::val::spec_handle_to_index(o.handle);
        let h = host.objects@[i];
        assert(host.objs()[i] == h@);
        if let crate::host::HostObject::U256(y) = h {
            crate::bignum::lemma_u256_view(y, y);
        }
    }
}

proof fn lemma_number_i(host: Host, v: I256Val, x: int)
    requires
        host.wf(),
        val_ok(host.objs(), v.to_val()),
        number_of(host.objs(), v.to_val()) == Some((NumKind::I256, x)),
    ensures
        fits_i256(x),
{
    if let Val::Object(o) = v.to_val() {
        let i = crate::val::spec_handle_to_index(o.handle);
        let h = host.objects@[i];
        assert(host.objs()[i] == h@);
        if let crate::host::HostObject::I256(y) = h {
            crate::bignum::lemma_i256_view(y, y);
        }
    }
}

proof fn lemma_range(host: Host, a: U256Val, b: U256Val, x: int, y: int)
    requires
        host.wf(),
        val_ok(host.objs(), a.to_val()),
        number_of(host.objs(), a.to_val()) == Some((NumKind::U256, x)),
        val_ok(host.objs(), b.to_val()),
        number_of(host.objs(), b.to_val()) == Some((NumKind::U256, y)),
    ensures
        fits_u256(x),
        fits_u256(y),
{
    lemma_number_u(host, a, x);
    lemma_number_u(host, b, y);
}

/// A number becomes its 32 bytes, the most significant first, and 32 bytes become the
/// number that has them; signed numbers in two's complement. Anything but 32 bytes is
/// refused.
pub proof fn law_256_bits_as_bytes(
    pre: Host,
    post: Host,
    v: U256Val,
    x: int,
    b: Result<BytesObject, HostError>,
    other: Host,
    bytes: BytesObject,
    r: Result<U256Val, HostError>,
)
    requires
        pre.wf(),
        val_ok(pre.objs(), v.to_val()),
        number_of(pre.objs(), v.to_val()) == Some((NumKind::U256, x)),
        does_u256_val_to_be_bytes(pre, post, v, b),
        val_ok(pre.objs(), bytes.to_val()),
        does_u256_val_from_be_bytes(pre, other, bytes, r),
    ensures
        b matches Ok(o) ==> is_new(pre, post, o.handle) && at(post, o.handle) == ObjModel::Blob(
            BlobKind::Bytes,
            be_bytes(x, 32),
        ),
        has_room(pre) ==> b is Ok,
        r matches Ok(w) ==> bytes_at(pre, bytes).len() == 32 && number_of(other.objs(), w.to_val()) == Some(
            (NumKind::U256, from_be(bytes_at(pre, bytes))),
        ),
        has_room(pre) && bytes_at(pre, bytes).len() == 32 ==> r is Ok,
        pre.budget.is_free() && bytes_at(pre, bytes).len() != 32 ==> r is Err,
{
    lemma_free(pre);
    if let Ok(o) = b {
        assert(at(post, o.handle) == post.objs()[pre.objs().len() as int]);
    }
}

/// Likewise of signed numbers.
pub proof fn law_signed_256_bits_as_bytes(
    pre: Host,
    post: Host,
    v: I256Val,
    x: int,
    b: Result<BytesObject, HostError>,
    other: Host,
    bytes: BytesObject,
    r: Result<I256Val, HostError>,
)
    requires
        pre.wf(),
        val_ok(pre.objs(), v.to_val()),
        number_of(pre.objs(), v.to_val()) == Some((NumKind::I256, x)),
        does_i256_val_to_be_bytes(pre, post, v, b),
        val_ok(pre.objs(), bytes.to_val()),
        does_i256_val_from_be_bytes(pre, other, bytes, r),
    ensures
        b matches Ok(o) ==> is_new(pre, post, o.handle) && at(post, o.handle) == ObjModel::Blob(
            BlobKind::Bytes,
            be_bytes(x, 32),
        ),
        has_room(pre) ==> b is Ok,
        r matches Ok(w) ==> {
            let z = number_of(other.objs(), w.to_val())->Some_0.1;
            &&& bytes_at(pre, bytes).len() == 32
            &&& number_of(other.objs(), w.to_val()) == Some((NumKind::I256, z))
            &&& is_i256(z)
            &&& (from_be(bytes_at(pre, bytes)) - z) % two256() == 0
        },
        has_room(pre) && bytes_at(pre, bytes).len() == 32 ==> r is Ok,
        pre.budget.is_free() && bytes_at(pre, bytes).len() != 32 ==> r is Err,
{
    lemma_free(pre);
    law_wrap_i256(from_be(bytes_at(pre, bytes)));
    if let Ok(o) = b {
        assert(at(post, o.handle) == post.objs()[pre.objs().len() as int]);
    }
}

proof fn lemma_quarters(a: int, b: int, c: int, d: int)
    ensures
        from_pieces(a, b, c, d) == a * pow2(192) + b * pow2(128) + c * pow2(64) + d,
        two192() == pow2(192),
{
    law_ranges_of_256_bits(0);
    lemma_pow2_adds(64, 128);
    assert((a * two64() + b) * two128() == a * (two64() * two128()) + b * two128()) by (nonlinear_arith);
}

proof fn lemma_in_quarters(x: int)
    ensures
        x == (x / two192()) * two192() + ((x / two128()) % two64()) * two128() + ((x / two64()) % two64()) * two64() + x
            % two64(),
        two192() == pow2(192),
{
    lemma_quarters(0, 0, 0, 0);
    law_ranges_of_256_bits(0);
    let (y, r) = (x / two64(), x % two64());
    let (z, q) = (y / two64(), y % two64());
    let (w, p) = (z / two64(), z % two64());
    vstd::arithmetic::div_mod::lemma_fundamental_div_mod(x, two64());
    vstd::arithmetic::div_mod::lemma_fundamental_div_mod(y, two64());
    vstd::arithmetic::div_mod::lemma_fundamental_div_mod(z, two64());
    vstd::arithmetic::div_mod::lemma_fundamental_div_mod_converse(x, two128(), z, q * two64() + r);
    vstd::arithmetic::div_mod::lemma_fundamental_div_mod_converse(x, two192(), w, p * two128() + q * two64() + r);
}

/// A number that is made of 64 bits is that number, and tells it again.
pub proof fn law_u64_objects(
    pre: Host,
    made: Host,
    x: u64,
    res: Result<U64Object, HostError>,
    told: Host,
    obj: U64Object,
    y: Result<u64, HostError>,
)
    requires
        does_obj_from_u64(pre, made, x, res),
        val_ok(pre.objs(), obj.to_val()),
        does_obj_to_u64(pre, told, obj, y),
    ensures
        res matches Ok(r) ==> is_new(pre, made, r.handle) && at(made, r.handle) == ObjModel::Num(NumKind::U64, x as int),
        has_room(pre) ==> res is Ok,
        y matches Ok(n) ==> at(pre, obj.handle) == ObjModel::Num(NumKind::U64, n as int),
        pre.budget.is_free() ==> y is Ok,
{
    if pre.budget.is_free() {
        law_free_work_is_allowed(pre, ContractCostType::VisitObject, None);
    }
}

/// A signed number that is made of 64 bits is that number, and tells it again.
pub proof fn law_i64_objects(
    pre: Host,
    made: Host,
    x: i64,
    res: Result<I64Object, HostError>,
    told: Host,
    obj: I64Object,
    y: Result<i64, HostError>,
)
    requires
        does_obj_from_i64(pre, made, x, res),
        val_ok(pre.objs(), obj.to_val()),
        does_obj_to_i64(pre, told, obj, y),
    ensures
        res matches Ok(r) ==> is_new(pre, made, r.handle) && at(made, r.handle) == ObjModel::Num(NumKind::I64, x as int),
        has_room(pre) ==> res is Ok,
        y matches Ok(n) ==> at(pre, obj.handle) == ObjModel::Num(NumKind::I64, n as int),
        pre.budget.is_free() ==> y is Ok,
{
    if pre.budget.is_free() {
        law_free_work_is_allowed(pre, ContractCostType::VisitObject, None);
    }
}

/// A point in time that is made of 64 bits is that number, and tells it again.
pub proof fn law_timepoint_objects(
    pre: Host,
    made: Host,
    x: u64,
    res: Result<TimepointObject, HostError>,
    told: Host,
    obj: TimepointObject,
    y: Result<u64, HostError>,
)
    requires
        does_timepoint_obj_from_u64(pre, made, x, res),
        val_ok(pre.objs(), obj.to_val()),
        does_timepoint_obj_to_u64(pre, told, obj, y),
    ensures
        res matches Ok(r) ==> is_new(pre, made, r.handle) && at(made, r.handle) == ObjModel::Num(NumKind::Timepoint, x as int),
        has_room(pre) ==> res is Ok,
        y matches Ok(n) ==> at(pre, obj.handle) == ObjModel::Num(NumKind::Timepoint, n as int),
        pre.budget.is_free() ==> y is Ok,
{
    if pre.budget.is_free() {
        law_free_work_is_allowed(pre, ContractCostType::VisitObject, None);
    }
}

/// A duration that is made of 64 bits is that number, and tells it again.
pub proof fn law_duration_objects(
    pre: Host,
    made: Host,
    x: u64,
    res: Result<DurationObject, HostError>,
    told: Host,
    obj: DurationObject,
    y: Result<u64, HostError>,
)
    requires
        does_duration_obj_from_u64(pre, made, x, res),
        val_ok(pre.objs(), obj.to_val()),
        does_duration_obj_to_u64(pre, told, obj, y),
    ensures
        res matches Ok(r) ==> is_new(pre, made, r.handle) && at(made, r.handle) == ObjModel::Num(NumKind::Duration, x as int),
        has_room(pre) ==> res is Ok,
        y matches Ok(n) ==> at(pre, obj.handle) == ObjModel::Num(NumKind::Duration, n as int),
        pre.budget.is_free() ==> y is Ok,
{
    if pre.budget.is_free() {
        law_free_work_is_allowed(pre, ContractCostType::VisitObject, None);
    }
}

/// A number of 128 bits that is made of two halves is that number, and tells them again.
pub proof fn law_u128_objects(
    pre: Host,
    made: Host,
    hi: u64,
    lo: u64,
    res: Result<U128Object, HostError>,
    obj: U128Object,
    told_hi: Host,
    a: Result<u64, HostError>,
    told_lo: Host,
    b: Result<u64, HostError>,
)
    requires
        does_obj_from_u128_pieces(pre, made, hi, lo, res),
        val_ok(pre.objs(), obj.to_val()),
        does_obj_to_u128_hi64(pre, told_hi, obj, a),
        does_obj_to_u128_lo64(pre, told_lo, obj, b),
    ensures
        res matches Ok(r) ==> is_new(pre, made, r.handle) && at(made, r.handle) == ObjModel::Num(
            NumKind::U128,
            hi * pow2(64) + lo,
        ),
        has_room(pre) ==> res is Ok,
        a is Ok && b is Ok ==> at(pre, obj.handle) == ObjModel::Num(NumKind::U128, a->Ok_0 * pow2(64) + b->Ok_0),
        pre.budget.is_free() ==> a is Ok && b is Ok,
{
    law_ranges_of_256_bits(0);
    if pre.budget.is_free() {
        law_free_work_is_allowed(pre, ContractCostType::VisitObject, None);
    }
    vstd::arithmetic::div_mod::lemma_fundamental_div_mod(at(pre, obj.handle)->Num_1, two64());
}

/// A number of 128 bits that is made of two halves is that number, and tells them again.
pub proof fn law_i128_objects(
    pre: Host,
    made: Host,
    hi: i64,
    lo: u64,
    res: Result<I128Object, HostError>,
    obj: I128Object,
    told_hi: Host,
    a: Result<i64, HostError>,
    told_lo: Host,
    b: Result<u64, HostError>,
)
    requires
        does_obj_from_i128_pieces(pre, made, hi, lo, res),
        val_ok(pre.objs(), obj.to_val()),
        does_obj_to_i128_hi64(pre, told_hi, obj, a),
        does_obj_to_i128_lo64(pre, told_lo, obj, b),
    ensures
        res matches Ok(r) ==> is_new(pre, made, r.handle) && at(made, r.handle) == ObjModel::Num(
            NumKind::I128,
            hi * pow2(64) + lo,
        ),
        has_room(pre) ==> res is Ok,
        a is Ok && b is Ok ==> at(pre, obj.handle) == ObjModel::Num(NumKind::I128, a->Ok_0 * pow2(64) + b->Ok_0),
        pre.budget.is_free() ==> a is Ok && b is Ok,
{
    law_ranges_of_256_bits(0);
    if pre.budget.is_free() {
        law_free_work_is_allowed(pre, ContractCostType::VisitObject, None);
    }
    vstd::arithmetic::div_mod::lemma_fundamental_div_mod(at(pre, obj.handle)->Num_1, two64());
}

/// A number of 256 bits that is made of four quarters is that number, and tells them again.
pub proof fn law_u256_objects(
    pre: Host,
    made: Host,
    hi_hi: u64,
    hi_lo: u64,
    lo_hi: u64,
    lo_lo: u64,
    res: Result<U256Object, HostError>,
    obj: U256Object,
    told: Seq<Host>,
    a: Result<u64, HostError>,
    b: Result<u64, HostError>,
    c: Result<u64, HostError>,
    d: Result<u64, HostError>,
)
    requires
        does_obj_from_u256_pieces(pre, made, hi_hi, hi_lo, lo_hi, lo_lo, res),
        val_ok(pre.objs(), obj.to_val()),
        does_obj_to_u256_hi_hi(pre, told[0], obj, a),
        does_obj_to_u256_hi_lo(pre, told[1], obj, b),
        does_obj_to_u256_lo_hi(pre, told[2], obj, c),
        does_obj_to_u256_lo_lo(pre, told[3], obj, d),
    ensures
        res matches Ok(r) ==> is_new(pre, made, r.handle) && at(made, r.handle) == ObjModel::Num(
            NumKind::U256,
            hi_hi * pow2(192) + hi_lo * pow2(128) + lo_hi * pow2(64) + lo_lo,
        ),
        has_room(pre) ==> res is Ok,
        a is Ok && b is Ok && c is Ok && d is Ok ==> at(pre, obj.handle) == ObjModel::Num(
            NumKind::U256,
            a->Ok_0 * pow2(192) + b->Ok_0 * pow2(128) + c->Ok_0 * pow2(64) + d->Ok_0,
        ),
        pre.budget.is_free() ==> a is Ok && b is Ok && c is Ok && d is Ok,
{
    law_ranges_of_256_bits(0);
    lemma_quarters(hi_hi as int, hi_lo as int, lo_hi as int, lo_lo as int);
    lemma_in_quarters(at(pre, obj.handle)->Num_1);
    if pre.budget.is_free() {
        law_free_work_is_allowed(pre, ContractCostType::VisitObject, None);
    }
}

/// A number of 256 bits that is made of four quarters is that number, and tells them again.
pub proof fn law_i256_objects(
    pre: Host,
    made: Host,
    hi_hi: i64,
    hi_lo: u64,
    lo_hi: u64,
    lo_lo: u64,
    res: Result<I256Object, HostError>,
    obj: I256Object,
    told: Seq<Host>,
    a: Result<i64, HostError>,
    b: Result<u64, HostError>,
    c: Result<u64, HostError>,
    d: Result<u64, HostError>,
)
    requires
        does_obj_from_i256_pieces(pre, made, hi_hi, hi_lo, lo_hi, lo_lo, res),
        val_ok(pre.objs(), obj.to_val()),
        does_obj_to_i256_hi_hi(pre, told[0], obj, a),
        does_obj_to_i256_hi_lo(pre, told[1], obj, b),
        does_obj_to_i256_lo_hi(pre, told[2], obj, c),
        does_obj_to_i256_lo_lo(pre, told[3], obj, d),
    ensures
        res matches Ok(r) ==> is_new(pre, made, r.handle) && at(made, r.handle) == ObjModel::Num(
            NumKind::I256,
            hi_hi * pow2(192) + hi_lo * pow2(128) + lo_hi * pow2(64) + lo_lo,
        ),
        has_room(pre) ==> res is Ok,
        a is Ok && b is Ok && c is Ok && d is Ok ==> at(pre, obj.handle) == ObjModel::Num(
            NumKind::I256,
            a->Ok_0 * pow2(192) + b->Ok_0 * pow2(128) + c->Ok_0 * pow2(64) + d->Ok_0,
        ),
        pre.budget.is_free() ==> a is Ok && b is Ok && c is Ok && d is Ok,
{
    law_ranges_of_256_bits(0);
    lemma_quarters(hi_hi as int, hi_lo as int, lo_hi as int, lo_lo as int);
    lemma_in_quarters(at(pre, obj.handle)->Num_1);
    if pre.budget.is_free() {
        law_free_work_is_allowed(pre, ContractCostType::VisitObject, None);
    }
}

} // verus!
