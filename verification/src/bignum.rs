//! 128- and 256-bit numbers: how they split into 64-bit pieces and into
//! big-endian bytes, and the checked arithmetic on 256-bit numbers.

use vstd::arithmetic::power::pow;
use vstd::arithmetic::power2::pow2;
use vstd::prelude::*;

verus! {

/// Two to the power of 64.
pub open spec fn two64() -> int {
    0x1_0000_0000_0000_0000
}

/// Two to the power of 128.
pub open spec fn two128() -> int {
    0x1_0000_0000_0000_0000_0000_0000_0000_0000int
}

/// Two to the power of 256.
pub open spec fn two256() -> int {
    two128() * two128()
}

/// An unsigned 256-bit number, as two halves.
#[derive(Clone, Copy, PartialEq, Eq, Structural, Debug)]
pub struct U256 {
    pub hi: u128,
    pub lo: u128,
}

/// A signed 256-bit number in two's complement, as two halves.
#[derive(Clone, Copy, PartialEq, Eq, Structural, Debug)]
pub struct I256 {
    pub hi: i128,
    pub lo: u128,
}

impl View for U256 {
    type V = int;

    open spec fn view(&self) -> int {
        self.hi * two128() + self.lo
    }
}

impl View for I256 {
    type V = int;

    open spec fn view(&self) -> int {
        self.hi * two128() + self.lo
    }
}

impl U256 {
    pub fn from_u128(x: u128) -> (r: U256)
        ensures
            r@ == x,
    {
        U256 { hi: 0, lo: x }
    }
}

impl I256 {
    pub fn from_i128(x: i128) -> (r: I256)
        ensures
            r@ == x,
    {
        if x < 0 {
            I256 { hi: -1, lo: u128::MAX - (-(x + 1)) as u128 }
        } else {
            I256 { hi: 0, lo: x as u128 }
        }
    }
}

pub open spec fn fits_u256(x: int) -> bool {
    0 <= x < two256()
}

pub open spec fn fits_i256(x: int) -> bool {
    -(two256() / 2) <= x < two256() / 2
}

/// A 256-bit number has one representation, and it is in range.
pub proof fn lemma_u256_view(a: U256, b: U256)
    ensures
        fits_u256(a@),
        a@ == b@ ==> a == b,
{
    assert(0 <= a.hi * two128() + a.lo < two128() * two128()) by (nonlinear_arith)
        requires
            0 <= a.hi < two128(),
            0 <= a.lo < two128(),
            two128() > 0,
    ;
}

pub proof fn lemma_i256_view(a: I256, b: I256)
    ensures
        fits_i256(a@),
        a@ == b@ ==> a == b,
{
}

/// Division that drops the fraction, as machine division does.
pub open spec fn truncated_div(a: int, b: int) -> int
    recommends
        b != 0,
{
    if a >= 0 {
        a / b
    } else {
        -((-a) / b)
    }
}

/// The number in `[-2^255, 2^255)` that agrees with `x` modulo 2^256.
pub open spec fn wrap_i256(x: int) -> int {
    let m = x % two256();
    if m < two256() / 2 {
        m
    } else {
        m - two256()
    }
}

// Pieces of 128-bit numbers.

pub fn u128_from_pieces(hi: u64, lo: u64) -> (x: u128)
    ensures
        x == hi * two64() + lo,
{
    (hi as u128) * 0x1_0000_0000_0000_0000 + lo as u128
}

pub fn u128_hi(x: u128) -> (hi: u64)
    ensures
        hi == x as int / two64(),
{
    (x / 0x1_0000_0000_0000_0000) as u64
}

pub fn u128_lo(x: u128) -> (lo: u64)
    ensures
        lo == x as int % two64(),
{
    (x % 0x1_0000_0000_0000_0000) as u64
}

pub fn i128_from_pieces(hi: i64, lo: u64) -> (x: i128)
    ensures
        x == hi * two64() + lo,
{
    (hi as i128) * 0x1_0000_0000_0000_0000 + lo as i128
}

pub fn i128_hi(x: i128) -> (hi: i64)
    ensures
        hi == x as int / two64(),
{
    if x >= 0 {
        (x / 0x1_0000_0000_0000_0000) as i64
    } else {
        let mirrored: i128 = -(x + 1);
        -1 - (mirrored / 0x1_0000_0000_0000_0000) as i64
    }
}

pub fn i128_lo(x: i128) -> (lo: u64)
    ensures
        lo == x as int % two64(),
{
    if x >= 0 {
        (x % 0x1_0000_0000_0000_0000) as u64
    } else {
        let mirrored: i128 = -(x + 1);
        0xffff_ffff_ffff_ffff - (mirrored % 0x1_0000_0000_0000_0000) as u64
    }
}

// Pieces of 256-bit numbers, most significant first.

/// The number with the four given 64-bit pieces.
pub open spec fn from_pieces(hi_hi: int, hi_lo: int, lo_hi: int, lo_lo: int) -> int {
    (hi_hi * two64() + hi_lo) * two128() + (lo_hi * two64() + lo_lo)
}

pub fn u256_from_pieces(hi_hi: u64, hi_lo: u64, lo_hi: u64, lo_lo: u64) -> (x: U256)
    ensures
        x@ == from_pieces(hi_hi as int, hi_lo as int, lo_hi as int, lo_lo as int),
{
    U256 { hi: u128_from_pieces(hi_hi, hi_lo), lo: u128_from_pieces(lo_hi, lo_lo) }
}

pub fn u256_into_pieces(x: U256) -> (p: (u64, u64, u64, u64))
    ensures
        x@ == from_pieces(p.0 as int, p.1 as int, p.2 as int, p.3 as int),
{
    (u128_hi(x.hi), u128_lo(x.hi), u128_hi(x.lo), u128_lo(x.lo))
}

pub fn i256_from_pieces(hi_hi: i64, hi_lo: u64, lo_hi: u64, lo_lo: u64) -> (x: I256)
    ensures
        x@ == from_pieces(hi_hi as int, hi_lo as int, lo_hi as int, lo_lo as int),
{
    I256 { hi: i128_from_pieces(hi_hi, hi_lo), lo: u128_from_pieces(lo_hi, lo_lo) }
}

pub fn i256_into_pieces(x: I256) -> (p: (i64, u64, u64, u64))
    ensures
        x@ == from_pieces(p.0 as int, p.1 as int, p.2 as int, p.3 as int),
{
    (i128_hi(x.hi), i128_lo(x.hi), u128_hi(x.lo), u128_lo(x.lo))
}

/// Four pieces determine a number, and a number its four pieces, whichever sign
/// the uppermost piece has.
pub proof fn law_pieces_determine_number(
    a: (int, u64, u64, u64),
    b: (int, u64, u64, u64),
)
    requires
        from_pieces(a.0, a.1 as int, a.2 as int, a.3 as int) == from_pieces(
            b.0,
            b.1 as int,
            b.2 as int,
            b.3 as int,
        ),
    ensures
        a == b,
{
}

/// Splitting a 128-bit number into its halves and joining them gives it back.
pub proof fn law_pieces_128(x: int)
    ensures
        (x / two64()) * two64() + x % two64() == x,
        0 <= x % two64() < two64(),
{
}

// Big-endian bytes.

/// The last `n` base-256 digits of a number, most significant first.
pub open spec fn be_bytes(x: int, n: nat) -> Seq<u8>
    decreases n,
{
    if n == 0 {
        Seq::empty()
    } else {
        be_bytes(x / 256, (n - 1) as nat).push((x % 256) as u8)
    }
}

/// The number whose base-256 digits are the given bytes, most significant first.
pub open spec fn from_be(bytes: Seq<u8>) -> int
    decreases bytes.len(),
{
    if bytes.len() == 0 {
        0
    } else {
        from_be(bytes.drop_last()) * 256 + bytes.last()
    }
}

pub proof fn lemma_be_bytes_len(x: int, n: nat)
    ensures
        be_bytes(x, n).len() == n,
    decreases n,
{
    if n > 0 {
        lemma_be_bytes_len(x / 256, (n - 1) as nat);
    }
}

/// Reading back the digits of a number gives what is left of it modulo the
/// range of that many digits.
pub proof fn law_be_bytes_round_trip(x: int, n: nat)
    ensures
        from_be(be_bytes(x, n)) == x % pow(256, n),
        pow(256, n) > 0,
    decreases n,
{
    reveal(pow);
    if n == 0 {
    } else {
        let m = (n - 1) as nat;
        law_be_bytes_round_trip(x / 256, m);
        let p = pow(256, m);
        assert(be_bytes(x, n).drop_last() =~= be_bytes(x / 256, m));
        let k = (x / 256) / p;
        let m1 = (x / 256) % p;
        vstd::arithmetic::div_mod::lemma_fundamental_div_mod(x / 256, p);
        assert(256 * p == pow(256, n));
        assert(x == k * (256 * p) + (256 * m1 + x % 256)) by (nonlinear_arith)
            requires
                x / 256 == p * k + m1,
                x == 256 * (x / 256) + x % 256,
        ;
        vstd::arithmetic::div_mod::lemma_fundamental_div_mod_converse(x, 256 * p, k, 256 * m1 + x % 256);
    }
}

/// Writing out the number that `n` bytes stand for gives the bytes back.
pub proof fn law_from_be_round_trip(bytes: Seq<u8>)
    ensures
        be_bytes(from_be(bytes), bytes.len()) == bytes,
        0 <= from_be(bytes) < pow(256, bytes.len()),
    decreases bytes.len(),
{
    reveal(pow);
    if bytes.len() > 0 {
        let init = bytes.drop_last();
        law_from_be_round_trip(init);
        let p = pow(256, init.len());
        assert(from_be(bytes) / 256 == from_be(init));
        assert(from_be(bytes) % 256 == bytes.last());
        assert(bytes =~= init.push(bytes.last()));
        assert(256 * p == pow(256, bytes.len()));
    } else {
        assert(be_bytes(from_be(bytes), bytes.len()) =~= bytes);
    }
}

pub(crate) proof fn lemma_pow256()
    ensures
        pow(256, 32) == two256(),
{
    assert(pow(256, 16) == two128()) by {
        reveal_with_fuel(pow, 17);
    }
    vstd::arithmetic::power::lemma_pow_adds(256, 16, 16);
}

/// A 256-bit number comes back from its 32 bytes, read as it was written.
pub proof fn law_wide_bytes_round_trip(x: int)
    ensures
        fits_u256(x) ==> from_be(be_bytes(x, 32)) == x,
        fits_i256(x) ==> wrap_i256(from_be(be_bytes(x, 32))) == x,
{
    law_be_bytes_round_trip(x, 32);
    lemma_pow256();
    let m = two256();
    assert(m % 2 == 0 && m > 0) by (nonlinear_arith)
        requires
            m == two128() * two128(),
            two128() == 2 * (two128() / 2),
            two128() > 0,
    ;
    if fits_u256(x) {
        vstd::arithmetic::div_mod::lemma_small_mod(x as nat, m as nat);
    }
    if fits_i256(x) {
        if x >= 0 {
            vstd::arithmetic::div_mod::lemma_small_mod(x as nat, m as nat);
            vstd::arithmetic::div_mod::lemma_mod_twice(x, m);
        } else {
            vstd::arithmetic::div_mod::lemma_fundamental_div_mod_converse(x, m, -1, x + m);
            vstd::arithmetic::div_mod::lemma_mod_twice(x, m);
        }
    }
}

// Checked arithmetic.

/// Calls `ethnum::U256::checked_add`: the sum, unless it does not fit.
#[verifier::external_body]
pub(crate) fn u256_checked_add(a: U256, b: U256) -> (r: Option<U256>)
    ensures
        r matches Some(x) ==> x@ == a@ + b@,
        r is Some <==> fits_u256(a@ + b@),
{
    let x = ethnum::U256::from_words(a.hi, a.lo);
    let r = x.checked_add(ethnum::U256::from_words(b.hi, b.lo))?;
    let (hi, lo) = r.into_words();
    Some(U256 { hi, lo })
}

/// Calls `ethnum::U256::checked_sub`: the difference, unless it is negative.
#[verifier::external_body]
pub(crate) fn u256_checked_sub(a: U256, b: U256) -> (r: Option<U256>)
    ensures
        r matches Some(x) ==> x@ == a@ - b@,
        r is Some <==> fits_u256(a@ - b@),
{
    let x = ethnum::U256::from_words(a.hi, a.lo);
    let r = x.checked_sub(ethnum::U256::from_words(b.hi, b.lo))?;
    let (hi, lo) = r.into_words();
    Some(U256 { hi, lo })
}

/// Calls `ethnum::U256::checked_mul`: the product, unless it does not fit.
#[verifier::external_body]
pub(crate) fn u256_checked_mul(a: U256, b: U256) -> (r: Option<U256>)
    ensures
        r matches Some(x) ==> x@ == a@ * b@,
        r is Some <==> fits_u256(a@ * b@),
{
    let x = ethnum::U256::from_words(a.hi, a.lo);
    let r = x.checked_mul(ethnum::U256::from_words(b.hi, b.lo))?;
    let (hi, lo) = r.into_words();
    Some(U256 { hi, lo })
}

/// Calls `ethnum::U256::checked_div`: the quotient rounded down, unless the
/// divisor is zero.
#[verifier::external_body]
pub(crate) fn u256_checked_div(a: U256, b: U256) -> (r: Option<U256>)
    ensures
        r matches Some(x) ==> x@ == a@ / b@,
        r is Some <==> b@ != 0,
{
    let x = ethnum::U256::from_words(a.hi, a.lo);
    let r = x.checked_div(ethnum::U256::from_words(b.hi, b.lo))?;
    let (hi, lo) = r.into_words();
    Some(U256 { hi, lo })
}

/// Calls `ethnum::U256::checked_pow`: the power, unless it does not fit.
#[verifier::external_body]
pub(crate) fn u256_checked_pow(a: U256, exp: u32) -> (r: Option<U256>)
    ensures
        r matches Some(x) ==> x@ == pow(a@, exp as nat),
        r is Some <==> fits_u256(pow(a@, exp as nat)),
{
    let r = ethnum::U256::from_words(a.hi, a.lo).checked_pow(exp)?;
    let (hi, lo) = r.into_words();
    Some(U256 { hi, lo })
}

/// Calls `ethnum::U256::checked_shl`: the number shifted up with the bits that
/// leave the range dropped, unless the shift reaches the width.
#[verifier::external_body]
pub(crate) fn u256_checked_shl(a: U256, bits: u32) -> (r: Option<U256>)
    ensures
        r matches Some(x) ==> x@ == (a@ * pow2(bits as nat)) % two256(),
        r is Some <==> bits < 256,
{
    let r = ethnum::U256::from_words(a.hi, a.lo).checked_shl(bits)?;
    let (hi, lo) = r.into_words();
    Some(U256 { hi, lo })
}

/// Calls `ethnum::U256::checked_shr`: the number shifted down, unless the shift
/// reaches the width.
#[verifier::external_body]
pub(crate) fn u256_checked_shr(a: U256, bits: u32) -> (r: Option<U256>)
    ensures
        r matches Some(x) ==> x@ == a@ / (pow2(bits as nat) as int),
        r is Some <==> bits < 256,
{
    let r = ethnum::U256::from_words(a.hi, a.lo).checked_shr(bits)?;
    let (hi, lo) = r.into_words();
    Some(U256 { hi, lo })
}

/// Calls `ethnum::I256::checked_add`: the sum, unless it does not fit.
#[verifier::external_body]
pub(crate) fn i256_checked_add(a: I256, b: I256) -> (r: Option<I256>)
    ensures
        r matches Some(x) ==> x@ == a@ + b@,
        r is Some <==> fits_i256(a@ + b@),
{
    let x = ethnum::I256::from_words(a.hi, a.lo as i128);
    let r = x.checked_add(ethnum::I256::from_words(b.hi, b.lo as i128))?;
    let (hi, lo) = r.into_words();
    Some(I256 { hi, lo: lo as u128 })
}

/// Calls `ethnum::I256::checked_sub`: the difference, unless it does not fit.
#[verifier::external_body]
pub(crate) fn i256_checked_sub(a: I256, b: I256) -> (r: Option<I256>)
    ensures
        r matches Some(x) ==> x@ == a@ - b@,
        r is Some <==> fits_i256(a@ - b@),
{
    let x = ethnum::I256::from_words(a.hi, a.lo as i128);
    let r = x.checked_sub(ethnum::I256::from_words(b.hi, b.lo as i128))?;
    let (hi, lo) = r.into_words();
    Some(I256 { hi, lo: lo as u128 })
}

/// Calls `ethnum::I256::checked_mul`: the product, unless it does not fit.
#[verifier::external_body]
pub(crate) fn i256_checked_mul(a: I256, b: I256) -> (r: Option<I256>)
    ensures
        r matches Some(x) ==> x@ == a@ * b@,
        r is Some <==> fits_i256(a@ * b@),
{
    let x = ethnum::I256::from_words(a.hi, a.lo as i128);
    let r = x.checked_mul(ethnum::I256::from_words(b.hi, b.lo as i128))?;
    let (hi, lo) = r.into_words();
    Some(I256 { hi, lo: lo as u128 })
}

/// Calls `ethnum::I256::checked_div`: the quotient without its fraction, unless
/// the divisor is zero or the quotient does not fit.
#[verifier::external_body]
pub(crate) fn i256_checked_div(a: I256, b: I256) -> (r: Option<I256>)
    ensures
        r matches Some(x) ==> x@ == truncated_div(a@, b@),
        r is Some <==> (b@ != 0 && fits_i256(truncated_div(a@, b@))),
{
    let x = ethnum::I256::from_words(a.hi, a.lo as i128);
    let r = x.checked_div(ethnum::I256::from_words(b.hi, b.lo as i128))?;
    let (hi, lo) = r.into_words();
    Some(I256 { hi, lo: lo as u128 })
}

/// Calls `ethnum::I256::checked_pow`: the power, unless it does not fit.
#[verifier::external_body]
pub(crate) fn i256_checked_pow(a: I256, exp: u32) -> (r: Option<I256>)
    ensures
        r matches Some(x) ==> x@ == pow(a@, exp as nat),
        r is Some <==> fits_i256(pow(a@, exp as nat)),
{
    let r = ethnum::I256::from_words(a.hi, a.lo as i128).checked_pow(exp)?;
    let (hi, lo) = r.into_words();
    Some(I256 { hi, lo: lo as u128 })
}

/// Calls `ethnum::I256::checked_shl`: the number shifted up with the bits that
/// leave the range dropped, unless the shift reaches the width.
#[verifier::external_body]
pub(crate) fn i256_checked_shl(a: I256, bits: u32) -> (r: Option<I256>)
    ensures
        r matches Some(x) ==> x@ == wrap_i256(a@ * pow2(bits as nat)),
        r is Some <==> bits < 256,
{
    let r = ethnum::I256::from_words(a.hi, a.lo as i128).checked_shl(bits)?;
    let (hi, lo) = r.into_words();
    Some(I256 { hi, lo: lo as u128 })
}

/// Calls `ethnum::I256::checked_shr`: the number shifted down with its sign
/// kept, unless the shift reaches the width.
#[verifier::external_body]
pub(crate) fn i256_checked_shr(a: I256, bits: u32) -> (r: Option<I256>)
    ensures
        r matches Some(x) ==> x@ == a@ / (pow2(bits as nat) as int),
        r is Some <==> bits < 256,
{
    let r = ethnum::I256::from_words(a.hi, a.lo as i128).checked_shr(bits)?;
    let (hi, lo) = r.into_words();
    Some(I256 { hi, lo: lo as u128 })
}

/// Calls `ethnum::U256::to_be_bytes`: the 32 bytes of the number.
#[verifier::external_body]
pub(crate) fn u256_to_be_bytes(a: U256) -> (r: Vec<u8>)
    ensures
        r@ == be_bytes(a@, 32),
{
    ethnum::U256::from_words(a.hi, a.lo).to_be_bytes().to_vec()
}

/// Calls `ethnum::U256::from_be_bytes`: the number that 32 bytes stand for.
#[verifier::external_body]
pub(crate) fn u256_from_be_bytes(bytes: &[u8]) -> (r: U256)
    requires
        bytes@.len() == 32,
    ensures
        r@ == from_be(bytes@),
{
    let mut array = [0u8; 32];
    array.copy_from_slice(bytes);
    let (hi, lo) = ethnum::U256::from_be_bytes(array).into_words();
    U256 { hi, lo }
}

/// Calls `ethnum::I256::to_be_bytes`: the 32 bytes of the number in two's
/// complement.
#[verifier::external_body]
pub(crate) fn i256_to_be_bytes(a: I256) -> (r: Vec<u8>)
    ensures
        r@ == be_bytes(a@, 32),
{
    ethnum::I256::from_words(a.hi, a.lo as i128).to_be_bytes().to_vec()
}

/// Calls `ethnum::I256::from_be_bytes`: the number that 32 bytes stand for in
/// two's complement.
#[verifier::external_body]
pub(crate) fn i256_from_be_bytes(bytes: &[u8]) -> (r: I256)
    requires
        bytes@.len() == 32,
    ensures
        r@ == wrap_i256(from_be(bytes@)),
{
    let mut array = [0u8; 32];
    array.copy_from_slice(bytes);
    let (hi, lo) = ethnum::I256::from_be_bytes(array).into_words();
    I256 { hi, lo: lo as u128 }
}

} // verus!
