//! Symbols: short identifiers over letters, digits and the underscore, which
//! pack into a small value where they have at most nine characters.

use vstd::prelude::*;

verus! {

/// The longest symbol.
pub const SCSYMBOL_LIMIT: usize = 32;

/// The longest symbol that packs into a small value.
pub const MAX_SMALL_CHARS: usize = 9;

pub open spec fn spec_is_symbol_char(c: u8) -> bool {
    c == 0x5f || 0x30 <= c <= 0x39 || 0x41 <= c <= 0x5a || 0x61 <= c <= 0x7a
}

/// Whether a byte may stand in a symbol: `_`, `0` to `9`, `A` to `Z`, `a` to `z`.
#[verifier::when_used_as_spec(spec_is_symbol_char)]
pub fn is_symbol_char(c: u8) -> (ok: bool)
    ensures
        ok == spec_is_symbol_char(c),
{
    c == 0x5f || (0x30 <= c && c <= 0x39) || (0x41 <= c && c <= 0x5a) || (0x61 <= c && c <= 0x7a)
}

/// The six-bit code of a symbol character; no character has code zero.
pub open spec fn spec_char_code(c: u8) -> int {
    if c == 0x5f {
        1
    } else if 0x30 <= c <= 0x39 {
        2 + (c - 0x30)
    } else if 0x41 <= c <= 0x5a {
        12 + (c - 0x41)
    } else {
        38 + (c - 0x61)
    }
}

/// The character with a six-bit code from 1 to 63.
pub open spec fn spec_code_char(code: int) -> u8 {
    if code == 1 {
        0x5f
    } else if code < 12 {
        (0x30 + (code - 2)) as u8
    } else if code < 38 {
        (0x41 + (code - 12)) as u8
    } else {
        (0x61 + (code - 38)) as u8
    }
}

/// Whether a byte string is a symbol, long or short.
pub open spec fn is_symbol(s: Seq<u8>) -> bool {
    &&& s.len() <= SCSYMBOL_LIMIT
    &&& all_symbol_chars(s)
}

pub open spec fn all_symbol_chars(s: Seq<u8>) -> bool {
    forall|i: int| 0 <= i < s.len() ==> spec_is_symbol_char(#[trigger] s[i])
}

/// The packed form of a symbol: its character codes as base-64 digits.
pub open spec fn small_symbol_body(s: Seq<u8>) -> int
    decreases s.len(),
{
    if s.len() == 0 {
        0
    } else {
        small_symbol_body(s.drop_last()) * 64 + spec_char_code(s.last())
    }
}

/// The characters that a packed form stands for; zero digits stand for none.
pub open spec fn small_symbol_bytes(body: int) -> Seq<u8>
    decreases body,
{
    if body <= 0 {
        Seq::empty()
    } else {
        let init = small_symbol_bytes(body / 64);
        if body % 64 == 0 {
            init
        } else {
            init.push(spec_code_char(body % 64))
        }
    }
}

/// Packing a symbol and unpacking it gives its characters back.
pub proof fn law_small_symbol_round_trip(s: Seq<u8>)
    requires
        all_symbol_chars(s),
    ensures
        small_symbol_bytes(small_symbol_body(s)) == s,
        small_symbol_body(s) >= 0,
    decreases s.len(),
{
    if s.len() > 0 {
        let init = s.drop_last();
        law_small_symbol_round_trip(init);
        let c = s.last();
        assert(spec_is_symbol_char(s[s.len() - 1]));
        assert(1 <= spec_char_code(c) < 64);
        assert(small_symbol_body(s) / 64 == small_symbol_body(init));
        assert(small_symbol_body(s) % 64 == spec_char_code(c));
        assert(spec_code_char(spec_char_code(c)) == c);
        assert(s =~= init.push(c));
    } else {
        assert(small_symbol_bytes(0) =~= s);
    }
}

/// The packed form of a symbol that fits takes at most 54 bits.
pub proof fn lemma_small_symbol_body_bound(s: Seq<u8>, n: nat)
    requires
        s.len() <= n,
        all_symbol_chars(s),
    ensures
        0 <= small_symbol_body(s) < vstd::arithmetic::power::pow(64, n),
        vstd::arithmetic::power::pow(64, 9) == 0x40_0000_0000_0000,
    decreases n,
{
    lemma_nine_digits();
    reveal(vstd::arithmetic::power::pow);
    if s.len() > 0 {
        let p = vstd::arithmetic::power::pow(64, (n - 1) as nat);
        lemma_small_symbol_body_bound(s.drop_last(), (n - 1) as nat);
        assert(spec_is_symbol_char(s[s.len() - 1]));
    } else {
        vstd::arithmetic::power::lemma_pow_positive(64, n);
    }
}

proof fn lemma_nine_digits()
    ensures
        vstd::arithmetic::power::pow(64, 9) == 0x40_0000_0000_0000,
{
    reveal_with_fuel(vstd::arithmetic::power::pow, 10);
}

pub proof fn lemma_small_symbol_bytes_valid(body: int)
    ensures
        all_symbol_chars(small_symbol_bytes(body)),
    decreases body,
{
    if body > 0 {
        lemma_small_symbol_bytes_valid(body / 64);
    }
}

/// The longest packed form that unpacks to at most `n` characters.
pub proof fn lemma_small_symbol_bytes_len(body: int, n: nat)
    requires
        0 <= body < vstd::arithmetic::power::pow(64, n),
    ensures
        small_symbol_bytes(body).len() <= n,
    decreases n,
{
    reveal(vstd::arithmetic::power::pow);
    if n > 0 && body > 0 {
        assert(body / 64 < vstd::arithmetic::power::pow(64, (n - 1) as nat)) by (nonlinear_arith)
            requires
                body < 64 * vstd::arithmetic::power::pow(64, (n - 1) as nat),
        ;
        lemma_small_symbol_bytes_len(body / 64, (n - 1) as nat);
    }
}

/// Whether every byte may stand in a symbol.
pub fn check_symbol_chars(s: &[u8]) -> (ok: bool)
    ensures
        ok == all_symbol_chars(s@),
{
    let mut i: usize = 0;
    while i < s.len()
        invariant
            i <= s@.len(),
            forall|j: int| 0 <= j < i ==> spec_is_symbol_char(#[trigger] s@[j]),
        decreases s@.len() - i,
    {
        if !is_symbol_char(s[i]) {
            assert(!spec_is_symbol_char(s@[i as int]));
            return false;
        }
        i = i + 1;
    }
    true
}

fn char_code(c: u8) -> (code: u64)
    requires
        spec_is_symbol_char(c),
    ensures
        code == spec_char_code(c),
        1 <= code < 64,
{
    if c == 0x5f {
        1
    } else if c <= 0x39 {
        2 + (c - 0x30) as u64
    } else if c <= 0x5a {
        12 + (c - 0x41) as u64
    } else {
        38 + (c - 0x61) as u64
    }
}

fn code_char(code: u64) -> (c: u8)
    requires
        1 <= code < 64,
    ensures
        c == spec_code_char(code as int),
{
    if code == 1 {
        0x5f
    } else if code < 12 {
        0x30 + (code - 2) as u8
    } else if code < 38 {
        0x41 + (code - 12) as u8
    } else {
        0x61 + (code - 38) as u8
    }
}

pub open spec fn fits_small_symbol(s: Seq<u8>) -> bool {
    s.len() <= MAX_SMALL_CHARS && all_symbol_chars(s)
}

/// Packs a symbol of at most nine characters.
pub fn try_small_symbol(s: &[u8]) -> (body: Option<u64>)
    ensures
        body is Some <==> fits_small_symbol(s@),
        body matches Some(b) ==> b == small_symbol_body(s@) && b < 0x40_0000_0000_0000,
{
    if s.len() > MAX_SMALL_CHARS || !check_symbol_chars(s) {
        return None;
    }
    let mut body: u64 = 0;
    let mut i: usize = 0;
    let ghost limits = seq![
        1int, 0x40, 0x1000, 0x4_0000, 0x100_0000, 0x4000_0000, 0x10_0000_0000, 0x400_0000_0000,
        0x1_0000_0000_0000, 0x40_0000_0000_0000];
    while i < s.len()
        invariant
            i <= s@.len() <= MAX_SMALL_CHARS,
            all_symbol_chars(s@),
            limits == seq![
                1int, 0x40, 0x1000, 0x4_0000, 0x100_0000, 0x4000_0000, 0x10_0000_0000, 0x400_0000_0000,
                0x1_0000_0000_0000, 0x40_0000_0000_0000],
            body == small_symbol_body(s@.take(i as int)),
            body < limits[i as int],
        decreases s@.len() - i,
    {
        assert(spec_is_symbol_char(s@[i as int]));
        assert(s@.take(i + 1).drop_last() =~= s@.take(i as int));
        assert(limits[i + 1] == 64 * limits[i as int]);
        body = body * 64 + char_code(s[i]);
        i = i + 1;
    }
    assert(s@.take(i as int) =~= s@);
    assert(limits[i as int] <= limits[9]);
    Some(body)
}

/// Unpacks the characters of a small symbol.
pub fn small_symbol_to_bytes(body: u64) -> (s: Vec<u8>)
    ensures
        s@ == small_symbol_bytes(body as int),
{
    let mut rest: u64 = body;
    let mut reversed: Vec<u8> = Vec::new();
    while rest > 0
        invariant
            small_symbol_bytes(body as int) == small_symbol_bytes(rest as int) + reversed@.reverse(),
        decreases rest,
    {
        let code: u64 = rest % 64;
        let ghost before = reversed@;
        if code != 0 {
            let c: u8 = code_char(code);
            reversed.push(c);
            assert(reversed@.reverse() =~= seq![c] + before.reverse());
            assert(small_symbol_bytes(rest as int) =~= small_symbol_bytes(rest as int / 64) + seq![c]);
            assert(small_symbol_bytes(rest as int / 64) + reversed@.reverse() =~= small_symbol_bytes(
                rest as int,
            ) + before.reverse());
        }
        rest = rest / 64;
    }
    let mut s: Vec<u8> = Vec::new();
    let mut i: usize = reversed.len();
    while i > 0
        invariant
            i <= reversed@.len(),
            s@ == reversed@.reverse().take(reversed@.len() - i),
        decreases i,
    {
        i = i - 1;
        s.push(reversed[i]);
        assert(s@ =~= reversed@.reverse().take(reversed@.len() - i));
    }
    assert(s@ =~= small_symbol_bytes(body as int));
    s
}

} // verus!
