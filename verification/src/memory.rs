//! The linear memory of a guest.

use vstd::prelude::*;

verus! {

/// A guest that is being served, with its memory.
pub struct VmCaller {
    pub memory: Vec<u8>,
}

/// The number that little-endian bytes stand for.
pub open spec fn from_le(s: Seq<u8>) -> int
    decreases s.len(),
{
    if s.len() == 0 {
        0
    } else {
        s[0] + 256 * from_le(s.drop_first())
    }
}

/// The lowest `n` bytes of a number, the lowest first.
pub open spec fn le_bytes(x: int, n: nat) -> Seq<u8>
    decreases n,
{
    if n == 0 {
        Seq::empty()
    } else {
        seq![(x % 256) as u8] + le_bytes(x / 256, (n - 1) as nat)
    }
}

/// The bytes of memory in a range, if the range is in memory.
pub open spec fn mem_range(mem: Seq<u8>, pos: int, len: int) -> Option<Seq<u8>> {
    if pos + len <= mem.len() {
        Some(mem.subrange(pos, pos + len))
    } else {
        None
    }
}

/// The 64-bit word at a position.
pub open spec fn word_at(mem: Seq<u8>, pos: int) -> int {
    from_le(mem.subrange(pos, pos + 8))
}

/// Memory with bytes written over it.
pub open spec fn overwritten(mem: Seq<u8>, pos: int, s: Seq<u8>) -> Seq<u8> {
    Seq::new(
        mem.len(),
        |j: int|
            if pos <= j < pos + s.len() {
                s[j - pos]
            } else {
                mem[j]
            },
    )
}

/// Memory with a word written over it.
pub open spec fn with_word(mem: Seq<u8>, pos: int, x: int) -> Seq<u8> {
    overwritten(mem, pos, le_bytes(x, 8))
}

/// Two to the power of `8 * n`, for words.
pub open spec fn byte_power(n: nat) -> int
    decreases n,
{
    if n == 0 {
        1
    } else {
        256 * byte_power((n - 1) as nat)
    }
}

/// A number that fits comes back from its bytes.
pub proof fn law_le_round_trip(x: int, n: nat)
    requires
        0 <= x < byte_power(n),
    ensures
        from_le(le_bytes(x, n)) == x,
        le_bytes(x, n).len() == n,
    decreases n,
{
    if n > 0 {
        assert(x / 256 < byte_power((n - 1) as nat)) by (nonlinear_arith)
            requires
                0 <= x < 256 * byte_power((n - 1) as nat),
        ;
        law_le_round_trip(x / 256, (n - 1) as nat);
        assert(le_bytes(x, n).drop_first() =~= le_bytes(x / 256, (n - 1) as nat));
    }
}

pub proof fn lemma_le_bytes_len(x: int, n: nat)
    ensures
        le_bytes(x, n).len() == n,
    decreases n,
{
    if n > 0 {
        lemma_le_bytes_len(x / 256, (n - 1) as nat);
    }
}

proof fn lemma_byte_power_8()
    ensures
        byte_power(0) == 1,
        byte_power(1) == 0x100,
        byte_power(2) == 0x1_0000,
        byte_power(3) == 0x100_0000,
        byte_power(4) == 0x1_0000_0000,
        byte_power(5) == 0x100_0000_0000,
        byte_power(6) == 0x1_0000_0000_0000,
        byte_power(7) == 0x100_0000_0000_0000,
        byte_power(8) == 0x1_0000_0000_0000_0000,
{
    reveal_with_fuel(byte_power, 9);
}

/// Bytes that were written to memory are read back, and the rest of memory is as
/// it was.
pub proof fn law_written_bytes_are_read_back(mem: Seq<u8>, pos: int, s: Seq<u8>)
    requires
        0 <= pos,
        pos + s.len() <= mem.len(),
    ensures
        mem_range(overwritten(mem, pos, s), pos, s.len() as int) == Some(s),
        forall|j: int|
            0 <= j < mem.len() && !(pos <= j < pos + s.len()) ==> #[trigger] overwritten(mem, pos, s)[j] == mem[j],
{
    assert(overwritten(mem, pos, s).subrange(pos, pos + s.len()) =~= s);
}

/// A word that was written is read back.
pub proof fn lemma_written_word(mem: Seq<u8>, pos: int, x: int)
    requires
        0 <= pos,
        pos + 8 <= mem.len(),
        0 <= x <= u64::MAX,
    ensures
        word_at(with_word(mem, pos, x), pos) == x,
{
    lemma_byte_power_8();
    law_le_round_trip(x, 8);
    assert(with_word(mem, pos, x).subrange(pos, pos + 8) =~= le_bytes(x, 8));
}

/// A word that was written is read back, and other words are not changed.
pub proof fn law_word_is_read_back(mem: Seq<u8>, pos: int, x: int, other: int)
    requires
        0 <= pos,
        pos + 8 <= mem.len(),
        0 <= x <= u64::MAX,
        0 <= other,
        other + 8 <= mem.len(),
        other + 8 <= pos || pos + 8 <= other,
    ensures
        word_at(with_word(mem, pos, x), pos) == x,
        word_at(with_word(mem, pos, x), other) == word_at(mem, other),
{
    lemma_written_word(mem, pos, x);
    lemma_le_bytes_len(x, 8);
    let new = with_word(mem, pos, x);
    assert(new.subrange(other, other + 8) =~= mem.subrange(other, other + 8));
}

impl VmCaller {
    /// The 64-bit word at a position of memory.
    pub(crate) fn read_word(&self, pos: usize) -> (x: u64)
        requires
            pos + 8 <= self.memory@.len(),
        ensures
            x == word_at(self.memory@, pos as int),
    {
        let ghost s = self.memory@.subrange(pos as int, pos + 8);
        assert(self.memory.len() <= usize::MAX);
        let mut x: u64 = 0;
        let mut i: usize = 8;
        proof {
            lemma_byte_power_8();
        }
        while i > 0
            invariant
                i <= 8,
                pos + 8 <= self.memory@.len() <= usize::MAX,
                s == self.memory@.subrange(pos as int, pos + 8),
                x == from_le(s.subrange(i as int, 8)),
                x < byte_power((8 - i) as nat),
                byte_power(8) == 0x1_0000_0000_0000_0000,
                forall|n: nat| n < 8 ==> 256 * #[trigger] byte_power(n) <= byte_power(8),
            decreases i,
        {
            i -= 1;
            proof {
                assert(s.subrange(i as int, 8).drop_first() =~= s.subrange(i + 1, 8));
                assert(256 * byte_power((7 - i) as nat) <= byte_power(8));
                assert(byte_power((8 - i) as nat) == 256 * byte_power((7 - i) as nat));
            }
            x = x * 256 + self.memory[pos + i] as u64;
        }
        assert(s.subrange(0, 8) =~= s);
        x
    }

    /// The bytes in a range of memory, if the range is in memory.
    pub(crate) fn read_range(&self, pos: u32, len: u32) -> (r: Option<Vec<u8>>)
        ensures
            match r {
                Some(s) => mem_range(self.memory@, pos as int, len as int) == Some(s@),
                None => mem_range(self.memory@, pos as int, len as int) is None,
            },
    {
        let (pos, len): (usize, usize) = (pos as usize, len as usize);
        if pos > self.memory.len() || len > self.memory.len() - pos {
            return None;
        }
        let mut s: Vec<u8> = Vec::new();
        let mut i: usize = 0;
        while i < len
            invariant
                i <= len,
                pos + len <= self.memory@.len() <= usize::MAX,
                s@ == self.memory@.subrange(pos as int, pos + i),
            decreases len - i,
        {
            s.push(self.memory[pos + i]);
            assert(s@ =~= self.memory@.subrange(pos as int, pos + i + 1));
            i += 1;
        }
        Some(s)
    }

    /// Whether a number of words fits in memory from a position on.
    pub(crate) fn holds_words(&self, pos: u32, n: usize) -> (r: bool)
        ensures
            r == (pos + 8 * n <= self.memory@.len()),
    {
        let pos: usize = pos as usize;
        pos <= self.memory.len() && n <= (self.memory.len() - pos) / 8
    }

    /// Writes bytes over memory.
    pub(crate) fn write_bytes(&mut self, pos: usize, s: &[u8])
        requires
            pos + s@.len() <= old(self).memory@.len(),
        ensures
            final(self).memory@ == overwritten(old(self).memory@, pos as int, s@),
    {
        let ghost mem = self.memory@;
        assert(self.memory.len() <= usize::MAX);
        let mut i: usize = 0;
        while i < s.len()
            invariant
                i <= s@.len(),
                pos + s@.len() <= mem.len() <= usize::MAX,
                self.memory@ == overwritten(mem, pos as int, s@.take(i as int)),
            decreases s@.len() - i,
        {
            self.memory[pos + i] = s[i];
            assert(self.memory@ =~= overwritten(mem, pos as int, s@.take(i + 1)));
            i += 1;
        }
        assert(s@.take(i as int) =~= s@);
        assert(self.memory@ =~= overwritten(mem, pos as int, s@));
    }

    /// Writes a word over memory.
    pub(crate) fn write_word(&mut self, pos: usize, x: u64)
        requires
            pos + 8 <= old(self).memory@.len(),
        ensures
            final(self).memory@ == with_word(old(self).memory@, pos as int, x as int),
    {
        let bytes = word_bytes(x);
        proof {
            lemma_le_bytes_len(x as int, 8);
        }
        self.write_bytes(pos, bytes.as_slice());
    }
}

fn word_bytes(x: u64) -> (s: Vec<u8>)
    ensures
        s@ == le_bytes(x as int, 8),
{
    let mut s: Vec<u8> = Vec::new();
    let mut rest: u64 = x;
    let mut i: usize = 0;
    while i < 8
        invariant
            i <= 8,
            le_bytes(x as int, 8) == s@ + le_bytes(rest as int, (8 - i) as nat),
        decreases 8 - i,
    {
        let ghost before = s@;
        s.push((rest % 256) as u8);
        assert(s@ + le_bytes(rest as int / 256, (7 - i) as nat) =~= before + le_bytes(rest as int, (8 - i) as nat));
        rest = rest / 256;
        i += 1;
    }
    assert(s@ =~= le_bytes(x as int, 8));
    s
}

} // verus!
