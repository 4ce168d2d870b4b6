//! Variable-length quantities: MIDI's big-endian, seven-bits-per-byte,
//! high-bit-continuation integer encoding.

use vstd::prelude::*;

use crate::types::MidiError;

verus! {

/// One accumulation step: the low seven bits of `b` enter from the right.
/// The accumulator keeps only its low 25 bits first, exactly as a 32-bit
/// left shift by seven would.
pub open spec fn vlq_step(acc: u32, b: u8) -> u32 {
    ((acc as int % 0x2000000) * 0x80 + (b as int % 0x80)) as u32
}

/// What decoding a variable-length quantity starting at `pos` with an
/// accumulated value `acc` yields: the value and the position after the
/// terminal byte, or `None` when the source runs out mid-sequence.
pub open spec fn spec_vlq(s: Seq<u8>, pos: int, acc: u32) -> Option<(u32, int)>
    decreases s.len() - pos,
{
    if pos < 0 || pos >= s.len() {
        None
    } else {
        let v = vlq_step(acc, s[pos]);
        if s[pos] < 0x80 {
            Some((v, pos + 1))
        } else {
            spec_vlq(s, pos + 1, v)
        }
    }
}

/// What decoding a variable-length quantity at `pos` yields.
pub open spec fn spec_read_vlq(s: Seq<u8>, pos: int) -> Option<(u32, int)> {
    spec_vlq(s, pos, 0)
}

/// Decoding a quantity consumes at least one byte and stays inside the data.
pub proof fn lemma_vlq_advances(s: Seq<u8>, pos: int, acc: u32)
    ensures
        spec_vlq(s, pos, acc) matches Some((v, p)) ==> pos < p <= s.len(),
    decreases s.len() - pos,
{
    if 0 <= pos < s.len() && s[pos] >= 0x80 {
        lemma_vlq_advances(s, pos + 1, vlq_step(acc, s[pos]));
    }
}

/// 128 to the power `n`: the weight of one more leading byte.
pub open spec fn pow128(n: nat) -> int
    decreases n,
{
    if n == 0 {
        1
    } else {
        0x80 * pow128((n - 1) as nat)
    }
}

/// The big-endian seven-bit value of an encoding: each byte contributes its
/// low seven bits, the first byte weighing the most.
pub open spec fn vlq_value_of(s: Seq<u8>) -> int
    decreases s.len(),
{
    if s.len() == 0 {
        0
    } else {
        (s[0] as int % 0x80) * pow128((s.len() - 1) as nat) + vlq_value_of(s.drop_first())
    }
}

pub proof fn lemma_pow128_pos(n: nat)
    ensures
        pow128(n) >= 1,
    decreases n,
{
    if n > 0 {
        lemma_pow128_pos((n - 1) as nat);
    }
}

/// The value of an encoding fits below 128 to the number of its bytes.
pub proof fn lemma_vlq_value_bounds(s: Seq<u8>)
    ensures
        0 <= vlq_value_of(s) < pow128(s.len()),
    decreases s.len(),
{
    if s.len() > 0 {
        let p = pow128((s.len() - 1) as nat);
        let low = s[0] as int % 0x80;
        lemma_vlq_value_bounds(s.drop_first());
        lemma_pow128_pos((s.len() - 1) as nat);
        assert(low * p <= 127 * p) by (nonlinear_arith)
            requires
                0 <= low <= 127,
                p >= 1,
        ;
        assert(low * p >= 0) by (nonlinear_arith)
            requires
                low >= 0,
                p >= 1,
        ;
    }
}

/// The largest accumulator under which `n` more bytes cannot truncate.
pub open spec fn vlq_acc_bound(n: int) -> int {
    if n >= 4 {
        0x10
    } else if n == 3 {
        0x800
    } else if n == 2 {
        0x40000
    } else {
        0x2000000
    }
}

proof fn lemma_vlq_run(t: Seq<u8>, pos: int, n: int, acc: u32)
    requires
        0 <= pos,
        1 <= n <= 4,
        pos + n <= t.len(),
        forall|i: int| pos <= i < pos + n - 1 ==> #[trigger] t[i] >= 0x80,
        t[pos + n - 1] < 0x80,
        (acc as int) < vlq_acc_bound(n),
    ensures
        spec_vlq(t, pos, acc) == Some(
            (
                ((acc as int) * pow128(n as nat) + vlq_value_of(t.subrange(pos, pos + n))) as u32,
                pos + n,
            ),
        ),
        (acc as int) * pow128(n as nat) + vlq_value_of(t.subrange(pos, pos + n)) < 0x100000000,
    decreases n,
{
    let sub = t.subrange(pos, pos + n);
    let low = t[pos] as int % 0x80;
    assert(sub[0] == t[pos]);
    assert(sub.drop_first() =~= t.subrange(pos + 1, pos + n));
    if n == 1 {
        assert(vlq_value_of(sub.drop_first()) == 0);
        assert(pow128(0) == 1);
        assert(pow128(1) == 0x80);
        assert(vlq_step(acc, t[pos]) == (acc as int) * 0x80 + low);
    } else {
        assert(t[pos] >= 0x80);
        let acc2 = vlq_step(acc, t[pos]);
        assert(acc2 == (acc as int) * 0x80 + low);
        assert((acc2 as int) < vlq_acc_bound(n - 1));
        lemma_vlq_run(t, pos + 1, n - 1, acc2);
        let p = pow128((n - 1) as nat);
        let sub2 = t.subrange(pos + 1, pos + n);
        assert(pow128(n as nat) == 0x80 * p);
        assert(((acc as int) * 0x80 + low) * p == (acc as int) * (0x80 * p) + low * p)
            by (nonlinear_arith);
        assert(vlq_value_of(sub) == low * p + vlq_value_of(sub2));
    }
}

/// Decoding a valid variable-length quantity of one to four bytes yields
/// exactly its big-endian seven-bit value, and leaves the position just past
/// the terminal byte. Four bytes carry at most 28 bits, so no truncation to
/// 32 bits can occur.
pub proof fn lemma_vlq_decodes_reference_value(t: Seq<u8>, pos: int, n: int)
    requires
        0 <= pos,
        1 <= n <= 4,
        pos + n <= t.len(),
        forall|i: int| pos <= i < pos + n - 1 ==> #[trigger] t[i] >= 0x80,
        t[pos + n - 1] < 0x80,
    ensures
        spec_read_vlq(t, pos) == Some(
            (vlq_value_of(t.subrange(pos, pos + n)) as u32, pos + n),
        ),
        0 <= vlq_value_of(t.subrange(pos, pos + n)) < 0x10000000,
{
    lemma_vlq_run(t, pos, n, 0);
    lemma_vlq_value_bounds(t.subrange(pos, pos + n));
    assert(pow128(0) == 1);
    assert(pow128(1) == 0x80);
    assert(pow128(2) == 0x4000);
    assert(pow128(3) == 0x200000);
    assert(pow128(4) == 0x10000000);
}

/// Read a variable-length quantity from `pos`.
pub fn read_variable_length(bytes: &Vec<u8>, pos: usize) -> (r: Result<(u32, usize), MidiError>)
    ensures
        match r {
            Ok((v, p)) => spec_read_vlq(bytes@, pos as int) == Some((v, p as int)) && pos < p
                <= bytes@.len(),
            Err(e) => e == MidiError::Io && spec_read_vlq(bytes@, pos as int) is None,
        },
{
    let mut value: u32 = 0;
    let mut p = pos;
    loop
        invariant
            pos <= p,
            p == pos || p <= bytes@.len(),
            spec_vlq(bytes@, pos as int, 0) == spec_vlq(bytes@, p as int, value),
        decreases bytes@.len() - p,
    {
        if p >= bytes.len() {
            return Err(MidiError::Io);
        }
        let b = bytes[p];
        value = (value % 0x2000000) * 0x80 + ((b % 0x80) as u32);
        p = p + 1;
        if b < 0x80 {
            return Ok((value, p));
        }
    }
}

} // verus!
