//! Varint codec: the length-prefix encoding used by the Minecraft Java
//! protocol.  A non-negative 32-bit value is written as 1 to 5 bytes of
//! little-endian septets, with the high bit set on every byte but the last.

use vstd::prelude::*;

verus! {

/// The bytes of the varint encoding of `n`: base-128 digits, least
/// significant first, every byte but the last carrying the high bit.
pub open spec fn varint_enc(n: u32) -> Seq<u8>
    decreases n,
{
    if n < 0x80 {
        seq![n as u8]
    } else {
        seq![((n % 0x80) + 0x80) as u8] + varint_enc(n / 0x80)
    }
}

/// The low seven bits of an encoded byte.
pub open spec fn septet(b: u8) -> nat {
    (b % 0x80) as nat
}

/// Whether an encoded byte marks a continuation.
pub open spec fn has_high_bit(b: u8) -> bool {
    b >= 0x80
}

/// 128 raised to `i`.
pub open spec fn pow128(i: nat) -> nat
    decreases i,
{
    if i == 0 {
        1
    } else {
        128 * pow128((i - 1) as nat)
    }
}

/// The weighted sum of the septets of `s[0 ..= k]`.
pub open spec fn varint_sum(s: Seq<u8>, k: int) -> nat
    decreases k + 1,
{
    if k < 0 {
        0
    } else {
        varint_sum(s, k - 1) + septet(s[k]) * pow128(k as nat)
    }
}

/// `k` is the position of the final byte of a well-formed varint at the
/// start of `s`: within the first five bytes, high bit clear, and every
/// earlier byte a continuation.
pub open spec fn varint_terminator(s: Seq<u8>, k: int) -> bool {
    &&& 0 <= k < s.len()
    &&& k < 5
    &&& !has_high_bit(s[k])
    &&& forall|j: int| 0 <= j < k ==> has_high_bit(s[j])
}

/// Whether a well-formed varint starts the sequence.
pub open spec fn varint_readable(s: Seq<u8>) -> bool {
    exists|k: int| varint_terminator(s, k)
}

/// The position of the final byte of the varint at the start of `s`.
pub open spec fn varint_end(s: Seq<u8>) -> int {
    choose|k: int| varint_terminator(s, k)
}

/// The decoded value: the weighted sum of the septets, reduced to 32 bits
/// as the wire format's 32-bit readers do.
pub open spec fn varint_value(s: Seq<u8>) -> u32 {
    (varint_sum(s, varint_end(s)) % 0x1_0000_0000) as u32
}

/// The terminator position of a varint is unique.
proof fn lemma_terminator_unique(s: Seq<u8>, k1: int, k2: int)
    requires
        varint_terminator(s, k1),
        varint_terminator(s, k2),
    ensures
        k1 == k2,
{
    if k1 < k2 {
        assert(has_high_bit(s[k1]));
    }
    if k2 < k1 {
        assert(has_high_bit(s[k2]));
    }
}

/// The encoding of any 32-bit value takes between one and five bytes,
/// with tighter bounds for smaller values.
pub proof fn lemma_varint_enc_len(n: u32)
    ensures
        1 <= varint_enc(n).len() <= 5,
        n < 0x80 ==> varint_enc(n).len() == 1,
        n < 0x4000 ==> varint_enc(n).len() <= 2,
        n < 0x20_0000 ==> varint_enc(n).len() <= 3,
        n < 0x1000_0000 ==> varint_enc(n).len() <= 4,
    decreases n,
{
    if n >= 0x80 {
        lemma_varint_enc_len(n / 0x80);
    }
}

/// The weighted sum over just the first byte is its septet.
proof fn lemma_varint_sum_zero(s: Seq<u8>)
    ensures
        varint_sum(s, 0) == septet(s[0]),
{
    assert(varint_sum(s, -1) == 0);
    assert(pow128(0) == 1);
    assert(varint_sum(s, 0) == varint_sum(s, -1) + septet(s[0]) * pow128(0));
    assert(septet(s[0]) * pow128(0) == septet(s[0])) by (nonlinear_arith)
        requires
            pow128(0) == 1,
    ;
}

/// Prepending a continuation byte shifts the weighted sum by one septet.
proof fn lemma_varint_sum_unshift(s: Seq<u8>, b: u8, k: int)
    requires
        s.len() >= 1,
        s[0] == b,
        0 <= k < s.len(),
    ensures
        varint_sum(s, k) == septet(b) + 128 * varint_sum(s.skip(1), k - 1),
    decreases k,
{
    let t = s.skip(1);
    if k == 0 {
        lemma_varint_sum_zero(s);
        assert(varint_sum(t, -1) == 0);
    } else {
        lemma_varint_sum_unshift(s, b, k - 1);
        assert(t[k - 1] == s[k]);
        assert(varint_sum(s, k) == varint_sum(s, k - 1) + septet(s[k]) * pow128(k as nat));
        assert(varint_sum(t, k - 1) == varint_sum(t, k - 2) + septet(t[k - 1]) * pow128((k - 1) as nat));
        assert(pow128(k as nat) == 128 * pow128((k - 1) as nat));
        assert(septet(s[k]) * (128 * pow128((k - 1) as nat))
            == 128 * (septet(s[k]) * pow128((k - 1) as nat))) by (nonlinear_arith);
        assert(128 * (varint_sum(t, k - 2) + septet(t[k - 1]) * pow128((k - 1) as nat))
            == 128 * varint_sum(t, k - 2) + 128 * (septet(t[k - 1]) * pow128((k - 1) as nat)))
            by (nonlinear_arith);
    }
}

/// The weighted sum over exactly the bytes of `varint_enc(n)` recovers `n`,
/// and the encoding is terminated exactly at its last byte, even when other
/// bytes follow it.
proof fn lemma_varint_enc_decodes(n: u32, tail: Seq<u8>)
    ensures
        varint_terminator(varint_enc(n) + tail, varint_enc(n).len() - 1),
        varint_sum(varint_enc(n) + tail, varint_enc(n).len() - 1) == n,
    decreases n,
{
    let s = varint_enc(n) + tail;
    let len: int = varint_enc(n).len() as int;
    lemma_varint_enc_len(n);
    if n < 0x80 {
        assert(s[0] == n as u8);
        lemma_varint_sum_zero(s);
        assert(septet(n as u8) == n);
        assert(varint_sum(s, len - 1) == n);
        assert(varint_terminator(s, len - 1));
    } else {
        let m: u32 = n / 0x80;
        let b0: u8 = ((n % 0x80) + 0x80) as u8;
        lemma_varint_enc_decodes(m, tail);
        lemma_varint_enc_len(m);
        assert(varint_enc(n) == seq![b0] + varint_enc(m));
        assert(s =~= seq![b0] + (varint_enc(m) + tail));
        let t = varint_enc(m) + tail;
        assert(s.skip(1) =~= t);
        // the terminator of the inner encoding terminates the whole
        assert forall|j: int| 0 <= j < len - 1 implies has_high_bit(s[j]) by {
            if j > 0 {
                assert(s[j] == t[j - 1]);
                assert(has_high_bit(t[j - 1]));
            }
        }
        assert(s[len - 1] == t[len - 2]);
        lemma_varint_sum_unshift(s, b0, len - 1);
        assert(septet(b0) == n % 0x80);
        assert(n == 0x80 * (n / 0x80) + n % 0x80);
        assert(varint_sum(s, len - 1) == n);
        assert(varint_terminator(s, len - 1));
    }
}

/// The weighted sum over at most five septets stays below `2^35`.
proof fn lemma_varint_sum_bound(s: Seq<u8>, k: int)
    requires
        k < 5,
        k < s.len(),
    ensures
        varint_sum(s, k) < pow128(5),
        varint_sum(s, k) < 0x8_0000_0000,
    decreases k + 1,
{
    assert(pow128(5) == 0x8_0000_0000) by {
        reveal_with_fuel(pow128, 6);
    }
    if k < 0 {
        assert(varint_sum(s, k) == 0);
    } else {
        lemma_sum_below_next_weight(s, k);
        lemma_pow128_increases(k as nat + 1, 5);
    }
}

/// The weighted sum of septets `0 ..= k` is below the weight of place `k + 1`.
proof fn lemma_sum_below_next_weight(s: Seq<u8>, k: int)
    requires
        0 <= k < s.len(),
    ensures
        varint_sum(s, k) < pow128((k + 1) as nat),
    decreases k,
{
    if k == 0 {
        lemma_varint_sum_zero(s);
        assert(septet(s[0]) < 128);
        assert(pow128(1) == 128 * pow128(0));
        assert(varint_sum(s, 0) < pow128(1));
    } else {
        lemma_sum_below_next_weight(s, k - 1);
        assert(septet(s[k]) <= 127);
        assert(septet(s[k]) * pow128(k as nat) <= 127 * pow128(k as nat)) by (nonlinear_arith)
            requires
                septet(s[k]) <= 127,
        ;
        assert(pow128((k + 1) as nat) == 128 * pow128(k as nat));
    }
}

/// `pow128` is monotonic.
proof fn lemma_pow128_increases(i: nat, j: nat)
    requires
        i <= j,
    ensures
        pow128(i) <= pow128(j),
    decreases j,
{
    if i < j {
        lemma_pow128_increases(i, (j - 1) as nat);
        assert(pow128(j) == 128 * pow128((j - 1) as nat));
        assert(pow128((j - 1) as nat) >= 1) by {
            lemma_pow128_pos((j - 1) as nat);
        }
    }
}

/// `pow128` is positive.
proof fn lemma_pow128_pos(i: nat)
    ensures
        pow128(i) >= 1,
    decreases i,
{
    if i > 0 {
        lemma_pow128_pos((i - 1) as nat);
    }
}

/// Law: reading an encoding recovers the value and consumes exactly the
/// bytes that were written, whatever follows them; every 32-bit value
/// encodes to between one and five bytes.
pub proof fn lemma_varint_round_trip(n: u32, tail: Seq<u8>)
    ensures
        varint_readable(varint_enc(n) + tail),
        varint_end(varint_enc(n) + tail) == varint_enc(n).len() - 1,
        varint_value(varint_enc(n) + tail) == n,
        1 <= varint_enc(n).len() <= 5,
{
    let s = varint_enc(n) + tail;
    let last: int = varint_enc(n).len() - 1;
    lemma_varint_enc_len(n);
    lemma_varint_enc_decodes(n, tail);
    assert(varint_terminator(s, last));
    lemma_terminator_unique(s, varint_end(s), last);
    assert(varint_sum(s, last) == n);
}

/// Law: for every non-negative 32-bit integer, decoding its encoding
/// yields it back unchanged, as a value of the signed type the wire
/// readers return.
pub proof fn lemma_varint_round_trip_i32(n: i32, tail: Seq<u8>)
    requires
        n >= 0,
    ensures
        varint_readable(varint_enc(n as u32) + tail),
        varint_end(varint_enc(n as u32) + tail) == varint_enc(n as u32).len() - 1,
        varint_value(varint_enc(n as u32) + tail) as i32 == n,
        1 <= varint_enc(n as u32).len() <= 5,
{
    lemma_varint_round_trip(n as u32, tail);
}

/// Read a varint from the start of the buffer, returning the decoded value
/// and the number of bytes consumed, or `None` when no well-formed varint
/// is present (no terminating byte within the first five bytes).
pub fn read_varint(buf: &[u8]) -> (r: Option<(i32, usize)>)
    ensures
        match r {
            Some(p) => {
                &&& varint_readable(buf@)
                &&& p.0 == varint_value(buf@) as i32
                &&& p.1 == varint_end(buf@) + 1
                &&& 1 <= p.1 <= 5
                &&& p.1 <= buf@.len()
            },
            None => !varint_readable(buf@),
        },
{
    let n: usize = buf.len();
    let mut i: usize = 0;
    let mut acc: u64 = 0;
    let mut mult: u64 = 1;
    while i < n && i < 5
        invariant
            0 <= i <= 5,
            i <= n,
            n == buf@.len(),
            acc == varint_sum(buf@, i as int - 1),
            mult == pow128(i as nat),
            acc < 0x8_0000_0000,
            mult <= 0x8_0000_0000,
            forall|j: int| 0 <= j < i ==> has_high_bit(buf@[j]),
        decreases 5 - i,
    {
        let b: u8 = buf[i];
        let sep: u64 = (b % 0x80) as u64;
        proof {
            lemma_varint_sum_bound(buf@, i as int);
            lemma_pow128_pos(i as nat);
            assert(sep * mult <= 127 * pow128(i as nat)) by (nonlinear_arith)
                requires
                    sep <= 127,
                    mult == pow128(i as nat),
            ;
            assert(127 * pow128(i as nat) < 128 * pow128(i as nat));
            assert(128 * pow128(i as nat) == pow128((i + 1) as nat));
            lemma_pow128_increases((i + 1) as nat, 5);
            assert(pow128(5) == 0x8_0000_0000) by {
                reveal_with_fuel(pow128, 6);
            }
            assert(acc + sep * mult == varint_sum(buf@, i as int));
        }
        acc = acc + sep * mult;
        if b < 0x80 {
            proof {
                assert(varint_terminator(buf@, i as int));
                lemma_terminator_unique(buf@, varint_end(buf@), i as int);
            }
            return Some(((acc % 0x1_0000_0000) as u32 as i32, i + 1));
        }
        proof {
            assert(mult * 128 == pow128((i + 1) as nat));
            lemma_pow128_increases((i + 1) as nat, 5);
            assert(pow128(5) == 0x8_0000_0000) by {
                reveal_with_fuel(pow128, 6);
            }
        }
        mult = mult * 128;
        i = i + 1;
    }
    proof {
        if varint_readable(buf@) {
            let k: int = varint_end(buf@);
            assert(varint_terminator(buf@, k));
            assert(has_high_bit(buf@[k]));
        }
    }
    None
}

/// Append the varint encoding of `val` to the buffer.  Always succeeds for
/// any 32-bit input; a negative input is encoded through its 32-bit
/// unsigned reinterpretation.
pub fn write_varint(val: i32, buf: &mut Vec<u8>)
    ensures
        final(buf)@ == old(buf)@ + varint_enc(val as u32),
{
    let mut v: u32 = val as u32;
    loop
        invariant
            old(buf)@ + varint_enc(val as u32) == buf@ + varint_enc(v),
        decreases v,
    {
        if v < 0x80 {
            buf.push(v as u8);
            proof {
                assert(varint_enc(v) == seq![v as u8]);
                assert(old(buf)@ + varint_enc(val as u32) =~= buf@);
            }
            return;
        } else {
            let b: u8 = ((v % 0x80) + 0x80) as u8;
            buf.push(b);
            proof {
                assert(varint_enc(v) == seq![b] + varint_enc(v / 0x80));
                assert((old(buf)@ + varint_enc(val as u32)) =~= buf@ + varint_enc(v / 0x80));
            }
            v = v / 0x80;
        }
    }
}

} // verus!
