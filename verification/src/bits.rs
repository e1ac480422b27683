//! Little-endian bit streams.
//!
//! A frame on the wire is a sequence of bytes; logically it is a stream of
//! bits where bit `i` of the stream is bit `i % 8` (least significant first)
//! of byte `i / 8`. Fields of the packed telemetry record are unsigned
//! integers read from a fixed offset and width in that stream, least
//! significant bit first.

use vstd::prelude::*;
use vstd::arithmetic::power2::pow2;

verus! {

/// The unsigned integer denoted by a little-endian bit sequence
/// (`s[0]` is the least significant bit).
pub open spec fn bits_to_nat(s: Seq<bool>) -> nat
    decreases s.len(),
{
    if s.len() == 0 {
        0
    } else {
        (if s[0] { 1nat } else { 0nat }) + 2 * bits_to_nat(s.drop_first())
    }
}

/// The `w`-bit little-endian representation of `v` (truncating above bit `w`).
pub open spec fn nat_to_bits(v: nat, w: nat) -> Seq<bool>
    decreases w,
{
    if w == 0 {
        Seq::empty()
    } else {
        seq![v % 2 == 1] + nat_to_bits(v / 2, (w - 1) as nat)
    }
}

/// The bit stream carried by a byte sequence: bit `i` is bit `i % 8` of
/// byte `i / 8`, least significant bit first within each byte.
pub open spec fn stream_bits(f: Seq<u8>) -> Seq<bool> {
    Seq::new(f.len() * 8, |i: int| nat_to_bits(f[i / 8] as nat, 8)[i % 8])
}

/// The unsigned field of width `w` starting at bit offset `off` of frame `f`.
pub open spec fn field_val(f: Seq<u8>, off: int, w: int) -> nat {
    bits_to_nat(stream_bits(f).subrange(off, off + w))
}

pub proof fn lemma_nat_to_bits_len(v: nat, w: nat)
    ensures
        nat_to_bits(v, w).len() == w,
    decreases w,
{
    if w > 0 {
        lemma_nat_to_bits_len(v / 2, (w - 1) as nat);
    }
}

pub proof fn lemma_bits_to_nat_bound(s: Seq<bool>)
    ensures
        bits_to_nat(s) < pow2(s.len()),
    decreases s.len(),
{
    if s.len() == 0 {
        vstd::arithmetic::power2::lemma2_to64();
    } else {
        vstd::arithmetic::power2::lemma_pow2_unfold(s.len());
        lemma_bits_to_nat_bound(s.drop_first());
    }
}

/// Packing then reading back gives the value, for values that fit the width.
pub proof fn lemma_bits_of_nat_round_trip(v: nat, w: nat)
    requires
        v < pow2(w),
    ensures
        bits_to_nat(nat_to_bits(v, w)) == v,
    decreases w,
{
    if w == 0 {
        vstd::arithmetic::power2::lemma2_to64();
    } else {
        let bits = nat_to_bits(v, w);
        lemma_nat_to_bits_len(v / 2, (w - 1) as nat);
        assert(bits.drop_first() =~= nat_to_bits(v / 2, (w - 1) as nat));
        vstd::arithmetic::power2::lemma_pow2_unfold(w);
        assert(v / 2 < pow2((w - 1) as nat));
        lemma_bits_of_nat_round_trip(v / 2, (w - 1) as nat);
    }
}

/// Reading a bit sequence as a number and re-packing at the same width
/// reproduces the sequence.
pub proof fn lemma_nat_of_bits_round_trip(s: Seq<bool>)
    ensures
        nat_to_bits(bits_to_nat(s), s.len()) == s,
    decreases s.len(),
{
    if s.len() > 0 {
        let v = bits_to_nat(s);
        let b: nat = if s[0] { 1 } else { 0 };
        assert(v == b + 2 * bits_to_nat(s.drop_first()));
        assert(v % 2 == b && v / 2 == bits_to_nat(s.drop_first()));
        lemma_nat_of_bits_round_trip(s.drop_first());
        lemma_nat_to_bits_len(v, s.len());
        assert(nat_to_bits(v, s.len()) =~= s);
    } else {
        assert(nat_to_bits(0, 0) =~= s);
    }
}

/// Converts a value to its `w`-bit little-endian representation.
pub fn nat_to_bits_exec(v: u16, w: usize) -> (r: Vec<bool>)
    requires
        w <= 16,
    ensures
        r@ == nat_to_bits(v as nat, w as nat),
{
    let mut r: Vec<bool> = Vec::new();
    let mut x: u16 = v;
    let mut i: usize = 0;
    proof {
        assert(r@ + nat_to_bits(v as nat, w as nat) =~= nat_to_bits(v as nat, w as nat));
    }
    while i < w
        invariant
            i <= w,
            w <= 16,
            r@.len() == i,
            nat_to_bits(v as nat, w as nat) == r@ + nat_to_bits(x as nat, (w - i) as nat),
        decreases w - i,
    {
        let ghost old_r = r@;
        let ghost old_x = x as nat;
        let b = x % 2 == 1;
        r.push(b);
        x = x / 2;
        i = i + 1;
        proof {
            assert(nat_to_bits(old_x, (w - i + 1) as nat) == seq![b] + nat_to_bits(
                old_x / 2,
                (w - i) as nat,
            ));
            assert(old_r + (seq![b] + nat_to_bits(x as nat, (w - i) as nat)) =~= r@ + nat_to_bits(
                x as nat,
                (w - i) as nat,
            ));
        }
    }
    proof {
        assert(nat_to_bits(x as nat, 0) =~= Seq::<bool>::empty());
        assert(r@ + Seq::<bool>::empty() =~= r@);
    }
    r
}

/// Reads the unsigned field of width `w` starting at `off` in a bit stream.
pub fn read_bits(bits: &Vec<bool>, off: usize, w: usize) -> (v: u16)
    requires
        w <= 16,
        off + w <= bits@.len(),
    ensures
        v as nat == bits_to_nat(bits@.subrange(off as int, (off + w) as int)),
        v < pow2(w as nat),
{
    let n: usize = bits.len();
    let mut acc: u16 = 0;
    let mut k: usize = w;
    proof {
        assert(bits@.subrange((off + w) as int, (off + w) as int) =~= Seq::<bool>::empty());
        vstd::arithmetic::power2::lemma2_to64();
    }
    while k > 0
        invariant
            k <= w,
            w <= 16,
            off + w <= n,
            n == bits@.len(),
            acc as nat == bits_to_nat(bits@.subrange((off + k) as int, (off + w) as int)),
            acc < pow2((w - k) as nat),
        decreases k,
    {
        proof {
            lemma_bits_to_nat_bound(bits@.subrange((off + k) as int, (off + w) as int));
            vstd::arithmetic::power2::lemma2_to64();
            assert(pow2((w - k) as nat) <= pow2(15)) by {
                if ((w - k) as nat) < 15 {
                    vstd::arithmetic::power2::lemma_pow2_strictly_increases(
                        (w - k) as nat,
                        15,
                    );
                }
            }
        }
        k = k - 1;
        let bit = bits[off + k];
        let ghost tail = bits@.subrange((off + k + 1) as int, (off + w) as int);
        let ghost whole = bits@.subrange((off + k) as int, (off + w) as int);
        proof {
            assert(whole.len() > 0 && whole[0] == bit);
            assert(whole.drop_first() =~= tail);
            assert(bits_to_nat(whole) == (if bit { 1nat } else { 0nat }) + 2 * bits_to_nat(tail));
            vstd::arithmetic::power2::lemma_pow2_unfold((w - k) as nat);
        }
        acc = 2 * acc + (if bit { 1 } else { 0 });
    }
    proof {
        assert(bits@.subrange(off as int, (off + w) as int) == bits@.subrange(
            (off + k) as int,
            (off + w) as int,
        ));
    }
    acc
}

/// Unpacks a byte sequence into its bit stream.
pub fn bytes_to_bits(frame: &Vec<u8>) -> (bits: Vec<bool>)
    requires
        frame@.len() * 8 <= usize::MAX,
    ensures
        bits@ == stream_bits(frame@),
{
    let mut bits: Vec<bool> = Vec::new();
    let mut j: usize = 0;
    while j < frame.len()
        invariant
            j <= frame@.len(),
            frame@.len() * 8 <= usize::MAX,
            bits@.len() == j * 8,
            bits@ =~= stream_bits(frame@).subrange(0, j * 8),
        decreases frame@.len() - j,
    {
        let ghost old_bits = bits@;
        let mut byte_bits = nat_to_bits_exec(frame[j] as u16, 8);
        proof {
            lemma_nat_to_bits_len(frame@[j as int] as nat, 8);
        }
        bits.append(&mut byte_bits);
        j = j + 1;
        proof {
            assert forall|i: int| 0 <= i < j * 8 implies bits@[i] == stream_bits(frame@)[i] by {
                if i < (j - 1) * 8 {
                    assert(bits@[i] == old_bits[i]);
                } else {
                    assert(i / 8 == j - 1 && i % 8 == i - (j - 1) * 8);
                    assert(bits@[i] == nat_to_bits(frame@[j - 1] as nat, 8)[i - (j - 1) * 8]);
                }
            }
            assert(bits@ =~= stream_bits(frame@).subrange(0, j * 8));
        }
    }
    proof {
        assert(bits@ =~= stream_bits(frame@));
    }
    bits
}

/// Packs a bit stream (whose length is a multiple of 8) into bytes.
pub fn bits_to_bytes(bits: &Vec<bool>) -> (r: Vec<u8>)
    requires
        bits@.len() % 8 == 0,
    ensures
        r@.len() * 8 == bits@.len(),
        stream_bits(r@) == bits@,
{
    let n = bits.len() / 8;
    proof {
        assert(n * 8 == bits@.len());
    }
    let mut r: Vec<u8> = Vec::new();
    let mut j: usize = 0;
    let total: usize = bits.len();
    while j < n
        invariant
            j <= n,
            n * 8 == bits@.len(),
            total == bits@.len(),
            r@.len() == j,
            forall|t: int|
                0 <= t < j ==> nat_to_bits(r@[t] as nat, 8) =~= bits@.subrange(
                    8 * t,
                    8 * t + 8,
                ),
        decreases n - j,
    {
        let v = read_bits(bits, 8 * j, 8);
        proof {
            vstd::arithmetic::power2::lemma2_to64();
            assert(v < 256);
            lemma_nat_of_bits_round_trip(bits@.subrange(8 * j as int, 8 * j + 8));
        }
        r.push(v as u8);
        j = j + 1;
    }
    proof {
        assert forall|i: int| 0 <= i < bits@.len() implies stream_bits(r@)[i] == bits@[i] by {
            let t = i / 8;
            assert(0 <= t < n);
            assert(nat_to_bits(r@[t] as nat, 8) =~= bits@.subrange(8 * t, 8 * t + 8));
            lemma_nat_to_bits_len(r@[t] as nat, 8);
            assert(stream_bits(r@)[i] == nat_to_bits(r@[t] as nat, 8)[i % 8]);
            assert(bits@.subrange(8 * t, 8 * t + 8)[i % 8] == bits@[8 * t + i % 8]);
            assert(8 * t + i % 8 == i);
        }
        assert(stream_bits(r@) =~= bits@);
    }
    r
}

} // verus!
