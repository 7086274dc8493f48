//! Bit-level output packing. A `BitWriter` accumulates single bits into a
//! byte and spills completed bytes into an output buffer, reversing each
//! byte's bits at spill time. Huffman code bits are appended
//! most-significant-first and everything else least-significant-first, so
//! that one shared accumulate/reverse mechanism yields DEFLATE's two bit
//! transmission orders.
use vstd::prelude::*;

verus! {

/// Bit `k` of a byte (`k < 8`).
pub open spec fn byte_bit(b: u8, k: u8) -> bool {
    ((b >> k) & 1) == 1
}

/// Bit `k` of a 16-bit value (`k < 16`).
pub open spec fn bit_of(v: u16, k: u16) -> bool {
    ((v >> k) & 1) == 1
}

/// The lowest `n` bits of `v`, most significant first.
pub open spec fn msb_bits(v: u16, n: nat) -> Seq<bool>
    recommends
        n <= 16,
{
    Seq::new(n, |i: int| bit_of(v, (n - 1 - i) as u16))
}

/// The lowest `n` bits of `v`, least significant first.
pub open spec fn lsb_bits(v: u16, n: nat) -> Seq<bool>
    recommends
        n <= 16,
{
    Seq::new(n, |i: int| bit_of(v, i as u16))
}

/// A byte as a bit sequence in transmission order (least significant first).
pub open spec fn byte_bits(b: u8) -> Seq<bool> {
    Seq::new(8, |i: int| byte_bit(b, i as u8))
}

/// A byte sequence as the bit stream it transmits.
pub open spec fn bytes_bits(s: Seq<u8>) -> Seq<bool>
    decreases s.len(),
{
    if s.len() == 0 {
        Seq::empty()
    } else {
        bytes_bits(s.drop_last()) + byte_bits(s.last())
    }
}

/// `n` zero bits.
pub open spec fn zero_bits(n: nat) -> Seq<bool> {
    Seq::new(n, |i: int| false)
}

pub proof fn lemma_bytes_bits_len(s: Seq<u8>)
    ensures
        bytes_bits(s).len() == 8 * s.len(),
    decreases s.len(),
{
    if s.len() > 0 {
        lemma_bytes_bits_len(s.drop_last());
    }
}

/// `b` with its eight bits in reverse order.
pub open spec fn reverse_byte(b: u8) -> u8 {
    ((b >> 7) & 1) | (((b >> 6) & 1) << 1) | (((b >> 5) & 1) << 2) | (((b >> 4) & 1) << 3) | (((b
        >> 3) & 1) << 4) | (((b >> 2) & 1) << 5) | (((b >> 1) & 1) << 6) | ((b & 1) << 7)
}

/// Computes `reverse_byte`.
pub fn byte_reversed(b: u8) -> (r: u8)
    ensures
        r == reverse_byte(b),
{
    ((b >> 7) & 1) | (((b >> 6) & 1) << 1) | (((b >> 5) & 1) << 2) | (((b >> 4) & 1) << 3) | (((b
        >> 3) & 1) << 4) | (((b >> 2) & 1) << 5) | (((b >> 1) & 1) << 6) | ((b & 1) << 7)
}

proof fn lemma_reverse_byte(b: u8)
    by (bit_vector)
    ensures
        forall|k: u8| k < 8 ==> (#[trigger] (reverse_byte(b) >> k)) & 1 == (b >> ((7 - k) as u8))
            & 1,
{
}

proof fn lemma_append_bit(b: u8, v: u8, c: u8)
    by (bit_vector)
    requires
        c < 8,
        v <= 1,
        b >> c == 0,
    ensures
        (((b << 1) | v) >> 0u8) & 1 == v,
        forall|k: u8| 1 <= k < 8 ==> (#[trigger] (((b << 1) | v) >> k)) & 1 == (b >> ((k - 1)
            as u8)) & 1,
        c < 7 ==> ((b << 1) | v) >> ((c + 1) as u8) == 0,
{
}

/// Accumulates bits into bytes; completed bytes are appended, bit-reversed,
/// to `output_vector`.
pub struct BitWriter {
    pub bit_count: u8,
    pub buffer: u8,
    pub output_vector: Vec<u8>,
}

impl BitWriter {
    /// The held bits never amount to a full byte, and only the lowest
    /// `bit_count` bits of the accumulator are in use.
    pub open spec fn wf(self) -> bool {
        &&& self.bit_count < 8
        &&& self.buffer >> self.bit_count == 0
    }

    /// The held bits, oldest first (the oldest sits highest in the
    /// accumulator).
    pub open spec fn pending(self) -> Seq<bool> {
        Seq::new(
            self.bit_count as nat,
            |i: int| byte_bit(self.buffer, (self.bit_count - 1 - i) as u8),
        )
    }

    /// Every bit appended so far, in transmission order.
    pub open spec fn stream(self) -> Seq<bool> {
        bytes_bits(self.output_vector@) + self.pending()
    }

    pub fn new() -> (r: Self)
        ensures
            r.wf(),
            r.stream() == Seq::<bool>::empty(),
            r.output_vector@ == Seq::<u8>::empty(),
    {
        let r = BitWriter { bit_count: 0, buffer: 0, output_vector: Vec::new() };
        proof {
            assert(0u8 >> 0u8 == 0u8) by (bit_vector);
            assert(r.stream() =~= Seq::<bool>::empty());
        }
        r
    }

    /// Spills the eight held bits as one byte, reversed, and empties the
    /// accumulator.
    fn flush_to_output(&mut self)
        requires
            old(self).bit_count == 8,
        ensures
            final(self).wf(),
            final(self).bit_count == 0,
            final(self).stream() == old(self).stream(),
            final(self).output_vector@ == old(self).output_vector@.push(
                reverse_byte(old(self).buffer),
            ),
    {
        let b = self.buffer;
        let rev: u8 = byte_reversed(b);
        self.output_vector.push(rev);
        self.buffer = 0;
        self.bit_count = 0;
        proof {
            lemma_reverse_byte(b);
            assert(0u8 >> 0u8 == 0u8) by (bit_vector);
            assert(byte_bits(rev) =~= old(self).pending());
            assert(self.output_vector@.drop_last() =~= old(self).output_vector@);
            assert(self.output_vector@.last() == rev);
            assert(bytes_bits(self.output_vector@) == bytes_bits(old(self).output_vector@)
                + byte_bits(rev));
            assert(self.pending() =~= Seq::<bool>::empty());
            assert(self.stream() =~= old(self).stream());
        }
    }

    /// Appends one bit (the low bit of `bit`) after the bits already held.
    fn push_bit(&mut self, bit: u8)
        requires
            old(self).wf(),
            bit <= 1,
        ensures
            final(self).wf(),
            final(self).stream() == old(self).stream().push(bit == 1),
            final(self).bit_count as int == if old(self).bit_count == 7 {
                0int
            } else {
                old(self).bit_count + 1
            },
    {
        let ghost b0 = self.buffer;
        let ghost c0 = self.bit_count;
        self.buffer = (self.buffer << 1) | bit;
        self.bit_count = self.bit_count + 1;
        proof {
            lemma_append_bit(b0, bit, c0);
            assert(Seq::new(
                self.bit_count as nat,
                |i: int| byte_bit(self.buffer, (self.bit_count - 1 - i) as u8),
            ) =~= old(self).pending().push(bit == 1));
        }
        if self.bit_count == 8 {
            self.flush_to_output();
        }
        proof {
            assert(self.stream() =~= old(self).stream().push(bit == 1));
        }
    }

    /// Appends `bit_count` bits of `bits`, most significant first; this is
    /// the entry point for Huffman code bits.
    pub fn code_bits(&mut self, bits: u16, bit_count: u8)
        requires
            old(self).wf(),
            bit_count <= 16,
        ensures
            final(self).wf(),
            final(self).stream() == old(self).stream() + msb_bits(bits, bit_count as nat),
    {
        let mut i: u8 = 0;
        while i < bit_count
            invariant
                i <= bit_count,
                bit_count <= 16,
                self.wf(),
                self.stream() == old(self).stream() + msb_bits(bits, bit_count as nat).take(
                    i as int,
                ),
            decreases bit_count - i,
        {
            let offset: u16 = (bit_count - 1 - i) as u16;
            let bit_w: u16 = (bits >> offset) & 1;
            proof {
                assert((bits >> offset) & 1 <= 1) by (bit_vector);
            }
            let bit: u8 = bit_w as u8;
            self.push_bit(bit);
            proof {
                assert(bit == 1 <==> bit_of(bits, offset));
                assert(msb_bits(bits, bit_count as nat).take(i + 1) =~= msb_bits(
                    bits,
                    bit_count as nat,
                ).take(i as int).push(bit_of(bits, offset)));
                assert(self.stream() =~= old(self).stream() + msb_bits(
                    bits,
                    bit_count as nat,
                ).take(i + 1));
            }
            i = i + 1;
        }
        proof {
            assert(msb_bits(bits, bit_count as nat).take(bit_count as int) =~= msb_bits(
                bits,
                bit_count as nat,
            ));
        }
    }

    /// Appends `bit_count` bits of `bits`, least significant first; this is
    /// the entry point for extra bits and block-header bits.
    pub fn extra_bits(&mut self, bits: u16, bit_count: u8)
        requires
            old(self).wf(),
            bit_count <= 16,
        ensures
            final(self).wf(),
            final(self).stream() == old(self).stream() + lsb_bits(bits, bit_count as nat),
    {
        let mut i: u8 = 0;
        while i < bit_count
            invariant
                i <= bit_count,
                bit_count <= 16,
                self.wf(),
                self.stream() == old(self).stream() + lsb_bits(bits, bit_count as nat).take(
                    i as int,
                ),
            decreases bit_count - i,
        {
            let offset: u16 = i as u16;
            let bit_w: u16 = (bits >> offset) & 1;
            proof {
                assert((bits >> offset) & 1 <= 1) by (bit_vector);
            }
            let bit: u8 = bit_w as u8;
            self.push_bit(bit);
            proof {
                assert(bit == 1 <==> bit_of(bits, offset));
                assert(lsb_bits(bits, bit_count as nat).take(i + 1) =~= lsb_bits(
                    bits,
                    bit_count as nat,
                ).take(i as int).push(bit_of(bits, offset)));
                assert(self.stream() =~= old(self).stream() + lsb_bits(
                    bits,
                    bit_count as nat,
                ).take(i + 1));
            }
            i = i + 1;
        }
        proof {
            assert(lsb_bits(bits, bit_count as nat).take(bit_count as int) =~= lsb_bits(
                bits,
                bit_count as nat,
            ));
        }
    }

    /// Pads any held bits with zeros up to a byte boundary and spills them,
    /// so that the whole stream now sits in `output_vector`.
    pub fn flush(&mut self)
        requires
            old(self).wf(),
        ensures
            final(self).wf(),
            final(self).bit_count == 0,
            final(self).stream() == old(self).stream() + zero_bits(
                ((8 - old(self).bit_count as int) % 8) as nat,
            ),
            final(self).stream() == bytes_bits(final(self).output_vector@),
            8 * final(self).output_vector@.len() == final(self).stream().len(),
    {
        let ghost c0 = self.bit_count;
        if self.bit_count != 0 {
            let k: u8 = 8 - self.bit_count;
            let mut j: u8 = 0;
            while j < k
                invariant
                    j <= k,
                    k == (8 - c0 as int) % 8,
                    0 < c0 < 8,
                    self.wf(),
                    j < k ==> self.bit_count as int == c0 + j,
                    j == k ==> self.bit_count == 0,
                    self.stream() == old(self).stream() + zero_bits(j as nat),
                decreases k - j,
            {
                self.push_bit(0);
                proof {
                    assert(zero_bits(j as nat).push(false) =~= zero_bits((j + 1) as nat));
                    assert(self.stream() =~= old(self).stream() + zero_bits((j + 1) as nat));
                }
                j = j + 1;
            }
        } else {
            proof {
                assert(self.stream() =~= old(self).stream() + zero_bits(0));
            }
        }
        proof {
            assert(self.pending() =~= Seq::<bool>::empty());
            assert(self.stream() =~= bytes_bits(self.output_vector@));
            lemma_bytes_bits_len(self.output_vector@);
        }
    }
}

} // verus!
