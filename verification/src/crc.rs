//! Bit-serial CRC-32. The register is primed by bit-complementing the first
//! four (reflected) input bytes into it; every later byte is long-divided in,
//! bit by bit, by the standard generator polynomial. Finishing feeds four
//! zero bytes through the division and reflects and complements the register,
//! which reproduces the standard reflected CRC-32 (polynomial 0x04C11DB7,
//! input and output reflected, initial value and final XOR all ones).
use crate::bits::byte_bit;
use crate::bits::byte_reversed;
use crate::bits::reverse_byte;
use vstd::prelude::*;

verus! {

/// The CRC-32 generator polynomial, without its implicit leading bit.
pub open spec fn crc_poly() -> u32 {
    0x04C11DB7u32
}

/// One division step: shift a bit into the register; if the bit shifted out
/// was set, subtract (XOR) the generator polynomial.
pub open spec fn crc_step(reg: u32, bit: bool) -> u32 {
    let shifted = (reg << 1u32) | (if bit {
        1u32
    } else {
        0u32
    });
    if reg >= 0x80000000 {
        shifted ^ crc_poly()
    } else {
        shifted
    }
}

/// The register after dividing in the lowest `n` bits of `b`, least
/// significant first.
pub open spec fn crc_byte_partial(reg: u32, b: u8, n: nat) -> u32
    decreases n,
{
    if n == 0 {
        reg
    } else {
        crc_step(crc_byte_partial(reg, b, (n - 1) as nat), byte_bit(b, (n - 1) as u8))
    }
}

/// The register after dividing in one whole byte.
pub open spec fn crc_byte(reg: u32, b: u8) -> u32 {
    crc_byte_partial(reg, b, 8)
}

/// Priming: the byte, reflected and complemented, is shifted into the low
/// end of the register.
pub open spec fn crc_prime(reg: u32, b: u8) -> u32 {
    (reg << 8u32) | (!reverse_byte(b) as u32)
}

/// The register after consuming a byte sequence: the first four bytes prime,
/// the rest divide.
pub open spec fn crc_reg(s: Seq<u8>) -> u32
    decreases s.len(),
{
    if s.len() == 0 {
        0
    } else {
        let prev = crc_reg(s.drop_last());
        if s.len() <= 4 {
            crc_prime(prev, s.last())
        } else {
            crc_byte(prev, s.last())
        }
    }
}

/// The low `n` bits of `x`, reversed into the high-to-low positions
/// `n-1 .. 0` of the result.
pub open spec fn reflect32_partial(x: u32, n: nat) -> u32
    decreases n,
{
    if n == 0 {
        0
    } else {
        (reflect32_partial(x, (n - 1) as nat) << 1u32) | ((x >> ((n - 1) as u32)) & 1)
    }
}

/// `x` with its 32 bits in reverse order.
pub open spec fn reflect32(x: u32) -> u32 {
    reflect32_partial(x, 32)
}

/// The standard CRC-32 of a byte sequence: feed the bytes and four zero
/// bytes through the division, then reflect and complement the register.
pub open spec fn crc32_spec(s: Seq<u8>) -> u32 {
    !reflect32(crc_reg(s + seq![0u8, 0u8, 0u8, 0u8]))
}

/// Bit-serial CRC-32 accumulator.
pub struct Crc32 {
    pub divisor: u32,
    pub non_divisor: u32,
    pub first_count: u8,
    pub bytes: Ghost<Seq<u8>>,
}

impl Crc32 {
    /// The register always equals `crc_reg` of the bytes consumed so far,
    /// and `first_count` counts the priming bytes.
    pub open spec fn wf(self) -> bool {
        &&& self.divisor == crc_poly()
        &&& self.first_count as int == if self.bytes@.len() < 4 {
            self.bytes@.len() as int
        } else {
            4int
        }
        &&& self.non_divisor == crc_reg(self.bytes@)
    }

    pub fn new() -> (r: Self)
        ensures
            r.wf(),
            r.bytes@ == Seq::<u8>::empty(),
    {
        Crc32 {
            divisor: 0b100110000010001110110110111,
            non_divisor: 0,
            first_count: 0,
            bytes: Ghost(Seq::empty()),
        }
    }

    /// Consumes one input byte.
    pub fn push_buf(&mut self, buf: u8)
        requires
            old(self).wf(),
        ensures
            final(self).wf(),
            final(self).bytes@ == old(self).bytes@.push(buf),
    {
        proof {
            assert(old(self).bytes@.push(buf).drop_last() =~= old(self).bytes@);
        }
        self.bytes = Ghost(self.bytes@.push(buf));
        if self.first_count < 4 {
            let rev = byte_reversed(buf);
            self.non_divisor = (self.non_divisor << 8u32) | (!rev as u32);
            self.first_count = self.first_count + 1;
        } else {
            let ghost reg0 = self.non_divisor;
            let mut i: u8 = 0;
            while i < 8
                invariant
                    i <= 8,
                    self.divisor == crc_poly(),
                    self.first_count == old(self).first_count,
                    self.bytes == old(self).bytes@.push(buf),
                    self.non_divisor == crc_byte_partial(reg0, buf, i as nat),
                decreases 8 - i,
            {
                let bit: u8 = (buf >> i) & 1;
                proof {
                    assert((buf >> i) & 1 <= 1) by (bit_vector);
                }
                if self.non_divisor >= 0x80000000 {
                    self.non_divisor = ((self.non_divisor << 1u32) | bit as u32) ^ self.divisor;
                } else {
                    self.non_divisor = (self.non_divisor << 1u32) | bit as u32;
                }
                i = i + 1;
            }
        }
    }

    /// Finishes the division and returns the checksum of everything consumed.
    pub fn get_crc32(&mut self) -> (r: u32)
        requires
            old(self).wf(),
        ensures
            r == crc32_spec(old(self).bytes@),
    {
        self.push_buf(0);
        self.push_buf(0);
        self.push_buf(0);
        self.push_buf(0);
        proof {
            assert(self.bytes@ =~= old(self).bytes@ + seq![0u8, 0u8, 0u8, 0u8]);
        }
        let mut buffer: u32 = 0;
        let mut i: u32 = 0;
        while i < 32
            invariant
                i <= 32,
                buffer == reflect32_partial(self.non_divisor, i as nat),
                self.non_divisor == crc_reg(old(self).bytes@ + seq![0u8, 0u8, 0u8, 0u8]),
            decreases 32 - i,
        {
            buffer = (buffer << 1u32) | ((self.non_divisor >> i) & 1);
            i = i + 1;
        }
        !buffer
    }
}

} // verus!
