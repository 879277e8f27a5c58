//! The sample conversion layer: pure functions and a trait mapping between a
//! signed logical sample and its on-disk byte representation for a given
//! (byte-width, bit-depth) pair.
//!
//! WAVE stores an 8-bit sample as an unsigned byte offset by 128, and a
//! 16/24/32-bit sample as a little-endian signed integer. This layer presents
//! only signed sample types and hides that idiosyncrasy.

use vstd::prelude::*;
use vstd::arithmetic::div_mod::lemma_fundamental_div_mod;
use vstd::arithmetic::div_mod::lemma_mod_multiples_vanish;
use vstd::arithmetic::div_mod::lemma_small_mod;

use crate::Error;

verus! {

/// The bit depths the conversion layer supports.
pub open spec fn supported_bits(bits: u16) -> bool {
    bits == 8 || bits == 16 || bits == 24 || bits == 32
}

/// Bytes occupied on disk by one sample at the given bit depth.
pub open spec fn bytes_per(bits: u16) -> int {
    (bits + 7) / 8
}

/// Whether a signed value is representable at the given bit depth.
pub open spec fn representable(v: int, bits: u16) -> bool {
    if bits == 8 {
        -128 <= v <= 127
    } else if bits == 16 {
        -0x8000 <= v < 0x8000
    } else if bits == 24 {
        -0x800000 <= v < 0x800000
    } else if bits == 32 {
        -0x80000000 <= v < 0x80000000
    } else {
        false
    }
}

/// The signed value an unsigned 8-bit on-disk sample denotes.
pub open spec fn signed_of(u: int) -> int {
    u - 128
}

/// The unsigned 8-bit on-disk form of a signed sample value.
pub open spec fn unsigned_of(s: int) -> int {
    s + 128
}

/// The on-disk bytes of one sample value at a supported bit depth.
///
/// The value is reduced modulo 2^bits first, so the definition also covers a
/// logical value wider than the bit depth: such a value is truncated to its
/// low bits, exactly as the executable encoder truncates.
pub open spec fn encoded_sample(v: int, bits: u16) -> Seq<u8> {
    if bits == 8 {
        seq![(unsigned_of(v) % 256) as u8]
    } else if bits == 16 {
        let u = v % 0x10000;
        seq![(u % 256) as u8, ((u / 256) % 256) as u8]
    } else if bits == 24 {
        let u = v % 0x1000000;
        seq![(u % 256) as u8, ((u / 256) % 256) as u8, ((u / 0x10000) % 256) as u8]
    } else if bits == 32 {
        let u = v % 0x100000000;
        seq![
            (u % 256) as u8,
            ((u / 256) % 256) as u8,
            ((u / 0x10000) % 256) as u8,
            ((u / 0x1000000) % 256) as u8,
        ]
    } else {
        Seq::empty()
    }
}

/// The signed sample value denoted by the on-disk bytes of one sample at a
/// supported bit depth. The sequence must hold exactly `bytes_per(bits)` bytes.
pub open spec fn decoded_sample(s: Seq<u8>, bits: u16) -> int {
    if bits == 8 {
        signed_of(s[0] as int)
    } else if bits == 16 {
        let u = s[0] + 256 * s[1];
        if u < 0x8000 {
            u
        } else {
            u - 0x10000
        }
    } else if bits == 24 {
        let u = s[0] + 256 * s[1] + 0x10000 * s[2];
        if u < 0x800000 {
            u
        } else {
            u - 0x1000000
        }
    } else if bits == 32 {
        let u = s[0] + 256 * s[1] + 0x10000 * s[2] + 0x1000000 * s[3];
        if u < 0x80000000 {
            u
        } else {
            u - 0x100000000
        }
    } else {
        0
    }
}

/// Converts an unsigned integer in the range 0..=255 to a signed one in the
/// range -128..=127, as the 8-bit sample encoding demands.
pub fn signed_from_u8(x: u8) -> (r: i8)
    ensures
        r as int == signed_of(x as int),
{
    (x as i16 - 128) as i8
}

/// Converts a signed integer in the range -128..=127 to an unsigned one in the
/// range 0..=255, as the 8-bit sample encoding demands.
pub fn u8_from_signed(x: i8) -> (r: u8)
    ensures
        r as int == unsigned_of(x as int),
{
    (x as i16 + 128) as u8
}

/// The two 8-bit sign conversions are mutually inverse bijections: converting
/// an unsigned byte to a signed sample and back yields the byte, and
/// converting a signed sample to a byte and back yields the sample.
pub proof fn lemma_sign_conversion_bijective(u: int, s: int)
    requires
        0 <= u <= 255,
        -128 <= s <= 127,
    ensures
        unsigned_of(signed_of(u)) == u,
        signed_of(unsigned_of(s)) == s,
{
}

/// Decoding inverts encoding: every value representable at a supported bit
/// depth comes back unchanged from its on-disk bytes.
pub proof fn lemma_sample_round_trip(v: int, bits: u16)
    requires
        supported_bits(bits),
        representable(v, bits),
    ensures
        decoded_sample(encoded_sample(v, bits), bits) == v,
{
    if bits == 8 {
        lemma_small_mod(unsigned_of(v) as nat, 256);
    } else {
        let m: int = if bits == 16 {
            0x10000
        } else if bits == 24 {
            0x1000000
        } else {
            0x100000000
        };
        lemma_umod_of_representable(v, m);
        let u = v % m;
        lemma_le_digits(u, m);
    }
}

/// The euclidean remainder of a representable value: itself when nonnegative,
/// shifted by the modulus when negative.
proof fn lemma_umod_of_representable(v: int, m: int)
    requires
        0 < m,
        m % 2 == 0,
        -m / 2 <= v < m / 2,
    ensures
        0 <= v < m / 2 ==> v % m == v,
        -m / 2 <= v < 0 ==> v % m == v + m,
{
    if 0 <= v {
        lemma_small_mod(v as nat, m as nat);
    } else {
        lemma_mod_multiples_vanish(1, v, m);
        lemma_small_mod((v + m) as nat, m as nat);
    }
}

/// Recombining the little-endian digits of `u` below `m` yields `u` again.
pub proof fn lemma_le_digits(u: int, m: int)
    requires
        0 <= u < m,
        m == 0x10000 || m == 0x1000000 || m == 0x100000000,
    ensures
        m == 0x10000 ==> u % 256 + 256 * ((u / 256) % 256) == u,
        m == 0x1000000 ==> u % 256 + 256 * ((u / 256) % 256) + 0x10000 * ((u / 0x10000) % 256)
            == u,
        m == 0x100000000 ==> u % 256 + 256 * ((u / 256) % 256) + 0x10000 * ((u / 0x10000) % 256)
            + 0x1000000 * ((u / 0x1000000) % 256) == u,
{
    lemma_fundamental_div_mod(u, 256);
    lemma_fundamental_div_mod(u / 256, 256);
    lemma_fundamental_div_mod(u / 0x10000, 256);
    lemma_fundamental_div_mod(u / 0x1000000, 256);
    lemma_small_mod((u / 0x1000000) as nat, 256);
    assert(u / 256 / 256 == u / 0x10000) by (nonlinear_arith)
        requires
            0 <= u,
    ;
    assert(u / 0x10000 / 256 == u / 0x1000000) by (nonlinear_arith)
        requires
            0 <= u,
    ;
    if m == 0x10000 {
        lemma_small_mod((u / 256) as nat, 256);
    } else if m == 0x1000000 {
        lemma_small_mod((u / 0x10000) as nat, 256);
    }
}

/// Appends the one-byte encoding of the sample at bit depth 8.
fn encode_sample_8(buf: &mut Vec<u8>, v: i32)
    ensures
        final(buf)@ == old(buf)@ + encoded_sample(v as int, 8),
{
    let x: u64 = (v as i64 + 0x80000000) as u64;
    let b: u64 = (x + 128) % 256;
    proof {
        lemma_mod_multiples_vanish(0x800000, v as int + 128, 256);
        assert(x + 128 == 256 * 0x800000 + (v as int + 128));
    }
    buf.push(b as u8);
    proof {
        assert(buf@ =~= old(buf)@ + encoded_sample(v as int, 8));
    }
}

/// Appends the two-byte little-endian encoding of the sample at bit depth 16.
fn encode_sample_16(buf: &mut Vec<u8>, v: i32)
    ensures
        final(buf)@ == old(buf)@ + encoded_sample(v as int, 16),
{
    let x: u64 = (v as i64 + 0x80000000) as u64;
    let u: u64 = x % 0x10000;
    proof {
        lemma_mod_multiples_vanish(0x8000, v as int, 0x10000);
        assert(x as int == 0x10000 * 0x8000 + v as int);
    }
    buf.push((u % 256) as u8);
    buf.push(((u / 256) % 256) as u8);
    proof {
        assert(buf@ =~= old(buf)@ + encoded_sample(v as int, 16));
    }
}

/// Appends the three-byte little-endian encoding of the sample at bit depth 24.
fn encode_sample_24(buf: &mut Vec<u8>, v: i32)
    ensures
        final(buf)@ == old(buf)@ + encoded_sample(v as int, 24),
{
    let x: u64 = (v as i64 + 0x80000000) as u64;
    let u: u64 = x % 0x1000000;
    proof {
        lemma_mod_multiples_vanish(0x80, v as int, 0x1000000);
        assert(x as int == 0x1000000 * 0x80 + v as int);
    }
    buf.push((u % 256) as u8);
    buf.push(((u / 256) % 256) as u8);
    buf.push(((u / 0x10000) % 256) as u8);
    proof {
        assert(buf@ =~= old(buf)@ + encoded_sample(v as int, 24));
    }
}

/// Appends the four-byte little-endian encoding of the sample at bit depth 32.
fn encode_sample_32(buf: &mut Vec<u8>, v: i32)
    ensures
        final(buf)@ == old(buf)@ + encoded_sample(v as int, 32),
{
    let u: u64 = if v >= 0 {
        v as u64
    } else {
        (v as i64 + 0x100000000) as u64
    };
    proof {
        lemma_umod_of_representable(v as int, 0x100000000);
    }
    buf.push((u % 256) as u8);
    buf.push(((u / 256) % 256) as u8);
    buf.push(((u / 0x10000) % 256) as u8);
    buf.push(((u / 0x1000000) % 256) as u8);
    proof {
        assert(buf@ =~= old(buf)@ + encoded_sample(v as int, 32));
    }
}

/// A cursor over in-memory WAVE data bytes, consumed monotonically.
pub struct ByteCursor {
    /// The underlying bytes.
    pub data: Vec<u8>,
    /// The current read position.
    pub pos: usize,
}

/// A type that can be used to represent audio samples.
pub trait Sample: Sized {
    /// The logical signed value of the sample.
    spec fn sval(self) -> int;

    /// The (byte-width, bit-depth) pairs this logical width decodes without
    /// loss; a stored depth outside this set is refused rather than truncated.
    spec fn read_supported(bytes: u16, bits: u16) -> bool;

    /// Writes the audio sample to the WAVE data chunk.
    ///
    /// At a supported bit depth the sample's encoding is appended to the
    /// sink; at any other depth the sink is untouched and the write fails.
    fn write(self, buf: &mut Vec<u8>, bits: u16) -> (r: Result<(), Error>)
        ensures
            supported_bits(bits) ==> r is Ok && final(buf)@ == old(buf)@ + encoded_sample(
                self.sval(),
                bits,
            ),
            !supported_bits(bits) ==> r == Err::<(), Error>(Error::Unsupported) && final(buf)@
                == old(buf)@,
    ;

    /// Reads one audio sample from the WAVE data chunk.
    ///
    /// At a supported (byte-width, bit-depth) pair with enough bytes left,
    /// the cursor advances by one sample and the decoded value is returned;
    /// an unsupported pair fails without consuming input, and a short source
    /// fails as an IO error.
    fn read(cur: &mut ByteCursor, bytes: u16, bits: u16) -> (r: Result<Self, Error>)
        requires
            old(cur).pos <= old(cur).data@.len(),
        ensures
            final(cur).data@ == old(cur).data@,
            final(cur).pos <= final(cur).data@.len(),
            Self::read_supported(bytes, bits) && old(cur).pos + bytes <= old(cur).data@.len()
                ==> r is Ok && r->Ok_0.sval() == decoded_sample(
                old(cur).data@.subrange(old(cur).pos as int, old(cur).pos + bytes),
                bits,
            ) && final(cur).pos == old(cur).pos + bytes,
            Self::read_supported(bytes, bits) && old(cur).pos + bytes > old(cur).data@.len()
                ==> r == Err::<Self, Error>(Error::IoError) && final(cur).pos == old(cur).pos,
            !Self::read_supported(bytes, bits) ==> r == Err::<Self, Error>(Error::TooWide)
                && final(cur).pos == old(cur).pos,
    ;
}

impl Sample for i8 {
    open spec fn sval(self) -> int {
        self as int
    }

    open spec fn read_supported(bytes: u16, bits: u16) -> bool {
        bytes == 1 && bits == 8
    }

    fn write(self, buf: &mut Vec<u8>, bits: u16) -> (r: Result<(), Error>) {
        match bits {
            8 => {
                encode_sample_8(buf, self as i32);
                Ok(())
            },
            16 => {
                encode_sample_16(buf, self as i32);
                Ok(())
            },
            24 => {
                encode_sample_24(buf, self as i32);
                Ok(())
            },
            32 => {
                encode_sample_32(buf, self as i32);
                Ok(())
            },
            _ => Err(Error::Unsupported),
        }
    }

    fn read(cur: &mut ByteCursor, bytes: u16, bits: u16) -> (r: Result<Self, Error>) {
        if bytes == 1 && bits == 8 {
            if cur.data.len() - cur.pos >= 1 {
                let b = cur.data[cur.pos];
                cur.pos = cur.pos + 1;
                Ok(signed_from_u8(b))
            } else {
                Err(Error::IoError)
            }
        } else {
            Err(Error::TooWide)
        }
    }
}

impl Sample for i16 {
    open spec fn sval(self) -> int {
        self as int
    }

    open spec fn read_supported(bytes: u16, bits: u16) -> bool {
        (bytes == 1 && bits == 8) || (bytes == 2 && bits == 16)
    }

    fn write(self, buf: &mut Vec<u8>, bits: u16) -> (r: Result<(), Error>) {
        match bits {
            8 => {
                encode_sample_8(buf, self as i32);
                Ok(())
            },
            16 => {
                encode_sample_16(buf, self as i32);
                Ok(())
            },
            24 => {
                encode_sample_24(buf, self as i32);
                Ok(())
            },
            32 => {
                encode_sample_32(buf, self as i32);
                Ok(())
            },
            _ => Err(Error::Unsupported),
        }
    }

    fn read(cur: &mut ByteCursor, bytes: u16, bits: u16) -> (r: Result<Self, Error>) {
        if bytes == 1 && bits == 8 {
            if cur.data.len() - cur.pos >= 1 {
                let b = cur.data[cur.pos];
                cur.pos = cur.pos + 1;
                Ok(signed_from_u8(b) as i16)
            } else {
                Err(Error::IoError)
            }
        } else if bytes == 2 && bits == 16 {
            if cur.data.len() - cur.pos >= 2 {
                let b0 = cur.data[cur.pos];
                let b1 = cur.data[cur.pos + 1];
                cur.pos = cur.pos + 2;
                let u: u32 = b0 as u32 + 256 * (b1 as u32);
                let v: i32 = if u < 0x8000 {
                    u as i32
                } else {
                    u as i32 - 0x10000
                };
                Ok(v as i16)
            } else {
                Err(Error::IoError)
            }
        } else {
            Err(Error::TooWide)
        }
    }
}

impl Sample for i32 {
    open spec fn sval(self) -> int {
        self as int
    }

    open spec fn read_supported(bytes: u16, bits: u16) -> bool {
        (bytes == 1 && bits == 8) || (bytes == 2 && bits == 16) || (bytes == 3 && bits == 24) || (
        bytes == 4 && bits == 32)
    }

    fn write(self, buf: &mut Vec<u8>, bits: u16) -> (r: Result<(), Error>) {
        match bits {
            8 => {
                encode_sample_8(buf, self);
                Ok(())
            },
            16 => {
                encode_sample_16(buf, self);
                Ok(())
            },
            24 => {
                encode_sample_24(buf, self);
                Ok(())
            },
            32 => {
                encode_sample_32(buf, self);
                Ok(())
            },
            _ => Err(Error::Unsupported),
        }
    }

    fn read(cur: &mut ByteCursor, bytes: u16, bits: u16) -> (r: Result<Self, Error>) {
        if bytes == 1 && bits == 8 {
            if cur.data.len() - cur.pos >= 1 {
                let b = cur.data[cur.pos];
                cur.pos = cur.pos + 1;
                Ok(signed_from_u8(b) as i32)
            } else {
                Err(Error::IoError)
            }
        } else if bytes == 2 && bits == 16 {
            if cur.data.len() - cur.pos >= 2 {
                let b0 = cur.data[cur.pos];
                let b1 = cur.data[cur.pos + 1];
                cur.pos = cur.pos + 2;
                let u: u32 = b0 as u32 + 256 * (b1 as u32);
                if u < 0x8000 {
                    Ok(u as i32)
                } else {
                    Ok(u as i32 - 0x10000)
                }
            } else {
                Err(Error::IoError)
            }
        } else if bytes == 3 && bits == 24 {
            if cur.data.len() - cur.pos >= 3 {
                let b0 = cur.data[cur.pos];
                let b1 = cur.data[cur.pos + 1];
                let b2 = cur.data[cur.pos + 2];
                cur.pos = cur.pos + 3;
                let u: u32 = b0 as u32 + 256 * (b1 as u32) + 0x10000 * (b2 as u32);
                if u < 0x800000 {
                    Ok(u as i32)
                } else {
                    Ok(u as i32 - 0x1000000)
                }
            } else {
                Err(Error::IoError)
            }
        } else if bytes == 4 && bits == 32 {
            if cur.data.len() - cur.pos >= 4 {
                let b0 = cur.data[cur.pos];
                let b1 = cur.data[cur.pos + 1];
                let b2 = cur.data[cur.pos + 2];
                let b3 = cur.data[cur.pos + 3];
                cur.pos = cur.pos + 4;
                let u: u64 = b0 as u64 + 256 * (b1 as u64) + 0x10000 * (b2 as u64) + 0x1000000 * (
                b3 as u64);
                if u < 0x80000000 {
                    Ok(u as i32)
                } else {
                    Ok((u as i64 - 0x100000000) as i32)
                }
            } else {
                Err(Error::IoError)
            }
        } else {
            Err(Error::TooWide)
        }
    }
}

} // verus!
