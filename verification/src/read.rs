//! The container reader: parses the RIFF header and the `fmt `/`data`
//! sub-chunks, exposes the decoded format specification, and streams typed
//! samples out of the `data` chunk through the sample conversion layer.

use vstd::prelude::*;

use crate::Error;
use crate::WavSpec;
use crate::sample::ByteCursor;
use crate::sample::Sample;
use crate::sample::bytes_per;
use crate::sample::decoded_sample;

verus! {

/// The little-endian value of two bytes.
pub open spec fn u16_le(b0: u8, b1: u8) -> int {
    b0 + 0x100 * b1
}

/// The little-endian value of four bytes.
pub open spec fn u32_le(b0: u8, b1: u8, b2: u8, b3: u8) -> int {
    b0 + 0x100 * b1 + 0x10000 * b2 + 0x1000000 * b3
}

/// The pad byte after a chunk body: one byte when the declared size is odd.
pub open spec fn chunk_pad(size: int) -> int {
    if size % 2 == 1 {
        1
    } else {
        0
    }
}

/// Whether the twelve-byte RIFF/WAVE header stands at the front of the bytes.
pub open spec fn riff_wave_header(d: Seq<u8>) -> bool {
    &&& d[0] == 0x52 && d[1] == 0x49 && d[2] == 0x46 && d[3] == 0x46  // "RIFF"
    &&& d[8] == 0x57 && d[9] == 0x41 && d[10] == 0x56 && d[11] == 0x45  // "WAVE"
}

/// Whether the chunk id at `pos` is `data`.
pub open spec fn data_id_at(d: Seq<u8>, pos: int) -> bool {
    d[pos] == 0x64 && d[pos + 1] == 0x61 && d[pos + 2] == 0x74 && d[pos + 3] == 0x61
}

/// Whether the chunk id at `pos` is `fmt `.
pub open spec fn fmt_id_at(d: Seq<u8>, pos: int) -> bool {
    d[pos] == 0x66 && d[pos + 1] == 0x6d && d[pos + 2] == 0x74 && d[pos + 3] == 0x20
}

/// The format specification spelled out by a `fmt ` chunk whose header
/// stands at `pos`.
pub open spec fn fmt_spec_at(d: Seq<u8>, pos: int) -> WavSpec {
    WavSpec {
        channels: u16_le(d[pos + 10], d[pos + 11]) as u16,
        sample_rate: u32_le(d[pos + 12], d[pos + 13], d[pos + 14], d[pos + 15]) as u32,
        bits_per_sample: u16_le(d[pos + 22], d[pos + 23]) as u16,
    }
}

/// Scans the chunk sequence from `pos`, skipping unknown chunks, parsing the
/// `fmt ` chunk, and stopping at the `data` chunk header.
///
/// Yields the format specification, the offset of the first sample byte and
/// the declared `data` size; or nothing where the container is ill-formed: a
/// chunk body that overruns the bytes, a `fmt ` chunk that is too short, not
/// PCM or without channels, a `data` chunk before any `fmt ` chunk, or bytes
/// that end before any `data` chunk.
pub open spec fn scan_chunks(d: Seq<u8>, pos: int, fmt: Option<WavSpec>) -> Option<
    (WavSpec, int, int),
>
    decreases d.len() - pos,
{
    if pos + 8 > d.len() {
        None
    } else {
        let size = u32_le(d[pos + 4], d[pos + 5], d[pos + 6], d[pos + 7]);
        if data_id_at(d, pos) {
            match fmt {
                Some(s) => Some((s, pos + 8, size)),
                None => None,
            }
        } else if fmt_id_at(d, pos) {
            if size < 16 || pos + 8 + size + chunk_pad(size) > d.len() {
                None
            } else if u16_le(d[pos + 8], d[pos + 9]) != 1 {
                None
            } else if u16_le(d[pos + 10], d[pos + 11]) == 0 {
                None
            } else {
                scan_chunks(d, pos + 8 + size + chunk_pad(size), Some(fmt_spec_at(d, pos)))
            }
        } else {
            if pos + 8 + size + chunk_pad(size) > d.len() {
                None
            } else {
                scan_chunks(d, pos + 8 + size + chunk_pad(size), fmt)
            }
        }
    }
}

/// Parses a whole container front: the RIFF/WAVE header, then the chunks up
/// to and including the `data` chunk header.
pub open spec fn parse_wav(d: Seq<u8>) -> Option<(WavSpec, int, int)> {
    if d.len() < 12 {
        None
    } else if !riff_wave_header(d) {
        None
    } else {
        scan_chunks(d, 12, None::<WavSpec>)
    }
}

/// The samples decoded from `n` consecutive sample slots starting at `pos`.
pub open spec fn decoded_seq(d: Seq<u8>, pos: int, n: nat, bits: u16) -> Seq<int>
    decreases n,
{
    if n == 0 {
        Seq::empty()
    } else {
        seq![decoded_sample(d.subrange(pos, pos + bytes_per(bits)), bits)] + decoded_seq(
            d,
            pos + bytes_per(bits),
            (n - 1) as nat,
            bits,
        )
    }
}

/// Reading one more sample slot appends its decoded value.
pub proof fn lemma_decoded_seq_snoc(d: Seq<u8>, pos: int, n: nat, bits: u16)
    ensures
        decoded_seq(d, pos, (n + 1) as nat, bits) == decoded_seq(d, pos, n, bits).push(
            decoded_sample(
                d.subrange(pos + n * bytes_per(bits), pos + (n + 1) * bytes_per(bits)),
                bits,
            ),
        ),
    decreases n,
{
    reveal_with_fuel(decoded_seq, 3);
    let bps = bytes_per(bits);
    if n == 0 {
        assert(n * bps == 0 && (n + 1) * bps == bps) by (nonlinear_arith)
            requires
                n == 0,
        ;
        assert(decoded_seq(d, pos, 1, bits) =~= decoded_seq(d, pos, 0, bits).push(
            decoded_sample(d.subrange(pos, pos + bps), bits),
        ));
    } else {
        lemma_decoded_seq_snoc(d, pos + bps, (n - 1) as nat, bits);
        assert((pos + bps) + (n - 1) * bps == pos + n * bps) by (nonlinear_arith);
        assert((pos + bps) + ((n - 1) + 1) * bps == pos + (n + 1) * bps) by (nonlinear_arith);
        assert(decoded_seq(d, pos, (n + 1) as nat, bits) =~= decoded_seq(d, pos, n, bits).push(
            decoded_sample(d.subrange(pos + n * bps, pos + (n + 1) * bps), bits),
        ));
    }
}

/// Reads a little-endian u16 out of the bytes.
fn read_u16_le(d: &Vec<u8>, pos: usize) -> (r: u16)
    requires
        pos + 2 <= d@.len(),
    ensures
        r as int == u16_le(d@[pos as int], d@[pos as int + 1]),
{
    let _n: usize = d.len();
    d[pos] as u16 + 0x100 * (d[pos + 1] as u16)
}

/// Reads a little-endian u32 out of the bytes.
fn read_u32_le(d: &Vec<u8>, pos: usize) -> (r: u32)
    requires
        pos + 4 <= d@.len(),
    ensures
        r as int == u32_le(
            d@[pos as int],
            d@[pos as int + 1],
            d@[pos as int + 2],
            d@[pos as int + 3],
        ),
{
    let _n: usize = d.len();
    d[pos] as u32 + 0x100 * (d[pos + 1] as u32) + 0x10000 * (d[pos + 2] as u32) + 0x1000000 * (d[pos
        + 3] as u32)
}

/// A reader that parses a WAV container out of in-memory bytes and streams
/// its samples.
pub struct WavReader {
    cursor: ByteCursor,
    format: WavSpec,
    data_len: u32,
    remaining: u32,
}

impl WavReader {
    /// The full underlying byte source.
    pub closed spec fn src(self) -> Seq<u8> {
        self.cursor.data@
    }

    /// The parsed format specification.
    pub closed spec fn format_spec(self) -> WavSpec {
        self.format
    }

    /// The current read position in the byte source.
    pub closed spec fn position(self) -> int {
        self.cursor.pos as int
    }

    /// The declared byte length of the `data` chunk.
    pub closed spec fn data_size(self) -> int {
        self.data_len as int
    }

    /// The declared `data` bytes not yet consumed.
    pub closed spec fn bytes_left(self) -> int {
        self.remaining as int
    }

    /// The reader's internal consistency: the cursor sits inside its bytes.
    pub closed spec fn wf(self) -> bool {
        self.cursor.pos <= self.cursor.data@.len()
    }

    /// Opens a WAV container held in memory: validates the RIFF/WAVE header,
    /// scans the chunks for `fmt ` and `data`, and leaves the cursor at the
    /// first sample byte.
    ///
    /// Succeeds exactly on the byte sources the container grammar accepts. A
    /// source shorter than the twelve-byte RIFF header fails as an IO error;
    /// every other rejection is a format error.
    pub fn new(data: Vec<u8>) -> (r: Result<WavReader, Error>)
        ensures
            r is Ok <==> parse_wav(data@) is Some,
            r is Ok ==> {
                let rd = r->Ok_0;
                &&& rd.wf()
                &&& rd.src() == data@
                &&& parse_wav(data@) == Some((rd.format_spec(), rd.position(), rd.data_size()))
                &&& rd.bytes_left() == rd.data_size()
            },
            r is Err && data@.len() < 12 ==> r == Err::<WavReader, Error>(Error::IoError),
            r is Err && data@.len() >= 12 ==> r->Err_0 is FormatError,
    {
        if data.len() < 12 {
            return Err(Error::IoError);
        }
        if !(data[0] == 0x52 && data[1] == 0x49 && data[2] == 0x46 && data[3] == 0x46) {
            return Err(Error::FormatError("no RIFF tag found"));
        }
        if !(data[8] == 0x57 && data[9] == 0x41 && data[10] == 0x56 && data[11] == 0x45) {
            return Err(Error::FormatError("no WAVE tag found"));
        }
        let mut pos: usize = 12;
        let mut fmt_found = false;
        let mut fmt = WavSpec { channels: 0, sample_rate: 0, bits_per_sample: 0 };
        loop
            invariant
                12 <= pos <= data@.len(),
                data@.len() >= 12,
                riff_wave_header(data@),
                scan_chunks(data@, 12, None::<WavSpec>) == scan_chunks(
                    data@,
                    pos as int,
                    if fmt_found {
                        Some(fmt)
                    } else {
                        None
                    },
                ),
            decreases data@.len() - pos,
        {
            if data.len() - pos < 8 {
                return Err(Error::FormatError("no data chunk found"));
            }
            let size = read_u32_le(&data, pos + 4);
            let id0 = data[pos];
            let id1 = data[pos + 1];
            let id2 = data[pos + 2];
            let id3 = data[pos + 3];
            if id0 == 0x64 && id1 == 0x61 && id2 == 0x74 && id3 == 0x61 {
                if !fmt_found {
                    return Err(Error::FormatError("no fmt chunk found before the data chunk"));
                }
                return Ok(
                    WavReader {
                        cursor: ByteCursor { data, pos: pos + 8 },
                        format: fmt,
                        data_len: size,
                        remaining: size,
                    },
                );
            } else {
                let pad: u32 = size % 2;
                let avail: usize = data.len() - (pos + 8);
                if id0 == 0x66 && id1 == 0x6d && id2 == 0x74 && id3 == 0x20 {
                    if size < 16 {
                        return Err(Error::FormatError("fmt chunk is too short"));
                    }
                    if size as u64 + pad as u64 > avail as u64 {
                        return Err(Error::FormatError("chunk body runs past the end"));
                    }
                    let tag = read_u16_le(&data, pos + 8);
                    if tag != 1 {
                        return Err(Error::FormatError("the wave format is not PCM"));
                    }
                    let channels = read_u16_le(&data, pos + 10);
                    if channels == 0 {
                        return Err(Error::FormatError("the channel count is zero"));
                    }
                    let sample_rate = read_u32_le(&data, pos + 12);
                    let bits_per_sample = read_u16_le(&data, pos + 22);
                    fmt = WavSpec { channels, sample_rate, bits_per_sample };
                    fmt_found = true;
                    pos = pos + 8 + size as usize + pad as usize;
                } else {
                    if size as u64 + pad as u64 > avail as u64 {
                        return Err(Error::FormatError("chunk body runs past the end"));
                    }
                    pos = pos + 8 + size as usize + pad as usize;
                }
            }
        }
    }

    /// The format specification of the opened container.
    pub fn spec(&self) -> (r: &WavSpec)
        ensures
            *r == self.format_spec(),
    {
        &self.format
    }

    /// Pulls one sample at the requested logical width.
    ///
    /// Yields nothing once fewer declared `data` bytes are left than one
    /// sample occupies: the sequence is finite, bounded by the declared size.
    /// A zero bit depth is unsupported; a stored depth the logical width
    /// cannot hold losslessly is refused as too wide; a source that ends
    /// before the declared bytes fails as an IO error. Only a successful
    /// pull consumes input.
    pub fn read_sample<S: Sample>(&mut self) -> (r: Option<Result<S, Error>>)
        requires
            old(self).wf(),
        ensures
            final(self).wf(),
            final(self).src() == old(self).src(),
            final(self).format_spec() == old(self).format_spec(),
            final(self).data_size() == old(self).data_size(),
            ({
                let bits = old(self).format_spec().bits_per_sample;
                let bps = bytes_per(bits);
                let pos = old(self).position();
                let unchanged = final(self).position() == old(self).position()
                    && final(self).bytes_left() == old(self).bytes_left();
                if bps == 0 {
                    r == Some(Err::<S, Error>(Error::Unsupported)) && unchanged
                } else if old(self).bytes_left() < bps {
                    r is None && unchanged
                } else if !S::read_supported(bps as u16, bits) {
                    r == Some(Err::<S, Error>(Error::TooWide)) && unchanged
                } else if pos + bps <= old(self).src().len() {
                    &&& r is Some && r->Some_0 is Ok
                    &&& r->Some_0->Ok_0.sval() == decoded_sample(
                        old(self).src().subrange(pos, pos + bps),
                        bits,
                    )
                    &&& final(self).position() == pos + bps
                    &&& final(self).bytes_left() == old(self).bytes_left() - bps
                } else {
                    r == Some(Err::<S, Error>(Error::IoError)) && unchanged
                }
            }),
    {
        let bits = self.format.bits_per_sample;
        let bps: u16 = ((bits as u32 + 7) / 8) as u16;
        if bps == 0 {
            return Some(Err(Error::Unsupported));
        }
        if self.remaining < bps as u32 {
            return None;
        }
        let r = S::read(&mut self.cursor, bps, bits);
        match r {
            Ok(s) => {
                self.remaining = self.remaining - bps as u32;
                Some(Ok(s))
            },
            Err(e) => Some(Err(e)),
        }
    }

    /// Pulls all samples left in the `data` chunk at the requested logical
    /// width, in order.
    ///
    /// The sequence is bounded by the declared size: it holds one sample per
    /// full `bytes_per` slot among the declared bytes still unread. The pull
    /// stops at the first failure: a zero bit depth is unsupported, a stored
    /// depth the logical width cannot hold losslessly is too wide, and a
    /// source that ends before the declared bytes is an IO error.
    pub fn samples<S: Sample>(&mut self) -> (r: Result<Vec<S>, Error>)
        requires
            old(self).wf(),
        ensures
            final(self).wf(),
            final(self).src() == old(self).src(),
            final(self).format_spec() == old(self).format_spec(),
            final(self).data_size() == old(self).data_size(),
            ({
                let bits = old(self).format_spec().bits_per_sample;
                let bps = bytes_per(bits);
                let pos = old(self).position();
                let n = if bps == 0 {
                    0int
                } else {
                    old(self).bytes_left() / bps
                };
                if bps == 0 {
                    r == Err::<Vec<S>, Error>(Error::Unsupported)
                } else if !S::read_supported(bps as u16, bits) && old(self).bytes_left() >= bps {
                    r == Err::<Vec<S>, Error>(Error::TooWide)
                } else if pos + n * bps <= old(self).src().len() {
                    &&& r is Ok
                    &&& r->Ok_0@.map_values(|s: S| s.sval()) == decoded_seq(
                        old(self).src(),
                        pos,
                        n as nat,
                        bits,
                    )
                    &&& final(self).position() == pos + n * bps
                    &&& final(self).bytes_left() == old(self).bytes_left() - n * bps
                } else {
                    r == Err::<Vec<S>, Error>(Error::IoError)
                }
            }),
    {
        let ghost src = old(self).src();
        let ghost bits = old(self).format_spec().bits_per_sample;
        let ghost bps = bytes_per(bits);
        let ghost pos0 = old(self).position();
        let ghost bl0 = old(self).bytes_left();
        let mut out: Vec<S> = Vec::new();
        proof {
            assert(out@.len() * bps == 0) by (nonlinear_arith)
                requires
                    out@.len() == 0,
            ;
            assert(out@.map_values(|s: S| s.sval()) =~= decoded_seq(src, pos0, 0, bits));
        }
        loop
            invariant
                self.wf(),
                self.src() == src,
                self.format_spec() == old(self).format_spec(),
                self.data_size() == old(self).data_size(),
                src == old(self).src(),
                bits == old(self).format_spec().bits_per_sample,
                bps == bytes_per(bits),
                pos0 == old(self).position(),
                bl0 == old(self).bytes_left(),
                self.position() == pos0 + out@.len() * bps,
                self.bytes_left() == bl0 - out@.len() * bps,
                out@.len() * bps <= bl0,
                out@.len() > 0 ==> bps > 0 && S::read_supported(bps as u16, bits),
                out@.map_values(|s: S| s.sval()) == decoded_seq(src, pos0, out@.len(), bits),
            decreases self.bytes_left(),
        {
            let ghost k = out@.len() as int;
            match self.read_sample::<S>() {
                None => {
                    // fewer declared bytes are left than one sample occupies
                    proof {
                        assert(bps > 0);
                        if k == 0 {
                            assert(k * bps == 0) by (nonlinear_arith)
                                requires
                                    k == 0,
                            ;
                        }
                        assert(bl0 / bps == k) by (nonlinear_arith)
                            requires
                                bps > 0,
                                k >= 0,
                                k * bps <= bl0,
                                bl0 - k * bps < bps,
                        ;
                    }
                    return Ok(out);
                },
                Some(Ok(s)) => {
                    proof {
                        assert(bps > 0);
                        lemma_decoded_seq_snoc(src, pos0, k as nat, bits);
                        assert((k + 1) * bps == k * bps + bps) by (nonlinear_arith);
                        assert(out@.push(s).map_values(|x: S| x.sval()) =~= out@.map_values(
                            |x: S| x.sval(),
                        ).push(s.sval()));
                    }
                    out.push(s);
                },
                Some(Err(e)) => {
                    proof {
                        if e == Error::TooWide {
                            assert(k == 0);
                            assert(k * bps == 0) by (nonlinear_arith)
                                requires
                                    k == 0,
                            ;
                        }
                        if e == Error::IoError {
                            assert(pos0 + (bl0 / bps) * bps >= pos0 + k * bps + bps)
                                by (nonlinear_arith)
                                requires
                                    bps > 0,
                                    k >= 0,
                                    bl0 - k * bps >= bps,
                            ;
                        }
                    }
                    return Err(e);
                },
            }
        }
    }
}

} // verus!
