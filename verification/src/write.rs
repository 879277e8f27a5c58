//! The container writer: emits a provisional RIFF header, streams encoded
//! samples through the sample conversion layer, tracks the bytes written,
//! and on an explicit finalize step patches the two length fields that could
//! not be known in advance.

use vstd::prelude::*;

use crate::Error;
use crate::WavSpec;
use crate::sample::Sample;
use crate::sample::bytes_per;
use crate::sample::encoded_sample;
use crate::sample::supported_bits;

verus! {

/// The two little-endian bytes of a value below 2^16.
pub open spec fn le2(u: int) -> Seq<u8> {
    seq![(u % 256) as u8, ((u / 256) % 256) as u8]
}

/// The four little-endian bytes of a value below 2^32.
pub open spec fn le4(u: int) -> Seq<u8> {
    seq![
        (u % 256) as u8,
        ((u / 256) % 256) as u8,
        ((u / 0x10000) % 256) as u8,
        ((u / 0x1000000) % 256) as u8,
    ]
}

/// A format specification the writer can emit: at least one channel, and the
/// derived block-align and byte-rate header fields fit their two and four
/// byte slots.
pub open spec fn valid_write_spec(s: WavSpec) -> bool {
    &&& s.channels >= 1
    &&& s.channels * bytes_per(s.bits_per_sample) <= 0xFFFF
    &&& s.sample_rate * s.channels * bytes_per(s.bits_per_sample) <= 0xFFFFFFFF
}

/// The 44-byte container front: the RIFF header, the full `fmt ` chunk and
/// the `data` chunk header, with the given RIFF and `data` size fields.
pub open spec fn header_bytes(s: WavSpec, riff_size: int, data_size: int) -> Seq<u8> {
    seq![0x52u8, 0x49u8, 0x46u8, 0x46u8] + le4(riff_size) + seq![0x57u8, 0x41u8, 0x56u8, 0x45u8]
        + seq![0x66u8, 0x6du8, 0x74u8, 0x20u8] + le4(16) + le2(1) + le2(s.channels as int) + le4(
        s.sample_rate as int,
    ) + le4(s.sample_rate * s.channels * bytes_per(s.bits_per_sample)) + le2(
        s.channels * bytes_per(s.bits_per_sample),
    ) + le2(s.bits_per_sample as int) + seq![0x64u8, 0x61u8, 0x74u8, 0x61u8] + le4(data_size)
}

/// The interleaved sample bytes of a sample sequence, in order.
pub open spec fn encoded_seq(ss: Seq<int>, bits: u16) -> Seq<u8>
    decreases ss.len(),
{
    if ss.len() == 0 {
        Seq::empty()
    } else {
        encoded_seq(ss.drop_last(), bits) + encoded_sample(ss.last(), bits)
    }
}

/// The bytes of a whole finalized container holding the given samples: the
/// header with both size fields patched, the sample bytes, and a single pad
/// byte exactly when the data byte count is odd. The pad byte is not counted
/// in the `data` size field.
pub open spec fn wav_file_bytes(s: WavSpec, ss: Seq<int>) -> Seq<u8> {
    let payload = encoded_seq(ss, s.bits_per_sample);
    let d = payload.len() as int;
    header_bytes(s, 36 + d, d) + payload + if d % 2 == 1 {
        seq![0u8]
    } else {
        Seq::<u8>::empty()
    }
}

/// Writing one more sample appends its encoding.
pub proof fn lemma_encoded_seq_snoc(ss: Seq<int>, v: int, bits: u16)
    ensures
        encoded_seq(ss.push(v), bits) == encoded_seq(ss, bits) + encoded_sample(v, bits),
{
    assert(ss.push(v).drop_last() =~= ss);
    assert(ss.push(v).last() == v);
}

/// At a supported bit depth every sample occupies `bytes_per` bytes.
pub proof fn lemma_encoded_seq_len(ss: Seq<int>, bits: u16)
    requires
        supported_bits(bits),
    ensures
        encoded_seq(ss, bits).len() == ss.len() * bytes_per(bits),
    decreases ss.len(),
{
    let bps = bytes_per(bits);
    if ss.len() == 0 {
        assert(ss.len() * bps == 0) by (nonlinear_arith)
            requires
                ss.len() == 0,
        ;
    } else {
        lemma_encoded_seq_len(ss.drop_last(), bits);
        assert((ss.len() - 1) * bps + bps == ss.len() * bps) by (nonlinear_arith);
    }
}

/// Appends the two little-endian bytes of the value.
fn push_le2(buf: &mut Vec<u8>, u: u16)
    ensures
        final(buf)@ == old(buf)@ + le2(u as int),
{
    buf.push((u % 256) as u8);
    buf.push(((u / 256) % 256) as u8);
    proof {
        assert(buf@ =~= old(buf)@ + le2(u as int));
    }
}

/// Appends the four little-endian bytes of the value.
fn push_le4(buf: &mut Vec<u8>, u: u32)
    ensures
        final(buf)@ == old(buf)@ + le4(u as int),
{
    buf.push((u % 256) as u8);
    buf.push(((u / 256) % 256) as u8);
    buf.push(((u / 0x10000) % 256) as u8);
    buf.push(((u / 0x1000000) % 256) as u8);
    proof {
        assert(buf@ =~= old(buf)@ + le4(u as int));
    }
}

/// Overwrites four bytes in place with the little-endian bytes of the value,
/// leaving every other byte untouched.
fn set_le4(buf: &mut Vec<u8>, pos: usize, u: u32)
    requires
        pos + 4 <= old(buf)@.len(),
    ensures
        final(buf)@.len() == old(buf)@.len(),
        final(buf)@.subrange(pos as int, pos as int + 4) == le4(u as int),
        forall|i: int|
            0 <= i < old(buf)@.len() && !(pos as int <= i < pos as int + 4) ==> final(buf)@[i]
                == old(buf)@[i],
{
    let _n: usize = buf.len();
    buf.set(pos, (u % 256) as u8);
    buf.set(pos + 1, ((u / 256) % 256) as u8);
    buf.set(pos + 2, ((u / 0x10000) % 256) as u8);
    buf.set(pos + 3, ((u / 0x1000000) % 256) as u8);
    proof {
        assert(buf@.subrange(pos as int, pos as int + 4) =~= le4(u as int));
    }
}

/// A writer that emits a WAV container into an in-memory byte sink.
///
/// The sink holds a provisional header whose two size fields are zero until
/// `finalize` patches them: a writer dropped without finalizing leaves an
/// invalid container behind, by design.
pub struct WavWriter {
    buf: Vec<u8>,
    format: WavSpec,
    data_bytes: u32,
    samples_written: u32,
    finalized: bool,
    written: Ghost<Seq<int>>,
}

impl WavWriter {
    /// The bytes emitted so far.
    pub closed spec fn sink(self) -> Seq<u8> {
        self.buf@
    }

    /// The format specification the writer was created with.
    pub closed spec fn format_spec(self) -> WavSpec {
        self.format
    }

    /// The logical values of the samples written so far, in order.
    pub closed spec fn spec_samples(self) -> Seq<int> {
        self.written@
    }

    /// How many sample bytes have been written to the `data` chunk.
    pub closed spec fn data_bytes_written(self) -> int {
        self.data_bytes as int
    }

    /// How many samples have been written.
    pub closed spec fn samples_count(self) -> int {
        self.samples_written as int
    }

    /// Whether the one-time finalize step has already succeeded.
    pub closed spec fn is_finalized(self) -> bool {
        self.finalized
    }

    /// The writer's internal consistency: the counters track the sample
    /// bytes, and the sink holds the header followed by exactly the written
    /// samples' encodings, patched once finalized.
    pub closed spec fn wf(self) -> bool {
        &&& valid_write_spec(self.format)
        &&& self.written@.len() == self.samples_written as int
        &&& self.data_bytes as int == encoded_seq(self.written@, self.format.bits_per_sample).len()
        &&& self.data_bytes as int <= 0xFFFFFFC3
        &&& (self.samples_written == 0 || self.samples_written as int <= self.data_bytes as int)
        &&& !self.finalized ==> self.buf@ == header_bytes(self.format, 0, 0) + encoded_seq(
            self.written@,
            self.format.bits_per_sample,
        )
        &&& self.finalized ==> self.buf@ == wav_file_bytes(self.format, self.written@)
    }

    /// Creates a writer for the given format and emits the provisional
    /// header: the full `fmt ` chunk, and zero placeholders for the RIFF and
    /// `data` size fields, which stay unknown until the stream is closed.
    pub fn new(format: WavSpec) -> (r: WavWriter)
        requires
            valid_write_spec(format),
        ensures
            r.wf(),
            !r.is_finalized(),
            r.format_spec() == format,
            r.spec_samples() == Seq::<int>::empty(),
            r.samples_count() == 0,
            r.data_bytes_written() == 0,
            r.sink() == header_bytes(format, 0, 0),
    {
        let mut buf: Vec<u8> = Vec::new();
        let bps: u32 = (format.bits_per_sample as u32 + 7) / 8;
        let block_align: u32 = format.channels as u32 * bps;
        proof {
            assert(format.sample_rate * (format.channels * bytes_per(format.bits_per_sample))
                == format.sample_rate * format.channels * bytes_per(format.bits_per_sample))
                by (nonlinear_arith);
        }
        let byte_rate: u64 = format.sample_rate as u64 * block_align as u64;
        buf.push(0x52);
        buf.push(0x49);
        buf.push(0x46);
        buf.push(0x46);
        push_le4(&mut buf, 0);
        buf.push(0x57);
        buf.push(0x41);
        buf.push(0x56);
        buf.push(0x45);
        buf.push(0x66);
        buf.push(0x6d);
        buf.push(0x74);
        buf.push(0x20);
        push_le4(&mut buf, 16);
        push_le2(&mut buf, 1);
        push_le2(&mut buf, format.channels);
        push_le4(&mut buf, format.sample_rate);
        push_le4(&mut buf, byte_rate as u32);
        push_le2(&mut buf, block_align as u16);
        push_le2(&mut buf, format.bits_per_sample);
        buf.push(0x64);
        buf.push(0x61);
        buf.push(0x74);
        buf.push(0x61);
        push_le4(&mut buf, 0);
        proof {
            assert(buf@ =~= header_bytes(format, 0, 0));
        }
        WavWriter {
            buf,
            format,
            data_bytes: 0,
            samples_written: 0,
            finalized: false,
            written: Ghost(Seq::empty()),
        }
    }

    /// Encodes one sample at the writer's bit depth and appends its bytes to
    /// the `data` chunk.
    ///
    /// At a supported bit depth the sample is appended and counted; at any
    /// other depth nothing is written and the call fails as unsupported. A
    /// writer that has already been finalized rejects the write outright
    /// rather than corrupting its now-fixed header.
    pub fn write_sample<S: Sample>(&mut self, sample: S) -> (r: Result<(), Error>)
        requires
            old(self).wf(),
            old(self).data_bytes_written() + 4 <= 0xFFFFFFC3,
        ensures
            final(self).wf(),
            final(self).is_finalized() == old(self).is_finalized(),
            final(self).format_spec() == old(self).format_spec(),
            old(self).is_finalized() ==> {
                &&& r == Err::<(), Error>(Error::IoError)
                &&& final(self).spec_samples() == old(self).spec_samples()
                &&& final(self).sink() == old(self).sink()
            },
            !old(self).is_finalized() && supported_bits(old(self).format_spec().bits_per_sample)
                ==> {
                &&& r is Ok
                &&& final(self).spec_samples() == old(self).spec_samples().push(sample.sval())
                &&& final(self).samples_count() == old(self).samples_count() + 1
                &&& final(self).data_bytes_written() == old(self).data_bytes_written() + bytes_per(
                    old(self).format_spec().bits_per_sample,
                )
            },
            !old(self).is_finalized() && !supported_bits(old(self).format_spec().bits_per_sample)
                ==> {
                &&& r == Err::<(), Error>(Error::Unsupported)
                &&& final(self).spec_samples() == old(self).spec_samples()
                &&& final(self).samples_count() == old(self).samples_count()
                &&& final(self).sink() == old(self).sink()
                &&& final(self).data_bytes_written() == old(self).data_bytes_written()
            },
    {
        if self.finalized {
            return Err(Error::IoError);
        }
        let bits = self.format.bits_per_sample;
        let r = sample.write(&mut self.buf, bits);
        match r {
            Ok(_) => {
                proof {
                    lemma_encoded_seq_snoc(self.written@, sample.sval(), bits);
                }
                let bps: u32 = (bits as u32 + 7) / 8;
                self.data_bytes = self.data_bytes + bps;
                self.samples_written = self.samples_written + 1;
                self.written = Ghost(self.written@.push(sample.sval()));
                proof {
                    assert(encoded_sample(sample.sval(), bits).len() == bytes_per(bits));
                    assert(self.buf@ =~= header_bytes(self.format, 0, 0) + encoded_seq(
                        self.written@,
                        bits,
                    ));
                }
                Ok(())
            },
            Err(e) => Err(e),
        }
    }

    /// The one-time terminal transition: patches the RIFF size field with
    /// `36 + data_bytes_written` and the `data` size field with
    /// `data_bytes_written`, then appends a single pad byte when that count
    /// is odd; the pad byte is not counted in the size field.
    ///
    /// Fails without touching the sink when the samples written do not form
    /// whole frames: their number is not a multiple of the channel count.
    /// The transition happens at most once: a second finalize is a caller
    /// error and is rejected without touching the sink again.
    pub fn finalize(&mut self) -> (r: Result<(), Error>)
        requires
            old(self).wf(),
        ensures
            final(self).wf(),
            final(self).format_spec() == old(self).format_spec(),
            final(self).spec_samples() == old(self).spec_samples(),
            old(self).is_finalized() ==> {
                &&& r == Err::<(), Error>(Error::IoError)
                &&& final(self).is_finalized()
                &&& final(self).sink() == old(self).sink()
            },
            !old(self).is_finalized() && old(self).samples_count() % (
            old(self).format_spec().channels as int) != 0 ==> {
                &&& r == Err::<(), Error>(Error::UnfinishedSample)
                &&& !final(self).is_finalized()
                &&& final(self).sink() == old(self).sink()
            },
            !old(self).is_finalized() && old(self).samples_count() % (
            old(self).format_spec().channels as int) == 0 ==> {
                &&& r is Ok
                &&& final(self).is_finalized()
                &&& final(self).sink() == wav_file_bytes(
                    old(self).format_spec(),
                    old(self).spec_samples(),
                )
            },
    {
        if self.finalized {
            return Err(Error::IoError);
        }
        if self.samples_written % (self.format.channels as u32) != 0 {
            return Err(Error::UnfinishedSample);
        }
        let riff_size: u32 = 36 + self.data_bytes;
        set_le4(&mut self.buf, 4, riff_size);
        set_le4(&mut self.buf, 40, self.data_bytes);
        if self.data_bytes % 2 == 1 {
            self.buf.push(0);
        }
        self.finalized = true;
        proof {
            assert(self.buf@ =~= wav_file_bytes(self.format, self.written@));
        }
        Ok(())
    }

    /// Hands the emitted bytes out, consuming the writer.
    pub fn into_inner(self) -> (r: Vec<u8>)
        ensures
            r@ == self.sink(),
    {
        self.buf
    }
}

} // verus!
