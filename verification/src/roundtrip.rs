//! The end-to-end law: a finalized container holding a sample sequence
//! parses back to the format it was written with, and its `data` chunk
//! decodes back to exactly that sequence, in order.

use vstd::prelude::*;
use vstd::arithmetic::div_mod::lemma_fundamental_div_mod;
use vstd::arithmetic::div_mod::lemma_small_mod;

use crate::WavSpec;
use crate::read::data_id_at;
use crate::read::decoded_seq;
use crate::read::fmt_id_at;
use crate::read::fmt_spec_at;
use crate::read::lemma_decoded_seq_snoc;
use crate::read::parse_wav;
use crate::read::riff_wave_header;
use crate::read::scan_chunks;
use crate::read::u16_le;
use crate::read::u32_le;
use crate::sample::bytes_per;
use crate::sample::encoded_sample;
use crate::sample::lemma_le_digits;
use crate::sample::lemma_sample_round_trip;
use crate::sample::representable;
use crate::sample::supported_bits;
use crate::write::encoded_seq;
use crate::write::header_bytes;
use crate::write::le2;
use crate::write::le4;
use crate::write::lemma_encoded_seq_len;
use crate::write::valid_write_spec;
use crate::write::wav_file_bytes;

verus! {

/// Reading back the two little-endian bytes of a 16-bit value yields it.
proof fn lemma_le2_value(x: int)
    requires
        0 <= x < 0x10000,
    ensures
        u16_le(le2(x)[0], le2(x)[1]) == x,
{
    lemma_fundamental_div_mod(x, 256);
    lemma_small_mod((x / 256) as nat, 256);
}

/// Reading back the four little-endian bytes of a 32-bit value yields it.
proof fn lemma_le4_value(x: int)
    requires
        0 <= x < 0x100000000,
    ensures
        u32_le(le4(x)[0], le4(x)[1], le4(x)[2], le4(x)[3]) == x,
{
    lemma_le_digits(x, 0x100000000);
}

/// Every header field parses back to the value it was built from.
proof fn lemma_header_fields(s: WavSpec, riff_size: int, data_size: int)
    requires
        0 <= riff_size < 0x100000000,
        0 <= data_size < 0x100000000,
    ensures
        ({
            let h = header_bytes(s, riff_size, data_size);
            &&& h.len() == 44
            &&& riff_wave_header(h)
            &&& fmt_id_at(h, 12)
            &&& !data_id_at(h, 12)
            &&& u32_le(h[16], h[17], h[18], h[19]) == 16
            &&& u16_le(h[20], h[21]) == 1
            &&& fmt_spec_at(h, 12) == s
            &&& data_id_at(h, 36)
            &&& u32_le(h[40], h[41], h[42], h[43]) == data_size
        }),
{
    let h = header_bytes(s, riff_size, data_size);
    lemma_le4_value(riff_size);
    lemma_le4_value(data_size);
    lemma_le4_value(16);
    lemma_le4_value(s.sample_rate as int);
    lemma_le2_value(1);
    lemma_le2_value(s.channels as int);
    lemma_le2_value(s.bits_per_sample as int);
    assert(fmt_spec_at(h, 12) == s);
}

/// Decoding slot by slot inverts the concatenated encoding: where the bytes
/// from `off` on hold the encodings of `ss`, decoding `ss.len()` slots there
/// yields `ss` again.
proof fn lemma_decode_encoded(w: Seq<u8>, off: int, ss: Seq<int>, bits: u16)
    requires
        supported_bits(bits),
        forall|i: int| 0 <= i < ss.len() ==> representable(#[trigger] ss[i], bits),
        0 <= off,
        off + encoded_seq(ss, bits).len() <= w.len(),
        w.subrange(off, off + encoded_seq(ss, bits).len()) == encoded_seq(ss, bits),
    ensures
        decoded_seq(w, off, ss.len(), bits) == ss,
    decreases ss.len(),
{
    let bps = bytes_per(bits);
    let n = ss.len() as int;
    lemma_encoded_seq_len(ss, bits);
    if n == 0 {
        assert(decoded_seq(w, off, 0, bits) =~= ss);
    } else {
        let head = ss.drop_last();
        let v = ss.last();
        lemma_encoded_seq_len(head, bits);
        assert((n - 1) * bps + bps == n * bps) by (nonlinear_arith);
        assert(encoded_seq(ss, bits) == encoded_seq(head, bits) + encoded_sample(v, bits));
        assert(w.subrange(off, off + (n - 1) * bps) =~= encoded_seq(head, bits));
        assert(forall|i: int| 0 <= i < head.len() ==> representable(#[trigger] head[i], bits));
        lemma_decode_encoded(w, off, head, bits);
        lemma_decoded_seq_snoc(w, off, (n - 1) as nat, bits);
        assert(encoded_sample(v, bits).len() == bps);
        let whole = w.subrange(off, off + n * bps);
        assert(w.subrange(off + (n - 1) * bps, off + n * bps) =~= whole.subrange(
            (n - 1) * bps,
            n * bps,
        ));
        assert(whole.subrange((n - 1) * bps, n * bps) =~= encoded_sample(v, bits));
        lemma_sample_round_trip(v, bits);
        assert(decoded_seq(w, off, ss.len(), bits) =~= ss);
    }
}

/// The container round trip: the bytes of a finalized container holding a
/// sample sequence parse back to the format they were written with, with the
/// first sample byte at offset 44 and the written byte count as the declared
/// `data` size; and decoding one slot per written sample from offset 44
/// yields exactly the written sequence, in order.
pub proof fn lemma_container_round_trip(s: WavSpec, ss: Seq<int>)
    requires
        valid_write_spec(s),
        supported_bits(s.bits_per_sample),
        forall|i: int| 0 <= i < ss.len() ==> representable(#[trigger] ss[i], s.bits_per_sample),
        encoded_seq(ss, s.bits_per_sample).len() <= 0xFFFFFFC3,
    ensures
        ({
            let w = wav_file_bytes(s, ss);
            let d = encoded_seq(ss, s.bits_per_sample).len() as int;
            &&& parse_wav(w) == Some((s, 44int, d))
            &&& decoded_seq(w, 44, ss.len(), s.bits_per_sample) == ss
        }),
{
    let bits = s.bits_per_sample;
    let payload = encoded_seq(ss, bits);
    let d = payload.len() as int;
    let w = wav_file_bytes(s, ss);
    let h = header_bytes(s, 36 + d, d);
    lemma_header_fields(s, 36 + d, d);
    assert(w.len() >= 44 + d);
    assert(forall|i: int| 0 <= i < 44 ==> w[i] == h[i]);
    assert(riff_wave_header(w));
    assert(fmt_id_at(w, 12) && !data_id_at(w, 12));
    assert(u32_le(w[16], w[17], w[18], w[19]) == 16);
    assert(u16_le(w[20], w[21]) == 1);
    assert(fmt_spec_at(w, 12) == s);
    assert(u16_le(w[22], w[23]) == s.channels as int);
    assert(scan_chunks(w, 12, None::<WavSpec>) == scan_chunks(w, 36, Some(s))) by {
        assert(scan_chunks(w, 12, None::<WavSpec>) == scan_chunks(w, 36, Some(fmt_spec_at(w, 12))));
    }
    assert(data_id_at(w, 36));
    assert(u32_le(w[40], w[41], w[42], w[43]) == d);
    assert(scan_chunks(w, 36, Some(s)) == Some((s, 44int, d)));
    assert(parse_wav(w) == Some((s, 44int, d)));
    assert(w.subrange(44, 44 + d) =~= payload);
    lemma_decode_encoded(w, 44, ss, bits);
}

} // verus!
