//! A verified WAV (RIFF/WAVE) codec: it decodes a byte stream into a typed,
//! channel-interleaved sequence of audio samples, and encodes a typed sample
//! sequence into a valid WAV byte stream.
//!
//! The reader parses the RIFF header and the `fmt `/`data` sub-chunks and then
//! streams samples out of the `data` chunk; the writer emits a provisional
//! header, streams encoded samples, and patches the two length fields on an
//! explicit finalize step. A single signed-sample abstraction covers the
//! format's unsigned 8-bit and signed little-endian 16/24/32-bit encodings.

use vstd::prelude::*;

pub mod read;
pub mod roundtrip;
pub mod sample;
pub mod write;

pub use read::WavReader;
pub use write::WavWriter;
pub use sample::ByteCursor;
pub use sample::Sample;
pub use sample::signed_from_u8;
pub use sample::u8_from_signed;

verus! {

/// Specifies properties of the audio data.
#[derive(Clone, Copy, Debug, PartialEq, Eq, Structural)]
pub struct WavSpec {
    /// The number of channels.
    pub channels: u16,
    /// The number of samples per second.
    pub sample_rate: u32,
    /// The number of bits per sample.
    pub bits_per_sample: u16,
}

/// The error type for operations on the reader and the writer.
#[derive(Clone, Copy, Debug, PartialEq, Eq)]
pub enum Error {
    /// An IO error occurred in the underlying byte source or sink: fewer bytes
    /// were available than a read required.
    IoError,
    /// Ill-formed WAVE data was encountered.
    FormatError(&'static str),
    /// The sample has more bits than the data type of the sample iterator.
    TooWide,
    /// The number of samples written is not a multiple of the number of channels.
    UnfinishedSample,
    /// The format is not supported.
    Unsupported,
}

impl Error {
    /// A short description of the error, as a plain string.
    pub fn description(&self) -> (r: &'static str)
        ensures
            self is IoError ==> r@ == "an IO error occurred in the underlying reader or writer"@,
            self matches Error::FormatError(reason) ==> r@ == reason@,
            self is TooWide ==> r@
                == "the sample has more bits than the data type of the sample iterator"@,
            self is UnfinishedSample ==> r@
                == "the number of samples written is not a multiple of the number of channels"@,
            self is Unsupported ==> r@ == "the wave format of the file is not supported"@,
    {
        match *self {
            Error::IoError => "an IO error occurred in the underlying reader or writer",
            Error::FormatError(reason) => reason,
            Error::TooWide => "the sample has more bits than the data type of the sample iterator",
            Error::UnfinishedSample => "the number of samples written is not a multiple of the number of channels",
            Error::Unsupported => "the wave format of the file is not supported",
        }
    }
}

} // verus!
