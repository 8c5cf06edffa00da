//! What every audio format handler offers, and the byte layout it reports.
use vstd::prelude::*;

use crate::types::AudioFormat;

verus! {

/// Why a format handler could not do its work.
#[derive(Debug, Clone)]
pub enum FormatError {
    UnsupportedFormat,
    InvalidData(String),
    SynthesisFailed(String),
}

/// The display text of a format error.
pub open spec fn format_error_text(e: FormatError) -> Seq<char> {
    match e {
        FormatError::UnsupportedFormat => "Unsupported format"@,
        FormatError::InvalidData(m) => "Invalid data: "@ + m@,
        FormatError::SynthesisFailed(m) => "Synthesis failed: "@ + m@,
    }
}

impl FormatError {
    /// The error's message, as its display text would read.
    pub fn message(&self) -> (r: String)
        ensures
            r@ == format_error_text(*self),
    {
        match self {
            FormatError::UnsupportedFormat => "Unsupported format".to_owned(),
            FormatError::InvalidData(m) => {
                let mut s = "Invalid data: ".to_owned();
                crate::text::append_str(&mut s, m.as_str());
                s
            },
            FormatError::SynthesisFailed(m) => {
                let mut s = "Synthesis failed: ".to_owned();
                crate::text::append_str(&mut s, m.as_str());
                s
            },
        }
    }
}

/// `e` is `InvalidData` with this message.
pub open spec fn is_invalid_data(e: FormatError, msg: Seq<char>) -> bool {
    match e {
        FormatError::InvalidData(m) => m@ == msg,
        _ => false,
    }
}

/// `e` is `SynthesisFailed` with this message.
pub open spec fn is_synthesis_failed(e: FormatError, msg: Seq<char>) -> bool {
    match e {
        FormatError::SynthesisFailed(m) => m@ == msg,
        _ => false,
    }
}

/// Where the audio data lies in an origin file, so that a new header can be spliced in.
#[derive(Debug, Clone)]
pub struct FormatLayout {
    /// Byte offset where audio data begins in the origin file.
    pub audio_start: u64,
    /// Byte offset where audio data ends in the origin file.
    pub audio_end: u64,
    pub format: AudioFormat,
    /// Format-specific bytes kept from the original header (FLAC: the STREAMINFO data).
    pub format_data: Option<Vec<u8>>,
}

} // verus!
