use vstd::prelude::*;

verus! {

/// Why the start of a file is not a usable WAV recording.
#[derive(Clone, Copy, Debug, PartialEq, Eq, Structural)]
pub enum WavError {
    /// Fewer than twelve bytes could be read.
    TooSmall,
    /// The first four bytes are not `RIFF`.
    InvalidRiff,
    /// Bytes eight to eleven are not `WAVE`.
    InvalidWave,
    /// Bytes twelve to fifteen are present but are not `fmt `.
    MissingFormatChunk,
    /// The file is no longer than a bare 44-byte header.
    HeadersOnly,
}

/// Length of a canonical PCM WAV header.
pub const HEADER_LEN: u64 = 44;

/// The four bytes `RIFF`.
pub open spec fn riff_tag() -> Seq<u8> {
    seq![0x52u8, 0x49u8, 0x46u8, 0x46u8]
}

/// The four bytes `WAVE`.
pub open spec fn wave_tag() -> Seq<u8> {
    seq![0x57u8, 0x41u8, 0x56u8, 0x45u8]
}

/// The four bytes `fmt `.
pub open spec fn fmt_tag() -> Seq<u8> {
    seq![0x66u8, 0x6du8, 0x74u8, 0x20u8]
}

/// The verdict on a file of `file_len` bytes whose first bytes, as read,
/// are `head`: the first failed check, in order, or success.
pub open spec fn wav_verdict(head: Seq<u8>, file_len: int) -> Result<(), WavError> {
    if head.len() < 12 {
        Err(WavError::TooSmall)
    } else if head.subrange(0, 4) != riff_tag() {
        Err(WavError::InvalidRiff)
    } else if head.subrange(8, 12) != wave_tag() {
        Err(WavError::InvalidWave)
    } else if head.len() >= 16 && head.subrange(12, 16) != fmt_tag() {
        Err(WavError::MissingFormatChunk)
    } else if file_len <= 44 {
        Err(WavError::HeadersOnly)
    } else {
        Ok(())
    }
}

/// Whether `head[at..at + 4]` equals the four bytes `a`, `b`, `c`, `d`.
fn has_tag(head: &[u8], at: usize, a: u8, b: u8, c: u8, d: u8) -> (r: bool)
    requires
        at + 4 <= head@.len(),
    ensures
        r == (head@.subrange(at as int, at + 4) == seq![a, b, c, d]),
{
    let r = head[at] == a && head[at + 1] == b && head[at + 2] == c && head[at + 3] == d;
    if r {
        assert(head@.subrange(at as int, at + 4) =~= seq![a, b, c, d]);
    } else {
        proof {
            if head@.subrange(at as int, at + 4) == seq![a, b, c, d] {
                assert(head@.subrange(at as int, at + 4)[0] == a);
                assert(head@.subrange(at as int, at + 4)[1] == b);
                assert(head@.subrange(at as int, at + 4)[2] == c);
                assert(head@.subrange(at as int, at + 4)[3] == d);
            }
        }
    }
    r
}

/// Checks the structure of a WAV file from its first bytes `head` (as
/// much of the 44-byte header as one read gave) and its length in bytes:
/// the `RIFF` and `WAVE` identifiers, the `fmt ` chunk where it was read,
/// and audio data beyond the header.
pub fn check_wav_header(head: &[u8], file_len: u64) -> (r: Result<(), WavError>)
    ensures
        r == wav_verdict(head@, file_len as int),
{
    if head.len() < 12 {
        return Err(WavError::TooSmall);
    }
    if !has_tag(head, 0, 0x52, 0x49, 0x46, 0x46) {
        return Err(WavError::InvalidRiff);
    }
    if !has_tag(head, 8, 0x57, 0x41, 0x56, 0x45) {
        return Err(WavError::InvalidWave);
    }
    if head.len() >= 16 && !has_tag(head, 12, 0x66, 0x6d, 0x74, 0x20) {
        return Err(WavError::MissingFormatChunk);
    }
    if file_len <= HEADER_LEN {
        return Err(WavError::HeadersOnly);
    }
    Ok(())
}

} // verus!
