use vstd::prelude::*;
use crate::mixing::Mixer;

verus! {

/// The fixed format of one capture source, negotiated at session start.
#[derive(Clone, Copy, Debug, PartialEq, Eq, Structural)]
pub struct SourceFormat {
    pub channels: u16,
    pub sample_rate: u32,
}

/// The format of the recording: linear PCM, signed 16-bit integers.
#[derive(Clone, Copy, Debug, PartialEq, Eq, Structural)]
pub struct OutputFormat {
    pub channels: u16,
    pub sample_rate: u32,
    pub bits_per_sample: u16,
}

/// The larger of two sample rates.
pub open spec fn max_rate(a: u32, b: u32) -> u32 {
    if a >= b {
        a
    } else {
        b
    }
}

/// The output format of a session: always stereo, 16 bits per sample, at
/// the higher of the sources' sample rates.
pub fn output_format(mic: SourceFormat, sys: Option<SourceFormat>) -> (r: OutputFormat)
    ensures
        r.channels == 2,
        r.bits_per_sample == 16,
        r.sample_rate == match sys {
            Some(s) => max_rate(mic.sample_rate, s.sample_rate),
            None => mic.sample_rate,
        },
{
    let rate = match sys {
        Some(s) => if mic.sample_rate >= s.sample_rate {
            mic.sample_rate
        } else {
            s.sample_rate
        },
        None => mic.sample_rate,
    };
    OutputFormat { channels: 2, sample_rate: rate, bits_per_sample: 16 }
}

impl Mixer {
    /// A mixer with empty buffers for a microphone and an optional system
    /// source; without a system source nothing arrives on its side, which
    /// counts as mono.
    pub fn for_sources(mic: SourceFormat, sys: Option<SourceFormat>) -> (r: Mixer)
        ensures
            r.mic_channels == mic.channels,
            r.sys_channels == match sys {
                Some(s) => s.channels,
                None => 1,
            },
            r.mic_buffer@.len() == 0,
            r.sys_buffer@.len() == 0,
    {
        let sys_channels = match sys {
            Some(s) => s.channels,
            None => 1,
        };
        Mixer::new(mic.channels, sys_channels)
    }
}

/// The outcome of a finished recording session.
pub struct RecordingResult {
    /// Path of the finalized recording.
    pub filename: String,
    /// Size of the finalized file in bytes.
    pub size_bytes: u64,
}

} // verus!
