//! Capture-mix-persist core of a two-source audio recorder: the mixer that
//! aligns and combines a microphone stream with an optional system-audio
//! stream, the lifecycle of the output sink, the naming of recordings, and
//! the small decisions around them (device selection, header checks).

pub mod config;
pub mod device;
pub mod input;
pub mod mixing;
pub mod recorder;
pub mod sink;
pub mod timestamp;
pub mod wav;

pub use config::Config;
pub use device::{DeviceError, DeviceManager};
pub use input::{index_reply, interpret_index, IndexReply};
pub use mixing::{mix_sample, mono_to_stereo, Mixer, MixerAction, MixerStep};
pub use recorder::{output_format, OutputFormat, RecordingResult, SourceFormat};
pub use sink::{SinkError, SinkLifecycle, SinkPhase};
pub use timestamp::{civil_from_unix, recording_filename, CivilTime};
pub use wav::{check_wav_header, WavError};
