//! Verified core of a VoxCPM text-to-speech service.
use vstd::prelude::*;

pub mod audio_vae_v2;
pub mod audiovae;
pub mod chars;
pub mod convert;
pub mod device;
pub mod generation;
pub mod openai;
pub mod paths;
pub mod prompt;
pub mod text;
pub mod vae_layout;
pub mod voice_registry;
pub mod voxcpm;
pub mod wav;

verus! {

} // verus!
