//! The border to the audio device.

use vstd::prelude::*;

verus! {

/// What is known of an audio input. Samples arrive mixed down to one channel.
pub trait AudioSource {
    fn sample_rate(&self) -> u32;

    fn channels(&self) -> u16;
}

} // verus!
