//! What the loader of samples hands to the engine.

use vstd::prelude::*;

verus! {

/// A decoded sample: interleaved values in fixed point, with the number of
/// channels and the frames per second that they were recorded with.
#[derive(Clone, Debug)]
pub struct AudioData {
    /// Channels of the sample.
    pub channels: u16,
    /// Frames per second of the sample.
    pub sample_rate: u32,
    /// The interleaved samples.
    pub data: Vec<i64>,
}

impl AudioData {
    /// A sample made of the given parts.
    pub fn new(channels: u16, sample_rate: u32, data: Vec<i64>) -> (audio: Self)
        ensures
            audio.channels == channels,
            audio.sample_rate == sample_rate,
            audio.data == data,
    {
        AudioData { channels, sample_rate, data }
    }
}

/// What a finished task asks of the sampler.
#[derive(Debug)]
pub enum TaskResults {
    /// The file at the given path was decoded for the given slot.
    LoadedFile(usize, String, AudioData),
    /// The given slot is to be emptied.
    ClearSample(usize),
}

} // verus!
