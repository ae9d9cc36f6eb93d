//! The sound trigger: the boolean state that couples the sound timer to an
//! outside tone generator. The core only asserts and clears "a tone is
//! wanted"; rendering the waveform is the backend's job.
use vstd::prelude::*;

verus! {

/// The audio trigger. Its view is a single boolean: whether the tone is
/// currently requested.
pub struct Audio {
    playing: bool,
}

impl View for Audio {
    type V = bool;

    closed spec fn view(&self) -> bool {
        self.playing
    }
}

impl Audio {
    /// A fresh trigger, silent.
    pub fn new() -> (a: Audio)
        ensures
            !a@,
    {
        Audio { playing: false }
    }

    /// Request the tone.
    pub fn play(&mut self)
        ensures
            final(self)@,
    {
        self.playing = true;
    }

    /// Silence the tone.
    pub fn stop(&mut self)
        ensures
            !final(self)@,
    {
        self.playing = false;
    }

    /// Whether the tone is currently requested.
    pub fn is_playing(&self) -> (r: bool)
        ensures
            r == self@,
    {
        self.playing
    }
}

} // verus!
