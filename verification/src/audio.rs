//! The audio engine.

use vstd::prelude::*;

verus! {

/// The audio engine: whether it plays.
#[derive(Debug)]
pub struct Engine {
    pub play: bool,
}

impl Engine {
    /// An engine that does not play.
    #[must_use]
    pub fn new() -> (e: Self)
        ensures
            !e.play,
    {
        Engine { play: false }
    }

    /// Fills a buffer of samples with what the engine gives, which is
    /// silence.
    pub fn fill_buffer(&mut self, buf: &mut [i32])
        ensures
            final(self).play == old(self).play,
            final(buf)@.len() == old(buf)@.len(),
            forall|i: int| 0 <= i < final(buf)@.len() ==> final(buf)@[i] == 0,
    {
        let n = buf.len();
        let mut i: usize = 0;
        while i < n
            invariant
                n == buf@.len(),
                i <= n,
                forall|k: int| 0 <= k < i ==> buf@[k] == 0,
            decreases n - i,
        {
            buf[i] = 0;
            i = i + 1;
        }
    }
}

impl Default for Engine {
    fn default() -> (e: Self)
        ensures
            !e.play,
    {
        Engine::new()
    }
}

/// Why no engine could be started.
#[derive(Clone, Copy, Debug, PartialEq, Eq, Structural)]
pub enum CreationError {
    /// The machine has no device to play on.
    NoOutputDevice,
}

} // verus!
