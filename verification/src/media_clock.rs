//! The media clock as the device sees it: the overlay that the clock daemon published last.

use vstd::prelude::*;

verus! {

/// A clock that is known through an overlay of type `O`, once there is one.
#[derive(Debug)]
pub struct MediaClock<O> {
    pub overlay: Option<O>,
}

impl<O> MediaClock<O> {
    /// A clock without an overlay.
    pub fn new() -> (clock: Self)
        ensures
            clock.overlay is None,
    {
        MediaClock { overlay: None }
    }

    /// Takes over a newly published overlay.
    pub fn update_overlay(&mut self, overlay: O)
        ensures
            final(self).overlay == Some(overlay),
    {
        self.overlay = Some(overlay);
    }

    /// The overlay that was published last.
    pub fn get_overlay(&self) -> (overlay: &Option<O>)
        ensures
            *overlay == self.overlay,
    {
        &self.overlay
    }
}

} // verus!
