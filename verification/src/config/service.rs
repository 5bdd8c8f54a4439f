//! The players whose sessions can be recorded.

use vstd::prelude::*;

verus! {

/// A player whose sessions can be recorded.
#[derive(Clone, Copy, Debug, PartialEq, Eq, Structural)]
pub enum Service {
    SpotifyNative,
    SpotifyChromium,
}

impl Default for Service {
    fn default() -> (service: Service)
        ensures
            service == Service::SpotifyNative,
    {
        Service::SpotifyNative
    }
}

} // verus!
