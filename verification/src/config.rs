//! Collaborator-facing configuration record. The codec itself reads neither
//! field yet; `pedantic` is reserved for strict handshake validation.

use vstd::prelude::*;

verus! {

/// Options handed in by the surrounding application.
#[derive(Clone, Copy, Debug, PartialEq, Eq, Structural)]
pub struct Config {
    pub pedantic: bool,
    pub respect_private_trackers: bool,
}

impl Default for Config {
    /// The defaults: not pedantic, and private trackers are respected.
    fn default() -> (r: Self)
        ensures
            !r.pedantic,
            r.respect_private_trackers,
    {
        Config { pedantic: false, respect_private_trackers: true }
    }
}

} // verus!
