//! Image keys and the fixed-depth retention chain for published frames.
//!
//! A readback backend publishes frames as compositor images. The compositor
//! may still reference the image shown one frame ago, so a retired key is
//! never released immediately: it waits in a fixed-depth chain of slots and
//! is released two publishes after it was retired.

use vstd::prelude::*;

verus! {

/// Opaque handle identifying one published frame to the compositor service.
/// Unique per registration; must be released exactly once before being
/// discarded.
#[derive(Clone, Copy, Debug, Hash, PartialEq, Eq, Structural)]
pub struct ImageKey(pub u32);

/// The three ordered key slots of a readback backend. `stale` is always
/// older than `previous`, which is always older than `current`; a newly
/// retired current key enters `previous`, never `stale` directly.
#[derive(Clone, Copy, Debug)]
pub struct KeySlots {
    /// The key under which the latest frame is published, if any.
    pub current: Option<ImageKey>,
    /// A key retired by the most recent resize, released when the next
    /// epoch ends.
    pub previous: Option<ImageKey>,
    /// A key whose epoch is over: released by the next publish.
    pub stale: Option<ImageKey>,
}

/// The keys of an optional slot, as a sequence of length zero or one.
pub open spec fn opt_keys(slot: Option<ImageKey>) -> Seq<ImageKey> {
    match slot {
        Some(k) => seq![k],
        None => Seq::empty(),
    }
}

impl KeySlots {
    /// Whether some slot holds `k`.
    pub open spec fn holds(self, k: ImageKey) -> bool {
        self.current == Some(k) || self.previous == Some(k) || self.stale == Some(k)
    }

    /// All held keys, in release order at teardown.
    pub open spec fn all_keys(self) -> Seq<ImageKey> {
        opt_keys(self.current) + opt_keys(self.previous) + opt_keys(self.stale)
    }

    /// No two slots hold the same key.
    pub open spec fn distinct(self) -> bool {
        &&& (self.current is Some ==> self.current != self.previous && self.current != self.stale)
        &&& (self.previous is Some ==> self.previous != self.stale)
    }
}

} // verus!
