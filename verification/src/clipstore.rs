//! Lock-free publication of decoded clips. A non-realtime loader decodes a
//! clip's samples and publishes, per slot, the clip's index and length by
//! atomic pointer swap; the realtime thread loads them without blocking.
//! The sample data itself is floating-point and lives with the loader; the
//! core reads only what its decisions need: which clip a slot holds and how
//! many samples it has. Loads and stores cross threads, so no contract
//! relates a load to any particular store; the decision functions take the
//! loaded values as arguments and are verified for every value.
//!
//! `arc_swap::ArcSwap`'s default strategy type is crate-private, so the
//! type cannot be declared to the verifier; the cells sit in a hidden
//! field instead and every access goes through the methods here.

use vstd::prelude::*;
use std::sync::Arc;
use arc_swap::ArcSwap;

verus! {

/// One publication slot: the index of the clip whose samples the loader
/// last published here, and that clip's length in samples. Shared between
/// the loader and the realtime plane; sharing clones the inner pointers.
#[verifier::external_body]
pub struct ClipSlot {
    idx_cell: Arc<ArcSwap<u64>>,
    len_cell: Arc<ArcSwap<u64>>,
}

impl ClipSlot {
    /// Relies on arc_swap::ArcSwapAny::new: a fresh slot holding clip 0
    /// with no samples.
    #[verifier::external_body]
    pub fn new() -> ClipSlot {
        ClipSlot {
            idx_cell: Arc::new(ArcSwap::from_pointee(0)),
            len_cell: Arc::new(ArcSwap::from_pointee(0)),
        }
    }

    /// Relies on arc_swap::ArcSwapAny::store: atomically publish which
    /// clip this slot now holds and its length in samples. Called by the
    /// loader after the samples themselves are in place.
    #[verifier::external_body]
    pub fn publish(&self, clip_idx: u64, length: u64) {
        self.idx_cell.store(Arc::new(clip_idx));
        self.len_cell.store(Arc::new(length));
    }

    /// Relies on arc_swap::ArcSwapAny::load_full: the index of the clip
    /// this slot currently holds. Which store a load observes depends on
    /// thread timing, so nothing more is promised of the result.
    #[verifier::external_body]
    pub fn read_index(&self) -> u64 {
        *self.idx_cell.load_full()
    }

    /// Relies on arc_swap::ArcSwapAny::load_full: the length in samples of
    /// the clip this slot currently holds.
    #[verifier::external_body]
    pub fn read_length(&self) -> u64 {
        *self.len_cell.load_full()
    }

    /// Relies on std::sync::Arc::clone: another handle to the same cells,
    /// so the loader and the realtime plane see one publication.
    #[verifier::external_body]
    pub fn share(&self) -> ClipSlot {
        ClipSlot {
            idx_cell: Arc::clone(&self.idx_cell),
            len_cell: Arc::clone(&self.len_cell),
        }
    }
}

} // verus!
