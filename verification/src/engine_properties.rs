//! Switches of the search: mate-distance pruning, clearing the table between searches, and
//! late-move reductions, with a global switch that turns every pruning off.
use vstd::prelude::*;

verus! {

/// When set, every pruning is off and the table is cleared after each search.
pub const DISABLE_ALL_PRUNINGS: bool = false;

/// The switches of the search.
#[derive(Debug, Clone, Copy)]
pub struct EngineProperties {
    pub use_mate_distance_pruning_: bool,
    pub clear_table_after_each_search_: bool,
    pub use_lmr_: bool,
}

impl EngineProperties {
    /// Everything on.
    pub fn new() -> (r: EngineProperties)
        ensures
            r.use_mate_distance_pruning_ && r.clear_table_after_each_search_ && r.use_lmr_,
    {
        EngineProperties {
            use_mate_distance_pruning_: true,
            clear_table_after_each_search_: true,
            use_lmr_: true,
        }
    }

    pub fn use_mate_distance_pruning(&self) -> (r: bool)
        ensures
            r == (self.use_mate_distance_pruning_ && !DISABLE_ALL_PRUNINGS),
    {
        self.use_mate_distance_pruning_ && !DISABLE_ALL_PRUNINGS
    }

    pub fn set_using_mate_distance_pruning(&mut self, value: bool)
        ensures
            *final(self) == (EngineProperties { use_mate_distance_pruning_: value, ..*old(self) }),
    {
        self.use_mate_distance_pruning_ = value;
    }

    pub fn clear_table_after_each_search(&self) -> (r: bool)
        ensures
            r == (self.clear_table_after_each_search_ || DISABLE_ALL_PRUNINGS),
    {
        self.clear_table_after_each_search_ || DISABLE_ALL_PRUNINGS
    }

    pub fn set_clearing_table_after_each_search(&mut self, value: bool)
        ensures
            *final(self) == (EngineProperties { clear_table_after_each_search_: value, ..*old(self) }),
    {
        self.clear_table_after_each_search_ = value;
    }

    pub fn use_lmr(&self) -> (r: bool)
        ensures
            r == (self.use_lmr_ && !DISABLE_ALL_PRUNINGS),
    {
        self.use_lmr_ && !DISABLE_ALL_PRUNINGS
    }

    pub fn set_using_lmr(&mut self, value: bool)
        ensures
            *final(self) == (EngineProperties { use_lmr_: value, ..*old(self) }),
    {
        self.use_lmr_ = value;
    }
}

impl Default for EngineProperties {
    fn default() -> (r: EngineProperties)
        ensures
            r.use_mate_distance_pruning_ && r.clear_table_after_each_search_ && r.use_lmr_,
    {
        EngineProperties::new()
    }
}

} // verus!
