//! The result type: the three measurements of one resolution.

use vstd::prelude::*;

verus! {

/// What a [`DirectInfo`] holds.
pub struct Measurements {
    /// The alignment that a buffer in memory needs, where the platform
    /// reports one.
    pub mem_align: Option<u32>,
    /// The unit of offsets and lengths.
    pub logical: u32,
    /// The sector size of the medium.
    pub physical: u32,
}

/// Direct I/O alignment information for a filesystem path.
#[derive(Debug, Clone, Copy, PartialEq, Eq, Hash, Structural)]
pub struct DirectInfo {
    mem_align: Option<u32>,
    logical: u32,
    physical: u32,
}

impl View for DirectInfo {
    type V = Measurements;

    closed spec fn view(&self) -> Measurements {
        Measurements { mem_align: self.mem_align, logical: self.logical, physical: self.physical }
    }
}

impl DirectInfo {
    /// Builds the value from its three measurements.
    pub fn new(mem_align: Option<u32>, logical: u32, physical: u32) -> (info: Self)
        ensures
            info@ == (Measurements { mem_align, logical, physical }),
    {
        DirectInfo { mem_align, logical, physical }
    }

    /// Returns the required memory alignment in bytes, if available.
    pub fn mem_align(&self) -> (align: Option<u32>)
        ensures
            align == self@.mem_align,
    {
        self.mem_align
    }

    /// Returns the logical block size in bytes.
    pub fn logical_block_size(&self) -> (size: u32)
        ensures
            size == self@.logical,
    {
        self.logical
    }

    /// Returns the physical block size in bytes.
    pub fn physical_block_size(&self) -> (size: u32)
        ensures
            size == self@.physical,
    {
        self.physical
    }

    /// Two values are the same exactly when they hold the same
    /// measurements.
    pub proof fn lemma_equal_by_measurements(self, other: Self)
        ensures
            (self == other) <==> (self@ == other@),
    {
    }
}

} // verus!
