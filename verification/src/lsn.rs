//! Log positions.

use vstd::prelude::*;

verus! {

/// A position in the log: a segment and an offset in it.
#[derive(Copy, Clone, Debug, PartialEq, Eq, Structural)]
pub struct Lsn {
    pub segment: u32,
    pub offset: u32,
}

impl Lsn {
    /// The packed form, ordered as the positions are.
    pub open spec fn packed(self) -> u64 {
        (self.segment * 0x1_0000_0000 + self.offset) as u64
    }

    /// The packed form.
    pub fn to_u64(self) -> (r: u64)
        ensures
            r == self.packed(),
    {
        self.segment as u64 * 0x1_0000_0000 + self.offset as u64
    }

    /// The position a packed form stands for.
    pub fn from_u64(packed: u64) -> (r: Lsn)
        ensures
            r.packed() == packed,
    {
        let segment: u32 = (packed / 0x1_0000_0000) as u32;
        let offset: u32 = (packed % 0x1_0000_0000) as u32;
        Lsn { segment, offset }
    }
}

/// Packing keeps the order of positions and tells them apart.
pub proof fn law_packing_is_ordered(a: Lsn, b: Lsn)
    ensures
        a.packed() < b.packed() <==> a.segment < b.segment || (a.segment == b.segment && a.offset
            < b.offset),
        a.packed() == b.packed() <==> a == b,
{
}

/// The packed form holds the segment above its low 32 bits and the offset in
/// them.
pub proof fn law_packing_is_segment_then_offset(a: Lsn)
    ensures
        a.packed() / 0x1_0000_0000 == a.segment,
        a.packed() % 0x1_0000_0000 == a.offset,
{
}

} // verus!
