use vstd::prelude::*;

verus! {

/// The AV1 partition types, in their bitstream symbol order.
#[derive(Clone, Copy, PartialEq, Eq, Structural)]
pub enum Partition {
    NONE,
    HORZ,
    VERT,
    SPLIT,
    HORZ_A,
    HORZ_B,
    VERT_A,
    VERT_B,
    HORZ_4,
    VERT_4,
}

impl Partition {
    /// The symbol index of this partition type.
    pub open spec fn spec_index(self) -> int {
        match self {
            Partition::NONE => 0,
            Partition::HORZ => 1,
            Partition::VERT => 2,
            Partition::SPLIT => 3,
            Partition::HORZ_A => 4,
            Partition::HORZ_B => 5,
            Partition::VERT_A => 6,
            Partition::VERT_B => 7,
            Partition::HORZ_4 => 8,
            Partition::VERT_4 => 9,
        }
    }

    pub fn index(self) -> (r: usize)
        ensures
            r == self.spec_index(),
    {
        match self {
            Partition::NONE => 0,
            Partition::HORZ => 1,
            Partition::VERT => 2,
            Partition::SPLIT => 3,
            Partition::HORZ_A => 4,
            Partition::HORZ_B => 5,
            Partition::VERT_A => 6,
            Partition::VERT_B => 7,
            Partition::HORZ_4 => 8,
            Partition::VERT_4 => 9,
        }
    }
}

} // verus!
