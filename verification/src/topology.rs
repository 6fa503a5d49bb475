use vstd::prelude::*;

use crate::block::Block;

verus! {

/// One slot of the topology arena. Taking the block of a `Present` slot is a
/// single, non-repeatable operation: it leaves the `Taken` sentinel behind,
/// so that a second extraction is a detectable error instead of silently
/// handing out ownership twice.
#[derive(Clone, Copy, Debug, PartialEq, Eq, Structural)]
pub enum Slot {
    /// No block exists at this id.
    Empty,
    /// A block is present and has not been scheduled yet.
    Present(Block),
    /// The block that lived here was extracted (its sole owner is now the
    /// task it was scheduled into).
    Taken,
}

/// Integrity errors of the topology arena. All of them mark caller misuse
/// (such as scheduling the same topology twice) and are non-recoverable.
#[derive(Clone, Copy, Debug, PartialEq, Eq, Structural)]
pub enum TopologyError {
    /// The id lies beyond the arena's allocated range.
    OutOfRange,
    /// No block was ever associated with this id.
    NoBlock,
    /// The block at this id was already extracted.
    AlreadyTaken,
}

/// The owning graph structure for all blocks, indexed by dense integer id:
/// an arena of slots, one per id in `0..self.len()`.
#[derive(Debug)]
pub struct Topology {
    slots: Vec<Slot>,
}

impl View for Topology {
    type V = Seq<Slot>;

    closed spec fn view(&self) -> Seq<Slot> {
        self.slots@
    }
}

impl Topology {
    /// True while no block has been extracted yet: the state a topology must
    /// be in when it is handed to the scheduler.
    pub open spec fn unscheduled(self) -> bool {
        forall|i: int| 0 <= i < self@.len() ==> !(self@[i] is Taken)
    }

    /// A topology with no ids at all.
    pub fn new() -> (t: Topology)
        ensures
            t@ == Seq::<Slot>::empty(),
    {
        Topology { slots: Vec::new() }
    }

    /// The number of ids the arena covers (one more than the highest id,
    /// whether or not a block lives there).
    pub fn len(&self) -> (n: usize)
        ensures
            n == self@.len(),
    {
        self.slots.len()
    }

    /// Appends a block at the next id.
    pub fn push_block(&mut self, block: Block)
        ensures
            final(self)@ == old(self)@.push(Slot::Present(block)),
    {
        self.slots.push(Slot::Present(block));
    }

    /// Appends an id that carries no block.
    pub fn push_gap(&mut self)
        ensures
            final(self)@ == old(self)@.push(Slot::Empty),
    {
        self.slots.push(Slot::Empty);
    }

    /// The slot at `id`, or `None` beyond the arena's range.
    pub fn slot_at(&self, id: usize) -> (s: Option<Slot>)
        ensures
            s == (if id < self@.len() {
                Some(self@[id as int])
            } else {
                None::<Slot>
            }),
    {
        if id < self.slots.len() {
            Some(self.slots[id])
        } else {
            None
        }
    }

    /// Extracts ownership of the block at `id`, leaving the `Taken` sentinel.
    /// Succeeds exactly once per id: a second call reports `AlreadyTaken`,
    /// an id without a block `NoBlock`, an id beyond the range `OutOfRange`.
    pub fn take(&mut self, id: usize) -> (r: Result<Block, TopologyError>)
        ensures
            match r {
                Ok(b) => {
                    &&& old(self)@[id as int] == Slot::Present(b)
                    &&& final(self)@ == old(self)@.update(id as int, Slot::Taken)
                },
                Err(e) => {
                    &&& final(self)@ == old(self)@
                    &&& e == (if id >= old(self)@.len() {
                        TopologyError::OutOfRange
                    } else if old(self)@[id as int] is Empty {
                        TopologyError::NoBlock
                    } else {
                        TopologyError::AlreadyTaken
                    })
                    &&& !(id < old(self)@.len() && old(self)@[id as int] is Present)
                },
            },
    {
        if id >= self.slots.len() {
            return Err(TopologyError::OutOfRange);
        }
        let ghost before = self.slots@;
        let slot = self.slots[id];
        match slot {
            Slot::Present(b) => {
                self.slots.set(id, Slot::Taken);
                Ok(b)
            },
            Slot::Empty => {
                proof {
                    assert(self.slots@ =~= before);
                }
                Err(TopologyError::NoBlock)
            },
            Slot::Taken => {
                proof {
                    assert(self.slots@ =~= before);
                }
                Err(TopologyError::AlreadyTaken)
            },
        }
    }
}

} // verus!
