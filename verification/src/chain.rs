//! Blocks, receipts and logs as the bridge reads them, and the segments of
//! chain that a notification carries.

use vstd::prelude::*;
use crate::primitives::{Address, B256};

verus! {

/// A log emitted by a contract during a transaction.
#[derive(Clone, Debug)]
pub struct Log {
    pub address: Address,
    pub topics: Vec<B256>,
    pub data: Vec<u8>,
}

/// The logs of one executed transaction, in emission order.
#[derive(Clone, Debug)]
pub struct Receipt {
    pub logs: Vec<Log>,
}

/// A transaction, known by its hash.
#[derive(Clone, Copy, Debug)]
pub struct Transaction {
    pub hash: B256,
}

/// A block with its transactions and their receipts. The receipt of the
/// transaction at position `i` is `receipts[i]`; it may be absent.
#[derive(Clone, Debug)]
pub struct Block {
    pub number: u64,
    pub hash: B256,
    pub state_root: B256,
    pub transactions: Vec<Transaction>,
    pub receipts: Vec<Option<Receipt>>,
}

/// Block numbers rise by one from each block to the next.
pub open spec fn contiguous(blocks: Seq<Block>) -> bool {
    forall|i: int| 0 <= i < blocks.len() ==> (#[trigger] blocks[i]).number == blocks[0].number + i
}

/// A contiguous run of blocks in ascending order. It cannot be changed once made.
#[derive(Debug)]
pub struct ChainSegment {
    blocks: Vec<Block>,
}

impl View for ChainSegment {
    type V = Seq<Block>;

    closed spec fn view(&self) -> Seq<Block> {
        self.blocks@
    }
}

impl ChainSegment {
    #[verifier::type_invariant]
    spec fn well_formed(self) -> bool {
        contiguous(self.blocks@)
    }

    /// Makes a segment of the given blocks, if their numbers are contiguous.
    pub fn new(blocks: Vec<Block>) -> (segment: Option<ChainSegment>)
        ensures
            segment is Some <==> contiguous(blocks@),
            segment matches Some(s) ==> s@ == blocks@,
    {
        let mut i: usize = 1;
        while i < blocks.len()
            invariant
                1 <= i,
                forall|k: int| 0 <= k < i && k < blocks@.len() ==> (#[trigger] blocks@[k]).number
                    == blocks@[0].number + k,
            decreases blocks.len() - i,
        {
            let previous: u64 = blocks[i - 1].number;
            if previous == u64::MAX || blocks[i].number != previous + 1 {
                assert(blocks@[i as int].number != blocks@[0].number + i);
                return None;
            }
            i += 1;
        }
        Some(ChainSegment { blocks })
    }

    /// The blocks of the segment, in ascending order.
    pub fn blocks(&self) -> (blocks: &Vec<Block>)
        ensures
            blocks@ == self@,
            contiguous(blocks@),
    {
        proof {
            use_type_invariant(self);
        }
        &self.blocks
    }

    /// The number of blocks.
    pub fn len(&self) -> (n: usize)
        ensures
            n == self@.len(),
    {
        self.blocks.len()
    }

    /// Whether the segment holds no block.
    pub fn is_empty(&self) -> (empty: bool)
        ensures
            empty == (self@.len() == 0),
    {
        self.blocks.len() == 0
    }

    /// The block with the lowest number, if there is one.
    pub fn first(&self) -> (block: Option<&Block>)
        ensures
            self@.len() == 0 ==> block is None,
            self@.len() > 0 ==> block == Some(&self@[0]),
    {
        if self.blocks.len() == 0 {
            None
        } else {
            Some(&self.blocks[0])
        }
    }

    /// The block with the highest number, if there is one.
    pub fn tip(&self) -> (block: Option<&Block>)
        ensures
            self@.len() == 0 ==> block is None,
            self@.len() > 0 ==> block == Some(&self@[self@.len() - 1]),
    {
        let n = self.blocks.len();
        if n == 0 {
            None
        } else {
            Some(&self.blocks[n - 1])
        }
    }

    /// The numbers of the first and the last block, both included.
    pub fn range(&self) -> (range: Option<(u64, u64)>)
        ensures
            self@.len() == 0 ==> range is None,
            self@.len() > 0 ==> range == Some((self@[0].number, self@[self@.len() - 1].number)),
            range matches Some((low, high)) ==> high - low == self@.len() - 1,
    {
        proof {
            use_type_invariant(self);
        }
        let n = self.blocks.len();
        if n == 0 {
            None
        } else {
            Some((self.blocks[0].number, self.blocks[n - 1].number))
        }
    }
}

/// One element of the host's notification stream.
#[derive(Debug)]
pub enum ChainNotification {
    /// A range of blocks joined the canonical chain.
    Committed { new: ChainSegment },
    /// A committed range was replaced by another.
    Reorged { old: ChainSegment, new: ChainSegment },
    /// A committed range was withdrawn.
    Reverted { old: ChainSegment },
}

impl ChainNotification {
    /// The segment that this notification commits. A reorg commits none: it
    /// implies no progress.
    pub fn committed(&self) -> (segment: Option<&ChainSegment>)
        ensures
            segment == match *self {
                ChainNotification::Committed { new } => Some(&new),
                _ => None::<&ChainSegment>,
            },
    {
        match self {
            ChainNotification::Committed { new } => Some(new),
            _ => None,
        }
    }
}

} // verus!
