use state_root_bridge::chain::{Block, ChainNotification, ChainSegment};
use state_root_bridge::primitives::B256;

fn empty_block(number: u64) -> Block {
    Block {
        number,
        hash: B256 { bytes: [number as u8; 32] },
        state_root: B256 { bytes: [0xee; 32] },
        transactions: vec![],
        receipts: vec![],
    }
}

#[test]
fn segment_of_contiguous_blocks() {
    let segment = ChainSegment::new(vec![empty_block(5), empty_block(6), empty_block(7)]).unwrap();
    assert_eq!(segment.len(), 3);
    assert!(!segment.is_empty());
    assert_eq!(segment.range(), Some((5, 7)));
    assert_eq!(segment.first().unwrap().number, 5);
    assert_eq!(segment.tip().unwrap().number, 7);
    assert_eq!(segment.blocks().len(), 3);
    assert_eq!(segment.blocks()[1].number, 6);
}

#[test]
fn segment_of_one_block() {
    let segment = ChainSegment::new(vec![empty_block(42)]).unwrap();
    assert_eq!(segment.range(), Some((42, 42)));
    assert_eq!(segment.tip().unwrap().hash, B256 { bytes: [42; 32] });
}

#[test]
fn empty_segment() {
    let segment = ChainSegment::new(vec![]).unwrap();
    assert_eq!(segment.len(), 0);
    assert!(segment.is_empty());
    assert_eq!(segment.range(), None);
    assert!(segment.first().is_none());
    assert!(segment.tip().is_none());
}

#[test]
fn segment_refuses_a_gap() {
    assert!(ChainSegment::new(vec![empty_block(1), empty_block(3)]).is_none());
}

#[test]
fn segment_refuses_descending_and_repeated_numbers() {
    assert!(ChainSegment::new(vec![empty_block(2), empty_block(1)]).is_none());
    assert!(ChainSegment::new(vec![empty_block(2), empty_block(2)]).is_none());
    assert!(ChainSegment::new(vec![empty_block(1), empty_block(2), empty_block(4)]).is_none());
}

#[test]
fn segment_at_the_highest_block_number() {
    assert!(ChainSegment::new(vec![empty_block(u64::MAX - 1), empty_block(u64::MAX)]).is_some());
    assert!(ChainSegment::new(vec![empty_block(u64::MAX), empty_block(0)]).is_none());
}

#[test]
fn only_a_commit_has_a_committed_segment() {
    let commit = ChainNotification::Committed { new: ChainSegment::new(vec![empty_block(1)]).unwrap() };
    assert_eq!(commit.committed().unwrap().range(), Some((1, 1)));
    let reorg = ChainNotification::Reorged {
        old: ChainSegment::new(vec![empty_block(1)]).unwrap(),
        new: ChainSegment::new(vec![empty_block(1), empty_block(2)]).unwrap(),
    };
    assert!(reorg.committed().is_none());
    let revert = ChainNotification::Reverted { old: ChainSegment::new(vec![empty_block(1)]).unwrap() };
    assert!(revert.committed().is_none());
}
