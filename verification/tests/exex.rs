use state_root_bridge::chain::{Block, ChainNotification, ChainSegment, Log, Receipt, Transaction};
use state_root_bridge::exex::{step, Acknowledgement, Action, LogRecord, LoopInput, LoopState};
use state_root_bridge::primitives::{Address, B256};

const EVENT_TOPIC: [u8; 32] = [
    0x20, 0xd8, 0xa6, 0xf5, 0xa6, 0x93, 0xf9, 0xd1, 0xd6, 0x27, 0xa5, 0x98, 0xe8, 0x82, 0x0f, 0x7a,
    0x55, 0xee, 0x74, 0xc1, 0x83, 0xaa, 0x8f, 0x1a, 0x30, 0xe8, 0xd4, 0xe8, 0xdd, 0x9a, 0x8d, 0x84,
];

const TARGET: Address = Address { bytes: [0x11; 20] };
const STRANGER: Address = Address { bytes: [0x22; 20] };

fn hit() -> Log {
    Log { address: TARGET, topics: vec![B256 { bytes: EVENT_TOPIC }], data: vec![0u8; 32] }
}

fn miss() -> Log {
    Log { address: STRANGER, topics: vec![B256 { bytes: EVENT_TOPIC }], data: vec![0u8; 32] }
}

fn block_with(number: u64, logs: Vec<Log>) -> Block {
    Block {
        number,
        hash: B256 { bytes: [number as u8; 32] },
        state_root: B256 { bytes: [number as u8 + 100; 32] },
        transactions: vec![Transaction { hash: B256 { bytes: [1; 32] } }],
        receipts: vec![Some(Receipt { logs })],
    }
}

fn commit(blocks: Vec<Block>) -> LoopInput {
    LoopInput::Notification(ChainNotification::Committed { new: ChainSegment::new(blocks).unwrap() })
}

fn root(number: u8) -> B256 {
    B256 { bytes: [number + 100; 32] }
}

fn ack(number: u8) -> Acknowledgement {
    Acknowledgement { number: number as u64, hash: B256 { bytes: [number; 32] } }
}

#[test]
fn commit_with_one_event_notifies_once_and_acknowledges_once() {
    let first = step(&LoopState::Running, commit(vec![block_with(5, vec![hit(), miss()])]), &TARGET).unwrap();
    assert_eq!(first.action, Action::SubmitStateRoot(root(5)));
    assert_eq!(first.state, LoopState::Submitting { state_root: root(5), pending: 0, tip: ack(5) });
    assert_eq!(
        first.logs,
        vec![LogRecord::Commit { range: Some((5, 5)) }, LogRecord::StateRoot(root(5))]
    );
    let tx_id = B256 { bytes: [0xcc; 32] };
    let second = step(&first.state, LoopInput::Submitted(Ok(tx_id)), &TARGET).unwrap();
    assert_eq!(second.logs, vec![LogRecord::Notified { tx_id }]);
    assert_eq!(second.action, Action::Acknowledge(ack(5)));
    assert_eq!(second.state, LoopState::Acknowledging);
    let third = step(&second.state, LoopInput::AckDelivered, &TARGET).unwrap();
    assert_eq!(third.action, Action::AwaitNotification);
    assert_eq!(third.state, LoopState::Running);
    assert!(third.logs.is_empty());
}

#[test]
fn commit_without_matching_logs_is_still_acknowledged() {
    let only = step(&LoopState::Running, commit(vec![block_with(3, vec![miss()])]), &TARGET).unwrap();
    assert_eq!(only.action, Action::Acknowledge(ack(3)));
    assert_eq!(only.state, LoopState::Acknowledging);
    assert_eq!(
        only.logs,
        vec![LogRecord::Commit { range: Some((3, 3)) }, LogRecord::StateRoot(root(3))]
    );
}

#[test]
fn failed_submission_is_recorded_and_the_loop_goes_on() {
    let first = step(&LoopState::Running, commit(vec![block_with(8, vec![hit()])]), &TARGET).unwrap();
    let failure = LoopInput::Submitted(Err(String::from("transport error")));
    let second = step(&first.state, failure, &TARGET).unwrap();
    assert_eq!(second.logs, vec![LogRecord::NotifyFailed { error: String::from("transport error") }]);
    assert_eq!(second.action, Action::Acknowledge(ack(8)));
    let third = step(&second.state, LoopInput::AckDelivered, &TARGET).unwrap();
    assert_eq!(third.state, LoopState::Running);
    let next = step(&third.state, commit(vec![block_with(9, vec![])]), &TARGET).unwrap();
    assert_eq!(next.action, Action::Acknowledge(ack(9)));
}

#[test]
fn reorg_is_recorded_and_not_acknowledged() {
    let reorg = LoopInput::Notification(ChainNotification::Reorged {
        old: ChainSegment::new(vec![block_with(4, vec![hit()])]).unwrap(),
        new: ChainSegment::new(vec![block_with(4, vec![miss()]), block_with(5, vec![])]).unwrap(),
    });
    let only = step(&LoopState::Running, reorg, &TARGET).unwrap();
    assert_eq!(only.action, Action::AwaitNotification);
    assert_eq!(only.state, LoopState::Running);
    assert_eq!(only.logs, vec![LogRecord::Reorg { old: Some((4, 4)), new: Some((4, 5)) }]);
}

#[test]
fn reorg_with_matching_events_is_not_notified() {
    let reorg = LoopInput::Notification(ChainNotification::Reorged {
        old: ChainSegment::new(vec![block_with(4, vec![hit()])]).unwrap(),
        new: ChainSegment::new(vec![block_with(4, vec![hit(), hit()])]).unwrap(),
    });
    let only = step(&LoopState::Running, reorg, &TARGET).unwrap();
    assert_eq!(only.action, Action::AwaitNotification);
    assert_eq!(only.state, LoopState::Running);
}

#[test]
fn revert_is_recorded_and_not_acknowledged() {
    let revert = LoopInput::Notification(ChainNotification::Reverted {
        old: ChainSegment::new(vec![block_with(6, vec![hit()]), block_with(7, vec![hit()])]).unwrap(),
    });
    let only = step(&LoopState::Running, revert, &TARGET).unwrap();
    assert_eq!(only.action, Action::AwaitNotification);
    assert_eq!(only.state, LoopState::Running);
    assert_eq!(only.logs, vec![LogRecord::Revert { old: Some((6, 7)) }]);
}

#[test]
fn every_event_of_a_commit_relays_the_tip_state_root() {
    let blocks = vec![block_with(1, vec![hit(), hit()]), block_with(2, vec![miss()]), block_with(3, vec![hit()])];
    let mut current = step(&LoopState::Running, commit(blocks), &TARGET).unwrap();
    assert_eq!(current.logs[0], LogRecord::Commit { range: Some((1, 3)) });
    let mut calls = 0;
    let mut acknowledgements = vec![];
    loop {
        match current.action {
            Action::SubmitStateRoot(state_root) => {
                assert_eq!(state_root, root(3));
                calls += 1;
                let outcome = if calls == 2 { Err(String::from("reverted")) } else { Ok(B256 { bytes: [calls; 32] }) };
                current = step(&current.state, LoopInput::Submitted(outcome), &TARGET).unwrap();
            }
            Action::Acknowledge(acknowledgement) => {
                acknowledgements.push(acknowledgement);
                current = step(&current.state, LoopInput::AckDelivered, &TARGET).unwrap();
            }
            Action::AwaitNotification => break,
            Action::Finish | Action::Abort => panic!("the loop stopped"),
        }
    }
    assert_eq!(calls, 3);
    assert_eq!(acknowledgements, vec![ack(3)]);
    assert_eq!(current.state, LoopState::Running);
}

#[test]
fn acknowledgement_refers_to_the_tip_of_the_committed_segment() {
    let only = step(&LoopState::Running, commit(vec![block_with(20, vec![]), block_with(21, vec![])]), &TARGET).unwrap();
    assert_eq!(only.action, Action::Acknowledge(ack(21)));
}

#[test]
fn commit_of_an_empty_segment_has_nothing_to_acknowledge() {
    let only = step(&LoopState::Running, commit(vec![]), &TARGET).unwrap();
    assert_eq!(only.action, Action::AwaitNotification);
    assert_eq!(only.state, LoopState::Running);
    assert_eq!(only.logs, vec![LogRecord::Commit { range: None }]);
}

#[test]
fn end_of_stream_finishes_the_loop() {
    let only = step(&LoopState::Running, LoopInput::StreamEnded, &TARGET).unwrap();
    assert_eq!(only.action, Action::Finish);
    assert_eq!(only.state, LoopState::Finished);
    assert!(step(&only.state, LoopInput::StreamEnded, &TARGET).is_none());
}

#[test]
fn undelivered_acknowledgement_aborts_the_loop() {
    let only = step(&LoopState::Acknowledging, LoopInput::AckFailed, &TARGET).unwrap();
    assert_eq!(only.action, Action::Abort);
    assert_eq!(only.state, LoopState::Failed);
    assert!(step(&only.state, commit(vec![block_with(1, vec![])]), &TARGET).is_none());
}

#[test]
fn inputs_that_a_state_does_not_await_are_refused() {
    let submitting = LoopState::Submitting { state_root: root(1), pending: 1, tip: ack(1) };
    assert!(step(&LoopState::Running, LoopInput::AckDelivered, &TARGET).is_none());
    assert!(step(&LoopState::Running, LoopInput::Submitted(Ok(root(1))), &TARGET).is_none());
    assert!(step(&submitting, LoopInput::StreamEnded, &TARGET).is_none());
    assert!(step(&submitting, LoopInput::AckDelivered, &TARGET).is_none());
    assert!(step(&submitting, commit(vec![block_with(1, vec![])]), &TARGET).is_none());
    assert!(step(&LoopState::Acknowledging, LoopInput::Submitted(Ok(root(1))), &TARGET).is_none());
    assert!(step(&LoopState::Acknowledging, LoopInput::StreamEnded, &TARGET).is_none());
}

#[test]
fn pending_calls_are_counted_down() {
    let submitting = LoopState::Submitting { state_root: root(1), pending: 2, tip: ack(1) };
    let next = step(&submitting, LoopInput::Submitted(Ok(root(9))), &TARGET).unwrap();
    assert_eq!(next.state, LoopState::Submitting { state_root: root(1), pending: 1, tip: ack(1) });
    assert_eq!(next.action, Action::SubmitStateRoot(root(1)));
}
