//! The notification loop as a state machine. The driver feeds it what the host
//! and the L1 transport report, and performs the action that each step names.

use vstd::prelude::*;
use crate::chain::{Block, ChainNotification, ChainSegment};
use crate::event::{incremented_selector, keccak256};
use crate::extract::{extract_with_selector, extracted, views};
use crate::primitives::{Address, B256};

verus! {

/// Tells the host that everything up to and including this block has been
/// processed.
#[derive(Clone, Copy, Debug, PartialEq, Eq)]
pub struct Acknowledgement {
    pub number: u64,
    pub hash: B256,
}

/// Where the loop stands.
#[derive(Clone, Copy, Debug, PartialEq, Eq)]
pub enum LoopState {
    /// Awaiting the next notification.
    Running,
    /// Processing a commit: one state-root call is in flight, `pending` more
    /// follow it, and then `tip` is acknowledged.
    Submitting { state_root: B256, pending: usize, tip: Acknowledgement },
    /// Processing a commit: the acknowledgement is on its way to the host.
    Acknowledging,
    /// The host's stream ended.
    Finished,
    /// The host did not take an acknowledgement.
    Failed,
}

/// What the driver reports to the loop.
#[derive(Debug)]
pub enum LoopInput {
    /// The host's stream yielded a notification.
    Notification(ChainNotification),
    /// The host's stream ended.
    StreamEnded,
    /// The L1 transport answered a state-root call: with the transaction's
    /// id, or with the text of an error.
    Submitted(Result<B256, String>),
    /// The host took the acknowledgement.
    AckDelivered,
    /// The host did not take the acknowledgement.
    AckFailed,
}

/// What the driver does next.
#[derive(Clone, Copy, Debug, PartialEq, Eq)]
pub enum Action {
    /// Await the next notification of the host's stream.
    AwaitNotification,
    /// Submit one call that relays this state root, and await its outcome.
    SubmitStateRoot(B256),
    /// Hand this acknowledgement to the host.
    Acknowledge(Acknowledgement),
    /// Return without error.
    Finish,
    /// Return the host channel's error.
    Abort,
}

/// What a step has to put on record.
#[derive(Debug, PartialEq, Eq)]
pub enum LogRecord {
    /// A commit arrived, with this range of block numbers.
    Commit { range: Option<(u64, u64)> },
    /// The state root of the committed tip.
    StateRoot(B256),
    /// A reorg arrived, from this range to that.
    Reorg { old: Option<(u64, u64)>, new: Option<(u64, u64)> },
    /// A revert arrived, of this range.
    Revert { old: Option<(u64, u64)> },
    /// The L1 took a state-root call under this transaction id.
    Notified { tx_id: B256 },
    /// A state-root call failed with this error. It is not made again.
    NotifyFailed { error: String },
}

/// One step of the loop: the state it leads to, what it records, and what the
/// driver does next.
#[derive(Debug)]
pub struct Step {
    pub state: LoopState,
    pub logs: Vec<LogRecord>,
    pub action: Action,
}

/// A step as plain values.
pub struct Planned {
    pub state: LoopState,
    pub logs: Seq<LogRecord>,
    pub action: Action,
}

impl View for Step {
    type V = Planned;

    open spec fn view(&self) -> Planned {
        Planned { state: self.state, logs: self.logs@, action: self.action }
    }
}

/// The first and the last block number of a run of blocks.
pub open spec fn range_of(blocks: Seq<Block>) -> Option<(u64, u64)> {
    if blocks.len() == 0 {
        None
    } else {
        Some((blocks[0].number, blocks[blocks.len() - 1].number))
    }
}

/// The acknowledgement of a block.
pub open spec fn acknowledgement_of(block: Block) -> Acknowledgement {
    Acknowledgement { number: block.number, hash: block.hash }
}

/// The record of a state-root call's outcome.
pub open spec fn reported(outcome: Result<B256, String>) -> LogRecord {
    match outcome {
        Ok(tx_id) => LogRecord::Notified { tx_id },
        Err(error) => LogRecord::NotifyFailed { error },
    }
}

/// The step that a commit of `blocks` leads to, where `count` of its logs
/// qualify.
pub open spec fn on_commit(blocks: Seq<Block>, count: nat) -> Planned {
    if blocks.len() == 0 {
        Planned {
            state: LoopState::Running,
            logs: seq![LogRecord::Commit { range: None }],
            action: Action::AwaitNotification,
        }
    } else {
        let tip = blocks[blocks.len() - 1];
        let logs = seq![
            LogRecord::Commit { range: range_of(blocks) },
            LogRecord::StateRoot(tip.state_root),
        ];
        if count == 0 {
            Planned {
                state: LoopState::Acknowledging,
                logs,
                action: Action::Acknowledge(acknowledgement_of(tip)),
            }
        } else {
            Planned {
                state: LoopState::Submitting {
                    state_root: tip.state_root,
                    pending: (count - 1) as usize,
                    tip: acknowledgement_of(tip),
                },
                logs,
                action: Action::SubmitStateRoot(tip.state_root),
            }
        }
    }
}

/// The step that a notification leads to while the loop is running.
pub open spec fn on_notification(
    notification: ChainNotification,
    target: Seq<u8>,
    selector: Seq<u8>,
) -> Planned {
    match notification {
        ChainNotification::Committed { new } => on_commit(
            new@,
            extracted(new@, target, selector).len(),
        ),
        ChainNotification::Reorged { old, new } => Planned {
            state: LoopState::Running,
            logs: seq![LogRecord::Reorg { old: range_of(old@), new: range_of(new@) }],
            action: Action::AwaitNotification,
        },
        ChainNotification::Reverted { old } => Planned {
            state: LoopState::Running,
            logs: seq![LogRecord::Revert { old: range_of(old@) }],
            action: Action::AwaitNotification,
        },
    }
}

/// The step that an outcome of a state-root call leads to.
pub open spec fn on_outcome(
    state_root: B256,
    pending: usize,
    tip: Acknowledgement,
    outcome: Result<B256, String>,
) -> Planned {
    if pending == 0 {
        Planned {
            state: LoopState::Acknowledging,
            logs: seq![reported(outcome)],
            action: Action::Acknowledge(tip),
        }
    } else {
        Planned {
            state: LoopState::Submitting { state_root, pending: (pending - 1) as usize, tip },
            logs: seq![reported(outcome)],
            action: Action::SubmitStateRoot(state_root),
        }
    }
}

/// The step that an input leads to from a state, or `None` where the state
/// does not await that input.
pub open spec fn transition(
    state: LoopState,
    input: LoopInput,
    target: Seq<u8>,
    selector: Seq<u8>,
) -> Option<Planned> {
    match (state, input) {
        (LoopState::Running, LoopInput::Notification(notification)) => Some(
            on_notification(notification, target, selector),
        ),
        (LoopState::Running, LoopInput::StreamEnded) => Some(
            Planned { state: LoopState::Finished, logs: Seq::empty(), action: Action::Finish },
        ),
        (LoopState::Submitting { state_root, pending, tip }, LoopInput::Submitted(outcome)) => Some(
            on_outcome(state_root, pending, tip, outcome),
        ),
        (LoopState::Acknowledging, LoopInput::AckDelivered) => Some(
            Planned {
                state: LoopState::Running,
                logs: Seq::empty(),
                action: Action::AwaitNotification,
            },
        ),
        (LoopState::Acknowledging, LoopInput::AckFailed) => Some(
            Planned { state: LoopState::Failed, logs: Seq::empty(), action: Action::Abort },
        ),
        _ => None,
    }
}

/// The loop run over a sequence of inputs: the state it ends in and the
/// actions it names on the way, or `None` where an input comes that the state
/// does not await.
pub open spec fn run(
    state: LoopState,
    inputs: Seq<LoopInput>,
    target: Seq<u8>,
    selector: Seq<u8>,
) -> Option<(LoopState, Seq<Action>)>
    decreases inputs.len(),
{
    if inputs.len() == 0 {
        Some((state, Seq::empty()))
    } else {
        match transition(state, inputs[0], target, selector) {
            None => None,
            Some(planned) => match run(planned.state, inputs.drop_first(), target, selector) {
                None => None,
                Some((end, actions)) => Some((end, seq![planned.action] + actions)),
            },
        }
    }
}

/// The outcomes of state-root calls as inputs of the loop, followed by the
/// host taking the acknowledgement.
pub open spec fn outcomes_then_delivery(outcomes: Seq<Result<B256, String>>) -> Seq<LoopInput> {
    Seq::new(outcomes.len(), |i: int| LoopInput::Submitted(outcomes[i])).push(
        LoopInput::AckDelivered,
    )
}

/// The actions of a commit with `calls` state-root calls: the calls, one
/// acknowledgement, and the wait for the next notification.
pub open spec fn commit_actions(state_root: B256, tip: Acknowledgement, calls: nat) -> Seq<Action> {
    Seq::new(calls, |i: int| Action::SubmitStateRoot(state_root)).push(
        Action::Acknowledge(tip),
    ).push(Action::AwaitNotification)
}

proof fn lemma_run_submitting(
    state_root: B256,
    pending: usize,
    tip: Acknowledgement,
    outcomes: Seq<Result<B256, String>>,
    target: Seq<u8>,
    selector: Seq<u8>,
)
    requires
        outcomes.len() == pending + 1,
    ensures
        run(
            LoopState::Submitting { state_root, pending, tip },
            outcomes_then_delivery(outcomes),
            target,
            selector,
        ) == Some((LoopState::Running, commit_actions(state_root, tip, pending as nat))),
    decreases pending,
{
    let state = LoopState::Submitting { state_root, pending, tip };
    let inputs = outcomes_then_delivery(outcomes);
    let planned = on_outcome(state_root, pending, tip, outcomes[0]);
    assert(inputs[0] == LoopInput::Submitted(outcomes[0]));
    assert(transition(state, inputs[0], target, selector) == Some(planned));
    let rest = inputs.drop_first();
    assert(rest =~= outcomes_then_delivery(outcomes.drop_first()));
    if pending == 0 {
        assert(rest[0] == LoopInput::AckDelivered);
        assert(rest.drop_first() =~= Seq::<LoopInput>::empty());
        assert(run(LoopState::Running, rest.drop_first(), target, selector) == Some(
            (LoopState::Running, Seq::<Action>::empty()),
        ));
        assert(run(LoopState::Acknowledging, rest, target, selector) == Some(
            (LoopState::Running, seq![Action::AwaitNotification] + Seq::<Action>::empty()),
        ));
        assert(seq![Action::Acknowledge(tip)] + (seq![Action::AwaitNotification] + Seq::<
            Action,
        >::empty()) =~= commit_actions(state_root, tip, 0));
    } else {
        lemma_run_submitting(
            state_root,
            (pending - 1) as usize,
            tip,
            outcomes.drop_first(),
            target,
            selector,
        );
        assert(seq![Action::SubmitStateRoot(state_root)] + commit_actions(
            state_root,
            tip,
            (pending - 1) as nat,
        ) =~= commit_actions(state_root, tip, pending as nat));
    }
}

/// A commit of a segment that is not empty is acknowledged exactly once, with
/// the segment's tip, after one state-root call for each extracted event and
/// whatever the outcomes of those calls; the loop then awaits the next
/// notification.
pub proof fn lemma_commit_acknowledged_once(
    new: ChainSegment,
    outcomes: Seq<Result<B256, String>>,
    target: Seq<u8>,
    selector: Seq<u8>,
)
    requires
        new@.len() > 0,
        extracted(new@, target, selector).len() <= usize::MAX,
        outcomes.len() == extracted(new@, target, selector).len(),
    ensures
        run(
            LoopState::Running,
            seq![LoopInput::Notification(ChainNotification::Committed { new })]
                + outcomes_then_delivery(outcomes),
            target,
            selector,
        ) == Some(
            (
                LoopState::Running,
                commit_actions(
                    new@[new@.len() - 1].state_root,
                    acknowledgement_of(new@[new@.len() - 1]),
                    outcomes.len(),
                ),
            ),
        ),
{
    let tip = new@[new@.len() - 1];
    let count = outcomes.len();
    let first = LoopInput::Notification(ChainNotification::Committed { new });
    let inputs = seq![first] + outcomes_then_delivery(outcomes);
    let planned = on_commit(new@, count);
    assert(inputs[0] == first);
    assert(transition(LoopState::Running, inputs[0], target, selector) == Some(planned));
    let rest = inputs.drop_first();
    assert(rest =~= outcomes_then_delivery(outcomes));
    let expected = commit_actions(tip.state_root, acknowledgement_of(tip), count);
    if count == 0 {
        assert(rest[0] == LoopInput::AckDelivered);
        assert(rest.drop_first() =~= Seq::<LoopInput>::empty());
        assert(run(LoopState::Running, rest.drop_first(), target, selector) == Some(
            (LoopState::Running, Seq::<Action>::empty()),
        ));
        assert(run(LoopState::Acknowledging, rest, target, selector) == Some(
            (LoopState::Running, seq![Action::AwaitNotification] + Seq::<Action>::empty()),
        ));
        assert(seq![Action::Acknowledge(acknowledgement_of(tip))] + (seq![
            Action::AwaitNotification,
        ] + Seq::<Action>::empty()) =~= expected);
    } else {
        lemma_run_submitting(
            tip.state_root,
            (count - 1) as usize,
            acknowledgement_of(tip),
            outcomes,
            target,
            selector,
        );
        assert(seq![Action::SubmitStateRoot(tip.state_root)] + commit_actions(
            tip.state_root,
            acknowledgement_of(tip),
            (count - 1) as nat,
        ) =~= expected);
    }
}

/// Among the actions of a commit exactly one is an acknowledgement.
pub proof fn lemma_commit_actions_hold_one_acknowledgement(
    state_root: B256,
    tip: Acknowledgement,
    calls: nat,
    i: int,
)
    requires
        0 <= i < commit_actions(state_root, tip, calls).len(),
    ensures
        commit_actions(state_root, tip, calls)[i] is Acknowledge <==> i == calls,
        commit_actions(state_root, tip, calls)[calls as int] == Action::Acknowledge(tip),
{
}

/// A reorg or a revert is never acknowledged: its step records it and awaits
/// the next notification, and no state but the running one takes it.
pub proof fn lemma_no_acknowledgement_without_commit(
    state: LoopState,
    notification: ChainNotification,
    target: Seq<u8>,
    selector: Seq<u8>,
)
    requires
        !(notification is Committed),
    ensures
        match transition(state, LoopInput::Notification(notification), target, selector) {
            Some(planned) => state is Running && planned.state is Running && planned.action
                == Action::AwaitNotification,
            None => !(state is Running),
        },
{
}

/// A failed state-root call changes nothing but the record: the step that
/// follows it names the same action and leads to the same state as the step
/// that follows a call that succeeded.
pub proof fn lemma_failure_is_not_escalated(
    state: LoopState,
    tx_id: B256,
    error: String,
    target: Seq<u8>,
    selector: Seq<u8>,
)
    requires
        state is Submitting,
    ensures
        transition(state, LoopInput::Submitted(Err(error)), target, selector) matches Some(failed)
            && transition(state, LoopInput::Submitted(Ok(tx_id)), target, selector) matches Some(
            succeeded,
        ) && failed.state == succeeded.state && failed.action == succeeded.action
            && !(failed.state is Failed) && !(failed.action is Abort) && failed.logs
            == seq![LogRecord::NotifyFailed { error }],
{
}

/// The acknowledgement that an action hands to the host, if it is one.
pub open spec fn acknowledged_by(action: Action) -> Seq<Acknowledgement> {
    match action {
        Action::Acknowledge(acknowledgement) => seq![acknowledgement],
        _ => Seq::empty(),
    }
}

/// The acknowledgements among a sequence of actions, in order.
pub open spec fn acknowledged(actions: Seq<Action>) -> Seq<Acknowledgement>
    decreases actions.len(),
{
    if actions.len() == 0 {
        Seq::empty()
    } else {
        acknowledged_by(actions[0]) + acknowledged(actions.drop_first())
    }
}

/// The acknowledgement that an input calls for: the tip of a commit that is
/// not empty.
pub open spec fn called_for_by(input: LoopInput) -> Seq<Acknowledgement> {
    match input {
        LoopInput::Notification(ChainNotification::Committed { new }) => if new@.len() > 0 {
            seq![acknowledgement_of(new@[new@.len() - 1])]
        } else {
            Seq::empty()
        },
        _ => Seq::empty(),
    }
}

/// The acknowledgements that a sequence of inputs calls for, in order.
pub open spec fn called_for(inputs: Seq<LoopInput>) -> Seq<Acknowledgement>
    decreases inputs.len(),
{
    if inputs.len() == 0 {
        Seq::empty()
    } else {
        called_for_by(inputs[0]) + called_for(inputs.drop_first())
    }
}

/// The acknowledgement that a state still owes: that of the commit whose
/// state-root calls are under way.
pub open spec fn owed(state: LoopState) -> Seq<Acknowledgement> {
    match state {
        LoopState::Submitting { tip, .. } => seq![tip],
        _ => Seq::empty(),
    }
}

/// Over any run, the acknowledgements handed to the host, with the one still
/// owed at the end, are those owed at the start and the tips of the commits
/// that arrived, in their order: each commit is acknowledged once, and nothing
/// else ever is.
pub proof fn lemma_acknowledgements_follow_commits(
    state: LoopState,
    inputs: Seq<LoopInput>,
    target: Seq<u8>,
    selector: Seq<u8>,
)
    requires
        run(state, inputs, target, selector) is Some,
    ensures
        run(state, inputs, target, selector) matches Some((end, actions)) && acknowledged(actions)
            + owed(end) == owed(state) + called_for(inputs),
    decreases inputs.len(),
{
    let (end, actions) = run(state, inputs, target, selector)->0;
    if inputs.len() == 0 {
        assert(acknowledged(actions) + owed(end) =~= owed(state) + called_for(inputs));
    } else {
        let planned = transition(state, inputs[0], target, selector)->0;
        let rest = inputs.drop_first();
        let (rest_end, rest_actions) = run(planned.state, rest, target, selector)->0;
        lemma_acknowledgements_follow_commits(planned.state, rest, target, selector);
        assert(actions[0] == planned.action);
        assert(actions.drop_first() =~= rest_actions);
        assert(acknowledged_by(planned.action) + owed(planned.state) =~= owed(state)
            + called_for_by(inputs[0]));
        assert(acknowledged(actions) + owed(end) =~= acknowledged_by(planned.action) + (
        acknowledged(rest_actions) + owed(rest_end)));
        assert(owed(state) + called_for(inputs) =~= owed(state) + called_for_by(inputs[0])
            + called_for(rest));
        assert(acknowledged_by(planned.action) + (owed(planned.state) + called_for(rest))
            =~= acknowledged_by(planned.action) + owed(planned.state) + called_for(rest));
    }
}

/// The step of a commit.
fn commit_step(new: &ChainSegment, target: &Address, selector: &B256) -> (step: Step)
    ensures
        step@ == on_commit(new@, extracted(new@, target@, selector@).len()),
{
    let mut logs: Vec<LogRecord> = Vec::new();
    logs.push(LogRecord::Commit { range: new.range() });
    match new.tip() {
        None => {
            assert(logs@ =~= seq![LogRecord::Commit { range: None }]);
            Step { state: LoopState::Running, logs, action: Action::AwaitNotification }
        },
        Some(tip) => {
            logs.push(LogRecord::StateRoot(tip.state_root));
            assert(logs@ =~= seq![
                LogRecord::Commit { range: range_of(new@) },
                LogRecord::StateRoot(tip.state_root),
            ]);
            let events = extract_with_selector(new, target, selector);
            assert(views(events@).len() == events@.len());
            let acknowledgement = Acknowledgement { number: tip.number, hash: tip.hash };
            if events.len() == 0 {
                Step {
                    state: LoopState::Acknowledging,
                    logs,
                    action: Action::Acknowledge(acknowledgement),
                }
            } else {
                Step {
                    state: LoopState::Submitting {
                        state_root: tip.state_root,
                        pending: events.len() - 1,
                        tip: acknowledgement,
                    },
                    logs,
                    action: Action::SubmitStateRoot(tip.state_root),
                }
            }
        },
    }
}

/// One step of the loop against a given event selector.
pub fn step_with_selector(
    state: &LoopState,
    input: LoopInput,
    target: &Address,
    selector: &B256,
) -> (step: Option<Step>)
    ensures
        match transition(*state, input, target@, selector@) {
            Some(planned) => step matches Some(s) && s@ == planned,
            None => step is None,
        },
{
    match (*state, input) {
        (LoopState::Running, LoopInput::Notification(notification)) => {
            let mut logs: Vec<LogRecord> = Vec::new();
            match &notification {
                ChainNotification::Committed { new } => Some(commit_step(new, target, selector)),
                ChainNotification::Reorged { old, new } => {
                    logs.push(LogRecord::Reorg { old: old.range(), new: new.range() });
                    Some(Step { state: LoopState::Running, logs, action: Action::AwaitNotification })
                },
                ChainNotification::Reverted { old } => {
                    logs.push(LogRecord::Revert { old: old.range() });
                    Some(Step { state: LoopState::Running, logs, action: Action::AwaitNotification })
                },
            }
        },
        (LoopState::Running, LoopInput::StreamEnded) => Some(
            Step { state: LoopState::Finished, logs: Vec::new(), action: Action::Finish },
        ),
        (LoopState::Submitting { state_root, pending, tip }, LoopInput::Submitted(outcome)) => {
            let mut logs: Vec<LogRecord> = Vec::new();
            match outcome {
                Ok(tx_id) => logs.push(LogRecord::Notified { tx_id }),
                Err(error) => logs.push(LogRecord::NotifyFailed { error }),
            }
            if pending == 0 {
                Some(Step { state: LoopState::Acknowledging, logs, action: Action::Acknowledge(tip) })
            } else {
                Some(
                    Step {
                        state: LoopState::Submitting { state_root, pending: pending - 1, tip },
                        logs,
                        action: Action::SubmitStateRoot(state_root),
                    },
                )
            }
        },
        (LoopState::Acknowledging, LoopInput::AckDelivered) => Some(
            Step { state: LoopState::Running, logs: Vec::new(), action: Action::AwaitNotification },
        ),
        (LoopState::Acknowledging, LoopInput::AckFailed) => Some(
            Step { state: LoopState::Failed, logs: Vec::new(), action: Action::Abort },
        ),
        _ => None,
    }
}

/// One step of the loop: what follows from `input` in `state`, or `None`
/// where the state does not await that input. `target` is the counter
/// contract.
pub fn step(state: &LoopState, input: LoopInput, target: &Address) -> (step: Option<Step>)
    ensures
        match transition(*state, input, target@, incremented_selector()) {
            Some(planned) => step matches Some(s) && s@ == planned,
            None => step is None,
        },
{
    let selector = keccak256("Incremented(uint256)".as_bytes());
    step_with_selector(state, input, target, &selector)
}

} // verus!
