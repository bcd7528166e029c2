//! Extraction of the counter contract's events from a segment of chain.

use vstd::prelude::*;
use crate::chain::{contiguous, Block, ChainSegment, Log, Receipt};
use crate::event::{decode_with_selector, decoded, keccak256, incremented_selector, CounterEvent, EventFact};
use crate::primitives::{Address, B256};

verus! {

/// An event found in a segment, with the place of the log that carried it: the
/// block's position in the segment, the transaction's position in the block and
/// the log's position in the receipt.
#[derive(Clone, Copy, Debug, PartialEq, Eq)]
pub struct ExtractedEvent {
    pub block: usize,
    pub transaction: usize,
    pub log: usize,
    pub event: CounterEvent,
}

/// An extracted event as plain values.
pub struct Extraction {
    pub block: int,
    pub transaction: int,
    pub log: int,
    pub fact: EventFact,
}

impl View for ExtractedEvent {
    type V = Extraction;

    open spec fn view(&self) -> Extraction {
        Extraction {
            block: self.block as int,
            transaction: self.transaction as int,
            log: self.log as int,
            fact: self.event@,
        }
    }
}

/// The extracted events of a vector, each as plain values.
pub open spec fn views(events: Seq<ExtractedEvent>) -> Seq<Extraction> {
    events.map_values(|e: ExtractedEvent| e@)
}

/// The logs of transaction `t` of block `b`. A transaction without a receipt
/// has none.
pub open spec fn logs_at(blocks: Seq<Block>, b: int, t: int) -> Seq<Log> {
    if 0 <= b < blocks.len() && 0 <= t < blocks[b].transactions@.len() && t
        < blocks[b].receipts@.len() {
        match blocks[b].receipts@[t] {
            Some(receipt) => receipt.logs@,
            None => Seq::empty(),
        }
    } else {
        Seq::empty()
    }
}

/// What the log at a place decodes to.
pub open spec fn decoded_at(blocks: Seq<Block>, selector: Seq<u8>, b: int, t: int, l: int) -> Result<
    EventFact,
    crate::event::DecodeError,
> {
    let log = logs_at(blocks, b, t)[l];
    decoded(selector, log.topics@, log.data@)
}

/// The log at a place exists, was emitted by the target contract and decodes.
pub open spec fn qualifies(
    blocks: Seq<Block>,
    target: Seq<u8>,
    selector: Seq<u8>,
    b: int,
    t: int,
    l: int,
) -> bool {
    &&& 0 <= l < logs_at(blocks, b, t).len()
    &&& logs_at(blocks, b, t)[l].address@ == target
    &&& decoded_at(blocks, selector, b, t, l) is Ok
}

/// The event that the log at a place yields.
pub open spec fn extraction_at(blocks: Seq<Block>, selector: Seq<u8>, b: int, t: int, l: int) -> Extraction {
    Extraction { block: b, transaction: t, log: l, fact: decoded_at(blocks, selector, b, t, l)->Ok_0 }
}

/// The events of the first `n` logs of transaction `t` of block `b`.
pub open spec fn from_logs(
    blocks: Seq<Block>,
    target: Seq<u8>,
    selector: Seq<u8>,
    b: int,
    t: int,
    n: nat,
) -> Seq<Extraction>
    decreases n,
{
    if n == 0 {
        Seq::empty()
    } else {
        let earlier = from_logs(blocks, target, selector, b, t, (n - 1) as nat);
        if qualifies(blocks, target, selector, b, t, n - 1) {
            earlier.push(extraction_at(blocks, selector, b, t, n - 1))
        } else {
            earlier
        }
    }
}

/// The events of the first `n` transactions of block `b`.
pub open spec fn from_transactions(
    blocks: Seq<Block>,
    target: Seq<u8>,
    selector: Seq<u8>,
    b: int,
    n: nat,
) -> Seq<Extraction>
    decreases n,
{
    if n == 0 {
        Seq::empty()
    } else {
        from_transactions(blocks, target, selector, b, (n - 1) as nat) + from_logs(
            blocks,
            target,
            selector,
            b,
            n - 1,
            logs_at(blocks, b, n - 1).len(),
        )
    }
}

/// The events of the first `n` blocks.
pub open spec fn from_blocks(blocks: Seq<Block>, target: Seq<u8>, selector: Seq<u8>, n: nat) -> Seq<
    Extraction,
>
    decreases n,
{
    if n == 0 {
        Seq::empty()
    } else {
        from_blocks(blocks, target, selector, (n - 1) as nat) + from_transactions(
            blocks,
            target,
            selector,
            n - 1,
            blocks[n - 1].transactions@.len(),
        )
    }
}

/// The events of the target contract in a run of blocks: block by block,
/// transaction by transaction, log by log.
pub open spec fn extracted(blocks: Seq<Block>, target: Seq<u8>, selector: Seq<u8>) -> Seq<Extraction> {
    from_blocks(blocks, target, selector, blocks.len())
}

/// The event is the one that the log at its place yields, and that log
/// qualifies.
pub open spec fn sound(blocks: Seq<Block>, target: Seq<u8>, selector: Seq<u8>, e: Extraction) -> bool {
    &&& qualifies(blocks, target, selector, e.block, e.transaction, e.log)
    &&& e == extraction_at(blocks, selector, e.block, e.transaction, e.log)
}

/// The place of `a` lies before the place of `b`: by block, then by
/// transaction, then by log.
pub open spec fn precedes(a: Extraction, b: Extraction) -> bool {
    ||| a.block < b.block
    ||| a.block == b.block && a.transaction < b.transaction
    ||| a.block == b.block && a.transaction == b.transaction && a.log < b.log
}

/// Every event is sound, each lies before the next, and no qualifying log of
/// the run of blocks is missing.
pub open spec fn exact(blocks: Seq<Block>, target: Seq<u8>, selector: Seq<u8>, events: Seq<Extraction>) -> bool {
    &&& forall|i: int| 0 <= i < events.len() ==> sound(blocks, target, selector, #[trigger] events[i])
    &&& forall|i: int, j: int| 0 <= i < j < events.len() ==> precedes(#[trigger] events[i], #[trigger] events[j])
    &&& forall|b: int, t: int, l: int| #[trigger]
        qualifies(blocks, target, selector, b, t, l) ==> events.contains(
            extraction_at(blocks, selector, b, t, l),
        )
}

proof fn lemma_from_logs(blocks: Seq<Block>, target: Seq<u8>, selector: Seq<u8>, b: int, t: int, n: nat)
    ensures
        forall|i: int|
            0 <= i < from_logs(blocks, target, selector, b, t, n).len() ==> {
                let e = #[trigger] from_logs(blocks, target, selector, b, t, n)[i];
                &&& e.block == b
                &&& e.transaction == t
                &&& 0 <= e.log < n
                &&& sound(blocks, target, selector, e)
            },
        forall|i: int, j: int|
            0 <= i < j < from_logs(blocks, target, selector, b, t, n).len() ==> (
            #[trigger] from_logs(blocks, target, selector, b, t, n)[i]).log < (
            #[trigger] from_logs(blocks, target, selector, b, t, n)[j]).log,
        forall|l: int|
            0 <= l < n && #[trigger] qualifies(blocks, target, selector, b, t, l) ==> from_logs(
                blocks,
                target,
                selector,
                b,
                t,
                n,
            ).contains(extraction_at(blocks, selector, b, t, l)),
    decreases n,
{
    if n > 0 {
        let earlier = from_logs(blocks, target, selector, b, t, (n - 1) as nat);
        let all = from_logs(blocks, target, selector, b, t, n);
        lemma_from_logs(blocks, target, selector, b, t, (n - 1) as nat);
        assert forall|l: int|
            0 <= l < n && #[trigger] qualifies(blocks, target, selector, b, t, l) implies all.contains(
            extraction_at(blocks, selector, b, t, l),
        ) by {
            let wanted = extraction_at(blocks, selector, b, t, l);
            if l < n - 1 {
                assert(earlier.contains(wanted));
                let i = choose|i: int| 0 <= i < earlier.len() && earlier[i] == wanted;
                assert(all[i] == wanted);
            } else {
                assert(all[all.len() - 1] == wanted);
            }
        }
    }
}

proof fn lemma_from_transactions(blocks: Seq<Block>, target: Seq<u8>, selector: Seq<u8>, b: int, n: nat)
    ensures
        forall|i: int|
            0 <= i < from_transactions(blocks, target, selector, b, n).len() ==> {
                let e = #[trigger] from_transactions(blocks, target, selector, b, n)[i];
                &&& e.block == b
                &&& 0 <= e.transaction < n
                &&& sound(blocks, target, selector, e)
            },
        forall|i: int, j: int|
            0 <= i < j < from_transactions(blocks, target, selector, b, n).len() ==> precedes(
                #[trigger] from_transactions(blocks, target, selector, b, n)[i],
                #[trigger] from_transactions(blocks, target, selector, b, n)[j],
            ),
        forall|t: int, l: int|
            0 <= t < n && #[trigger] qualifies(blocks, target, selector, b, t, l)
                ==> from_transactions(blocks, target, selector, b, n).contains(
                extraction_at(blocks, selector, b, t, l),
            ),
    decreases n,
{
    if n > 0 {
        let earlier = from_transactions(blocks, target, selector, b, (n - 1) as nat);
        let last = from_logs(blocks, target, selector, b, n - 1, logs_at(blocks, b, n - 1).len());
        let all = from_transactions(blocks, target, selector, b, n);
        assert(all == earlier + last);
        lemma_from_transactions(blocks, target, selector, b, (n - 1) as nat);
        lemma_from_logs(blocks, target, selector, b, n - 1, logs_at(blocks, b, n - 1).len());
        assert forall|i: int| 0 <= i < all.len() implies {
            let e = #[trigger] all[i];
            &&& e.block == b
            &&& 0 <= e.transaction < n
            &&& sound(blocks, target, selector, e)
        } by {
            if i < earlier.len() {
                assert(all[i] == earlier[i]);
            } else {
                assert(all[i] == last[i - earlier.len()]);
            }
        }
        assert forall|i: int, j: int| 0 <= i < j < all.len() implies precedes(
            #[trigger] all[i],
            #[trigger] all[j],
        ) by {
            if j < earlier.len() {
                assert(all[i] == earlier[i] && all[j] == earlier[j]);
            } else if i < earlier.len() {
                assert(all[i] == earlier[i] && all[j] == last[j - earlier.len()]);
            } else {
                assert(all[i] == last[i - earlier.len()] && all[j] == last[j - earlier.len()]);
            }
        }
        assert forall|t: int, l: int|
            0 <= t < n && #[trigger] qualifies(blocks, target, selector, b, t, l) implies all.contains(
            extraction_at(blocks, selector, b, t, l),
        ) by {
            let wanted = extraction_at(blocks, selector, b, t, l);
            if t < n - 1 {
                assert(earlier.contains(wanted));
                let i = choose|i: int| 0 <= i < earlier.len() && earlier[i] == wanted;
                assert(all[i] == wanted);
            } else {
                assert(last.contains(wanted));
                let i = choose|i: int| 0 <= i < last.len() && last[i] == wanted;
                assert(all[earlier.len() + i] == wanted);
            }
        }
    }
}

proof fn lemma_from_blocks(blocks: Seq<Block>, target: Seq<u8>, selector: Seq<u8>, n: nat)
    requires
        n <= blocks.len(),
    ensures
        forall|i: int|
            0 <= i < from_blocks(blocks, target, selector, n).len() ==> {
                let e = #[trigger] from_blocks(blocks, target, selector, n)[i];
                &&& 0 <= e.block < n
                &&& sound(blocks, target, selector, e)
            },
        forall|i: int, j: int|
            0 <= i < j < from_blocks(blocks, target, selector, n).len() ==> precedes(
                #[trigger] from_blocks(blocks, target, selector, n)[i],
                #[trigger] from_blocks(blocks, target, selector, n)[j],
            ),
        forall|b: int, t: int, l: int|
            0 <= b < n && #[trigger] qualifies(blocks, target, selector, b, t, l) ==> from_blocks(
                blocks,
                target,
                selector,
                n,
            ).contains(extraction_at(blocks, selector, b, t, l)),
    decreases n,
{
    if n > 0 {
        let width = blocks[n - 1].transactions@.len();
        let earlier = from_blocks(blocks, target, selector, (n - 1) as nat);
        let last = from_transactions(blocks, target, selector, n - 1, width);
        let all = from_blocks(blocks, target, selector, n);
        assert(all == earlier + last);
        lemma_from_blocks(blocks, target, selector, (n - 1) as nat);
        lemma_from_transactions(blocks, target, selector, n - 1, width);
        assert forall|i: int| 0 <= i < all.len() implies {
            let e = #[trigger] all[i];
            &&& 0 <= e.block < n
            &&& sound(blocks, target, selector, e)
        } by {
            if i < earlier.len() {
                assert(all[i] == earlier[i]);
            } else {
                assert(all[i] == last[i - earlier.len()]);
            }
        }
        assert forall|i: int, j: int| 0 <= i < j < all.len() implies precedes(
            #[trigger] all[i],
            #[trigger] all[j],
        ) by {
            if j < earlier.len() {
                assert(all[i] == earlier[i] && all[j] == earlier[j]);
            } else if i < earlier.len() {
                assert(all[i] == earlier[i] && all[j] == last[j - earlier.len()]);
            } else {
                assert(all[i] == last[i - earlier.len()] && all[j] == last[j - earlier.len()]);
            }
        }
        assert forall|b: int, t: int, l: int|
            0 <= b < n && #[trigger] qualifies(blocks, target, selector, b, t, l) implies all.contains(
            extraction_at(blocks, selector, b, t, l),
        ) by {
            let wanted = extraction_at(blocks, selector, b, t, l);
            if b < n - 1 {
                assert(earlier.contains(wanted));
                let i = choose|i: int| 0 <= i < earlier.len() && earlier[i] == wanted;
                assert(all[i] == wanted);
            } else {
                assert(0 <= t < width);
                assert(last.contains(wanted));
                let i = choose|i: int| 0 <= i < last.len() && last[i] == wanted;
                assert(all[earlier.len() + i] == wanted);
            }
        }
    }
}

/// What is extracted is exact: only qualifying logs, each once and in order,
/// and all of them.
pub proof fn lemma_extracted_exact(blocks: Seq<Block>, target: Seq<u8>, selector: Seq<u8>)
    ensures
        exact(blocks, target, selector, extracted(blocks, target, selector)),
{
    lemma_from_blocks(blocks, target, selector, blocks.len());
    let all = extracted(blocks, target, selector);
    assert forall|b: int, t: int, l: int| #[trigger]
        qualifies(blocks, target, selector, b, t, l) implies all.contains(
        extraction_at(blocks, selector, b, t, l),
    ) by {
        assert(0 <= b < blocks.len());
    }
}

/// A log that the target contract did not emit yields no event, whatever its
/// topics and data.
pub proof fn lemma_foreign_log_excluded(
    blocks: Seq<Block>,
    target: Seq<u8>,
    selector: Seq<u8>,
    b: int,
    t: int,
    l: int,
)
    requires
        0 <= l < logs_at(blocks, b, t).len(),
        logs_at(blocks, b, t)[l].address@ != target,
    ensures
        forall|i: int|
            0 <= i < extracted(blocks, target, selector).len() ==> {
                let e = #[trigger] extracted(blocks, target, selector)[i];
                !(e.block == b && e.transaction == t && e.log == l)
            },
{
    lemma_extracted_exact(blocks, target, selector);
}

/// A log of the target contract that does not decode yields no event, and
/// every log that qualifies is extracted whatever other logs the segment holds.
pub proof fn lemma_undecodable_log_excluded(
    blocks: Seq<Block>,
    target: Seq<u8>,
    selector: Seq<u8>,
    b: int,
    t: int,
    l: int,
)
    requires
        0 <= l < logs_at(blocks, b, t).len(),
        decoded_at(blocks, selector, b, t, l) is Err,
    ensures
        forall|i: int|
            0 <= i < extracted(blocks, target, selector).len() ==> {
                let e = #[trigger] extracted(blocks, target, selector)[i];
                !(e.block == b && e.transaction == t && e.log == l)
            },
        forall|b2: int, t2: int, l2: int| #[trigger]
            qualifies(blocks, target, selector, b2, t2, l2) ==> extracted(
                blocks,
                target,
                selector,
            ).contains(extraction_at(blocks, selector, b2, t2, l2)),
{
    lemma_extracted_exact(blocks, target, selector);
}

/// The events of a block with a lower number come before those of a block with
/// a higher number.
pub proof fn lemma_lower_block_first(
    blocks: Seq<Block>,
    target: Seq<u8>,
    selector: Seq<u8>,
    i: int,
    j: int,
)
    requires
        contiguous(blocks),
        0 <= i < extracted(blocks, target, selector).len(),
        0 <= j < extracted(blocks, target, selector).len(),
        blocks[extracted(blocks, target, selector)[i].block].number
            < blocks[extracted(blocks, target, selector)[j].block].number,
    ensures
        i < j,
{
    lemma_extracted_exact(blocks, target, selector);
    let all = extracted(blocks, target, selector);
    assert(sound(blocks, target, selector, all[i]));
    assert(sound(blocks, target, selector, all[j]));
    if j < i {
        assert(precedes(all[j], all[i]));
    }
}

/// Two sequences of events that are both exact for a run of blocks are equal.
pub proof fn lemma_exact_is_unique(
    blocks: Seq<Block>,
    target: Seq<u8>,
    selector: Seq<u8>,
    first: Seq<Extraction>,
    second: Seq<Extraction>,
)
    requires
        exact(blocks, target, selector, first),
        exact(blocks, target, selector, second),
    ensures
        first == second,
{
    lemma_exact_prefix(blocks, target, selector, first, second, first.len());
    lemma_exact_prefix(blocks, target, selector, second, first, second.len());
    assert(first =~= second);
}

/// Two exact sequences agree on the first `n` events of the first.
proof fn lemma_exact_prefix(
    blocks: Seq<Block>,
    target: Seq<u8>,
    selector: Seq<u8>,
    first: Seq<Extraction>,
    second: Seq<Extraction>,
    n: nat,
)
    requires
        exact(blocks, target, selector, first),
        exact(blocks, target, selector, second),
        n <= first.len(),
    ensures
        n <= second.len(),
        forall|i: int| 0 <= i < n ==> first[i] == second[i],
    decreases n,
{
    if n > 0 {
        lemma_exact_prefix(blocks, target, selector, first, second, (n - 1) as nat);
        let k = n - 1;
        let e = first[k];
        assert(sound(blocks, target, selector, e));
        assert(second.contains(e));
        let m = choose|m: int| 0 <= m < second.len() && second[m] == e;
        if m < k {
            assert(first[m] == second[m]);
            assert(precedes(first[m], first[k]));
        } else if m > k {
            let d = second[k];
            assert(sound(blocks, target, selector, d));
            assert(first.contains(d));
            let q = choose|q: int| 0 <= q < first.len() && first[q] == d;
            assert(precedes(second[k], second[m]));
            if q < k {
                assert(first[q] == second[q]);
                assert(precedes(second[q], second[k]));
            } else if q > k {
                assert(precedes(first[k], first[q]));
            }
        }
    }
}

/// Appends the events of one receipt's logs.
fn extend_from_receipt(
    out: &mut Vec<ExtractedEvent>,
    blocks: &Vec<Block>,
    target: &Address,
    selector: &B256,
    b: usize,
    t: usize,
    receipt: &Receipt,
)
    requires
        b < blocks@.len(),
        t < blocks@[b as int].transactions@.len(),
        t < blocks@[b as int].receipts@.len(),
        blocks@[b as int].receipts@[t as int] == Some(*receipt),
    ensures
        views(final(out)@) == views(old(out)@) + from_logs(
            blocks@,
            target@,
            selector@,
            b as int,
            t as int,
            receipt.logs@.len(),
        ),
{
    let mut l: usize = 0;
    while l < receipt.logs.len()
        invariant
            l <= receipt.logs@.len(),
            b < blocks@.len(),
            logs_at(blocks@, b as int, t as int) == receipt.logs@,
            views(out@) == views(old(out)@) + from_logs(
                blocks@,
                target@,
                selector@,
                b as int,
                t as int,
                l as nat,
            ),
        decreases receipt.logs@.len() - l,
    {
        let log = &receipt.logs[l];
        let ghost before = out@;
        if log.address.same_as(target) {
            match decode_with_selector(selector, log.topics.as_slice(), log.data.as_slice()) {
                Ok(event) => {
                    out.push(ExtractedEvent { block: b, transaction: t, log: l, event });
                    assert(views(out@) =~= views(before).push(
                        extraction_at(blocks@, selector@, b as int, t as int, l as int),
                    ));
                },
                Err(_) => {},
            }
        }
        l += 1;
    }
}

/// Extracts the target contract's events against a given selector.
pub fn extract_with_selector(segment: &ChainSegment, target: &Address, selector: &B256) -> (events:
    Vec<ExtractedEvent>)
    ensures
        views(events@) == extracted(segment@, target@, selector@),
        exact(segment@, target@, selector@, views(events@)),
{
    proof {
        lemma_extracted_exact(segment@, target@, selector@);
    }
    let blocks = segment.blocks();
    let mut out: Vec<ExtractedEvent> = Vec::new();
    let mut b: usize = 0;
    assert(views(out@) =~= Seq::empty());
    while b < blocks.len()
        invariant
            b <= blocks@.len(),
            views(out@) == from_blocks(blocks@, target@, selector@, b as nat),
        decreases blocks@.len() - b,
    {
        let block = &blocks[b];
        let ghost done = out@;
        let mut t: usize = 0;
        while t < block.transactions.len()
            invariant
                b < blocks@.len(),
                *block == blocks@[b as int],
                t <= block.transactions@.len(),
                views(out@) == views(done) + from_transactions(
                    blocks@,
                    target@,
                    selector@,
                    b as int,
                    t as nat,
                ),
            decreases block.transactions@.len() - t,
        {
            let ghost before = out@;
            if t < block.receipts.len() {
                match &block.receipts[t] {
                    Some(receipt) => {
                        extend_from_receipt(&mut out, blocks, target, selector, b, t, receipt);
                    },
                    None => {},
                }
            }
            assert(views(out@) =~= views(before) + from_logs(
                blocks@,
                target@,
                selector@,
                b as int,
                t as int,
                logs_at(blocks@, b as int, t as int).len(),
            ));
            t += 1;
        }
        b += 1;
    }
    out
}

/// Extracts the events of the target contract from a segment, in order of
/// block, of transaction within the block and of log within the receipt.
pub fn extract(segment: &ChainSegment, target: &Address) -> (events: Vec<ExtractedEvent>)
    ensures
        views(events@) == extracted(segment@, target@, incremented_selector()),
        exact(segment@, target@, incremented_selector(), views(events@)),
{
    let selector = keccak256("Incremented(uint256)".as_bytes());
    extract_with_selector(segment, target, &selector)
}

} // verus!
