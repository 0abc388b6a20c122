//! The broadcast router: delivers every application message read from one
//! connection to every other registered connection.
//!
//! A fan-out works on a point-in-time snapshot of the registry that excludes
//! the sender, so a sender never receives its own message back. Delivery to
//! each recipient is best effort: a failed send is skipped and must neither
//! abort delivery to the remaining recipients nor disturb the sender.
//!
//! The spec-level model below describes what a fan-out does to the
//! recipients' inbound queues, given that each sink enqueues messages in
//! send order (first in, first out).

use vstd::prelude::*;
use vstd::seq_lib::group_seq_properties;
use crate::channel::sink_send;
use crate::frame::{Frame, FrameModel, frame_dup};
use crate::registry::{Registry, RegistryEntry, entry_ids, keeps, lemma_others_subset, others};

verus! {

/// Attempts to deliver `f` to every entry of a snapshot, in snapshot order,
/// and reports per recipient whether its sink accepted the message. One
/// recipient's failure never stops delivery to those after it: the result
/// carries exactly one outcome per snapshot entry.
pub fn deliver_to_all(snapshot: &Vec<RegistryEntry>, f: &Frame) -> (r: Vec<(u64, bool)>)
    ensures
        r@.len() == snapshot@.len(),
        forall|i: int| 0 <= i < r@.len() ==> r@[i].0 == snapshot@[i].id,
{
    let mut r: Vec<(u64, bool)> = Vec::new();
    let mut i: usize = 0;
    while i < snapshot.len()
        invariant
            i <= snapshot.len(),
            r@.len() == i,
            forall|j: int| 0 <= j < i ==> r@[j].0 == snapshot@[j].id,
        decreases snapshot.len() - i,
    {
        let e = &snapshot[i];
        let ok = sink_send(&e.sink, frame_dup(f));
        r.push((e.id, ok));
        i = i + 1;
    }
    r
}

/// The identities the outcomes of one fan-out speak of, in delivery order.
pub open spec fn outcome_ids(outcomes: Seq<(u64, bool)>) -> Seq<u64> {
    outcomes.map_values(|p: (u64, bool)| p.0)
}

/// One whole fan-out: snapshots the registry without the sender, then
/// attempts to deliver `f` to each snapshotted recipient. The outcomes cover
/// exactly the identities registered at snapshot time other than the
/// sender's own, in registry order.
pub fn broadcast_from(reg: &Registry, sender: u64, f: &Frame) -> (r: Vec<(u64, bool)>)
    ensures
        outcome_ids(r@) == others(reg.ids(), sender),
{
    let snapshot = reg.snapshot_others(sender);
    let outcomes = deliver_to_all(&snapshot, f);
    proof {
        assert(outcome_ids(outcomes@) =~= entry_ids(snapshot@));
    }
    outcomes
}

/// Spec-level model of the recipients' inbound queues: what each identity's
/// sink has accepted so far, oldest first.
pub type Queues = Map<u64, Seq<FrameModel>>;

/// The effect of one fan-out on the inbound queues: every targeted
/// recipient whose sink is still open (not in `failed`) has the message
/// appended to its queue; every other queue is untouched.
pub open spec fn fan_out(q: Queues, targets: Seq<u64>, failed: Set<u64>, m: FrameModel) -> Queues {
    Map::new(
        |id: u64| q.dom().contains(id),
        |id: u64|
            if targets.contains(id) && !failed.contains(id) {
                q[id].push(m)
            } else {
                q[id]
            },
    )
}

/// A broadcast from `sender` reaches every other registered connection whose
/// sink is open, and never the sender's own sink.
pub proof fn lemma_broadcast_reaches_others(
    q: Queues,
    ids: Seq<u64>,
    sender: u64,
    failed: Set<u64>,
    m: FrameModel,
)
    ensures
        forall|id: u64|
            q.dom().contains(id) && ids.contains(id) && id != sender && !failed.contains(id)
                ==> #[trigger] fan_out(q, others(ids, sender), failed, m)[id] == q[id].push(m),
        q.dom().contains(sender) ==> fan_out(q, others(ids, sender), failed, m)[sender]
            == q[sender],
{
    broadcast use group_seq_properties;

    let targets = others(ids, sender);
    assert forall|id: u64|
        q.dom().contains(id) && ids.contains(id) && id != sender && !failed.contains(id)
            implies #[trigger] fan_out(q, targets, failed, m)[id] == q[id].push(m) by {
        let i = choose|i: int| 0 <= i < ids.len() && ids[i] == id;
        ids.lemma_filter_contains(keeps(sender), i);
    }
    if q.dom().contains(sender) {
        assert(!targets.contains(sender)) by {
            if targets.contains(sender) {
                let i = choose|i: int| 0 <= i < targets.len() && targets[i] == sender;
                ids.lemma_filter_pred(keeps(sender), i);
            }
        }
    }
}

/// One recipient's failure is isolated: whatever set of sinks fails during a
/// fan-out, every targeted recipient outside that set still receives the
/// message.
pub proof fn lemma_failure_is_isolated(
    q: Queues,
    targets: Seq<u64>,
    failed: Set<u64>,
    m: FrameModel,
)
    ensures
        forall|id: u64|
            q.dom().contains(id) && targets.contains(id) && !failed.contains(id)
                ==> #[trigger] fan_out(q, targets, failed, m)[id] == q[id].push(m),
{
}

/// Per-sender order is preserved: a recipient that receives two messages
/// from consecutive fan-outs holds them in send order, the earlier one
/// directly before the later one.
pub proof fn lemma_per_sender_order(
    q: Queues,
    targets1: Seq<u64>,
    failed1: Set<u64>,
    m1: FrameModel,
    targets2: Seq<u64>,
    failed2: Set<u64>,
    m2: FrameModel,
    id: u64,
)
    requires
        q.dom().contains(id),
        targets1.contains(id) && !failed1.contains(id),
        targets2.contains(id) && !failed2.contains(id),
    ensures
        fan_out(fan_out(q, targets1, failed1, m1), targets2, failed2, m2)[id]
            == q[id].push(m1).push(m2),
{
}

/// A deregistered connection is never targeted again: no snapshot taken
/// after its identity left the registry contains it, whoever broadcasts.
pub proof fn lemma_removed_never_targeted(ids: Seq<u64>, removed: u64, sender: u64)
    ensures
        !others(others(ids, removed), sender).contains(removed),
{
    broadcast use group_seq_properties;

    let once = others(ids, removed);
    let twice = others(once, sender);
    if twice.contains(removed) {
        lemma_others_subset(once, sender, removed);
        let j = choose|j: int| 0 <= j < once.len() && once[j] == removed;
        ids.lemma_filter_pred(keeps(removed), j);
    }
}

} // verus!
