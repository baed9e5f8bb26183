//! The executor's own settings, and how items enter its two queues.
//!
//! An action enters the signing queue as attempt zero: when it is
//! submitted, and once more for every action that the pending log still
//! holds when the executor starts. A certificate enters the execution
//! queue as attempt zero when the signing stage hands it over.

use crate::execution::{execution_start, ExecutionCommand, ExecutionCommandView, ExecutionTask};
use crate::pending_log::{action_views, digests_of, map_of, PendingLog};
use crate::signing::{signing_start, SigningCommand, SigningCommandView, SigningTask};
use crate::types::{
    BridgeAction, BridgeActionExecutionWrapper, BridgeActionView,
    CertifiedBridgeActionExecutionWrapper, MgoAddress, ObjectID,
};
use vstd::prelude::*;

verus! {

/// Capacity of the signing queue and of the execution queue. A sender
/// waits while a queue is full; nothing is dropped.
pub const CHANNEL_SIZE: usize = 1000;

/// The actions of a list of queue items, in the same order.
pub open spec fn queued_actions(items: Seq<BridgeActionExecutionWrapper>) -> Seq<BridgeActionView> {
    Seq::new(items.len(), |i: int| items[i].0@)
}

/// The settings of a bridge action executor: the address of this node on
/// the destination chain, and the gas object that pays for its
/// transactions.
#[derive(Clone, Copy, Debug, PartialEq, Eq)]
pub struct BridgeActionExecutor {
    pub mgo_address: MgoAddress,
    pub gas_object_id: ObjectID,
}

impl BridgeActionExecutor {
    pub fn new(mgo_address: MgoAddress, gas_object_id: ObjectID) -> (executor: Self)
        ensures
            executor == (BridgeActionExecutor { mgo_address, gas_object_id }),
    {
        BridgeActionExecutor { mgo_address, gas_object_id }
    }

    /// The item that puts a newly submitted action on the signing queue:
    /// the action as attempt zero.
    pub fn submission(action: BridgeAction) -> (item: BridgeActionExecutionWrapper)
        ensures
            item@ == (action@, 0u64),
    {
        BridgeActionExecutionWrapper(action, 0)
    }

    /// The items that go on the signing queue when the executor starts:
    /// every action of the pending log, each once, as attempt zero.
    pub fn pending_submissions(log: &PendingLog) -> (items: Vec<BridgeActionExecutionWrapper>)
        ensures
            items@.len() == log@.len(),
            digests_of(queued_actions(items@)).no_duplicates(),
            map_of(queued_actions(items@)) == log@,
            forall|i: int| 0 <= i < items@.len() ==> (#[trigger] items@[i]).1 == 0,
    {
        let mut pending = log.get_all_pending_actions();
        let ghost all = action_views(pending@);
        let mut items: Vec<BridgeActionExecutionWrapper> = Vec::new();
        while pending.len() > 0
            invariant
                items@.len() + pending@.len() == all.len(),
                forall|i: int| 0 <= i < items@.len() ==> (#[trigger] items@[i]).1 == 0,
                forall|i: int|
                    0 <= i < items@.len() ==> (#[trigger] items@[i]).0@ == all[all.len() - 1 - i],
                forall|i: int| 0 <= i < pending@.len() ==> (#[trigger] pending@[i])@ == all[i],
            decreases pending@.len(),
        {
            let action = pending.pop().unwrap();
            items.push(Self::submission(action));
        }
        proof {
            let queued = queued_actions(items@);
            assert(queued =~= all.reverse());
            lemma_reversed_entries(all);
        }
        items
    }

    /// Begins the signing task for an item taken from the signing queue.
    pub fn begin_signing(&self, item: BridgeActionExecutionWrapper) -> (started: (
        SigningTask,
        SigningCommand,
    ))
        ensures
            started.0@ == signing_start(item.0@, item.1),
            started.1@ == SigningCommandView::QueryStatus,
    {
        SigningTask::begin(item)
    }

    /// Begins the execution task for an item taken from the execution
    /// queue.
    pub fn begin_execution(&self, item: CertifiedBridgeActionExecutionWrapper) -> (started: (
        ExecutionTask,
        ExecutionCommand,
    ))
        ensures
            started.0@ == execution_start(self.mgo_address, self.gas_object_id, item.0@, item.1),
            started.1@ == ExecutionCommandView::QueryStatus,
    {
        ExecutionTask::begin(self.mgo_address, self.gas_object_id, item)
    }
}

/// Entries in reverse order form the same map, and are as distinct.
proof fn lemma_reversed_entries(entries: Seq<BridgeActionView>)
    requires
        digests_of(entries).no_duplicates(),
    ensures
        digests_of(entries.reverse()).no_duplicates(),
        map_of(entries.reverse()) == map_of(entries),
{
    let reversed = entries.reverse();
    let n = entries.len() as int;
    assert forall|a: int, b: int|
        0 <= a < reversed.len() && 0 <= b < reversed.len() && a != b implies digests_of(reversed)[a]
        != digests_of(reversed)[b] by {
        assert(digests_of(reversed)[a] == digests_of(entries)[n - 1 - a]);
        assert(digests_of(reversed)[b] == digests_of(entries)[n - 1 - b]);
    }
    assert forall|digest| digests_of(reversed).contains(digest) == digests_of(entries).contains(
        digest,
    ) by {
        if digests_of(reversed).contains(digest) {
            let k = digests_of(reversed).index_of(digest);
            assert(digests_of(entries)[n - 1 - k] == digest);
        }
        if digests_of(entries).contains(digest) {
            let k = digests_of(entries).index_of(digest);
            assert(digests_of(reversed)[n - 1 - k] == digest);
        }
    }
    assert forall|digest| #[trigger] map_of(reversed).contains_key(digest) implies map_of(
        reversed,
    )[digest] == map_of(entries)[digest] by {
        let k = digests_of(reversed).index_of(digest);
        assert(digests_of(reversed)[k] == digest);
        let j = digests_of(entries).index_of(digest);
        assert(digests_of(entries)[j] == digest);
        assert(digests_of(entries)[n - 1 - k] == digest);
        assert(j == n - 1 - k);
    }
    assert(map_of(reversed) =~= map_of(entries));
}

} // verus!
