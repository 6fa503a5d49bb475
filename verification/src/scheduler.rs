use vstd::prelude::*;

use crate::block::{block_outputs, Block};
use crate::channel::new_inbox;
use crate::message::AsyncMessage;
use crate::table::{slab_insert, slab_new, slab_next, slab_set, table_slots, InboxTable};
use crate::topology::{Slot, Topology};

verus! {

/// A handle of the single-threaded executor of `wasm_rs_async_executor`,
/// returned by its `spawn`; awaiting it yields the task's result. Opaque:
/// the scheduler only hands it out.
#[verifier::external_type_specification]
#[verifier::external_body]
#[verifier::reject_recursive_types(T)]
pub struct ExTaskHandle<T>(wasm_rs_async_executor::single_threaded::TaskHandle<T>);

/// The error a task handle reports for a canceled task, opaque as well; it
/// appears in the handle's `Future` impl.
#[verifier::external_type_specification]
#[verifier::external_body]
pub struct ExJoinError(wasm_rs_async_executor::single_threaded::JoinError);

/// A diagnostic the scheduler surfaces to its caller as a value.
#[derive(Clone, Copy, Debug, PartialEq, Eq, Structural)]
pub enum Diagnostic {
    /// Blocking-isolated work was scheduled on an execution environment that
    /// has no isolated context, so it degraded to cooperative scheduling: a
    /// long synchronous operation in this block can now stall the whole
    /// runtime.
    DegradedIsolation { block_id: usize },
}

/// The length of the inbox table a topology calls for: one entry per id up
/// to the highest id that holds a block, and none at all where no block
/// exists.
pub open spec fn inbox_span(t: Seq<Slot>) -> nat
    decreases t.len(),
{
    if t.len() == 0 {
        0
    } else if t.last() is Present {
        t.len()
    } else {
        inbox_span(t.drop_last())
    }
}

/// The diagnostics that scheduling a topology surfaces: one degraded-
/// isolation entry per blocking block, in ascending id order.
pub open spec fn degraded_log(t: Seq<Slot>) -> Seq<Diagnostic>
    decreases t.len(),
{
    if t.len() == 0 {
        Seq::empty()
    } else {
        degraded_log(t.drop_last()) + (
        if t.last() matches Slot::Present(b) && b.blocking {
            seq![Diagnostic::DegradedIsolation { block_id: (t.len() - 1) as usize }]
        } else {
            Seq::empty()
        })
    }
}

/// An id that holds a block lies below the table length the topology calls
/// for.
pub proof fn lemma_span_lower(t: Seq<Slot>, i: int)
    requires
        0 <= i < t.len(),
        t[i] is Present,
    ensures
        inbox_span(t) > i,
    decreases t.len(),
{
    if i < t.len() - 1 {
        lemma_span_lower(t.drop_last(), i);
    }
}

/// The table length a topology calls for never exceeds the ids it covers.
pub proof fn lemma_span_upper(t: Seq<Slot>)
    ensures
        inbox_span(t) <= t.len(),
    decreases t.len(),
{
    if t.len() > 0 {
        lemma_span_upper(t.drop_last());
    }
}

/// How the table length of a prefix grows as one more slot is revealed.
pub proof fn lemma_span_step(t: Seq<Slot>, i: int)
    requires
        0 <= i < t.len(),
    ensures
        inbox_span(t.take(i + 1)) == if t[i] is Present {
            (i + 1) as nat
        } else {
            inbox_span(t.take(i))
        },
{
    assert(t.take(i + 1).drop_last() =~= t.take(i));
    assert(t.take(i + 1).last() == t[i]);
}

/// How the diagnostic log of a prefix grows as one more slot is revealed.
pub proof fn lemma_degraded_step(t: Seq<Slot>, i: int)
    requires
        0 <= i < t.len(),
    ensures
        degraded_log(t.take(i + 1)) == degraded_log(t.take(i)) + (
        if t[i] matches Slot::Present(b) && b.blocking {
            seq![Diagnostic::DegradedIsolation { block_id: i as usize }]
        } else {
            Seq::<Diagnostic>::empty()
        }),
{
    assert(t.take(i + 1).drop_last() =~= t.take(i));
    assert(t.take(i + 1).last() == t[i]);
}

/// How many blocks of the topology ask for blocking-isolated execution.
pub open spec fn blocking_count(t: Seq<Slot>) -> nat
    decreases t.len(),
{
    if t.len() == 0 {
        0
    } else {
        blocking_count(t.drop_last()) + (
        if t.last() matches Slot::Present(b) && b.blocking {
            1nat
        } else {
            0nat
        })
    }
}

/// Scheduling a topology surfaces the degraded-isolation diagnostic exactly
/// once per block that asked for blocking-isolated execution: the log that
/// `run_topology` promises holds one entry per such block.
pub proof fn lemma_degraded_once_per_blocking(t: Seq<Slot>)
    ensures
        degraded_log(t).len() == blocking_count(t),
    decreases t.len(),
{
    if t.len() > 0 {
        lemma_degraded_once_per_blocking(t.drop_last());
    }
}

/// The scheduler variant for a single-context cooperative execution
/// environment. It is stateless: every scheduling call receives the data it
/// works on as arguments.
#[derive(Clone, Copy, Debug)]
pub struct WasmScheduler;

impl WasmScheduler {
    pub fn new() -> (s: WasmScheduler)
        ensures
            s == WasmScheduler,
    {
        WasmScheduler
    }

    /// Maps a whole topology onto running tasks. For every id that holds a
    /// block, in ascending id order: allocates a bounded inbox channel of
    /// capacity `queue_size`, stores its sender in the returned table at
    /// that id, extracts ownership of the block, and spawns it bound to its
    /// inbox and the shared outbound channel, through the blocking-isolated
    /// primitive when the block asks for it and the cooperative one
    /// otherwise. The table covers the ids up to the highest one that held a
    /// block; after the call the topology holds no present block.
    ///
    /// A topology that already had a block extracted is caller misuse (the
    /// non-recoverable integrity error of scheduling one topology twice) and
    /// is excluded by the precondition; callers that cannot rule it out must
    /// check first and treat a violation as fatal.
    pub fn run_topology(
        &self,
        topology: &mut Topology,
        main_channel: &futures::channel::mpsc::Sender<AsyncMessage>,
        queue_size: usize,
        diag: &mut Vec<Diagnostic>,
    ) -> (table: InboxTable)
        requires
            old(topology).unscheduled(),
            1 <= queue_size < usize::MAX / 4,
        ensures
            table.dense(),
            table@.len() == inbox_span(old(topology)@),
            forall|i: int|
                0 <= i < table@.len() ==> table@[i] == Some(
                    if old(topology)@[i] is Present {
                        Some(queue_size as nat)
                    } else {
                        None::<nat>
                    },
                ),
            final(topology)@.len() == old(topology)@.len(),
            forall|i: int|
                0 <= i < old(topology)@.len() ==> !(final(topology)@[i] is Present),
            forall|i: int|
                0 <= i < old(topology)@.len() ==> (final(topology)@[i] is Taken
                    <==> old(topology)@[i] is Present),
            forall|i: int|
                0 <= i < old(topology)@.len() ==> (final(topology)@[i] is Empty
                    <==> old(topology)@[i] is Empty),
            final(diag)@ == old(diag)@ + degraded_log(old(topology)@),
    {
        let ghost t0 = topology@;
        let ghost d0 = diag@;
        let n = topology.len();

        // The table covers the ids up to the highest one that holds a block.
        let mut span: usize = 0;
        let mut i: usize = 0;
        while i < n
            invariant
                i <= n,
                n == t0.len(),
                topology@ == t0,
                span == inbox_span(t0.take(i as int)),
            decreases n - i,
        {
            match topology.slot_at(i) {
                Some(Slot::Present(_)) => {
                    span = i + 1;
                },
                _ => {},
            }
            proof {
                lemma_span_step(t0, i as int);
            }
            i += 1;
        }
        proof {
            assert(t0.take(n as int) =~= t0);
            lemma_span_upper(t0);
        }

        // Allocate the table, every entry absent.
        let mut slab = slab_new();
        let mut j: usize = 0;
        while j < span
            invariant
                j <= span,
                table_slots(slab).len() == j,
                slab_next(slab) == j,
                forall|k: int| 0 <= k < j ==> table_slots(slab)[k] == Some(None::<nat>),
            decreases span - j,
        {
            let _key = slab_insert(&mut slab, None);
            j += 1;
        }

        // Give every block an inbox and move it into its task.
        let mut id: usize = 0;
        while id < n
            invariant
                id <= n,
                n == t0.len() == topology@.len(),
                span == inbox_span(t0),
                span <= n,
                1 <= queue_size < usize::MAX / 4,
                forall|k: int| id <= k < n ==> topology@[k] == t0[k],
                forall|k: int| 0 <= k < n ==> !(t0[k] is Taken),
                forall|k: int| 0 <= k < id ==> !(topology@[k] is Present),
                forall|k: int|
                    0 <= k < id ==> (topology@[k] is Taken <==> t0[k] is Present),
                forall|k: int|
                    0 <= k < id ==> (topology@[k] is Empty <==> t0[k] is Empty),
                table_slots(slab).len() == span,
                forall|k: int|
                    0 <= k < span ==> table_slots(slab)[k] == Some(
                        if k < id && t0[k] is Present {
                            Some(queue_size as nat)
                        } else {
                            None::<nat>
                        },
                    ),
                diag@ == d0 + degraded_log(t0.take(id as int)),
            decreases n - id,
        {
            match topology.take(id) {
                Ok(block) => {
                    proof {
                        lemma_span_lower(t0, id as int);
                    }
                    let (sender, receiver) = new_inbox(queue_size);
                    slab_set(&mut slab, id, Some(sender));
                    if block.is_blocking() {
                        let _t = self.spawn_blocking(block, id, main_channel, receiver, diag);
                    } else {
                        let _t = self.spawn(block, id, main_channel, receiver);
                    }
                },
                Err(_) => {
                    // No block lives at this id; the slot stays as it is.
                },
            }
            proof {
                lemma_degraded_step(t0, id as int);
                if t0[id as int] matches Slot::Present(b) && b.blocking {
                    assert(degraded_log(t0.take(id as int)).push(
                        Diagnostic::DegradedIsolation { block_id: id },
                    ) =~= degraded_log(t0.take(id as int)) + seq![
                        Diagnostic::DegradedIsolation { block_id: id },
                    ]);
                }
                assert(diag@ =~= d0 + degraded_log(t0.take(id as int + 1)));
            }
            id += 1;
        }
        proof {
            assert(t0.take(n as int) =~= t0);
        }

        InboxTable::from_slab(slab)
    }

    /// Schedules one block for cooperative execution, bound to its id, the
    /// shared outbound channel and the receiving half of its inbox. The task
    /// drains the inbox in order, reports `block_outputs` of every message
    /// on the outbound channel, and completes when the inbox's senders are
    /// gone. The call queues the task without blocking the caller.
    ///
    /// Relies on `wasm_rs_async_executor::single_threaded::spawn` to queue
    /// the task and on the stream and sink combinators of `futures` to drive
    /// `block_outputs` over the two channels.
    #[verifier::external_body]
    pub fn spawn(
        &self,
        block: Block,
        id: usize,
        main_channel: &futures::channel::mpsc::Sender<AsyncMessage>,
        inbox: futures::channel::mpsc::Receiver<AsyncMessage>,
    ) -> (t: wasm_rs_async_executor::single_threaded::TaskHandle<()>)
    {
        let main = main_channel.clone();
        let outs = futures::StreamExt::map(inbox, move |m: AsyncMessage| block_outputs(&block, id, m));
        let flat = futures::StreamExt::flatten(futures::StreamExt::map(outs, futures::stream::iter));
        let results = futures::StreamExt::map(flat, Ok);
        let fut = futures::StreamExt::forward(results, main);
        wasm_rs_async_executor::single_threaded::spawn(futures::FutureExt::map(fut, drop))
    }

    /// Schedules one block that asked for blocking-isolated execution. This
    /// environment has no isolated execution context, so the call degrades
    /// to the cooperative primitive and surfaces exactly one diagnostic
    /// saying so.
    pub fn spawn_blocking(
        &self,
        block: Block,
        id: usize,
        main_channel: &futures::channel::mpsc::Sender<AsyncMessage>,
        inbox: futures::channel::mpsc::Receiver<AsyncMessage>,
        diag: &mut Vec<Diagnostic>,
    ) -> (t: wasm_rs_async_executor::single_threaded::TaskHandle<()>)
        ensures
            final(diag)@ == old(diag)@.push(Diagnostic::DegradedIsolation { block_id: id }),
    {
        diag.push(Diagnostic::DegradedIsolation { block_id: id });
        self.spawn(block, id, main_channel, inbox)
    }
}

impl Default for WasmScheduler {
    fn default() -> (s: Self)
        ensures
            s == WasmScheduler,
    {
        WasmScheduler::new()
    }
}

} // verus!
