use vstd::prelude::*;

use crate::message::AsyncMessage;

verus! {

/// A schedulable computational unit of the topology. The scheduler only
/// queries its `blocking` capability; the execution routine below consumes
/// the block's inbox and reports on the shared outbound channel.
#[derive(Clone, Copy, Debug, PartialEq, Eq, Structural)]
pub struct Block {
    /// True for blocks that may perform long synchronous work and therefore
    /// ask to be scheduled on an isolated execution context.
    pub blocking: bool,
}

impl Block {
    /// Capability query used by the scheduler to choose between the
    /// cooperative and the blocking-isolated spawn primitive.
    pub fn is_blocking(&self) -> (b: bool)
        ensures
            b == self.blocking,
    {
        self.blocking
    }
}

/// One step of the block execution routine: the messages a block reports on
/// the shared outbound channel for one message drained from its inbox. The
/// block stamps its own id on the payload and forwards it.
pub fn block_outputs(_block: &Block, id: usize, msg: AsyncMessage) -> (outs: Vec<AsyncMessage>)
    ensures
        outs@ == seq![AsyncMessage { block_id: id, payload: msg.payload }],
{
    let mut outs: Vec<AsyncMessage> = Vec::new();
    outs.push(AsyncMessage { block_id: id, payload: msg.payload });
    proof {
        assert(outs@ =~= seq![AsyncMessage { block_id: id, payload: msg.payload }]);
    }
    outs
}

/// Everything a block's task reports on the outbound channel when it drains
/// the inbox messages `inbox` in order: the concatenation, in draining
/// order, of `block_outputs` of each message.
pub open spec fn routine_log(id: usize, inbox: Seq<AsyncMessage>) -> Seq<AsyncMessage>
    decreases inbox.len(),
{
    if inbox.len() == 0 {
        Seq::empty()
    } else {
        routine_log(id, inbox.drop_last()) + seq![
            AsyncMessage { block_id: id, payload: inbox.last().payload },
        ]
    }
}

/// The block routine keeps the order of its inbox: messages drained in some
/// order are reported in that same order, one report per message, each
/// carrying the drained payload. (That the inbox itself hands messages over
/// in send order is the FIFO guarantee of the underlying channel.)
pub proof fn lemma_routine_preserves_order(id: usize, inbox: Seq<AsyncMessage>)
    ensures
        routine_log(id, inbox).len() == inbox.len(),
        forall|j: int|
            0 <= j < inbox.len() ==> routine_log(id, inbox)[j] == (AsyncMessage {
                block_id: id,
                payload: inbox[j].payload,
            }),
    decreases inbox.len(),
{
    if inbox.len() > 0 {
        lemma_routine_preserves_order(id, inbox.drop_last());
    }
}

} // verus!
