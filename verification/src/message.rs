use vstd::prelude::*;

verus! {

/// Envelope carried on every channel of the runtime: work delivered into a
/// block's inbox, and results a block reports on the shared outbound channel.
/// `block_id` names the destination block on the way in and the reporting
/// block on the way out.
#[derive(Clone, Copy, Debug, PartialEq, Eq, Structural)]
pub struct AsyncMessage {
    pub block_id: usize,
    pub payload: u64,
}

} // verus!
