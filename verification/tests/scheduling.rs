use blockflow::AsyncMessage;
use blockflow::Block;
use blockflow::Diagnostic;
use blockflow::Slot;
use blockflow::Topology;
use blockflow::TopologyError;
use blockflow::WasmScheduler;
use futures::channel::mpsc;
use wasm_rs_async_executor::single_threaded;

fn message(block_id: usize, payload: u64) -> AsyncMessage {
    AsyncMessage { block_id, payload }
}

/// Drains every message the outbound receiver still holds, once all senders
/// are gone.
fn drain(rx: &mut mpsc::Receiver<AsyncMessage>) -> Vec<AsyncMessage> {
    let mut got = Vec::new();
    while let Ok(Some(m)) = rx.try_next() {
        got.push(m);
    }
    got
}

#[test]
fn inbox_table_covers_ids_zero_two_five() {
    let sched = WasmScheduler::new();
    let mut topo = Topology::new();
    topo.push_block(Block { blocking: false }); // id 0
    topo.push_gap(); // id 1
    topo.push_block(Block { blocking: false }); // id 2
    topo.push_gap(); // id 3
    topo.push_gap(); // id 4
    topo.push_block(Block { blocking: false }); // id 5
    let (main_tx, _main_rx) = mpsc::channel::<AsyncMessage>(16);
    let mut diag: Vec<Diagnostic> = Vec::new();

    let table = sched.run_topology(&mut topo, &main_tx, 4, &mut diag);

    assert_eq!(table.len(), 6);
    assert!(table.get(0).is_some());
    assert!(table.get(1).is_none());
    assert!(table.get(2).is_some());
    assert!(table.get(3).is_none());
    assert!(table.get(4).is_none());
    assert!(table.get(5).is_some());
    assert!(table.get(6).is_none());
    assert!(table.get(100).is_none());

    drop(table);
    single_threaded::run(None);
}

#[test]
fn topology_holds_no_blocks_after_run() {
    let sched = WasmScheduler::new();
    let mut topo = Topology::new();
    topo.push_block(Block { blocking: false }); // id 0
    topo.push_gap(); // id 1
    topo.push_block(Block { blocking: true }); // id 2
    let (main_tx, _main_rx) = mpsc::channel::<AsyncMessage>(16);
    let mut diag: Vec<Diagnostic> = Vec::new();

    let table = sched.run_topology(&mut topo, &main_tx, 4, &mut diag);

    assert_eq!(topo.slot_at(0), Some(Slot::Taken));
    assert_eq!(topo.slot_at(1), Some(Slot::Empty));
    assert_eq!(topo.slot_at(2), Some(Slot::Taken));
    assert_eq!(topo.len(), 3);

    drop(table);
    single_threaded::run(None);
}

#[test]
fn empty_topology_yields_empty_table() {
    let sched = WasmScheduler::new();
    let mut topo = Topology::new();
    let (main_tx, mut main_rx) = mpsc::channel::<AsyncMessage>(16);
    let mut diag: Vec<Diagnostic> = Vec::new();

    let table = sched.run_topology(&mut topo, &main_tx, 4, &mut diag);

    assert_eq!(table.len(), 0);
    assert!(table.get(0).is_none());
    assert!(diag.is_empty());
    assert_eq!(single_threaded::tasks_count(), 0);

    // No task holds a clone of the outbound sender, so dropping ours closes
    // the channel at once.
    drop(main_tx);
    drop(table);
    assert_eq!(main_rx.try_next(), Ok(None));
}

#[test]
fn inbox_preserves_send_order() {
    let sched = WasmScheduler::new();
    let mut topo = Topology::new();
    topo.push_block(Block { blocking: false });
    let (main_tx, mut main_rx) = mpsc::channel::<AsyncMessage>(16);
    let mut diag: Vec<Diagnostic> = Vec::new();

    let table = sched.run_topology(&mut topo, &main_tx, 8, &mut diag);
    let mut tx = table.get(0).expect("block 0 has an inbox").clone();
    for p in [1u64, 2, 3] {
        tx.try_send(message(0, p)).expect("inbox accepts the message");
    }
    drop(tx);
    drop(table);
    single_threaded::run(None);
    drop(main_tx);

    let got = drain(&mut main_rx);
    assert_eq!(got, vec![message(0, 1), message(0, 2), message(0, 3)]);
}

#[test]
fn full_inbox_refuses_further_sends() {
    let sched = WasmScheduler::new();
    let mut topo = Topology::new();
    topo.push_block(Block { blocking: false });
    let (main_tx, mut main_rx) = mpsc::channel::<AsyncMessage>(16);
    let mut diag: Vec<Diagnostic> = Vec::new();

    // queue_size = 2: the channel buffers two messages, and the sending half
    // holds one further guaranteed slot, whose use parks the sender.
    let table = sched.run_topology(&mut topo, &main_tx, 2, &mut diag);
    let mut tx = table.get(0).expect("block 0 has an inbox").clone();
    tx.try_send(message(0, 1)).expect("fits the buffer");
    tx.try_send(message(0, 2)).expect("fits the buffer");
    tx.try_send(message(0, 3)).expect("uses the sender's guaranteed slot");
    let err = tx.try_send(message(0, 4)).expect_err("the inbox is full");
    assert!(err.is_full());

    drop(tx);
    drop(table);
    single_threaded::run(None);
    drop(main_tx);
    let got = drain(&mut main_rx);
    assert_eq!(got, vec![message(0, 1), message(0, 2), message(0, 3)]);
}

#[test]
fn drained_inbox_accepts_again() {
    // The same bounded channel construction the scheduler allocates for an
    // inbox: a suspended sender may proceed once the consumer drains a
    // message.
    let (mut tx, mut rx) = mpsc::channel::<AsyncMessage>(2);
    tx.try_send(message(0, 1)).expect("fits the buffer");
    tx.try_send(message(0, 2)).expect("fits the buffer");
    tx.try_send(message(0, 3)).expect("uses the sender's guaranteed slot");
    assert!(tx.try_send(message(0, 4)).expect_err("full").is_full());

    assert_eq!(rx.try_next().expect("a message is queued"), Some(message(0, 1)));
    tx.try_send(message(0, 4)).expect("accepted again after one drain");
}

#[test]
fn blocking_block_output_matches_cooperative() {
    let sched = WasmScheduler::default();

    // The blocking block, scheduled through the topology: the environment
    // degrades it to cooperative execution.
    let mut topo = Topology::new();
    topo.push_block(Block { blocking: true });
    let (main_tx, mut main_rx) = mpsc::channel::<AsyncMessage>(16);
    let mut diag: Vec<Diagnostic> = Vec::new();
    let table = sched.run_topology(&mut topo, &main_tx, 4, &mut diag);
    assert_eq!(diag, vec![Diagnostic::DegradedIsolation { block_id: 0 }]);
    let mut tx = table.get(0).expect("block 0 has an inbox").clone();
    for p in [5u64, 6] {
        tx.try_send(message(0, p)).expect("inbox accepts the message");
    }
    drop(tx);
    drop(table);
    single_threaded::run(None);
    drop(main_tx);
    let degraded_run = drain(&mut main_rx);

    // The same block, scheduled via the cooperative primitive directly.
    let (mut in_tx, in_rx) = mpsc::channel::<AsyncMessage>(4);
    let (main_tx, mut main_rx) = mpsc::channel::<AsyncMessage>(16);
    let _handle = sched.spawn(Block { blocking: true }, 0, &main_tx, in_rx);
    for p in [5u64, 6] {
        in_tx.try_send(message(0, p)).expect("inbox accepts the message");
    }
    drop(in_tx);
    single_threaded::run(None);
    drop(main_tx);
    let cooperative_run = drain(&mut main_rx);

    assert_eq!(degraded_run, cooperative_run);
}

#[test]
fn degradation_diagnostic_once_per_blocking_block() {
    let sched = WasmScheduler::new();
    let mut topo = Topology::new();
    topo.push_block(Block { blocking: false }); // id 0
    topo.push_block(Block { blocking: true }); // id 1
    topo.push_gap(); // id 2
    topo.push_block(Block { blocking: true }); // id 3
    let (main_tx, _main_rx) = mpsc::channel::<AsyncMessage>(16);
    let mut diag: Vec<Diagnostic> = Vec::new();

    let table = sched.run_topology(&mut topo, &main_tx, 4, &mut diag);

    assert_eq!(
        diag,
        vec![
            Diagnostic::DegradedIsolation { block_id: 1 },
            Diagnostic::DegradedIsolation { block_id: 3 },
        ]
    );

    drop(table);
    single_threaded::run(None);
}

#[test]
fn take_yields_each_block_exactly_once() {
    let mut topo = Topology::new();
    topo.push_block(Block { blocking: false }); // id 0
    topo.push_gap(); // id 1

    assert_eq!(topo.take(5), Err(TopologyError::OutOfRange));
    assert_eq!(topo.take(1), Err(TopologyError::NoBlock));
    assert_eq!(topo.take(0), Ok(Block { blocking: false }));
    assert_eq!(topo.take(0), Err(TopologyError::AlreadyTaken));
    assert_eq!(topo.slot_at(0), Some(Slot::Taken));
    assert_eq!(topo.slot_at(1), Some(Slot::Empty));
    assert_eq!(topo.slot_at(2), None);
}

#[test]
fn block_outputs_stamps_own_id() {
    let block = Block { blocking: false };
    let outs = blockflow::block_outputs(&block, 7, message(3, 42));
    assert_eq!(outs, vec![message(7, 42)]);
}

#[test]
fn is_blocking_reports_capability() {
    assert!(Block { blocking: true }.is_blocking());
    assert!(!Block { blocking: false }.is_blocking());
}
