use guillotine::rendezvous::RendezvousCell;
use guillotine::runtime::Runtime;

#[test]
fn output_is_preserved_bit_for_bit() {
    let mut cell: RendezvousCell<u64> = RendezvousCell::new();
    cell.send(42);
    assert_eq!(cell.recv(), 42);
}

#[test]
fn try_recv_reports_completion_exactly_once() {
    let mut cell: RendezvousCell<&str> = RendezvousCell::new();
    assert_eq!(cell.try_recv(), None);
    cell.send("done");
    assert_eq!(cell.try_recv(), Some("done"));
    assert_eq!(cell.try_recv(), None);
}

#[test]
fn identity_value_survives_a_block() {
    // The shape of driving one synchronous task to completion and
    // reading its output back out: the value comes through unchanged.
    let mut rt = Runtime::new();
    let mut cell: RendezvousCell<u64> = RendezvousCell::new();

    let id = rt.spawn();
    assert_eq!(rt.admit_next(), Some(id));
    // The task's only poll completes and stores its output.
    cell.send(42);
    rt.on_admitted_poll(id, true);
    assert!(rt.is_done());
    assert_eq!(cell.recv(), 42);
}
