use std::sync::mpsc::channel;

use linktest::status::seed_registers;
use linktest::status::snapshot_update;
use linktest::LinkEvent;
use linktest::NodeStat;

fn event(link: usize, faults: Vec<NodeStat>) -> Option<LinkEvent> {
    Some(LinkEvent { link, faults })
}

#[test]
fn seed_is_fifteen_per_link() {
    let regs = seed_registers(4);
    assert_eq!(regs, vec![15, 15, 15, 15]);
}

#[test]
fn seed_empty() {
    let regs = seed_registers(0);
    assert_eq!(regs, Vec::<u16>::new());
}

#[test]
fn snapshot_before_any_event_keeps_seed() {
    let mut regs = seed_registers(3);
    let msgs: Vec<Option<LinkEvent>> = Vec::new();
    snapshot_update(&mut regs, &msgs);
    assert_eq!(regs, vec![15, 15, 15]);
}

#[test]
fn fault_free_event_keeps_health_bits() {
    let mut regs = seed_registers(2);
    let msgs = vec![event(0, vec![])];
    snapshot_update(&mut regs, &msgs);
    assert_eq!(regs[0] & 1, 1);
    assert_eq!(regs, vec![15, 15]);
}

#[test]
fn fault_free_event_does_not_reset_cleared_bits() {
    let mut regs = seed_registers(1);
    let msgs = vec![event(0, vec![NodeStat::SendFailed]), event(0, vec![])];
    snapshot_update(&mut regs, &msgs);
    // A recorded fault stays visible: a later fault-free event only re-sets
    // the liveness bit, never a cleared health bit.
    assert_eq!(regs, vec![13]);
}

#[test]
fn send_failed_clears_bit_one() {
    let mut regs = seed_registers(2);
    let msgs = vec![event(0, vec![NodeStat::SendFailed])];
    snapshot_update(&mut regs, &msgs);
    assert_eq!(regs[0] & (1 << 1), 0);
    assert_eq!(regs[0] & (1 << 2), 4);
    assert_eq!(regs[0] & (1 << 3), 8);
    assert_eq!(regs, vec![13, 15]);
}

#[test]
fn recv_failed_clears_bit_two() {
    let mut regs = seed_registers(1);
    let msgs = vec![event(0, vec![NodeStat::RecvFailed])];
    snapshot_update(&mut regs, &msgs);
    assert_eq!(regs, vec![11]);
}

#[test]
fn bad_data_clears_bit_three() {
    let mut regs = seed_registers(1);
    let msgs = vec![event(0, vec![NodeStat::BadData])];
    snapshot_update(&mut regs, &msgs);
    assert_eq!(regs, vec![7]);
}

#[test]
fn all_faults_leave_only_liveness() {
    let mut regs = seed_registers(1);
    let msgs = vec![event(
        0,
        vec![NodeStat::SendFailed, NodeStat::RecvFailed, NodeStat::BadData],
    )];
    snapshot_update(&mut regs, &msgs);
    assert_eq!(regs, vec![1]);
}

#[test]
fn sentinel_changes_nothing() {
    let mut regs = seed_registers(2);
    let msgs: Vec<Option<LinkEvent>> = vec![None, None];
    snapshot_update(&mut regs, &msgs);
    assert_eq!(regs, vec![15, 15]);
}

#[test]
fn out_of_range_link_is_ignored() {
    let mut regs = seed_registers(2);
    let msgs = vec![event(7, vec![NodeStat::BadData])];
    snapshot_update(&mut regs, &msgs);
    assert_eq!(regs, vec![15, 15]);
}

#[test]
fn faults_do_not_cross_links() {
    let mut regs = seed_registers(3);
    let msgs = vec![event(1, vec![NodeStat::RecvFailed])];
    snapshot_update(&mut regs, &msgs);
    assert_eq!(regs, vec![15, 11, 15]);
}

#[test]
fn events_fold_in_order_per_link() {
    let mut regs = seed_registers(2);
    let msgs = vec![
        event(0, vec![NodeStat::SendFailed]),
        None,
        event(1, vec![NodeStat::BadData]),
        None,
        event(0, vec![NodeStat::RecvFailed]),
        None,
    ];
    snapshot_update(&mut regs, &msgs);
    assert_eq!(regs, vec![9, 7]);
}

#[test]
fn drain_reads_all_queued_events() {
    let (tx, rx) = channel::<Option<LinkEvent>>();
    tx.send(event(0, vec![NodeStat::SendFailed])).unwrap();
    tx.send(None).unwrap();
    tx.send(event(1, vec![])).unwrap();
    tx.send(None).unwrap();
    let msgs = linktest::server::drain_channel(&rx, 64);
    assert_eq!(msgs.len(), 4);
    assert!(msgs[1].is_none());
    match &msgs[0] {
        Some(ev) => {
            assert_eq!(ev.link, 0);
            assert_eq!(ev.faults, vec![NodeStat::SendFailed]);
        }
        None => panic!("first message should be a real event"),
    }
}

#[test]
fn drain_respects_cap() {
    let (tx, rx) = channel::<Option<LinkEvent>>();
    for i in 0..10 {
        tx.send(event(i, vec![])).unwrap();
    }
    let msgs = linktest::server::drain_channel(&rx, 3);
    assert_eq!(msgs.len(), 3);
}

#[test]
fn drain_of_empty_channel_is_empty() {
    let (tx, rx) = channel::<Option<LinkEvent>>();
    let msgs = linktest::server::drain_channel(&rx, 64);
    assert!(msgs.is_empty());
    drop(tx);
}

#[test]
fn concurrent_drain_reflects_every_link_once() {
    // Several links each report one event before the first status read; one
    // snapshot call must fold every event, none lost, none applied twice.
    let (tx, rx) = channel::<Option<LinkEvent>>();
    let n: usize = 5;
    let kinds = [
        vec![],
        vec![NodeStat::SendFailed],
        vec![NodeStat::RecvFailed],
        vec![NodeStat::BadData],
        vec![NodeStat::SendFailed, NodeStat::BadData],
    ];
    for (i, faults) in kinds.iter().enumerate() {
        tx.send(event(i, faults.clone())).unwrap();
        tx.send(None).unwrap();
    }
    let mut regs = seed_registers(n);
    linktest::server::snapshot(&rx, &mut regs, 1024);
    assert_eq!(regs, vec![15, 13, 11, 7, 5]);
}

#[test]
fn read_input_registers_serves_snapshot() {
    let (tx, rx) = channel::<Option<LinkEvent>>();
    tx.send(event(0, vec![NodeStat::RecvFailed])).unwrap();
    tx.send(None).unwrap();
    let r = linktest::server::read_input_registers(0, 2, Some(&rx), 1024);
    assert_eq!(r, vec![11, 15]);
}

#[test]
fn read_input_registers_without_channel_is_empty() {
    let r = linktest::server::read_input_registers(0, 4, None, 1024);
    assert_eq!(r, Vec::<u16>::new());
}
