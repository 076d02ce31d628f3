use relay_core::events::{EventBatch, IbcEvent};
use relay_core::ids::Height;
use relay_core::relay_path::{
    ExecuteError, OperationalDataTarget, PacketKey, PacketMsgKind, RelayPath, SubmitOutcome,
};

fn send(sequence: u64) -> IbcEvent {
    IbcEvent::SendPacket { channel_id: "channel-0".to_string(), sequence }
}

fn batch(height: u64, events: Vec<IbcEvent>) -> EventBatch {
    EventBatch { chain_id: "ibc-0".to_string(), height: Height::new(0, height), events }
}

/// Submits ready entries in order, with the given outcomes, until one fails.
fn execute_schedule(
    path: &mut RelayPath,
    now: u64,
    outcomes: &mut Vec<SubmitOutcome>,
) -> Result<(), ExecuteError> {
    while let Some(data) = path.take_ready(now) {
        let outcome = outcomes.remove(0);
        path.on_submitted(data, outcome)?;
    }
    Ok(())
}

#[test]
fn test_execute_schedule() {
    let mut path = RelayPath::new(0);
    assert!(path.begin_clearing(false));
    path.finish_clearing(&batch(10, vec![send(1)]), 100);
    path.update_schedule(&batch(11, vec![send(2)]), 100);
    assert_eq!(path.dst_operational_data.len(), 2);
    // Chain B goes away after the first submission.
    let mut outcomes = vec![
        SubmitOutcome::Accepted { tx_hash: "A1".to_string() },
        SubmitOutcome::Retryable,
    ];
    match execute_schedule(&mut path, 200, &mut outcomes) {
        Ok(_) => panic!("Expected an error"),
        Err(_e) => {
            assert_eq!(path.dst_operational_data.len(), 1);
        }
    }
    // Chain B is back.
    let mut outcomes = vec![SubmitOutcome::Accepted { tx_hash: "B2".to_string() }];
    execute_schedule(&mut path, 300, &mut outcomes).unwrap();
    assert_eq!(path.dst_operational_data.len(), 0);
    assert_eq!(path.pending_txs.len(), 2);
    assert!(path.remove_committed(&"A1".to_string()).is_some());
    assert!(path.remove_committed(&"B2".to_string()).is_some());
    assert!(path.pending_txs.is_empty());
}

#[test]
fn update_schedule_groups_events_behind_a_client_update() {
    let mut path = RelayPath::new(0);
    let events = vec![
        send(1),
        IbcEvent::Other,
        IbcEvent::WriteAcknowledgement { channel_id: "channel-0".to_string(), sequence: 4 },
        send(1),
        IbcEvent::TimedOutPacket { channel_id: "channel-0".to_string(), sequence: 2 },
    ];
    path.update_schedule(&batch(7, events), 50);
    assert_eq!(path.dst_operational_data.len(), 1);
    let data = &path.dst_operational_data[0];
    assert_eq!(data.target, OperationalDataTarget::Destination);
    assert_eq!(data.proofs_height, Height::new(0, 7));
    assert_eq!(data.scheduled_time, 50);
    assert_eq!(data.conn_delay_deadline, None);
    let kinds: Vec<(PacketMsgKind, u64)> = data.packets.iter().map(|k| (k.kind, k.sequence)).collect();
    assert_eq!(
        kinds,
        vec![
            (PacketMsgKind::RecvPacket, 1),
            (PacketMsgKind::Acknowledgement, 4),
            (PacketMsgKind::Timeout, 2)
        ]
    );
    assert!(path.is_scheduled(&PacketKey {
        kind: PacketMsgKind::RecvPacket,
        channel_id: "channel-0".to_string(),
        sequence: 1
    }));
}

#[test]
fn replayed_batch_is_ignored() {
    let mut path = RelayPath::new(0);
    let b = batch(3, vec![send(1), send(2)]);
    path.update_schedule(&b, 10);
    path.update_schedule(&b, 20);
    assert_eq!(path.dst_operational_data.len(), 1);
    assert_eq!(path.dst_operational_data[0].packets.len(), 2);
    // Still ignored once the packets are in flight.
    let data = path.take_ready(30).unwrap();
    path.on_submitted(data, SubmitOutcome::Accepted { tx_hash: "H".to_string() }).unwrap();
    path.update_schedule(&b, 40);
    assert!(path.dst_operational_data.is_empty());
    // A batch with nothing to relay adds nothing.
    path.update_schedule(&batch(4, vec![IbcEvent::Other]), 50);
    assert!(path.dst_operational_data.is_empty());
}

#[test]
fn connection_delay_holds_entries_back() {
    let mut path = RelayPath::new(100);
    path.update_schedule(&batch(3, vec![send(1)]), 1_000);
    assert_eq!(path.dst_operational_data[0].conn_delay_deadline, Some(1_100));
    assert!(!path.head_ready(1_099));
    assert!(path.take_ready(1_099).is_none());
    assert!(path.take_ready(1_100).is_some());
    let mut late = RelayPath::new(100);
    late.update_schedule(&batch(3, vec![send(1)]), u64::MAX - 1);
    assert_eq!(late.dst_operational_data[0].conn_delay_deadline, Some(u64::MAX));
}

#[test]
fn submission_outcomes() {
    let mut path = RelayPath::new(0);
    path.update_schedule(&batch(1, vec![send(1)]), 0);
    path.update_schedule(&batch(2, vec![send(2)]), 0);
    path.update_schedule(&batch(3, vec![send(3)]), 0);
    let first = path.take_ready(0).unwrap();
    assert_eq!(first.proofs_height, Height::new(0, 1));
    assert_eq!(path.on_submitted(first, SubmitOutcome::Validation), Ok(()));
    assert_eq!(path.dst_operational_data.len(), 2);
    assert!(path.pending_txs.is_empty());
    let second = path.take_ready(0).unwrap();
    assert_eq!(
        path.on_submitted(second, SubmitOutcome::ClientFatal),
        Err(ExecuteError::ClientFatal)
    );
    assert_eq!(path.dst_operational_data.len(), 2);
    assert_eq!(path.dst_operational_data[0].proofs_height, Height::new(0, 2));
    assert!(path.remove_committed(&"unknown".to_string()).is_none());
}

#[test]
fn clearing_runs_once_unless_forced() {
    let mut path = RelayPath::new(0);
    assert!(path.begin_clearing(false));
    assert!(!path.begin_clearing(true));
    path.abort_clearing();
    assert!(path.begin_clearing(false));
    path.finish_clearing(&batch(5, vec![]), 0);
    assert!(path.cleared_once);
    assert!(!path.begin_clearing(false));
    assert!(path.begin_clearing(true));
}

#[test]
fn transfer_round_trip_empties_both_directions() {
    let mut a_to_b = RelayPath::new(0);
    let mut b_to_a = RelayPath::new(0);
    // A user transfers on chain A.
    a_to_b.update_schedule(&batch(10, vec![send(1)]), 0);
    let recv = a_to_b.take_ready(0).unwrap();
    assert_eq!(recv.packets[0].kind, PacketMsgKind::RecvPacket);
    a_to_b.on_submitted(recv, SubmitOutcome::Accepted { tx_hash: "RECV".to_string() }).unwrap();
    // Chain B commits the receive and writes an acknowledgement.
    assert!(a_to_b.remove_committed(&"RECV".to_string()).is_some());
    let written = EventBatch {
        chain_id: "ibc-1".to_string(),
        height: Height::new(0, 20),
        events: vec![IbcEvent::WriteAcknowledgement { channel_id: "channel-0".to_string(), sequence: 1 }],
    };
    b_to_a.update_schedule(&written, 0);
    let ack = b_to_a.take_ready(0).unwrap();
    assert_eq!(ack.packets[0].kind, PacketMsgKind::Acknowledgement);
    b_to_a.on_submitted(ack, SubmitOutcome::Accepted { tx_hash: "ACK".to_string() }).unwrap();
    assert!(b_to_a.remove_committed(&"ACK".to_string()).is_some());
    for path in [&a_to_b, &b_to_a] {
        assert!(path.src_operational_data.is_empty());
        assert!(path.dst_operational_data.is_empty());
        assert!(path.pending_txs.is_empty());
    }
}
