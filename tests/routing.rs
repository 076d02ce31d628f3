use relay_core::events::{EventBatch, IbcEvent};
use relay_core::ids::{Height, Object};
use relay_core::relay_path::RelayPath;
use relay_core::retry::{RetryDecision, RetryPolicy};
use relay_core::supervisor::group_by_object;
use relay_core::worker::WorkerId;
use relay_core::worker_map::WorkerMap;

fn packet(chain: &str, channel: &str) -> Object {
    Object::Packet {
        src_chain_id: chain.to_string(),
        dst_chain_id: "ibc-9".to_string(),
        src_channel_id: channel.to_string(),
        src_port_id: "transfer".to_string(),
    }
}

fn send(sequence: u64) -> IbcEvent {
    IbcEvent::SendPacket { channel_id: "channel-0".to_string(), sequence }
}

#[test]
fn events_are_grouped_per_object_in_order() {
    let a = packet("ibc-0", "channel-0");
    let b = packet("ibc-0", "channel-1");
    let pairs = vec![(a.clone(), send(1)), (b.clone(), send(7)), (a.clone(), send(2)), (a.clone(), send(3))];
    let groups = group_by_object(pairs);
    assert_eq!(groups.len(), 2);
    assert_eq!(groups[0].0, a);
    assert_eq!(groups[0].1, vec![send(1), send(2), send(3)]);
    assert_eq!(groups[1].0, b);
    assert_eq!(groups[1].1, vec![send(7)]);
    assert!(group_by_object(Vec::new()).is_empty());
}

#[test]
fn new_blocks_go_to_packet_workers_of_the_chain() {
    let mut map: WorkerMap<u8> = WorkerMap::new();
    map.insert(packet("ibc-0", "channel-0"), 0).unwrap();
    map.insert(
        Object::Client {
            dst_chain_id: "ibc-1".to_string(),
            dst_client_id: "07-tendermint-0".to_string(),
            src_chain_id: "ibc-0".to_string(),
        },
        1,
    )
    .unwrap();
    map.insert(packet("ibc-1", "channel-0"), 2).unwrap();
    map.insert(packet("ibc-0", "channel-5"), 3).unwrap();
    let ids = map.packet_workers_from(&"ibc-0".to_string());
    assert_eq!(ids, vec![WorkerId::new(0), WorkerId::new(3)]);
    assert_eq!(map.get_by_id(WorkerId::new(3)), Some(&3));
    assert_eq!(map.get_by_id(WorkerId::new(9)), None);
}

#[test]
fn retry_backs_off_up_to_a_cap() {
    let policy = RetryPolicy { initial_delay: 100, factor: 2, max_delay: 1_000, max_elapsed: 5_000 };
    let delays: Vec<u64> = (0..6).map(|a| policy.delay(a)).collect();
    assert_eq!(delays, vec![100, 200, 400, 800, 1_000, 1_000]);
    assert_eq!(policy.delay(u32::MAX), 1_000);
    assert_eq!(policy.next(2, 4_000), RetryDecision::RetryAfter(400));
    assert_eq!(policy.next(2, 4_600), RetryDecision::RetryAfter(400));
    assert_eq!(policy.next(2, 4_601), RetryDecision::GiveUp);
    let huge = RetryPolicy { initial_delay: u64::MAX / 2, factor: 3, max_delay: u64::MAX, max_elapsed: u64::MAX };
    assert_eq!(huge.delay(1), u64::MAX);
}

#[test]
fn refresh_retargets_stale_entries() {
    let mut path = RelayPath::new(0);
    for h in [5u64, 9, 12] {
        let batch = EventBatch { chain_id: "ibc-0".to_string(), height: Height::new(0, h), events: vec![send(h)] };
        path.update_schedule(&batch, 0);
    }
    path.refresh_schedule(Height::new(0, 10), Height::new(0, 20));
    let heights: Vec<u64> = path.dst_operational_data.iter().map(|d| d.proofs_height.revision_height).collect();
    assert_eq!(heights, vec![20, 20, 12]);
    assert_eq!(path.dst_operational_data[2].packets[0].sequence, 12);
}
