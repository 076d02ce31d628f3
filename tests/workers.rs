use relay_core::client::{
    misbehaviour_handled, misbehaviour_step, needs_misbehaviour_check, needs_refresh, process_cmd,
    MisbehaviourScan,
    ClientWorkerState, ClientsConfig, MisbehaviourResults, RefreshOutcome,
};
use relay_core::events::{EventBatch, IbcEvent, WorkerCmd};
use relay_core::ids::{Height, Object};
use relay_core::packet::{PacketAction, PacketCmdState};
use relay_core::task::{step_control, TaskControl, TaskError};
use relay_core::worker::{worker_tasks, Next, WorkerId, WorkerTask};
use relay_core::channel_cmd::{ChannelCommandError, ChannelPlan, CreateChannelCommand, Order};
use relay_core::worker_map::WorkerMap;

fn clients_config() -> ClientsConfig {
    ClientsConfig { enabled: true, refresh: true, misbehaviour: true }
}

fn client_object(chain: &str) -> Object {
    Object::Client {
        dst_chain_id: "ibc-1".to_string(),
        dst_client_id: "07-tendermint-0".to_string(),
        src_chain_id: chain.to_string(),
    }
}

fn packet_object(channel: &str) -> Object {
    Object::Packet {
        src_chain_id: "ibc-0".to_string(),
        dst_chain_id: "ibc-1".to_string(),
        src_channel_id: channel.to_string(),
        src_port_id: "transfer".to_string(),
    }
}

#[test]
fn worker_ids_increase() {
    assert_eq!(WorkerId::new(4).next(), WorkerId::new(5));
}

#[test]
fn refresh_at_two_thirds_of_trusting_period() {
    assert!(needs_refresh(20, 30));
    assert!(!needs_refresh(19, 30));
    assert!(needs_refresh(20_000, 30_000));
    assert!(!needs_refresh(19_999, 30_000));
    assert!(needs_refresh(u64::MAX, u64::MAX));
}

#[test]
fn test_client_expiration() {
    // Trusting period of 20 s; 25 s pass without an update.
    let trusting_period_ms = 20_000;
    let elapsed_ms = 25_000;
    assert!(needs_refresh(elapsed_ms, trusting_period_ms));
    let mut state = ClientWorkerState::new(clients_config(), &Some(MisbehaviourResults::ValidClient));
    assert!(state.should_refresh(elapsed_ms));
    // The client has expired: the worker stops normally.
    assert_eq!(state.on_refresh(elapsed_ms, RefreshOutcome::ExpiredOrFrozen), Next::Abort);
}

#[test]
fn client_worker_backs_off_between_refreshes() {
    let mut state = ClientWorkerState::new(clients_config(), &None);
    assert!(state.reads_commands());
    assert!(state.should_refresh(0));
    assert_eq!(state.on_refresh(0, RefreshOutcome::NotNeeded), Next::Continue);
    assert!(!state.should_refresh(1_000));
    assert!(state.should_refresh(1_001));
    assert_eq!(state.on_refresh(1_001, RefreshOutcome::Failed), Next::Continue);
    assert_eq!(state.last_refresh, Some(1_001));
    let off = ClientWorkerState::new(ClientsConfig { refresh: false, ..clients_config() }, &None);
    assert!(!off.should_refresh(5_000));
}

#[test]
fn misbehaviour_evidence_ends_the_task() {
    let evidence = MisbehaviourResults::EvidenceSubmitted("ABCD".to_string());
    assert!(misbehaviour_handled(&evidence));
    assert_eq!(misbehaviour_step(&evidence), Next::Abort);
    assert_eq!(misbehaviour_step(&MisbehaviourResults::CannotExecute), Next::Abort);
    assert_eq!(misbehaviour_step(&MisbehaviourResults::VerificationError), Next::Continue);
    let state = ClientWorkerState::new(clients_config(), &Some(evidence));
    // Checking is over: later events for the client are not read.
    assert!(!state.reads_commands());
    let update = IbcEvent::UpdateClient {
        client_id: "07-tendermint-0".to_string(),
        consensus_height: Height::new(0, 5),
    };
    assert!(needs_misbehaviour_check(&update));
    assert!(!needs_misbehaviour_check(&IbcEvent::Other));
}

#[test]
fn client_commands() {
    assert_eq!(process_cmd(&WorkerCmd::Shutdown), (Next::Abort, vec![]));
    assert_eq!(process_cmd(&WorkerCmd::ClearPendingPackets), (Next::Continue, vec![]));
    assert_eq!(process_cmd(&WorkerCmd::NewBlock { height: Height::new(0, 3) }), (Next::Continue, vec![]));
    let update = |h: u64| IbcEvent::UpdateClient {
        client_id: "07-tendermint-0".to_string(),
        consensus_height: Height::new(0, h),
    };
    let batch = EventBatch {
        chain_id: "ibc-0".to_string(),
        height: Height::new(0, 9),
        events: vec![update(3), IbcEvent::Other, update(5), IbcEvent::SendPacket { channel_id: "channel-0".to_string(), sequence: 1 }],
    };
    assert_eq!(process_cmd(&WorkerCmd::IbcEvents { batch }), (Next::Continue, vec![update(3), update(5)]));
}

#[test]
fn misbehaviour_scan_stops_at_evidence() {
    let update = |h: u64| IbcEvent::UpdateClient {
        client_id: "07-tendermint-0".to_string(),
        consensus_height: Height::new(0, h),
    };
    let mut scan = MisbehaviourScan::new(vec![update(1), update(2), update(3)]);
    assert_eq!(scan.next_update(), Some(&update(1)));
    assert_eq!(scan.record(&MisbehaviourResults::ValidClient), Next::Continue);
    assert_eq!(scan.next_update(), Some(&update(2)));
    assert_eq!(scan.record(&MisbehaviourResults::EvidenceSubmitted("H".to_string())), Next::Abort);
    // The third update of the batch is never checked.
    assert_eq!(scan.next_update(), None);
    let mut all = MisbehaviourScan::new(vec![update(1)]);
    assert_eq!(all.record(&MisbehaviourResults::VerificationError), Next::Continue);
    assert_eq!(all.next_update(), None);
    let mut state = ClientWorkerState::new(clients_config(), &None);
    state.on_misbehaviour_result(&MisbehaviourResults::ValidClient);
    assert!(state.reads_commands());
    state.on_misbehaviour_result(&MisbehaviourResults::CannotExecute);
    assert!(!state.reads_commands());
}

#[test]
fn task_steps() {
    let ok: Result<(), TaskError<String>> = Ok(());
    assert_eq!(step_control(&ok), TaskControl::Continue);
    assert_eq!(step_control(&Err(TaskError::Ignore("mempool full".to_string()))), TaskControl::Continue);
    assert_eq!(step_control::<String>(&Err(TaskError::Abort)), TaskControl::Stop);
    assert_eq!(step_control(&Err(TaskError::Fatal("closed".to_string()))), TaskControl::Stop);
}

#[test]
fn zero_clear_interval_still_clears_on_start() {
    let mut state = PacketCmdState::new(true, 0);
    let first = state.on_command(&WorkerCmd::NewBlock { height: Height::new(0, 10) });
    assert_eq!(first, PacketAction::ScheduleClearing { height: Some(Height::new(0, 10)), force: true });
    let second = state.on_command(&WorkerCmd::NewBlock { height: Height::new(0, 11) });
    assert_eq!(second, PacketAction::ScheduleClearing { height: Some(Height::new(0, 11)), force: false });
    let mut quiet = PacketCmdState::new(false, 0);
    let action = quiet.on_command(&WorkerCmd::NewBlock { height: Height::new(0, 10) });
    assert_eq!(action, PacketAction::ScheduleClearing { height: Some(Height::new(0, 10)), force: false });
}

#[test]
fn clear_interval_counts_blocks() {
    let mut state = PacketCmdState::new(false, 5);
    assert!(state.should_clear_packets(Height::new(0, 10)));
    assert!(!state.should_clear_packets(Height::new(0, 11)));
    state.on_command(&WorkerCmd::NewBlock { height: Height::new(0, 11) });
    let action = state.on_command(&WorkerCmd::NewBlock { height: Height::new(0, 15) });
    assert_eq!(action, PacketAction::ScheduleClearing { height: Some(Height::new(0, 15)), force: true });
}

#[test]
fn packet_commands() {
    let mut state = PacketCmdState::new(true, 0);
    let batch = EventBatch { chain_id: "ibc-0".to_string(), height: Height::new(0, 1), events: vec![] };
    assert_eq!(state.on_command(&WorkerCmd::IbcEvents { batch }), PacketAction::UpdateSchedule);
    assert!(state.is_first_run);
    assert_eq!(
        state.on_command(&WorkerCmd::ClearPendingPackets),
        PacketAction::ScheduleClearing { height: None, force: true }
    );
    assert_eq!(state.on_command(&WorkerCmd::Shutdown), PacketAction::Stop);
}

#[test]
fn one_worker_per_object() {
    let mut map: WorkerMap<&str> = WorkerMap::new();
    assert_eq!(map.insert(client_object("ibc-0"), "first"), Ok(WorkerId::new(0)));
    assert_eq!(map.insert(client_object("ibc-0"), "again"), Err("again"));
    assert_eq!(map.insert(packet_object("channel-0"), "packets"), Ok(WorkerId::new(1)));
    assert_eq!(map.len(), 2);
    assert!(map.contains(&client_object("ibc-0")));
    assert!(!map.contains(&client_object("ibc-2")));
    assert_eq!(map.get(&packet_object("channel-0")), Some(&"packets"));
    assert_eq!(map.next_id(), WorkerId::new(2));
}

#[test]
fn stopped_worker_is_reaped_and_respawned() {
    let mut map: WorkerMap<u32> = WorkerMap::new();
    let id = map.insert(client_object("ibc-0"), 7).unwrap();
    assert_eq!(map.remove_stopped(id, &client_object("ibc-0")), Some(7));
    assert_eq!(map.len(), 0);
    let again = map.insert(client_object("ibc-0"), 8).unwrap();
    assert_eq!(again, WorkerId::new(1));
    // A late message from the first worker leaves the new one alone.
    assert_eq!(map.remove_stopped(id, &client_object("ibc-0")), None);
    assert_eq!(map.len(), 1);
}

#[test]
fn supervisor_shutdown_empties_the_map() {
    let mut map: WorkerMap<u32> = WorkerMap::new();
    for (i, channel) in ["channel-0", "channel-1", "channel-2", "channel-3"].iter().enumerate() {
        map.insert(packet_object(channel), i as u32).unwrap();
    }
    assert_eq!(map.len(), 4);
    let handles = map.take_all();
    assert_eq!(handles, vec![0, 1, 2, 3]);
    assert_eq!(map.len(), 0);
}

#[test]
fn tasks_planned_per_object() {
    let valid = MisbehaviourResults::ValidClient;
    assert_eq!(
        worker_tasks(&client_object("ibc-0"), &valid),
        vec![WorkerTask::RefreshClient, WorkerTask::DetectMisbehaviour]
    );
    assert_eq!(
        worker_tasks(&client_object("ibc-0"), &MisbehaviourResults::CannotExecute),
        vec![WorkerTask::RefreshClient]
    );
    assert_eq!(
        worker_tasks(&packet_object("channel-0"), &valid),
        vec![WorkerTask::PacketCommands, WorkerTask::LinkExecution]
    );
    let connection = Object::Connection {
        dst_chain_id: "ibc-1".to_string(),
        src_chain_id: "ibc-0".to_string(),
        src_connection_id: "connection-0".to_string(),
    };
    assert_eq!(worker_tasks(&connection, &valid), vec![WorkerTask::ConnectionHandshake]);
    let channel = Object::Channel {
        dst_chain_id: "ibc-1".to_string(),
        src_chain_id: "ibc-0".to_string(),
        src_channel_id: "channel-0".to_string(),
        src_port_id: "transfer".to_string(),
    };
    assert_eq!(worker_tasks(&channel, &valid), vec![WorkerTask::ChannelHandshake]);
}

#[test]
fn create_channel_options() {
    let base = CreateChannelCommand {
        chain_a_id: "ibc-0".to_string(),
        chain_b_id: None,
        connection_a: None,
        port_a: "transfer".to_string(),
        port_b: "transfer".to_string(),
        order: Order::Unordered,
        version: None,
        new_client_connection: false,
    };
    assert_eq!(base.plan(), Err(ChannelCommandError::MissingChainOrConnection));
    let reuse = CreateChannelCommand { connection_a: Some("connection-0".to_string()), ..base.clone() };
    assert_eq!(reuse.plan(), Ok(ChannelPlan::ReuseConnection { connection_a: "connection-0".to_string() }));
    let no_flag = CreateChannelCommand { chain_b_id: Some("ibc-1".to_string()), ..base.clone() };
    assert_eq!(no_flag.plan(), Err(ChannelCommandError::NewClientConnectionFlagRequired));
    let fresh = CreateChannelCommand { new_client_connection: true, ..no_flag };
    assert_eq!(fresh.plan(), Ok(ChannelPlan::NewConnection { chain_b: "ibc-1".to_string() }));
}
