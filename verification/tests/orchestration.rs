use raft_service_rs::config::raft_config;
use raft_service_rs::config::RaftServiceConfig;
use raft_service_rs::config::ELECTION_TIMEOUT_MAX;
use raft_service_rs::controller::init_members;
use raft_service_rs::controller::learner_of;
use raft_service_rs::controller::voters_to_add;
use raft_service_rs::controller::ControllerError;
use raft_service_rs::lifecycle::shutdown_sequence;
use raft_service_rs::lifecycle::LeaderAction;
use raft_service_rs::lifecycle::LeaderEvent;
use raft_service_rs::lifecycle::LeaderLifecycle;
use raft_service_rs::lifecycle::ShutdownStep;
use raft_service_rs::network::endpoint_url;
use raft_service_rs::pb::common::Node;
use raft_service_rs::pb::controller::AddLearnerRequest;
use raft_service_rs::pb::controller::InitRequest;
use std::path::PathBuf;

fn node(id: u64, addr: &str) -> Node {
    Node { node_id: id, rpc_addr: addr.to_string() }
}

#[test]
fn init_keys_members_by_id_last_wins() {
    let members = init_members(InitRequest { nodes: vec![node(1, "a"), node(2, "b"), node(1, "c")] });
    assert_eq!(members.len(), 2);
    assert_eq!(members[&1].rpc_addr, "c");
    assert_eq!(members[&2].rpc_addr, "b");
    assert!(init_members(InitRequest { nodes: vec![] }).is_empty());
}

#[test]
fn add_learner_needs_a_node() {
    let (id, n) = learner_of(AddLearnerRequest { node: Some(node(3, "x:3")) }).unwrap();
    assert_eq!(id, 3);
    assert_eq!(n.rpc_addr, "x:3");
    assert_eq!(learner_of(AddLearnerRequest { node: None }).unwrap_err(), ControllerError::NodeRequired);
}

#[test]
fn add_voter_adds_the_node_under_its_id() {
    let voters = voters_to_add(node(4, "y:4"));
    assert_eq!(voters.len(), 1);
    assert_eq!(voters[&4].rpc_addr, "y:4");
}

#[test]
fn leader_services_follow_leadership() {
    let mut l = LeaderLifecycle::new();
    assert_eq!(l.on_event(LeaderEvent::SteppedDown), LeaderAction::Ignore);
    assert_eq!(l.on_event(LeaderEvent::BecameLeader), LeaderAction::StartServices);
    assert_eq!(l.on_event(LeaderEvent::BecameLeader), LeaderAction::StartServices);
    assert_eq!(l.on_event(LeaderEvent::SteppedDown), LeaderAction::StopServices);
    assert_eq!(l.on_event(LeaderEvent::SteppedDown), LeaderAction::Ignore);
    assert_eq!(l.on_event(LeaderEvent::BecameLeader), LeaderAction::StartServices);
    assert_eq!(l.on_event(LeaderEvent::Shutdown), LeaderAction::StopServices);
    assert!(!l.running);
    assert_eq!(l.on_event(LeaderEvent::Shutdown), LeaderAction::Ignore);
    // A leadership change that arrives before the watch is closed still starts services.
    assert_eq!(l.on_event(LeaderEvent::BecameLeader), LeaderAction::StartServices);
    let mut idle = LeaderLifecycle::new();
    assert_eq!(idle.on_event(LeaderEvent::Shutdown), LeaderAction::Ignore);
}

#[test]
fn shutdown_order() {
    assert_eq!(
        shutdown_sequence(),
        vec![
            ShutdownStep::StopLeaderServices,
            ShutdownStep::CloseLeaderWatch,
            ShutdownStep::JoinStaticServices,
            ShutdownStep::ShutdownApplication,
            ShutdownStep::JoinRpcServer,
            ShutdownStep::ShutdownRaft,
        ]
    );
}

#[test]
fn raft_timing() {
    let config = raft_config().unwrap();
    assert_eq!(config.heartbeat_interval, 500);
    assert_eq!(config.election_timeout_min, 1500);
    assert_eq!(config.election_timeout_max, ELECTION_TIMEOUT_MAX);
    assert_eq!(config.max_payload_entries, 300);
}

#[test]
fn service_config_and_endpoint() {
    let c = RaftServiceConfig { node_id: 1, rpc_url: "127.0.0.1:21001".to_string(), log_path: PathBuf::from("/tmp/x") };
    assert_eq!(endpoint_url(&c.rpc_url), "http://127.0.0.1:21001");
    assert_eq!(c.log_path, PathBuf::from("/tmp/x"));
}
