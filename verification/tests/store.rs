use connection_handshake::client::ClientStatus;
use connection_handshake::connection::{clone_bytes, ConnectionState, Counterparty};
use connection_handshake::error::InternalError;
use connection_handshake::identifier::ConnectionIdentifier;
use connection_handshake::msg::MsgConnectionOpenInit;
use connection_handshake::policy::ClientPolicy;
use connection_handshake::state::State;
use connection_handshake::version::ProtocolVersion;

fn open_init(client_id: &str) -> MsgConnectionOpenInit {
    MsgConnectionOpenInit {
        client_id: client_id.to_string(),
        counterparty: Counterparty { client_id: "remote-client".to_string(), prefix: vec![0x69, 0x62, 0x63] },
        versions: vec![ProtocolVersion::new(
            "1".to_string(),
            vec!["ORDER_ORDERED".to_string(), "ORDER_UNORDERED".to_string()],
        )],
        delay_period: 5_000_000_000,
    }
}

#[test]
fn fresh_state_is_empty_at_version_zero() {
    let state = State::new();
    assert_eq!(state.version(), 0);
    assert_eq!(state.connection_counter(), 0);
    assert_eq!(state.client_status("client-7"), None);
    assert_eq!(state.connection(&ConnectionIdentifier::new(0)), None);
    assert_eq!(state.connections_of("client-7"), Vec::<u64>::new());
    assert_eq!(state, State::at(0, 0));
}

#[test]
fn state_can_resume_at_a_version_and_counter() {
    let state = State::at(12, 34);
    assert_eq!(state.version(), 12);
    assert_eq!(state.connection_counter(), 34);
    assert_eq!(state.client_status("client-7"), None);
    assert_eq!(state.connection(&ConnectionIdentifier::new(33)), None);
}

#[test]
fn committed_client_is_visible_one_version_later() {
    let mut tx = State::new().begin_transaction();
    tx.put_client("client-7".to_string(), ClientStatus::Active);
    let (state, committed) = tx.commit();
    assert_eq!(committed, Ok(1));
    assert_eq!(state.version(), 1);
    assert_eq!(state.client_status("client-7"), Some(ClientStatus::Active));
    assert_eq!(state.client_status("client-8"), None);
    assert_eq!(state.connection_counter(), 0);
}

#[test]
fn transaction_reads_its_own_writes_and_leaves_the_snapshot() {
    let mut tx = State::at(3, 0).begin_transaction();
    assert_eq!(tx.client_status("client-7"), None);
    tx.put_client("client-7".to_string(), ClientStatus::Frozen);
    assert_eq!(tx.client_status("client-7"), Some(ClientStatus::Frozen));
    assert_eq!(tx.snapshot().client_status("client-7"), None);
    assert_eq!(tx.snapshot().version(), 3);
}

#[test]
fn discarded_writes_are_gone() {
    let before = State::at(3, 9);
    let mut tx = before.clone().begin_transaction();
    tx.put_client("client-7".to_string(), ClientStatus::Active);
    let id = tx.execute(&open_init("client-7")).unwrap();
    assert_eq!(id.as_str(), "connection-9");
    assert_eq!(tx.connection_counter(), 10);
    let after = tx.discard();
    assert_eq!(after, before);
    assert_eq!(after.version(), 3);
    assert_eq!(after.connection_counter(), 9);
    assert_eq!(after.client_status("client-7"), None);
    assert_eq!(after.connection(&id), None);
}

#[test]
fn later_client_write_wins() {
    let mut tx = State::new().begin_transaction();
    tx.put_client("client-7".to_string(), ClientStatus::Active);
    tx.put_client("client-8".to_string(), ClientStatus::Expired);
    tx.put_client("client-7".to_string(), ClientStatus::Frozen);
    assert_eq!(tx.client_status("client-7"), Some(ClientStatus::Frozen));
    let (state, _) = tx.commit();
    assert_eq!(state.client_status("client-7"), Some(ClientStatus::Frozen));
    assert_eq!(state.client_status("client-8"), Some(ClientStatus::Expired));

    let mut tx = state.begin_transaction();
    assert_eq!(tx.client_status("client-7"), Some(ClientStatus::Frozen));
    tx.put_client("client-7".to_string(), ClientStatus::Active);
    assert_eq!(tx.client_status("client-7"), Some(ClientStatus::Active));
    assert_eq!(tx.client_status("client-8"), Some(ClientStatus::Expired));
    let (state, committed) = tx.commit();
    assert_eq!(committed, Ok(2));
    assert_eq!(state.client_status("client-7"), Some(ClientStatus::Active));
}

#[test]
fn execute_stores_the_end_under_the_next_identifier() {
    let mut tx = State::new().begin_transaction();
    let msg = open_init("client-7");
    let id = tx.execute(&msg).unwrap();
    assert_eq!(id.as_str(), "connection-0");
    assert_eq!(tx.connection_counter(), 1);
    let end = tx.connection(&id).unwrap();
    assert_eq!(end.state, ConnectionState::Init);
    assert_eq!(end.client_id, "client-7");
    assert_eq!(end.counterparty, msg.counterparty);
    assert_eq!(end.versions, msg.versions);
    assert_eq!(end.delay_period, 5_000_000_000);
    assert_eq!(end, msg.to_connection_end());
    assert_eq!(tx.snapshot().connection(&id), None);
    assert_eq!(tx.snapshot().connection_counter(), 0);

    let (state, committed) = tx.commit();
    assert_eq!(committed, Ok(1));
    assert_eq!(state.connection_counter(), 1);
    assert_eq!(state.connection(&id), Some(msg.to_connection_end()));
    assert_eq!(state.connection(&ConnectionIdentifier::new(1)), None);
    assert_eq!(state.connections_of("client-7"), vec![0]);
}

#[test]
fn executions_in_one_transaction_take_consecutive_identifiers() {
    let mut tx = State::at(0, 40).begin_transaction();
    let first = tx.execute(&open_init("client-a")).unwrap();
    let second = tx.execute(&open_init("client-b")).unwrap();
    let third = tx.execute(&open_init("client-a")).unwrap();
    assert_eq!(first.as_str(), "connection-40");
    assert_eq!(second.as_str(), "connection-41");
    assert_eq!(third.as_str(), "connection-42");
    assert_eq!(tx.connection(&first).unwrap().client_id, "client-a");
    assert_eq!(tx.connection(&second).unwrap().client_id, "client-b");
    let (state, _) = tx.commit();
    assert_eq!(state.connection_counter(), 43);
    assert_eq!(state.connections_of("client-a"), vec![40, 42]);
    assert_eq!(state.connections_of("client-b"), vec![41]);
    assert_eq!(state.connections_of("client-c"), Vec::<u64>::new());
}

#[test]
fn stored_connections_survive_later_transactions() {
    let mut tx = State::new().begin_transaction();
    let first = tx.execute(&open_init("client-a")).unwrap();
    let (state, _) = tx.commit();
    let mut tx = state.begin_transaction();
    assert_eq!(tx.connection(&first), Some(open_init("client-a").to_connection_end()));
    let second = tx.execute(&open_init("client-a")).unwrap();
    assert_eq!(second.as_str(), "connection-1");
    let (state, committed) = tx.commit();
    assert_eq!(committed, Ok(2));
    assert_eq!(state.connection(&first), Some(open_init("client-a").to_connection_end()));
    assert_eq!(state.connection(&second), Some(open_init("client-a").to_connection_end()));
    assert_eq!(state.connections_of("client-a"), vec![0, 1]);
}

#[test]
fn execute_fails_without_writing_when_no_identifier_is_left() {
    let mut tx = State::at(0, u64::MAX).begin_transaction();
    assert_eq!(
        tx.execute(&open_init("client-7")),
        Err(InternalError::ConnectionCounterExhausted)
    );
    assert_eq!(tx.connection_counter(), u64::MAX);
    assert_eq!(tx.discard(), State::at(0, u64::MAX));
}

#[test]
fn commit_fails_and_returns_the_snapshot_when_no_version_is_left() {
    let before = State::at(u64::MAX, 0);
    let mut tx = before.clone().begin_transaction();
    tx.put_client("client-7".to_string(), ClientStatus::Active);
    let (state, committed) = tx.commit();
    assert_eq!(committed, Err(InternalError::StateVersionExhausted));
    assert_eq!(state, before);
    assert_eq!(state.client_status("client-7"), None);
}

#[test]
fn commit_reaches_the_last_version() {
    let tx = State::at(u64::MAX - 1, 0).begin_transaction();
    let (state, committed) = tx.commit();
    assert_eq!(committed, Ok(u64::MAX));
    assert_eq!(state.version(), u64::MAX);
}

#[test]
fn policy_admits_what_it_lists() {
    let listed = ClientPolicy::AllowList(vec!["client-1".to_string(), "client-3".to_string()]);
    assert!(listed.admits("client-1"));
    assert!(listed.admits("client-3"));
    assert!(!listed.admits("client-2"));
    assert!(!listed.admits(""));
    assert!(!ClientPolicy::AllowList(Vec::new()).admits("client-1"));
    assert!(ClientPolicy::Unrestricted.admits("client-1"));
    assert!(ClientPolicy::Unrestricted.admits(""));
    assert_eq!(listed.clone(), listed);
}

#[test]
fn policy_is_written_through_a_transaction() {
    let mut tx = State::at(2, 0).begin_transaction();
    assert_eq!(tx.client_policy(), &ClientPolicy::Unrestricted);
    tx.put_client_policy(ClientPolicy::AllowList(vec!["client-1".to_string()]));
    assert_eq!(tx.client_policy(), &ClientPolicy::AllowList(vec!["client-1".to_string()]));
    assert_eq!(tx.snapshot().client_policy(), &ClientPolicy::Unrestricted);
    let (state, committed) = tx.commit();
    assert_eq!(committed, Ok(3));
    assert_eq!(state.client_policy(), &ClientPolicy::AllowList(vec!["client-1".to_string()]));

    let mut tx = state.begin_transaction();
    tx.put_client_policy(ClientPolicy::Unrestricted);
    let state = tx.discard();
    assert_eq!(state.client_policy(), &ClientPolicy::AllowList(vec!["client-1".to_string()]));

    let tx = state.begin_transaction();
    assert_eq!(tx.client_policy(), &ClientPolicy::AllowList(vec!["client-1".to_string()]));
    let (state, committed) = tx.commit();
    assert_eq!(committed, Ok(4));
    assert_eq!(state.client_policy(), &ClientPolicy::AllowList(vec!["client-1".to_string()]));
}

#[test]
fn cloned_state_reads_the_same() {
    let mut tx = State::at(4, 2).begin_transaction();
    tx.put_client("client-7".to_string(), ClientStatus::Active);
    tx.execute(&open_init("client-7")).unwrap();
    let (state, _) = tx.commit();
    let copy = state.clone();
    assert_eq!(copy, state);
    assert_eq!(copy.version(), 5);
    assert_eq!(copy.connection_counter(), 3);
    assert_eq!(copy.client_status("client-7"), Some(ClientStatus::Active));
    assert_eq!(copy.connections_of("client-7"), vec![2]);
}

#[test]
fn copied_bytes_are_the_same_bytes() {
    assert_eq!(clone_bytes(&vec![1, 2, 3, 255, 0]), vec![1, 2, 3, 255, 0]);
    assert_eq!(clone_bytes(&Vec::new()), Vec::<u8>::new());
}
