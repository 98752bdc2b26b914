use transaction_relay::{Address, Environment, Message, Payload, SyncOutcome, Transactions};

fn peer() -> Address {
    Address::V4 { ip: 0x7f00_0001, port: 4131 }
}

#[test]
fn bootnode_asks_no_one() {
    let relay = Transactions::new(Environment::new(Some(peer()), true));
    assert!(matches!(relay.update(Some(peer())), Ok(SyncOutcome::Bootnode)));
    assert!(matches!(relay.update(None), Ok(SyncOutcome::Bootnode)));
}

#[test]
fn node_asks_its_sync_node_for_the_memory_pool() {
    let relay = Transactions::new(Environment::new(None, false));
    match relay.update(Some(peer())) {
        Ok(SyncOutcome::Request(message)) => {
            assert_eq!(message, Message { receiver: peer(), payload: Payload::GetMemoryPool });
        }
        other => panic!("expected a request, got {:?}", other),
    }
}

#[test]
fn node_without_sync_node_asks_no_one() {
    let relay = Transactions::new(Environment::new(Some(peer()), false));
    assert!(matches!(relay.update(None), Ok(SyncOutcome::NoSyncNode)));
}

#[test]
fn sync_node_may_have_a_v6_address() {
    let sync_node = Address::V6 { ip: 1, port: 4131, flowinfo: 0, scope_id: 3 };
    let relay = Transactions::new(Environment::new(None, false));
    match relay.update(Some(sync_node)) {
        Ok(SyncOutcome::Request(message)) => assert_eq!(message.receiver, sync_node),
        other => panic!("expected a request, got {:?}", other),
    }
}

#[test]
fn relay_keeps_the_environment_it_was_made_with() {
    let environment = Environment::new(Some(peer()), true);
    let relay = Transactions::new(environment);
    assert_eq!(relay.environment, environment);
    assert!(relay.environment.is_bootnode());
    assert_eq!(relay.environment.local_address(), Some(peer()));
}

#[test]
fn local_address_can_be_set_later() {
    let mut environment = Environment::new(None, false);
    assert_eq!(environment.local_address(), None);
    environment.set_local_address(peer());
    assert_eq!(environment, Environment::new(Some(peer()), false));
}

#[test]
fn message_holds_what_it_was_made_of() {
    let message = Message::new(peer(), Payload::Transaction(vec![1u8, 2]));
    assert_eq!(message.receiver, peer());
    assert_eq!(message.payload, Payload::Transaction(vec![1u8, 2]));
}
