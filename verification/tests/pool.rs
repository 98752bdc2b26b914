use transaction_relay::{
    Address, Entry, Environment, Ingestion, Message, NetworkError, Payload, PoolAction,
    Transaction, Transactions,
};

fn peer() -> Address {
    Address::V4 { ip: 0x0a00_0001, port: 4131 }
}

fn relay() -> Transactions {
    Transactions::new(Environment::new(Some(Address::V4 { ip: 0x0a00_0009, port: 4131 }), false))
}

fn spends(value_balance: i64) -> Transaction {
    Transaction { value_balance }
}

fn insert(size_in_bytes: usize, value_balance: i64) -> PoolAction {
    PoolAction::Insert(Entry { size_in_bytes, transaction: spends(value_balance) })
}

/// Does to a pool of named entries what the actions ask, and counts the
/// cleansings and storings.
fn perform(ingestion: &Ingestion, names: &[u8]) -> (Vec<(u8, Entry)>, usize, usize) {
    let mut entries: Vec<(u8, Entry)> = Vec::new();
    let (mut cleansed, mut stored) = (0, 0);
    let mut next = 0;
    for action in &ingestion.actions {
        match action {
            PoolAction::Insert(entry) => {
                if entries.iter().all(|(known, _)| *known != names[next]) {
                    entries.push((names[next], *entry));
                }
                next += 1;
            }
            PoolAction::Cleanse => cleansed += 1,
            PoolAction::Store => stored += 1,
        }
    }
    (entries, cleansed, stored)
}

#[test]
fn empty_pool_answers_with_no_message() {
    assert_eq!(relay().received_get_memory_pool(peer(), &Vec::new()), Ok(None));
}

#[test]
fn pool_is_sent_whole_and_in_order() {
    let encodings = vec![Some(vec![1u8, 2]), Some(Vec::new()), Some(vec![3u8])];
    assert_eq!(
        relay().received_get_memory_pool(peer(), &encodings),
        Ok(Some(Message {
            receiver: peer(),
            payload: Payload::MemoryPool(vec![vec![1u8, 2], Vec::new(), vec![3u8]]),
        }))
    );
}

#[test]
fn entry_that_cannot_be_encoded_is_left_out() {
    let encodings = vec![None, Some(vec![1u8]), None, Some(vec![2u8, 2]), None];
    assert_eq!(
        relay().received_get_memory_pool(peer(), &encodings),
        Ok(Some(Message {
            receiver: peer(),
            payload: Payload::MemoryPool(vec![vec![1u8], vec![2u8, 2]]),
        }))
    );
}

#[test]
fn pool_of_which_nothing_can_be_encoded_answers_with_no_message() {
    assert_eq!(relay().received_get_memory_pool(peer(), &vec![None, None]), Ok(None));
}

#[test]
fn pool_of_one_transaction_is_answered() {
    assert_eq!(
        relay().received_get_memory_pool(peer(), &vec![Some(vec![7u8])]),
        Ok(Some(Message { receiver: peer(), payload: Payload::MemoryPool(vec![vec![7u8]]) }))
    );
}

#[test]
fn bootnode_answers_requests_for_its_pool() {
    let bootnode = Transactions::new(Environment::new(None, true));
    assert_eq!(
        bootnode.received_get_memory_pool(peer(), &vec![Some(vec![7u8])]),
        Ok(Some(Message { receiver: peer(), payload: Payload::MemoryPool(vec![vec![7u8]]) }))
    );
}

#[test]
fn batch_is_inserted_whole_then_cleansed_and_stored_once() {
    let transactions = vec![vec![1u8; 3], vec![2u8; 5], vec![3u8; 8]];
    let decoded = vec![Some(spends(1)), Some(spends(2)), Some(spends(3))];
    let ingestion = relay().received_memory_pool(&transactions, &decoded);
    assert_eq!(ingestion.result, Ok(()));
    assert_eq!(
        ingestion.actions,
        vec![insert(3, 1), insert(5, 2), insert(8, 3), PoolAction::Cleanse, PoolAction::Store]
    );
    let (entries, cleansed, stored) = perform(&ingestion, &[1, 2, 3]);
    assert_eq!(entries.len(), 3);
    assert_eq!((cleansed, stored), (1, 1));
}

#[test]
fn batch_with_a_repeated_transaction_adds_it_once() {
    let transactions = vec![vec![1u8; 3], vec![1u8; 3], vec![2u8; 4]];
    let decoded = vec![Some(spends(1)), Some(spends(1)), Some(spends(2))];
    let ingestion = relay().received_memory_pool(&transactions, &decoded);
    assert_eq!(ingestion.actions.len(), 5);
    let (entries, cleansed, stored) = perform(&ingestion, &[1, 1, 2]);
    assert_eq!(
        entries,
        vec![
            (1, Entry { size_in_bytes: 3, transaction: spends(1) }),
            (2, Entry { size_in_bytes: 4, transaction: spends(2) }),
        ]
    );
    assert_eq!((cleansed, stored), (1, 1));
}

#[test]
fn empty_batch_still_cleanses_and_stores() {
    let ingestion = relay().received_memory_pool(&Vec::new(), &Vec::new());
    assert_eq!(ingestion.result, Ok(()));
    assert_eq!(ingestion.actions, vec![PoolAction::Cleanse, PoolAction::Store]);
}

#[test]
fn undecodable_transaction_ends_the_batch_with_a_failure() {
    let transactions = vec![vec![1u8; 3], vec![0u8; 2], vec![3u8; 8]];
    let decoded = vec![Some(spends(1)), None, Some(spends(3))];
    let ingestion = relay().received_memory_pool(&transactions, &decoded);
    assert_eq!(ingestion.result, Err(NetworkError::UndecodableTransaction { index: 1 }));
    assert_eq!(ingestion.actions, vec![insert(3, 1), PoolAction::Cleanse, PoolAction::Store]);
}

#[test]
fn undecodable_first_transaction_inserts_nothing() {
    let transactions = vec![vec![0u8; 2], vec![3u8; 8]];
    let decoded = vec![None, Some(spends(3))];
    let ingestion = relay().received_memory_pool(&transactions, &decoded);
    assert_eq!(ingestion.result, Err(NetworkError::UndecodableTransaction { index: 0 }));
    assert_eq!(ingestion.actions, vec![PoolAction::Cleanse, PoolAction::Store]);
}

#[test]
fn undecodable_last_transaction_fails_the_batch_after_the_others() {
    let transactions = vec![vec![1u8; 3], vec![2u8; 5], vec![0u8; 1]];
    let decoded = vec![Some(spends(1)), Some(spends(2)), None];
    let ingestion = relay().received_memory_pool(&transactions, &decoded);
    assert_eq!(ingestion.result, Err(NetworkError::UndecodableTransaction { index: 2 }));
    assert_eq!(
        ingestion.actions,
        vec![insert(3, 1), insert(5, 2), PoolAction::Cleanse, PoolAction::Store]
    );
}

#[test]
fn transaction_without_a_decoding_counts_as_undecodable() {
    let transactions = vec![vec![1u8; 3], vec![2u8; 5]];
    let decoded = vec![Some(spends(1))];
    let ingestion = relay().received_memory_pool(&transactions, &decoded);
    assert_eq!(ingestion.result, Err(NetworkError::UndecodableTransaction { index: 1 }));
    assert_eq!(ingestion.actions, vec![insert(3, 1), PoolAction::Cleanse, PoolAction::Store]);
}

#[test]
fn decoding_without_a_transaction_is_ignored() {
    let transactions = vec![vec![1u8; 3]];
    let decoded = vec![Some(spends(1)), Some(spends(2)), None];
    let ingestion = relay().received_memory_pool(&transactions, &decoded);
    assert_eq!(ingestion.result, Ok(()));
    assert_eq!(ingestion.actions, vec![insert(3, 1), PoolAction::Cleanse, PoolAction::Store]);
}

#[test]
fn batch_takes_minting_transactions_unjudged() {
    let transactions = vec![vec![1u8; 3]];
    let decoded = vec![Some(spends(-5))];
    let ingestion = relay().received_memory_pool(&transactions, &decoded);
    assert_eq!(ingestion.result, Ok(()));
    assert_eq!(ingestion.actions, vec![insert(3, -5), PoolAction::Cleanse, PoolAction::Store]);
}
