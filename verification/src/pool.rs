use vstd::prelude::*;
use crate::entry::{Entry, Transaction};
use crate::error::NetworkError;

verus! {

/// Something the relay asks of the memory pool.
#[derive(Clone, Copy, Debug, PartialEq, Eq, Structural)]
pub enum PoolAction {
    /// Insert this entry, unless the pool holds its transaction already.
    Insert(Entry),
    /// Remove the entries that the current ledger no longer allows.
    Cleanse,
    /// Write the pool to the node's storage.
    Store,
}

/// What the ingestion of a batch of transactions comes to.
#[derive(Debug)]
pub struct Ingestion {
    /// What the memory pool is asked to do, in this order. A failure of
    /// one action does not stop the next.
    pub actions: Vec<PoolAction>,
    /// What the handler reports to its caller.
    pub result: Result<(), NetworkError>,
}

/// The raw transactions among `encodings`, in order: one for each entry
/// that could be encoded.
pub open spec fn encoded_transactions(encodings: Seq<Option<Vec<u8>>>) -> Seq<Seq<u8>> {
    encodings.filter_map(
        |encoding: Option<Vec<u8>>|
            match encoding {
                Some(raw) => Some(raw@),
                None => None,
            },
    )
}

/// What decoding made of the transaction at position `i` of a batch. A
/// transaction for which `decoded` holds nothing counts as undecodable.
pub open spec fn decoding_at(decoded: Seq<Option<Transaction>>, i: int) -> Option<Transaction> {
    if 0 <= i < decoded.len() {
        decoded[i]
    } else {
        None
    }
}

/// The number of transactions at the head of a batch of `count`
/// transactions that decode: the position of the first undecodable one, or
/// `count` where all decode.
pub open spec fn decodable_prefix(decoded: Seq<Option<Transaction>>, count: nat) -> nat
    decreases count,
{
    if count == 0 {
        0
    } else {
        let before = decodable_prefix(decoded, (count - 1) as nat);
        if before == count - 1 && decoding_at(decoded, count - 1) is Some {
            count
        } else {
            before
        }
    }
}

/// The entries that a batch gives the memory pool: one for each raw
/// transaction ahead of the first undecodable one, holding the decoded
/// transaction and the length of its raw bytes.
pub open spec fn batch_entries(transactions: Seq<Vec<u8>>, decoded: Seq<Option<Transaction>>) -> Seq<
    Entry,
> {
    Seq::new(
        decodable_prefix(decoded, transactions.len()),
        |i: int|
            Entry { size_in_bytes: transactions[i].len(), transaction: decoded[i]->Some_0 },
    )
}

/// What a batch asks of the memory pool: the insertion of each of its
/// entries, in order, then one cleansing, then one storing.
pub open spec fn batch_actions(transactions: Seq<Vec<u8>>, decoded: Seq<Option<Transaction>>) -> Seq<
    PoolAction,
> {
    batch_entries(transactions, decoded).map_values(|entry: Entry| PoolAction::Insert(entry))
        + seq![PoolAction::Cleanse, PoolAction::Store]
}

/// What the handler of a batch reports: the position of the first
/// undecodable transaction as a failure, or success where all decode.
pub open spec fn batch_result(transactions: Seq<Vec<u8>>, decoded: Seq<Option<Transaction>>) -> Result<
    (),
    NetworkError,
> {
    let prefix = decodable_prefix(decoded, transactions.len());
    if prefix < transactions.len() {
        Err(NetworkError::UndecodableTransaction { index: prefix as usize })
    } else {
        Ok(())
    }
}

/// The decodable prefix of a batch is what its name says: it is no longer
/// than the batch, every transaction in it decodes, and the transaction
/// that follows it, if there is one, does not.
pub proof fn lemma_decodable_prefix(decoded: Seq<Option<Transaction>>, count: nat)
    ensures
        decodable_prefix(decoded, count) <= count,
        forall|i: int|
            0 <= i < decodable_prefix(decoded, count) ==> (#[trigger] decoding_at(decoded, i))
                is Some,
        decodable_prefix(decoded, count) < count ==> decoding_at(
            decoded,
            decodable_prefix(decoded, count) as int,
        ) is None,
    decreases count,
{
    if count > 0 {
        lemma_decodable_prefix(decoded, (count - 1) as nat);
    }
}

/// Once a transaction does not decode, the decodable prefix ends there,
/// however long the batch is.
pub proof fn lemma_decodable_prefix_ends(decoded: Seq<Option<Transaction>>, end: nat, count: nat)
    requires
        decodable_prefix(decoded, end) == end,
        decoding_at(decoded, end as int) is None,
        end < count,
    ensures
        decodable_prefix(decoded, count) == end,
    decreases count,
{
    if count > end + 1 {
        lemma_decodable_prefix_ends(decoded, end, (count - 1) as nat);
    }
}

/// Where every transaction at the head of a batch decodes, the decodable
/// prefix covers that head.
pub proof fn lemma_decodable_prefix_covers(decoded: Seq<Option<Transaction>>, count: nat)
    requires
        forall|i: int| 0 <= i < count ==> (#[trigger] decoding_at(decoded, i)) is Some,
    ensures
        decodable_prefix(decoded, count) == count,
    decreases count,
{
    if count > 0 {
        lemma_decodable_prefix_covers(decoded, (count - 1) as nat);
        assert(decoding_at(decoded, count - 1) is Some);
    }
}

/// A batch of transactions that all decode is inserted whole: the memory
/// pool is asked to insert one entry for each of them, in the order of the
/// batch, each with the decoded transaction and the length of its raw
/// bytes, and the handler reports success.
pub proof fn lemma_decodable_batch_is_inserted_whole(
    transactions: Seq<Vec<u8>>,
    decoded: Seq<Option<Transaction>>,
)
    requires
        forall|i: int|
            0 <= i < transactions.len() ==> (#[trigger] decoding_at(decoded, i)) is Some,
    ensures
        batch_result(transactions, decoded) is Ok,
        batch_entries(transactions, decoded).len() == transactions.len(),
        forall|i: int|
            0 <= i < transactions.len() ==> #[trigger] batch_actions(transactions, decoded)[i]
                == PoolAction::Insert(
                Entry { size_in_bytes: transactions[i].len(), transaction: decoded[i]->Some_0 },
            ),
{
    lemma_decodable_prefix_covers(decoded, transactions.len());
}

/// Whatever a batch holds, the memory pool is cleansed once and stored
/// once for the whole of it: after the last insertion, the cleansing first.
/// This holds of a batch that ends early on an undecodable transaction too.
pub proof fn lemma_batch_is_cleansed_and_stored_once(
    transactions: Seq<Vec<u8>>,
    decoded: Seq<Option<Transaction>>,
)
    ensures
        batch_actions(transactions, decoded).len() == batch_entries(transactions, decoded).len()
            + 2,
        forall|i: int|
            0 <= i < batch_entries(transactions, decoded).len() ==> #[trigger] batch_actions(
                transactions,
                decoded,
            )[i] == PoolAction::Insert(batch_entries(transactions, decoded)[i]),
        batch_actions(transactions, decoded)[batch_entries(transactions, decoded).len() as int]
            == PoolAction::Cleanse,
        batch_actions(transactions, decoded)[batch_entries(transactions, decoded).len() as int + 1]
            == PoolAction::Store,
{
}

/// A batch that holds an undecodable transaction is inserted up to that
/// transaction and no further, and the handler reports the position of the
/// transaction as a failure.
pub proof fn lemma_undecodable_transaction_ends_batch(
    transactions: Seq<Vec<u8>>,
    decoded: Seq<Option<Transaction>>,
    index: nat,
)
    requires
        index < transactions.len(),
        decoding_at(decoded, index as int) is None,
        forall|i: int| 0 <= i < index ==> (#[trigger] decoding_at(decoded, i)) is Some,
    ensures
        batch_entries(transactions, decoded).len() == index,
        batch_result(transactions, decoded) == Err::<(), NetworkError>(
            NetworkError::UndecodableTransaction { index: index as usize },
        ),
{
    lemma_decodable_prefix_covers(decoded, index);
    lemma_decodable_prefix_ends(decoded, index, transactions.len());
}

/// An empty memory pool has no transaction to answer a request with, and
/// neither has one of which no entry could be encoded.
pub proof fn lemma_nothing_encoded(encodings: Seq<Option<Vec<u8>>>)
    requires
        forall|i: int| 0 <= i < encodings.len() ==> encodings[i] is None,
    ensures
        encoded_transactions(encodings).len() == 0,
    decreases encodings.len(),
{
    if encodings.len() > 0 {
        lemma_nothing_encoded(encodings.drop_last());
    }
}

} // verus!
