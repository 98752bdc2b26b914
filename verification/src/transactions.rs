use vstd::prelude::*;
use crate::address::Address;
use crate::admission::{Admission, AdmissionEvent, DropReason, Insertion, Verdict};
use crate::entry::{Entry, Transaction};
use crate::environment::Environment;
use crate::error::NetworkError;
use crate::message::{
    message_views, raw_transactions, Message, MessageView, Payload, PayloadView,
};
use crate::peers::Peers;
use crate::pool::{
    batch_actions, batch_entries, batch_result, decodable_prefix, decoding_at,
    encoded_transactions, lemma_decodable_prefix_ends, Ingestion, PoolAction,
};

verus! {

/// Whether the node at `local` passes a transaction that came from `sender`
/// on to `peer`: it does unless `peer` is the sender or the node itself.
pub open spec fn is_relay_target(peer: Address, sender: Address, local: Address) -> bool {
    peer != sender && peer != local
}

/// The peers, in the order of `peers`, to which the node at `local` passes
/// on a transaction that came from `sender`.
pub open spec fn relay_targets(peers: Seq<Address>, sender: Address, local: Address) -> Seq<
    Address,
> {
    peers.filter(|peer: Address| is_relay_target(peer, sender, local))
}

/// One message for each of `targets`, in order, each carrying the raw
/// transaction `raw`.
pub open spec fn transaction_messages(targets: Seq<Address>, raw: Seq<u8>) -> Seq<MessageView> {
    targets.map_values(
        |target: Address| MessageView { receiver: target, payload: PayloadView::Transaction(raw) },
    )
}

/// The request for the memory pool of the peer at `sync_node`.
pub open spec fn memory_pool_request(sync_node: Address) -> MessageView {
    MessageView { receiver: sync_node, payload: PayloadView::GetMemoryPool }
}

/// The answer to the peer at `receiver` that asked for the memory pool: the
/// raw transactions of the pool.
pub open spec fn memory_pool_response(receiver: Address, transactions: Seq<Seq<u8>>) -> MessageView {
    MessageView { receiver, payload: PayloadView::MemoryPool(transactions) }
}

/// What a call of [`Transactions::update`] came to.
#[derive(Debug)]
pub enum SyncOutcome {
    /// The node is a bootnode: it asks no one for transactions.
    Bootnode,
    /// No peer is registered to synchronise with, so nothing is asked.
    NoSyncNode,
    /// This request for the sync node's memory pool is to be sent.
    Request(Message),
}

/// The transaction relay of a node.
#[derive(Clone, Copy, Debug, PartialEq, Eq, Structural)]
pub struct Transactions {
    /// What the relay knows of the node it runs on.
    pub environment: Environment,
}

proof fn lemma_relay_targets_push(peers: Seq<Address>, peer: Address, sender: Address, local: Address)
    ensures
        relay_targets(peers.push(peer), sender, local) == if is_relay_target(peer, sender, local) {
            relay_targets(peers, sender, local).push(peer)
        } else {
            relay_targets(peers, sender, local)
        },
{
    reveal(Seq::filter);
    assert(peers.push(peer).drop_last() =~= peers);
}

/// A transaction reaches every connected peer but its sender and the node
/// itself, and no one else: an address is among the relay targets exactly
/// when it is a peer and neither of the two. Where no peer is listed twice,
/// no target is, so each of them gets the transaction once. The messages
/// are one for each target, in order, each with the raw transaction.
pub proof fn lemma_relay_reaches_exactly_the_others(
    peers: Seq<Address>,
    sender: Address,
    local: Address,
    raw: Seq<u8>,
)
    ensures
        forall|peer: Address| #[trigger]
            relay_targets(peers, sender, local).contains(peer) <==> peers.contains(peer) && peer
                != sender && peer != local,
        peers.no_duplicates() ==> relay_targets(peers, sender, local).no_duplicates(),
        transaction_messages(relay_targets(peers, sender, local), raw).len() == relay_targets(
            peers,
            sender,
            local,
        ).len(),
        forall|i: int|
            0 <= i < relay_targets(peers, sender, local).len() ==> #[trigger] transaction_messages(
                relay_targets(peers, sender, local),
                raw,
            )[i] == (MessageView {
                receiver: relay_targets(peers, sender, local)[i],
                payload: PayloadView::Transaction(raw),
            }),
    decreases peers.len(),
{
    let targets = relay_targets(peers, sender, local);
    if peers.len() == 0 {
        assert(targets =~= Seq::<Address>::empty()) by {
            reveal(Seq::filter);
        }
    } else {
        let rest = peers.drop_last();
        let last = peers.last();
        let rest_targets = relay_targets(rest, sender, local);
        lemma_relay_reaches_exactly_the_others(rest, sender, local, raw);
        lemma_relay_targets_push(rest, last, sender, local);
        assert(peers =~= rest.push(last));
        assert forall|peer: Address| #[trigger]
            targets.contains(peer) <==> peers.contains(peer) && peer != sender && peer
                != local by {
            if targets.contains(peer) {
                let i = choose|i: int| 0 <= i < targets.len() && targets[i] == peer;
                if i < rest_targets.len() {
                    assert(rest_targets[i] == peer);
                    assert(rest_targets.contains(peer));
                    let j = choose|j: int| 0 <= j < rest.len() && rest[j] == peer;
                    assert(peers[j] == peer);
                } else {
                    assert(peer == last);
                    assert(peers[peers.len() - 1] == peer);
                }
            }
            if peers.contains(peer) && peer != sender && peer != local {
                let j = choose|j: int| 0 <= j < peers.len() && peers[j] == peer;
                if j < rest.len() {
                    assert(rest[j] == peer);
                    assert(rest.contains(peer));
                    assert(rest_targets.contains(peer));
                    let i = choose|i: int| 0 <= i < rest_targets.len() && rest_targets[i] == peer;
                    assert(targets[i] == peer);
                } else {
                    assert(targets[targets.len() - 1] == peer);
                }
            }
        }
        if peers.no_duplicates() {
            assert(rest.no_duplicates());
            if is_relay_target(last, sender, local) {
                assert(!rest.contains(last)) by {
                    if rest.contains(last) {
                        let j = choose|j: int| 0 <= j < rest.len() && rest[j] == last;
                        assert(peers[j] == peers[peers.len() - 1]);
                    }
                }
                assert(!rest_targets.contains(last));
                assert forall|i: int, j: int|
                    0 <= i < targets.len() && 0 <= j < targets.len() && i != j implies targets[i]
                    != targets[j] by {
                    if i == rest_targets.len() {
                        assert(rest_targets[j] == targets[j]);
                        assert(rest_targets.contains(targets[j]));
                    } else if j == rest_targets.len() {
                        assert(rest_targets[i] == targets[i]);
                        assert(rest_targets.contains(targets[i]));
                    } else {
                        assert(rest_targets[i] == targets[i]);
                        assert(rest_targets[j] == targets[j]);
                    }
                }
            }
        }
    }
}

impl Transactions {
    /// The relay of the node that `environment` describes.
    pub fn new(environment: Environment) -> (transactions: Transactions)
        ensures
            transactions.environment == environment,
    {
        Transactions { environment }
    }

    /// Triggers the synchronisation of transactions with `sync_node`.
    ///
    /// A bootnode asks no one. Any other node asks the sync node for its
    /// memory pool, if there is a sync node. The call never fails.
    pub fn update(&self, sync_node: Option<Address>) -> (outcome: Result<SyncOutcome, NetworkError>)
        ensures
            outcome is Ok,
            self.environment.is_bootnode ==> outcome->Ok_0 is Bootnode,
            !self.environment.is_bootnode && sync_node is None ==> outcome->Ok_0 is NoSyncNode,
            !self.environment.is_bootnode && sync_node is Some ==> outcome->Ok_0 is Request
                && outcome->Ok_0->Request_0@ == memory_pool_request(sync_node->Some_0),
    {
        if self.environment.is_bootnode() {
            return Ok(SyncOutcome::Bootnode);
        }
        match sync_node {
            Some(sync_node) => Ok(
                SyncOutcome::Request(Message::new(sync_node, Payload::GetMemoryPool)),
            ),
            None => Ok(SyncOutcome::NoSyncNode),
        }
    }

    /// Passes a transaction on to the connected peers.
    ///
    /// Returns one message with a copy of `transaction_bytes` for each of
    /// `connected_peers`, in their order, but the sender of the transaction
    /// and this node itself. A transaction that this node made has the
    /// node's own address as `transaction_sender`. The call never fails.
    pub fn propagate_transaction(
        &self,
        transaction_bytes: &Vec<u8>,
        transaction_sender: Address,
        connected_peers: &Peers,
    ) -> (sent: Result<Vec<Message>, NetworkError>)
        requires
            self.environment.local_address is Some,
        ensures
            sent is Ok,
            message_views(sent->Ok_0@) == transaction_messages(
                relay_targets(
                    connected_peers@,
                    transaction_sender,
                    self.environment.local_address->Some_0,
                ),
                transaction_bytes@,
            ),
    {
        let local_address = self.environment.local_address().unwrap();
        let addresses = connected_peers.addresses();
        let mut messages: Vec<Message> = Vec::new();
        let mut i: usize = 0;
        assert(addresses@.take(0) =~= Seq::<Address>::empty());
        assert(relay_targets(Seq::<Address>::empty(), transaction_sender, local_address)
            =~= Seq::<Address>::empty()) by {
            reveal(Seq::filter);
        }
        while i < addresses.len()
            invariant
                i <= addresses@.len(),
                message_views(messages@) =~= transaction_messages(
                    relay_targets(addresses@.take(i as int), transaction_sender, local_address),
                    transaction_bytes@,
                ),
            decreases addresses@.len() - i,
        {
            let remote_address = addresses[i];
            proof {
                lemma_relay_targets_push(
                    addresses@.take(i as int),
                    remote_address,
                    transaction_sender,
                    local_address,
                );
                assert(addresses@.take(i as int).push(remote_address) =~= addresses@.take(
                    i + 1,
                ));
            }
            if remote_address != transaction_sender && remote_address != local_address {
                let copy = transaction_bytes.clone();
                assert(copy@ =~= transaction_bytes@);
                let message = Message::new(remote_address, Payload::Transaction(copy));
                let ghost sent_before = messages@;
                let ghost targets_before = relay_targets(
                    addresses@.take(i as int),
                    transaction_sender,
                    local_address,
                );
                messages.push(message);
                assert(message_views(messages@) =~= message_views(sent_before).push(message@));
                assert(transaction_messages(
                    targets_before.push(remote_address),
                    transaction_bytes@,
                ) =~= transaction_messages(targets_before, transaction_bytes@).push(message@));
            }
            i += 1;
        }
        assert(addresses@.take(i as int) =~= addresses@);
        Ok(messages)
    }

    /// Takes the admission of a transaction received from the peer at
    /// `source` one step further: from `state` to the state that follows
    /// when `event` arrives.
    ///
    /// `transaction` holds the raw bytes as they were received. An admission
    /// starts in [`Admission::Received`]. The caller has the bytes decoded,
    /// the decoded transaction judged by the consensus verifier and the
    /// entry inserted into the memory pool, each when the state returned
    /// asks for it, and hands in what came of it as the next event.
    ///
    /// Bytes that do not decode, an invalid transaction, one that mints
    /// value and one that the memory pool does not take as new are dropped.
    /// Only when the pool reports the entry as newly added is the
    /// transaction passed on: the messages returned then are those of
    /// [`Transactions::propagate_transaction`] for the raw bytes, the sender
    /// `source` and `connected_peers`. Every other step returns no message.
    pub fn received_transaction(
        &self,
        source: Address,
        transaction: &Vec<u8>,
        connected_peers: &Peers,
        state: Admission,
        event: AdmissionEvent,
    ) -> (next: (Admission, Vec<Message>))
        requires
            state.propagates(event) ==> self.environment.local_address is Some,
        ensures
            next.0 == state.after(event, transaction.len()),
            message_views(next.1@) == if state.propagates(event) {
                transaction_messages(
                    relay_targets(
                        connected_peers@,
                        source,
                        self.environment.local_address->Some_0,
                    ),
                    transaction@,
                )
            } else {
                Seq::<MessageView>::empty()
            },
    {
        let mut messages: Vec<Message> = Vec::new();
        assert(message_views(messages@) =~= Seq::<MessageView>::empty());
        let next = match (state, event) {
            (Admission::Received, AdmissionEvent::Decoded(decoded)) => match decoded {
                Some(decoded) => Admission::Decoded(decoded),
                None => Admission::Dropped(DropReason::Malformed),
            },
            (Admission::Decoded(decoded), AdmissionEvent::Verdict(verdict)) => match verdict {
                Verdict::Failed => Admission::Failed(NetworkError::Verification),
                Verdict::Invalid => Admission::Dropped(DropReason::Invalid),
                Verdict::Valid => {
                    if decoded.mints() {
                        Admission::Dropped(DropReason::Coinbase)
                    } else {
                        Admission::Verified(
                            Entry { size_in_bytes: transaction.len(), transaction: decoded },
                        )
                    }
                },
            },
            (Admission::Verified(_), AdmissionEvent::Insertion(insertion)) => match insertion {
                Insertion::Added => {
                    match self.propagate_transaction(transaction, source, connected_peers) {
                        Ok(sent) => {
                            messages = sent;
                            Admission::Propagated
                        },
                        Err(error) => Admission::Failed(error),
                    }
                },
                Insertion::Duplicate => Admission::Dropped(DropReason::Duplicate),
                Insertion::Failed => Admission::Dropped(DropReason::PoolFailure),
            },
            (state, _) => state,
        };
        (next, messages)
    }

    /// Answers the peer at `remote_address`, which asked for the
    /// transactions of this node's memory pool.
    ///
    /// `encodings` holds, for each entry of the pool as it stands, the raw
    /// bytes of its transaction, or `None` where the transaction could not
    /// be encoded. Such entries are left out. The answer is one message with
    /// all the other transactions, in order. Where there is none, because
    /// the pool is empty or nothing could be encoded, no message is sent.
    /// The call never fails.
    pub fn received_get_memory_pool(
        &self,
        remote_address: Address,
        encodings: &Vec<Option<Vec<u8>>>,
    ) -> (answer: Result<Option<Message>, NetworkError>)
        ensures
            answer is Ok,
            encodings@.len() == 0 ==> answer->Ok_0 is None,
            encoded_transactions(encodings@).len() == 0 ==> answer->Ok_0 is None,
            encoded_transactions(encodings@).len() > 0 ==> answer->Ok_0 is Some
                && answer->Ok_0->Some_0@ == memory_pool_response(
                remote_address,
                encoded_transactions(encodings@),
            ),
    {
        let mut transactions: Vec<Vec<u8>> = Vec::new();
        let mut i: usize = 0;
        assert(encodings@.take(0) =~= Seq::<Option<Vec<u8>>>::empty());
        assert(raw_transactions(transactions@) =~= Seq::<Seq<u8>>::empty());
        while i < encodings.len()
            invariant
                i <= encodings@.len(),
                raw_transactions(transactions@) =~= encoded_transactions(
                    encodings@.take(i as int),
                ),
            decreases encodings@.len() - i,
        {
            assert(encodings@.take(i + 1).drop_last() =~= encodings@.take(i as int));
            match &encodings[i] {
                Some(transaction_bytes) => {
                    let copy = transaction_bytes.clone();
                    assert(copy@ =~= transaction_bytes@);
                    let ghost before = transactions@;
                    transactions.push(copy);
                    assert(raw_transactions(transactions@) =~= raw_transactions(before).push(
                        copy@,
                    ));
                },
                None => {},
            }
            i += 1;
        }
        assert(encodings@.take(i as int) =~= encodings@);
        if transactions.is_empty() {
            Ok(None)
        } else {
            Ok(Some(Message::new(remote_address, Payload::MemoryPool(transactions))))
        }
    }

    /// Merges the transactions of a peer's memory pool, which the peer sent
    /// as `transactions`, into this node's.
    ///
    /// `decoded` holds, position by position, what decoding made of each
    /// raw transaction; one for which it holds nothing counts as
    /// undecodable. Each transaction that decodes becomes an entry for the
    /// memory pool, with the length of its raw bytes, without a verdict of
    /// the consensus verifier. The first transaction that does not decode
    /// ends the batch: no later one is inserted, and the handler reports
    /// its position as a failure. Either way the pool is then cleansed and
    /// stored, once. No transaction of a batch is passed on to peers.
    pub fn received_memory_pool(
        &self,
        transactions: &Vec<Vec<u8>>,
        decoded: &Vec<Option<Transaction>>,
    ) -> (ingestion: Ingestion)
        ensures
            ingestion.actions@ == batch_actions(transactions@, decoded@),
            ingestion.result == batch_result(transactions@, decoded@),
    {
        let mut actions: Vec<PoolAction> = Vec::new();
        let mut undecodable: Option<usize> = None;
        let mut i: usize = 0;
        while i < transactions.len() && undecodable.is_none()
            invariant
                i <= transactions@.len(),
                undecodable is None ==> actions@.len() == i && decodable_prefix(
                    decoded@,
                    i as nat,
                ) == i,
                undecodable is Some ==> actions@.len() == undecodable->Some_0
                    && undecodable->Some_0 < transactions@.len() && decodable_prefix(
                    decoded@,
                    transactions@.len(),
                ) == undecodable->Some_0,
                forall|j: int|
                    0 <= j < actions@.len() ==> actions@[j] == PoolAction::Insert(
                        Entry {
                            size_in_bytes: transactions@[j].len(),
                            transaction: decoded@[j]->Some_0,
                        },
                    ),
            decreases transactions@.len() - i,
        {
            let decoding = if i < decoded.len() {
                decoded[i]
            } else {
                None
            };
            assert(decoding == decoding_at(decoded@, i as int));
            match decoding {
                Some(transaction) => {
                    actions.push(
                        PoolAction::Insert(
                            Entry { size_in_bytes: transactions[i].len(), transaction },
                        ),
                    );
                },
                None => {
                    proof {
                        lemma_decodable_prefix_ends(decoded@, i as nat, transactions@.len());
                    }
                    undecodable = Some(i);
                },
            }
            i += 1;
        }
        assert(actions@ =~= batch_entries(transactions@, decoded@).map_values(
            |entry: Entry| PoolAction::Insert(entry),
        ));
        let result = match undecodable {
            Some(index) => Err(NetworkError::UndecodableTransaction { index }),
            None => Ok(()),
        };
        actions.push(PoolAction::Cleanse);
        actions.push(PoolAction::Store);
        Ingestion { actions, result }
    }
}

} // verus!
