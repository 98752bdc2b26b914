use vstd::prelude::*;
use crate::entry::{Entry, Transaction};
use crate::error::NetworkError;

verus! {

/// What the consensus verifier said of a transaction.
#[derive(Clone, Copy, Debug, PartialEq, Eq, Structural)]
pub enum Verdict {
    /// The transaction is valid against the current ledger.
    Valid,
    /// The transaction breaks a consensus rule.
    Invalid,
    /// The verifier failed before it reached a verdict.
    Failed,
}

/// What the memory pool said when asked to insert an entry.
#[derive(Clone, Copy, Debug, PartialEq, Eq, Structural)]
pub enum Insertion {
    /// The entry is new to the pool and is now in it.
    Added,
    /// The pool left the entry out: it knows the transaction already.
    Duplicate,
    /// The pool failed.
    Failed,
}

/// Why a received transaction was dropped.
#[derive(Clone, Copy, Debug, PartialEq, Eq, Structural)]
pub enum DropReason {
    /// The raw bytes are no transaction.
    Malformed,
    /// The consensus verifier found the transaction invalid.
    Invalid,
    /// The transaction mints value, as only a coinbase transaction may, and
    /// peers do not relay those.
    Coinbase,
    /// The memory pool knows the transaction already.
    Duplicate,
    /// The memory pool failed to take the transaction.
    PoolFailure,
}

/// How far the admission of one received transaction has come.
///
/// A transaction goes from `Received` over `Decoded` and `Verified` to
/// `Propagated`, and leaves this way at any gate for `Dropped` or `Failed`.
/// The state also tells what the relay waits for: in `Received` for the
/// decoding of the raw bytes, in `Decoded` for the consensus verifier's
/// verdict on the transaction, in `Verified` for the memory pool's answer
/// to the insertion of the entry. The other three states are final.
#[derive(Clone, Copy, Debug, PartialEq, Eq, Structural)]
pub enum Admission {
    /// The raw bytes have arrived.
    Received,
    /// The bytes decode to this transaction.
    Decoded(Transaction),
    /// The transaction is valid and mints nothing; this entry is to be
    /// inserted into the memory pool.
    Verified(Entry),
    /// The transaction is new to the memory pool and was passed on.
    Propagated,
    /// The transaction was dropped, which is no failure of the handler.
    Dropped(DropReason),
    /// The handler failed.
    Failed(NetworkError),
}

/// What the world outside the relay answered during an admission.
#[derive(Clone, Copy, Debug, PartialEq, Eq)]
pub enum AdmissionEvent {
    /// The raw bytes were decoded: to this transaction, or not at all.
    Decoded(Option<Transaction>),
    /// The consensus verifier judged the decoded transaction.
    Verdict(Verdict),
    /// The memory pool answered the insertion of the entry.
    Insertion(Insertion),
}

impl Admission {
    /// The state that follows this one when `event` arrives, for a
    /// transaction of `size_in_bytes` raw bytes. An event that the state
    /// does not wait for changes nothing.
    pub open spec fn after(self, event: AdmissionEvent, size_in_bytes: usize) -> Admission {
        match (self, event) {
            (Admission::Received, AdmissionEvent::Decoded(None)) => Admission::Dropped(
                DropReason::Malformed,
            ),
            (Admission::Received, AdmissionEvent::Decoded(Some(transaction))) => Admission::Decoded(
                transaction,
            ),
            (Admission::Decoded(_), AdmissionEvent::Verdict(Verdict::Failed)) => Admission::Failed(
                NetworkError::Verification,
            ),
            (Admission::Decoded(_), AdmissionEvent::Verdict(Verdict::Invalid)) => Admission::Dropped(
                DropReason::Invalid,
            ),
            (Admission::Decoded(transaction), AdmissionEvent::Verdict(Verdict::Valid)) => {
                if transaction.is_coinbase_shaped() {
                    Admission::Dropped(DropReason::Coinbase)
                } else {
                    Admission::Verified(Entry { size_in_bytes, transaction })
                }
            },
            (Admission::Verified(_), AdmissionEvent::Insertion(Insertion::Added)) => {
                Admission::Propagated
            },
            (
                Admission::Verified(_),
                AdmissionEvent::Insertion(Insertion::Duplicate),
            ) => Admission::Dropped(DropReason::Duplicate),
            (Admission::Verified(_), AdmissionEvent::Insertion(Insertion::Failed)) => {
                Admission::Dropped(DropReason::PoolFailure)
            },
            _ => self,
        }
    }

    /// Whether `event` makes the relay hand an entry to the memory pool.
    pub open spec fn inserts(self, event: AdmissionEvent) -> bool {
        &&& self matches Admission::Decoded(transaction)
        &&& event == AdmissionEvent::Verdict(Verdict::Valid)
        &&& !transaction.is_coinbase_shaped()
    }

    /// Whether `event` makes the relay pass the transaction on to peers.
    pub open spec fn propagates(self, event: AdmissionEvent) -> bool {
        self is Verified && event == AdmissionEvent::Insertion(Insertion::Added)
    }

    /// Whether the admission has ended.
    pub open spec fn is_final(self) -> bool {
        self is Propagated || self is Dropped || self is Failed
    }

    /// What the handler reports to its caller once the admission stands
    /// here: a failure in `Failed`, success in every other state.
    pub open spec fn report(self) -> Result<(), NetworkError> {
        match self {
            Admission::Failed(error) => Err(error),
            _ => Ok(()),
        }
    }

    /// Tells whether the admission has ended.
    pub fn is_finished(&self) -> (finished: bool)
        ensures
            finished == self.is_final(),
    {
        match self {
            Admission::Propagated | Admission::Dropped(_) | Admission::Failed(_) => true,
            _ => false,
        }
    }

    /// What the handler reports to its caller.
    pub fn result(&self) -> (result: Result<(), NetworkError>)
        ensures
            result == self.report(),
    {
        match self {
            Admission::Failed(error) => Err(*error),
            _ => Ok(()),
        }
    }
}

/// Where the admission of a transaction of `size_in_bytes` raw bytes stands
/// once `events` have arrived, in this order.
pub open spec fn admission_after(events: Seq<AdmissionEvent>, size_in_bytes: usize) -> Admission
    decreases events.len(),
{
    if events.len() == 0 {
        Admission::Received
    } else {
        admission_after(events.drop_last(), size_in_bytes).after(events.last(), size_in_bytes)
    }
}

/// How often, while `events` arrive, the relay hands an entry to the memory
/// pool.
pub open spec fn insertions(events: Seq<AdmissionEvent>, size_in_bytes: usize) -> nat
    decreases events.len(),
{
    if events.len() == 0 {
        0
    } else {
        let before = insertions(events.drop_last(), size_in_bytes);
        if admission_after(events.drop_last(), size_in_bytes).inserts(events.last()) {
            before + 1
        } else {
            before
        }
    }
}

/// How often, while `events` arrive, the relay passes the transaction on to
/// peers.
pub open spec fn propagations(events: Seq<AdmissionEvent>, size_in_bytes: usize) -> nat
    decreases events.len(),
{
    if events.len() == 0 {
        0
    } else {
        let before = propagations(events.drop_last(), size_in_bytes);
        if admission_after(events.drop_last(), size_in_bytes).propagates(events.last()) {
            before + 1
        } else {
            before
        }
    }
}

/// Whatever arrives, and in whatever order, an admission hands at most one
/// entry to the memory pool and passes the transaction on at most once. It
/// has handed over an entry exactly when it stands in `Verified`, in
/// `Propagated` or among the transactions that the pool did not take, and
/// it has passed the transaction on exactly when it stands in `Propagated`.
/// The entry holds the length of the raw bytes and a transaction that mints
/// nothing.
pub proof fn lemma_admitted_at_most_once(events: Seq<AdmissionEvent>, size_in_bytes: usize)
    ensures
        insertions(events, size_in_bytes) <= 1,
        propagations(events, size_in_bytes) <= 1,
        insertions(events, size_in_bytes) == 1 <==> ({
            let state = admission_after(events, size_in_bytes);
            ||| state is Verified
            ||| state is Propagated
            ||| state == Admission::Dropped(DropReason::Duplicate)
            ||| state == Admission::Dropped(DropReason::PoolFailure)
        }),
        propagations(events, size_in_bytes) == 1 <==> admission_after(events, size_in_bytes)
            is Propagated,
        admission_after(events, size_in_bytes) matches Admission::Verified(entry)
            ==> entry.size_in_bytes == size_in_bytes && !entry.transaction.is_coinbase_shaped(),
    decreases events.len(),
{
    if events.len() > 0 {
        lemma_admitted_at_most_once(events.drop_last(), size_in_bytes);
    }
}

/// A transaction that is passed on was inserted first: no admission passes
/// a transaction on unless the memory pool has reported its entry as newly
/// added. So a transaction that the pool knows already, and for which it
/// answers every insertion with `Duplicate`, is not passed on again.
pub proof fn lemma_duplicate_is_not_propagated(events: Seq<AdmissionEvent>, size_in_bytes: usize)
    requires
        forall|i: int|
            0 <= i < events.len() ==> events[i] != AdmissionEvent::Insertion(Insertion::Added),
    ensures
        propagations(events, size_in_bytes) == 0,
        !(admission_after(events, size_in_bytes) is Propagated),
    decreases events.len(),
{
    if events.len() > 0 {
        lemma_duplicate_is_not_propagated(events.drop_last(), size_in_bytes);
    }
}

/// A transaction that mints value never reaches the memory pool through an
/// admission, whatever the consensus verifier says of it: where every
/// transaction that the events decode to has a negative value balance, no
/// entry is handed to the pool and nothing is passed on.
pub proof fn lemma_coinbase_is_never_admitted(events: Seq<AdmissionEvent>, size_in_bytes: usize)
    requires
        forall|i: int|
            0 <= i < events.len() ==> (#[trigger] events[i] matches AdmissionEvent::Decoded(
                Some(transaction),
            ) ==> transaction.is_coinbase_shaped()),
    ensures
        insertions(events, size_in_bytes) == 0,
        propagations(events, size_in_bytes) == 0,
        !(admission_after(events, size_in_bytes) is Verified),
        !(admission_after(events, size_in_bytes) is Propagated),
        admission_after(events, size_in_bytes) matches Admission::Decoded(transaction)
            ==> transaction.is_coinbase_shaped(),
    decreases events.len(),
{
    if events.len() > 0 {
        lemma_coinbase_is_never_admitted(events.drop_last(), size_in_bytes);
    }
}

/// A transaction that the consensus verifier does not find valid never
/// reaches the memory pool and is never passed on: where no event is the
/// verdict `Valid`, no entry is handed to the pool and nothing is sent.
pub proof fn lemma_invalid_is_never_admitted(events: Seq<AdmissionEvent>, size_in_bytes: usize)
    requires
        forall|i: int|
            0 <= i < events.len() ==> events[i] != AdmissionEvent::Verdict(Verdict::Valid),
    ensures
        insertions(events, size_in_bytes) == 0,
        propagations(events, size_in_bytes) == 0,
        !(admission_after(events, size_in_bytes) is Verified),
        !(admission_after(events, size_in_bytes) is Propagated),
    decreases events.len(),
{
    if events.len() > 0 {
        lemma_invalid_is_never_admitted(events.drop_last(), size_in_bytes);
    }
}

/// Raw bytes that do not decode end the admission at once and for good: the
/// transaction is dropped as malformed, whatever arrives afterwards, no
/// entry is handed to the memory pool, nothing is passed on, and the
/// handler reports success.
pub proof fn lemma_malformed_is_dropped(events: Seq<AdmissionEvent>, size_in_bytes: usize)
    requires
        events.len() > 0,
        events[0] == AdmissionEvent::Decoded(None),
    ensures
        admission_after(events, size_in_bytes) == Admission::Dropped(DropReason::Malformed),
        admission_after(events, size_in_bytes).report() is Ok,
        insertions(events, size_in_bytes) == 0,
        propagations(events, size_in_bytes) == 0,
    decreases events.len(),
{
    let before = events.drop_last();
    if events.len() > 1 {
        lemma_malformed_is_dropped(before, size_in_bytes);
    } else {
        assert(admission_after(before, size_in_bytes) == Admission::Received);
        assert(insertions(before, size_in_bytes) == 0);
        assert(propagations(before, size_in_bytes) == 0);
        assert(events.last() == events[0]);
    }
}

/// Only a failure of the consensus verifier makes the handler report a
/// failure: every other admission, dropped or not, ends in success.
pub proof fn lemma_only_verification_fails(events: Seq<AdmissionEvent>, size_in_bytes: usize)
    ensures
        admission_after(events, size_in_bytes).report() is Err ==> admission_after(
            events,
            size_in_bytes,
        ) == Admission::Failed(NetworkError::Verification) && exists|i: int|
            0 <= i < events.len() && events[i] == AdmissionEvent::Verdict(Verdict::Failed),
    decreases events.len(),
{
    if events.len() > 0 {
        lemma_only_verification_fails(events.drop_last(), size_in_bytes);
        let before = admission_after(events.drop_last(), size_in_bytes);
        if before.report() is Err {
            let i = choose|i: int|
                0 <= i < events.drop_last().len() && events.drop_last()[i]
                    == AdmissionEvent::Verdict(Verdict::Failed);
            assert(events[i] == AdmissionEvent::Verdict(Verdict::Failed));
        } else if admission_after(events, size_in_bytes).report() is Err {
            assert(events[events.len() - 1] == AdmissionEvent::Verdict(Verdict::Failed));
        }
    }
}

/// What a memory pool that keeps each transaction once answers to the
/// insertion of the transaction with `identity`, where `pool` is the set of
/// the identities it holds: `Added` for one it does not hold, `Duplicate`
/// for one it holds.
pub open spec fn answer_of(pool: Set<Seq<u8>>, identity: Seq<u8>) -> Insertion {
    if pool.contains(identity) {
        Insertion::Duplicate
    } else {
        Insertion::Added
    }
}

/// The events of an admission in which the raw bytes decode to
/// `transaction`, the consensus verifier finds it valid and the memory pool
/// answers with `insertion`.
pub open spec fn events_of(transaction: Transaction, insertion: Insertion) -> Seq<AdmissionEvent> {
    seq![
        AdmissionEvent::Decoded(Some(transaction)),
        AdmissionEvent::Verdict(Verdict::Valid),
        AdmissionEvent::Insertion(insertion),
    ]
}

/// Where an admission with the events of [`events_of`] ends, and how often
/// it hands an entry to the pool and passes the transaction on.
pub proof fn lemma_admission_of_valid_transaction(
    transaction: Transaction,
    insertion: Insertion,
    size_in_bytes: usize,
)
    requires
        !transaction.is_coinbase_shaped(),
    ensures
        admission_after(events_of(transaction, insertion), size_in_bytes) == match insertion {
            Insertion::Added => Admission::Propagated,
            Insertion::Duplicate => Admission::Dropped(DropReason::Duplicate),
            Insertion::Failed => Admission::Dropped(DropReason::PoolFailure),
        },
        insertions(events_of(transaction, insertion), size_in_bytes) == 1,
        propagations(events_of(transaction, insertion), size_in_bytes) == if insertion
            == Insertion::Added {
            1nat
        } else {
            0nat
        },
{
    let events = events_of(transaction, insertion);
    let two = events.drop_last();
    let one = two.drop_last();
    assert(one.drop_last().len() == 0);
    assert(admission_after(one.drop_last(), size_in_bytes) == Admission::Received);
    assert(insertions(one.drop_last(), size_in_bytes) == 0);
    assert(propagations(one.drop_last(), size_in_bytes) == 0);
    assert(admission_after(one, size_in_bytes) == Admission::Decoded(transaction));
    assert(insertions(one, size_in_bytes) == 0);
    assert(propagations(one, size_in_bytes) == 0);
    assert(admission_after(two, size_in_bytes) == Admission::Verified(
        Entry { size_in_bytes, transaction },
    ));
    assert(insertions(two, size_in_bytes) == 1);
    assert(propagations(two, size_in_bytes) == 0);
}

/// A transaction that arrives twice is admitted once and passed on once.
/// Against a memory pool that keeps each transaction once and does not hold
/// this one yet, the first admission of a valid transaction that mints
/// nothing ends in `Propagated`; the second, which meets the pool with the
/// transaction in it, ends in `Dropped` as a duplicate and sends nothing.
/// The pool then holds the transaction once, and of the two admissions
/// together one has passed it on.
pub proof fn lemma_received_twice_admitted_once(
    pool: Set<Seq<u8>>,
    identity: Seq<u8>,
    transaction: Transaction,
    size_in_bytes: usize,
)
    requires
        !transaction.is_coinbase_shaped(),
        !pool.contains(identity),
    ensures
        ({
            let first = events_of(transaction, answer_of(pool, identity));
            let second = events_of(transaction, answer_of(pool.insert(identity), identity));
            &&& admission_after(first, size_in_bytes) == Admission::Propagated
            &&& admission_after(second, size_in_bytes) == Admission::Dropped(
                DropReason::Duplicate,
            )
            &&& propagations(first, size_in_bytes) + propagations(second, size_in_bytes) == 1
            &&& pool.insert(identity).insert(identity) == pool.insert(identity)
        }),
{
    lemma_admission_of_valid_transaction(transaction, Insertion::Added, size_in_bytes);
    lemma_admission_of_valid_transaction(transaction, Insertion::Duplicate, size_in_bytes);
    assert(pool.insert(identity).insert(identity) =~= pool.insert(identity));
}

} // verus!
