use vstd::prelude::*;
use crate::address::Address;

verus! {

/// What a message to a peer carries.
#[derive(Clone, Debug, PartialEq, Eq)]
pub enum Payload {
    /// Asks the receiver for the transactions of its memory pool.
    GetMemoryPool,
    /// The transactions of the sender's memory pool, each as raw bytes.
    MemoryPool(Vec<Vec<u8>>),
    /// One transaction, as raw bytes.
    Transaction(Vec<u8>),
}

/// The mathematical content of a [`Payload`].
pub enum PayloadView {
    GetMemoryPool,
    MemoryPool(Seq<Seq<u8>>),
    Transaction(Seq<u8>),
}

/// The byte strings that a list of raw transactions holds, in order.
pub open spec fn raw_transactions(transactions: Seq<Vec<u8>>) -> Seq<Seq<u8>> {
    transactions.map_values(|raw: Vec<u8>| raw@)
}

impl View for Payload {
    type V = PayloadView;

    open spec fn view(&self) -> PayloadView {
        match *self {
            Payload::GetMemoryPool => PayloadView::GetMemoryPool,
            Payload::MemoryPool(transactions) => PayloadView::MemoryPool(
                raw_transactions(transactions@),
            ),
            Payload::Transaction(raw) => PayloadView::Transaction(raw@),
        }
    }
}

/// A request to send `payload` to the peer at `receiver`.
#[derive(Clone, Debug, PartialEq, Eq)]
pub struct Message {
    pub receiver: Address,
    pub payload: Payload,
}

/// The mathematical content of a [`Message`].
pub struct MessageView {
    pub receiver: Address,
    pub payload: PayloadView,
}

impl View for Message {
    type V = MessageView;

    open spec fn view(&self) -> MessageView {
        MessageView { receiver: self.receiver, payload: self.payload@ }
    }
}

/// The contents of a list of messages, in order.
pub open spec fn message_views(messages: Seq<Message>) -> Seq<MessageView> {
    messages.map_values(|message: Message| message@)
}

impl Message {
    /// A request to send `payload` to `receiver`.
    pub fn new(receiver: Address, payload: Payload) -> (message: Message)
        ensures
            message@ == (MessageView { receiver, payload: payload@ }),
    {
        Message { receiver, payload }
    }
}

} // verus!
