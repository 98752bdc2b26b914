//! The transaction relay of a ledger node, without its I/O.
//!
//! The relay decides which transactions received from peers enter the
//! memory pool and to whom they are passed on, answers requests for the
//! pool's contents and merges the contents that other nodes send. It never
//! touches the network, the ledger or the pool itself: each handler takes
//! what these gave as plain values and returns what is to be done next.

pub mod address;
pub mod admission;
pub mod entry;
pub mod environment;
pub mod error;
pub mod message;
pub mod peers;
pub mod pool;
pub mod transactions;

pub use address::Address;
pub use admission::{Admission, AdmissionEvent, DropReason, Insertion, Verdict};
pub use entry::{Entry, Transaction};
pub use environment::Environment;
pub use error::NetworkError;
pub use message::{Message, Payload};
pub use peers::Peers;
pub use pool::{Ingestion, PoolAction};
pub use transactions::{SyncOutcome, Transactions};
