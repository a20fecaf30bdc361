//! A remote intent hub: a relay that takes action messages from other
//! chains or programs, checks and decodes them against a versioned wire
//! format, and dispatches each one at most once to the adapter of the
//! protocol it names.
//!
//! * [`codec`] reads and writes the wire envelope.
//! * [`replay`] keeps one execution record per intent and refuses
//!   duplicates.
//! * [`registry`] maps action tags to adapters.
//! * [`adapter`] is the interface a downstream protocol implements.
//! * [`router`] ties them together: decode, reserve, resolve, dispatch,
//!   record.

pub mod adapter;
pub mod bytes;
pub mod codec;
pub mod registry;
pub mod replay;
pub mod router;
pub mod tag;
pub mod utf8_check;

pub use adapter::{Adapter, AdapterError, Outcome};
pub use codec::{CodecError, Intent, MessageCodec};
pub use registry::{ActionRegistry, AdapterHandle};
pub use replay::{ExecutionRecord, ExecutionStatus, ReplayError, ReplayGuard, ResultSummary};
pub use router::{initialize, receive_message, IntentRouter, IntentState, RouterError};
pub use tag::ActionTag;
