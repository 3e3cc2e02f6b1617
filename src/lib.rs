//! Real-time market-data synchronisation: the wire vocabulary, the order book
//! and trade window folded from it, the reconnecting transport's state machine
//! with its backoff policy, and the server-side fan-out with bounded
//! per-subscriber queues.

pub mod protocol;
pub mod book;
pub mod trades;
pub mod store;
pub mod backoff;
pub mod transport;
pub mod fanout;
pub mod session;
