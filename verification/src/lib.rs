//! Gateway core for bridging serial-attached mesh radios to TCP subscribers:
//! frame synchronization over a corruption-prone byte stream, classification
//! of decoded frames into typed events, and fan-out bookkeeping for many
//! transient subscribers.

pub mod dispatch;
pub mod event;
pub mod frame;
pub mod message;
pub mod port;
pub mod subs;
