//! Client-side acknowledgment policy for a line-oriented bridge to a message
//! broker: classify each received payload, keep a window of accepted
//! deliveries, and decide when one cumulative acknowledgment settles them.

pub mod classify;
pub mod config;
pub mod protocol;
pub mod publish;
pub mod simple;
pub mod trace;
pub mod window;
