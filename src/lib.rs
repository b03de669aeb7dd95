//! Protocol and session layer of a latency-measuring exchange trading client:
//! request signing, acknowledgment correlation, connection lifecycle, price
//! ingestion and the one-shot order trigger.

pub mod signing;
pub mod tracker;
pub mod trigger;
pub mod session;
pub mod message;
pub mod decimal;
pub mod market;
pub mod frames;
