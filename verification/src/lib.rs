//! Core logic of an echo service.
//!
//! The service echoes inbound traffic back to clients and exposes a synthetic
//! "expensive computation" endpoint used to generate observable load. This
//! crate holds the verified core: the per-connection session registry with its
//! FIFO outbound queues, the computation pipeline (parameter validation,
//! prime counting, Fibonacci generation, background-task isolation), the
//! request/response data types, the metrics counters with their text
//! exposition, and the heartbeat event generator. Network transport, routing
//! and rendering are left to an unverified shell around this crate.

pub mod api;
pub mod decimal;
pub mod echo;
pub mod expensive;
pub mod metrics;
pub mod sse;
pub mod ws;
