//! A verified ledger and accounting engine for IoT telemetry proofs and
//! carbon credits.
//!
//! The crate has three components that share one data model:
//!
//! * [`proofs`] — an append-only, per-device store of proof commitments
//!   with duplicate detection and time-window queries.
//! * [`credits`] — an accounting engine that converts recorded energy into
//!   credit balances under a governance-adjustable emission factor.
//! * [`admission`] — a stateless predicate deciding whether a submission
//!   may enter the pending pool before it is sequenced.
//!
//! Every state transition is specified as a function from an abstract view
//! of the store to a new view, and the executable operations are proved to
//! implement exactly those functions. The general laws that relate the
//! operations are stated and proved in [`laws`].

pub mod admission;
pub mod arith;
pub mod credits;
pub mod errors;
pub mod ident;
pub mod laws;
pub mod proofs;
pub mod weights;
