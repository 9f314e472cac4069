//! A work-completion tracker built on lock-free atomic counters, and the
//! small utilities that live beside it.
//!
//! * [`tracker`]: many workers report completed units to a shared counter;
//!   one observer watches the counter, waits between reports, and records the
//!   largest step it has seen the counter take.
//! * [`signal`]: a stop signal that is passed to whoever is to heed it.
//! * [`optimistic`]: one attempt of an update by compare and exchange.
//! * [`hidden_value`]: a wrapper that keeps a sensitive value out of logs.
//! * [`types_manual`]: the names and bounds of the numeric types.
//! * [`primes`]: the sieve of Eratosthenes.
//! * [`decimal`]: whole numbers written out in decimal digits.
//!
//! The library computes and decides. It starts no thread, reads no clock and
//! no environment, and prints nothing: that is left to its callers.

pub mod decimal;
pub mod hidden_value;
pub mod optimistic;
pub mod primes;
pub mod signal;
pub mod tracker;
pub mod types_manual;
