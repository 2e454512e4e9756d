//! Coordination of a distributed Lucas–Lehmer primality test for Mersenne
//! numbers, together with the arithmetic it rests on.
//!
//! * [`decimal`] — the grammar of decimal text, as a mathematical function.
//! * [`natural`] — arbitrary-precision natural numbers; the arithmetic is done
//!   by `num-bigint` and described by contracts over `nat`.
//! * [`engine`] — exponentiation, Mersenne numbers and the Lucas–Lehmer
//!   recurrence, advanced step by step or in chunks.
//! * [`primality`] — primality of ordinary numbers, decided by `num-prime`.
//! * [`store`] — the checkpoint store, from iteration offsets to residues.
//! * [`protocol`] — the protocol as a state machine over mathematical values.
//! * [`run`] — what holds of whole runs: the chunks tile the iteration space,
//!   and honest workers lead to the verdict of the test.
//! * [`coordinator`] — the executable coordinator, which refines the protocol.

pub mod coordinator;
pub mod decimal;
pub mod engine;
pub mod natural;
pub mod primality;
pub mod protocol;
pub mod run;
pub mod store;

pub use coordinator::{Assignment, Coordinator, IterationResult, Status, Task};
pub use engine::{advance, is_power_prime, lucas_lehmer_test, pow, pow_front};
pub use natural::Natural;
pub use primality::{prime_bigint, prime_u64};
pub use protocol::{Ack, ProtocolError, Verdict};
pub use store::CheckpointStore;
