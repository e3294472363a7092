//! Core of a bulk restore tool for a Solr-compatible search index: the rules
//! by which batches of documents travel from archives to the index's update
//! endpoint, stated as contracts and proved.
//!
//! The library decides and never acts. It holds no socket, no file, no
//! thread and no clock: its caller sends the requests, reads the archives,
//! runs the threads and sleeps, and tells the library what came of it.
//!
//! - [`connection`]: the retrying HTTP client's rules, and the bound on its
//!   retries.
//! - [`restore`]: what the orchestrator checks and plans, and the machines of
//!   the lister, the readers and the writers.
//! - [`pipeline`]: a model of the workers and their channels together, and
//!   what holds of every run: memory is bounded, nothing is posted or counted
//!   twice, no run gets stuck or goes on for ever, cancellation is prompt,
//!   and without faults every batch is counted.
//! - [`delivery`]: the same model with a number on each batch, and the proof
//!   that no batch is posted twice.
//! - [`helpers`]: numbers from the environment, and extensions of `str`, of
//!   regular expressions and of the integer types.
//! - [`fails`]: the error value.
//! - [`sums`]: sums of sequences, for the proofs of [`pipeline`].

pub mod connection;
pub mod delivery;
pub mod fails;
pub mod helpers;
pub mod pipeline;
pub mod restore;
pub mod sums;
