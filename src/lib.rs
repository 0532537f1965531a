//! Decision logic of a mempool worker: batching client transactions, waiting
//! for a stake quorum of peers, hashing and persisting batches, answering
//! synchronisation requests and reacting to reconfiguration.

pub mod batch;
pub mod batch_maker;
pub mod committee;
pub mod handlers;
pub mod primary_connector;
pub mod processor;
pub mod quorum;
