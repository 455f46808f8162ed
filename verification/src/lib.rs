//! Entropy aggregation core: a fixed-capacity byte ring buffer, buffered
//! entropy-source state machines, a replayable stream model, and an
//! aggregator that XOR-combines the yields of several sources.

pub mod aggregator;
pub mod circular_buffer;
pub mod config;
pub mod error;
pub mod lrng;
pub mod mock_rng;
pub mod service;
pub mod sources;
pub mod stream;
pub mod two_source_xor;
