//! Verified core of a PaddleOCR-style text recognition engine: character-set
//! loading, recognizer input preparation, greedy CTC decoding of the
//! recognizer's scores, the worker's request handling and the global engine
//! registry.

pub mod error;
pub mod keys;
pub mod decode;
pub mod preprocess;
pub mod worker;
pub mod engine;
pub mod manager;
