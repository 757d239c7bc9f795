//! A hand-built trainable transformer encoder for binary sentiment scoring.
//!
//! The numeric layers (attention, feed-forward, normalization) run on
//! single-precision floats and live outside this verified core.  This crate
//! holds everything about the system that can be stated and proved exactly:
//! the layer contract, the shape calculus of the model, the review cleaning
//! and padding pipeline, and the bookkeeping of the training loop.

pub mod attention;
pub mod block;
pub mod dataset;
pub mod logger;
pub mod schedule;
pub mod shape;
pub mod text;
