//! Batching of build plans: several per-request build contexts are folded
//! into one context whose unit graph compiles every shared unit once, while
//! each request's root artifacts still go to the directory it chose.
pub mod keyed;
pub mod unit;
pub mod context;
pub mod merge;
pub mod batch;
pub mod laws;
