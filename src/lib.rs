//! Credit scoring from a bank transaction history: the transaction records, a
//! single-pass aggregation and an exact heuristic score, with the laws it obeys,
//! and the application's shared settings and error type.

pub mod app;
pub mod credit_scoring;
pub mod openbank;
pub mod result;
pub mod score_laws;
