//! A pluggable negotiation pipeline for two-party resource-leasing proposals.
//!
//! Proposals are semi-structured property documents; independent negotiation
//! policies implement a common component contract; a composer chains the
//! policies over one negotiation round, short-circuiting on rejection; and
//! every policy reads one consistent snapshot of the operator-controlled
//! shared configuration per call.

pub mod charity;
pub mod component;
pub mod config;
pub mod document;
pub mod pipeline;
