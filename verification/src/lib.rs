//! Duplicate-frame detection: frames are fingerprinted, fingerprints are
//! counted, and every fingerprint seen more than once is reported.

pub mod capture;
pub mod consumer;
pub mod hcor;
pub mod hex;
pub mod messaging;
pub mod queue;
pub mod startup;
pub mod stats;
pub mod tally;
