//! What the probes decide: from an observation to a check result.

pub mod dns;
pub mod http;
pub mod observation;
pub mod outcome;
pub mod tcp;
