//! Netwatch: the decision and data logic of a self-hosted availability monitor.

pub mod config;
pub mod domain;
pub mod error;
pub mod instant;
pub mod numbers;
pub mod pattern;
pub mod probes;
pub mod scheduler;
pub mod sorting;
pub mod state;
pub mod storage;
pub mod text;
pub mod web;
