//! The domain model: monitors, check results and their aggregates, alerts.

pub mod alert;
pub mod check;
pub mod monitor;
