//! Conversions between the library's values and their stored form.

pub mod time;
pub mod migrations;
pub mod records;
