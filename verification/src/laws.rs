//! What the operations of the library are for, said of their inputs and results.

pub mod addresses;
pub mod fetching;
pub mod messages;
pub mod reading;
pub mod requests;
pub mod spelling;
pub mod texts;
pub mod values;
pub mod views;
