pub mod admin;
pub mod cart;
pub mod catalog;
pub mod checkout;
pub mod consistency;
pub mod contract;
pub mod error;
pub mod getters;
pub mod laws;
pub mod models;
pub mod progress;
pub mod quiz;
pub mod rows;
pub mod seqs;
pub mod tracking;
pub mod users;
pub mod utils;
pub mod views;

pub use crate::contract::Contract;
pub use crate::error::Error;
