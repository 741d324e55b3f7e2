//! A two-party collateralized escrow: one account posts a proposition, a
//! second account may accept it, and the rules here decide which party may
//! withdraw which escrowed funds, and when.

pub mod balance;
pub mod coin;
pub mod contract;
pub mod error;
pub mod helpers;
pub mod host;
pub mod msg;
pub mod state;
pub mod theorems;
