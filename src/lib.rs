//! Collection of account balances and price series from brokerage and
//! exchange providers, with verified incremental-update, credential and
//! persistence-layout rules.

pub mod account;
pub mod auth;
pub mod balance;
pub mod candle;
pub mod collector;
pub mod models;
pub mod remote;
pub mod sink;
pub mod text;
