//! A collection of small exercises on ownership, sharing and concurrency
//! patterns, each modelled as plain owned state with machine-checked
//! contracts.

pub mod text;
pub mod minigrep;
pub mod chat;
pub mod smartptr;
pub mod worker;
pub mod closures;
pub mod fstools;
pub mod tcp_chat;
