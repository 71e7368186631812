//! Core logic of a bot that starts compiler-regression bisection jobs from
//! chat and issue comments and routes each result back to whoever asked.

pub mod chat;
pub mod command;
pub mod decimal;
pub mod destination;
pub mod dispatch;
pub mod event;
pub mod job;
pub mod json;
pub mod outbound;
pub mod scan;
pub mod text;
