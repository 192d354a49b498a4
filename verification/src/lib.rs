//! Domain tracking: the reconciliation and change-detection engine.

pub mod cache;
pub mod cmd;
pub mod json;
pub mod models;
pub mod modules;
pub mod order;
pub mod rendering;
pub mod seqs;
pub mod server;
pub mod state;
pub mod text;
pub mod time;
pub mod util;
pub mod web;
