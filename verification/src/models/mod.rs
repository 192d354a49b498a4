//! The records that the engine works on.

pub mod domain;
pub mod notification;
