//! The decisions of a consumer of PTP (Precision Time Protocol) fast events: how
//! it finds the event publisher, what it subscribes to, what it reads from the
//! CloudEvents that arrive, and what it answers.

pub mod address;
pub mod answer;
pub mod clock;
pub mod discovery;
pub mod event;
pub mod fields;
pub mod http;
pub mod json;
pub mod laws;
pub mod parse;
pub mod status;
pub mod subscription;
pub mod text;
