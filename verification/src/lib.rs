//! Core of a log-shipping agent: the event model, the bounded backpressure
//! channel, the file-tailer state machine with its durable offset, the
//! stateless transforms, and the framing codecs, all with verified contracts.
//! The asynchronous runtime that drives these pieces lives outside the
//! library and only calls into it.

pub mod channel;
pub mod config;
pub mod dedup;
pub mod double_buf;
pub mod event;
pub mod json;
pub mod log_entry;
pub mod log_value;
pub mod lumberjack;
pub mod num_text;
pub mod plugin;
pub mod query;
pub mod ship_config;
pub mod std_utils;
pub mod syslog;
pub mod tailer;
pub mod text;
pub mod time;
pub mod transforms;
