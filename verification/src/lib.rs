//! A verified clipboard-history core: an ordered snippet store addressed by
//! stable handles, an auto-capture flag, the background poller's dedup
//! decision, and the command surface a presentation layer drives.

pub mod commands;
pub mod history;
pub mod poller;
pub mod replay;
