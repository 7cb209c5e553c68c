//! The core of a mail-driven command agent: it recognises tagged messages in a mailbox as
//! command requests, works out the shell commands they hold, and composes the reply that
//! reports what the commands printed. All network and process work is left to the caller,
//! which is told what to do next by the poll run in [`poller`] and, between runs, by the
//! scheduler in [`schedule`].

pub mod classify;
pub mod command;
pub mod config;
pub mod delivery;
pub mod dispatch;
pub mod envelope;
pub mod extract;
pub mod mailbox;
pub mod order;
pub mod poller;
pub mod reply;
pub mod schedule;
pub mod text;
