//! A calendar-to-chat bridge library: fetch helpers for a CalDAV query,
//! an iCal event parser, event ordering, digest formatting, and the
//! persisted messaging-session state machine.

pub mod cal;
pub mod event;
pub mod format;
pub mod parser;
pub mod session;
pub mod time;
mod util;
pub mod xml;
