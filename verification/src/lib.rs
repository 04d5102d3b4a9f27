//! Reference resolution and interactive replies for a chat bot.
//!
//! The library scans message text for issue, pull-request and file-range
//! references, decides which remote lookups to make under a rate budget,
//! bounds and normalises the fetched text, composes replies, and drives the
//! state machines behind the buttons attached to a reply. Everything here is
//! pure: the caller performs the network and platform calls and hands the
//! results back as plain values.

pub mod code;
pub mod commands;
pub mod diagnostics;
pub mod document;
pub mod embed;
pub mod formatting;
pub mod issues;
pub mod pagination;
pub mod pattern;
pub mod resolve;
pub mod snippets;
pub mod structures;
pub mod text;
pub mod udev;

