//! Core logic for reclassifying a mail account's spam as legitimate mail.
//!
//! The library drives an abstract paginated message store: it fetches pages
//! of spam-labeled message identifiers and issues one batch label-removal
//! request per non-empty page, tracking a cumulative counter until the store
//! reports that no further pages exist. Everything that talks to a real
//! provider (HTTP transport, authorization) lives outside this crate; the
//! library only builds the requests, interprets the replies, and makes every
//! control decision of the loop.

pub mod laws;
pub mod page;
pub mod request;
pub mod run;
