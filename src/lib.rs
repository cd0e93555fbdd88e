//! Periodic dispatch of scrape jobs.
//!
//! The heart is the command actor ([`scheduler`]), the one owner of the
//! countdowns of the active jobs ([`intervals`]). Its two store backends
//! keep the job records: a flat CSV file ([`fs_store`]) and a remote hash
//! store with expiring entries ([`redis_store`]). The intake layer
//! ([`intake`]) and the chat front end ([`bot`]) turn requests into broker
//! messages ([`messages`]).

pub mod backoff;
pub mod bot;
pub mod csv_text;
pub mod decimal;
pub mod errors;
pub mod fs_store;
pub mod intake;
pub mod intervals;
pub mod laws;
pub mod messages;
pub mod record;
pub mod redis_store;
pub mod scheduler;
