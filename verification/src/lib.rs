//! The back end of a message board: the rules of its request handling and
//! the broadcast of live thread updates to subscribed clients.
//!
//! - `util::sse_thread` holds the broadcaster: the registry of subscribers
//!   by thread, the frames that go over the wire, and the periodic sweep
//!   that drops subscribers that went away.
//! - `util::mailbox` holds the channel between the broadcaster and one
//!   subscriber.
//! - `util::guarantees` proves what a subscriber can rely on.
//! - `util::multipart`, `util::identity`, `handlers`, `db` and `config` hold
//!   the rules of the forms, the sessions, the records and the settings.
//!
//! The library neither reads requests nor talks to the database: the server
//! around it does, and hands it plain values.

pub mod config;
pub mod db;
pub mod handlers;
pub mod util;
