//! The coordination core of a desktop Matrix chat client.
//!
//! Network transport, encryption primitives and rendering live outside
//! this crate; what lives here are the two stateful engines built on top
//! of them, with contracts checked by Verus:
//!
//! - the timeline reconciliation engine ([`timeline`]), which merges
//!   initial loads, paginated history and live batches into one
//!   chronologically grouped item sequence, with date separators,
//!   continuation grouping and unread markers;
//! - the interactive verification state machine ([`verification`]),
//!   which drives a device-verification handshake across its two
//!   change-streams and coordinates the cross-signing bootstrap.
//!
//! Around them stand the event normalizer ([`event`]), the
//! reply-fallback parser ([`reply`]), the sync loop driver
//! ([`sync_driver`]), the room-list state ([`rooms`]), the media-fetch
//! bookkeeping ([`media`]) and the persisted records ([`config`]).

pub mod colors;
pub mod config;
pub mod dates;
pub mod event;
pub mod item;
pub mod login;
pub mod media;
pub mod reply;
pub mod rooms;
pub mod strutil;
pub mod sync_driver;
pub mod timeline;
pub mod verification;
