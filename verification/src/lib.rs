//! Verified core of a Git-over-Nostr collaboration client.
//!
//! The crate models repository coordinates, lifecycle statuses, relay set
//! assembly, status resolution and event construction as pure, verified
//! functions over plain values.  Network I/O, signing and argument parsing
//! live outside the library and hand it plain data.

/// Decoding of announcements and relay lists.
pub mod announce;
/// The event construction layer.
pub mod builder;
/// Error type shared by the whole library.
pub mod error;
/// Classification of fetched events.
pub mod events;
/// Transition guards.
pub mod guards;
/// Parsing of git patch documents.
pub mod patch;
/// The relay set builder.
pub mod relays;
/// The status resolution engine.
pub mod resolve;
/// Named sets of repositories and relays.
pub mod sets;
/// Lifecycle statuses and their wire kinds.
pub mod status;
/// Character-level string utilities.
pub mod strutil;
/// The tag model of outgoing and incoming events.
pub mod tags;

pub use announce::RepoAnnouncement;
pub use builder::{ContentDetails, MergeCommits};
pub use error::{N34Error, N34Result};
pub use events::EventData;
pub use patch::GitPatch;
pub use resolve::StatusEvent;
pub use sets::{Naddr, NaddrOrSet, NostrEvent, RelayOrSet, RepoRelaySet};
pub use status::{EntityType, IssueStatus, PatchPrStatus};
pub use tags::{Coordinate, Marker, Tag};
