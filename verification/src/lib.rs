//! Artist release tracking for a personal music command-line tool.
//!
//! The heart of the crate is the watchlist of followed artists: the calendar
//! dates attached to catalog releases, the selection of an artist's latest
//! release from a noisy result set, the durable watchlist store with its
//! line-based document format, and the reconciliation pass that refreshes
//! stored records against fresh catalog data without letting one artist's
//! failure abort the batch.
//!
//! Around that core stand the plain data models of the command surface and of
//! the catalog service's vocabulary: endpoint and URL construction, search
//! types and result keys, playlist and cue-sheet helpers. Network transport,
//! file input and output, and terminal rendering live outside this crate.

pub mod command;
pub mod cue;
pub mod date;
pub mod db;
pub mod document;
pub mod m3u;
pub mod spotify;
pub mod util;

use vstd::prelude::*;

verus! {

/// Everything that can go wrong inside the tracking core.
#[derive(Clone, Copy, Debug, PartialEq, Eq, Structural)]
pub enum KotoError {
    /// The watchlist document, or a requested artist, does not exist.
    NotFound,
    /// An artist with the same catalog identity is already followed.
    DuplicateArtist,
    /// The catalog service failed: network trouble, a missing artist, or a
    /// response that yielded no usable release.
    CatalogUnavailable,
    /// The persisted watchlist document could not be read back.
    SerializationError,
    /// The release selector was handed an empty result set; the caller must
    /// guarantee non-emptiness, so this marks a caller bug.
    EmptyInput,
}

impl KotoError {
    /// A short user-facing description of the failure.
    pub fn message(&self) -> (r: &'static str)
        ensures
            r@ == match *self {
                KotoError::NotFound => "not found"@,
                KotoError::DuplicateArtist => "artist already followed"@,
                KotoError::CatalogUnavailable => "catalog service unavailable"@,
                KotoError::SerializationError => "watchlist document is malformed"@,
                KotoError::EmptyInput => "empty release set"@,
            },
    {
        match self {
            KotoError::NotFound => "not found",
            KotoError::DuplicateArtist => "artist already followed",
            KotoError::CatalogUnavailable => "catalog service unavailable",
            KotoError::SerializationError => "watchlist document is malformed",
            KotoError::EmptyInput => "empty release set",
        }
    }
}

} // verus!
