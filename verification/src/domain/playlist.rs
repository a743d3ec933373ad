//! Domain model: playlist.

use vstd::prelude::*;

use crate::domain::track::Track;

verus! {

/// A named list of tracks.
#[derive(Debug)]
pub struct Playlist {
    pub id: i64,
    pub name: String,
    pub tracks: Vec<Track>,
}

} // verus!
