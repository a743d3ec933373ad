//! Domain model: album.

use vstd::prelude::*;

verus! {

/// A calendar date (year, month, day) as published by a provider.
#[derive(Debug, Clone, Copy, PartialEq, Eq, Structural)]
pub struct ReleaseDate {
    pub year: i32,
    pub month: u32,
    pub day: u32,
}

/// An album.
#[derive(Debug, PartialEq, Eq)]
pub struct Album {
    pub id: i64,
    pub title: String,
    pub release_date: Option<ReleaseDate>,
    pub cover: Option<String>,
    pub label: Option<String>,
    pub artist_ids: Vec<i64>,
}

/// Mathematical content of an [`Album`].
pub struct AlbumModel {
    pub id: i64,
    pub title: Seq<char>,
    pub release_date: Option<ReleaseDate>,
    pub cover: Option<Seq<char>>,
    pub label: Option<Seq<char>>,
    pub artist_ids: Seq<i64>,
}

impl DeepView for Album {
    type V = AlbumModel;

    open spec fn deep_view(&self) -> AlbumModel {
        AlbumModel {
            id: self.id,
            title: self.title@,
            release_date: self.release_date,
            cover: self.cover.deep_view(),
            label: self.label.deep_view(),
            artist_ids: self.artist_ids@,
        }
    }
}

impl Clone for Album {
    fn clone(&self) -> (r: Self)
        ensures
            r.deep_view() == self.deep_view(),
    {
        let ids = self.artist_ids.clone();
        proof {
            assert(ids@ =~= self.artist_ids@);
        }
        Album {
            id: self.id,
            title: self.title.clone(),
            release_date: self.release_date,
            cover: self.cover.clone(),
            label: self.label.clone(),
            artist_ids: ids,
        }
    }
}

impl Album {
    /// Album without a database id.
    pub fn new(
        title: String,
        release_date: Option<ReleaseDate>,
        cover: Option<String>,
        label: Option<String>,
    ) -> (a: Self)
        ensures
            a.id == 0,
            a.title == title,
            a.release_date == release_date,
            a.cover == cover,
            a.label == label,
            a.artist_ids@.len() == 0,
    {
        Album { id: 0, title, release_date, cover, label, artist_ids: Vec::new() }
    }
}

} // verus!
