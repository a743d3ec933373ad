//! Domain model: track (song).

use vstd::prelude::*;

use crate::domain::album::{Album, AlbumModel};
use crate::domain::artist::{Artist, ArtistModel};
use crate::domain::genre::Genre;
use crate::domain::source::Source;

verus! {

/// Cover / thumbnail image of a track (URL resolved by the provider).
#[derive(Debug, PartialEq, Eq)]
pub struct Thumbnail {
    pub url: String,
}

impl DeepView for Thumbnail {
    type V = Seq<char>;

    open spec fn deep_view(&self) -> Seq<char> {
        self.url@
    }
}

impl Clone for Thumbnail {
    fn clone(&self) -> (r: Self)
        ensures
            r.deep_view() == self.deep_view(),
    {
        Thumbnail { url: self.url.clone() }
    }
}

/// A song as found on a platform.
#[derive(Debug, PartialEq, Eq)]
pub struct Track {
    pub id: i64,
    pub title: String,
    pub artists: Vec<Artist>,
    pub album: Option<Album>,
    /// Length of the song in milliseconds, when known.
    pub duration_ms: Option<u64>,
    pub genres: Vec<Genre>,
    /// Platform where this result was found / will be played.
    pub source: Source,
    /// Id on the platform (e.g. the YouTube `video_id`).
    pub external_id: Option<String>,
    pub isrc: Option<String>,
    pub url: Option<String>,
    pub thumbnail: Option<Thumbnail>,
}

/// Mathematical content of a [`Track`].
pub struct TrackModel {
    pub id: i64,
    pub title: Seq<char>,
    pub artists: Seq<ArtistModel>,
    pub album: Option<AlbumModel>,
    pub duration_ms: Option<u64>,
    pub genres: Seq<(i64, Seq<char>)>,
    pub source: Source,
    pub external_id: Option<Seq<char>>,
    pub isrc: Option<Seq<char>>,
    pub url: Option<Seq<char>>,
    pub thumbnail: Option<Seq<char>>,
}

impl DeepView for Track {
    type V = TrackModel;

    open spec fn deep_view(&self) -> TrackModel {
        TrackModel {
            id: self.id,
            title: self.title@,
            artists: self.artists.deep_view(),
            album: self.album.deep_view(),
            duration_ms: self.duration_ms,
            genres: self.genres.deep_view(),
            source: self.source,
            external_id: self.external_id.deep_view(),
            isrc: self.isrc.deep_view(),
            url: self.url.deep_view(),
            thumbnail: self.thumbnail.deep_view(),
        }
    }
}

impl Clone for Track {
    fn clone(&self) -> (r: Self)
        ensures
            r.deep_view() == self.deep_view(),
    {
        let artists = self.artists.clone();
        let genres = self.genres.clone();
        let album = match &self.album {
            Some(a) => Some(a.clone()),
            None => None,
        };
        let thumbnail = match &self.thumbnail {
            Some(t) => Some(t.clone()),
            None => None,
        };
        proof {
            assert(artists.deep_view() =~= self.artists.deep_view());
            assert(genres.deep_view() =~= self.genres.deep_view());
        }
        Track {
            id: self.id,
            title: self.title.clone(),
            artists,
            album,
            duration_ms: self.duration_ms,
            genres,
            source: self.source,
            external_id: self.external_id.clone(),
            isrc: self.isrc.clone(),
            url: self.url.clone(),
            thumbnail,
        }
    }
}

/// Copies of a track (same content, e.g. a clone) share its stable
/// identifier.
pub proof fn law_copies_share_identifier(a: Track, b: Track)
    requires
        a.deep_view() == b.deep_view(),
    ensures
        track_key(a) == track_key(b),
{
    assert(a.deep_view().title == b.deep_view().title);
    assert(a.deep_view().external_id == b.deep_view().external_id);
    assert(a.deep_view().artists == b.deep_view().artists);
    assert(a.artists.deep_view().len() == a.artists@.len());
    assert(b.artists.deep_view().len() == b.artists@.len());
    if a.artists@.len() > 0 {
        assert(a.artists.deep_view()[0] == b.artists.deep_view()[0]);
        assert(a.artists@[0].name@ == b.artists@[0].name@);
    }
    match a.external_id {
        Some(ea) => {
            assert(b.external_id is Some);
        },
        None => {
            assert(b.external_id is None);
        },
    }
}

/// Name of the first artist, empty when the track has no artist.
pub open spec fn primary_name_or_empty(t: Track) -> Seq<char> {
    if t.artists@.len() > 0 {
        t.artists@[0].name@
    } else {
        Seq::empty()
    }
}

/// Stable identity of a track: its external id, or `title|first artist`.
pub open spec fn track_key(t: Track) -> Seq<char> {
    match t.external_id {
        Some(e) => e@,
        None => t.title@ + "|"@ + primary_name_or_empty(t),
    }
}

/// Short "Artist - Title" form of a track.
pub open spec fn display_title_spec(t: Track) -> Seq<char> {
    if t.artists@.len() > 0 {
        t.artists@[0].name@ + " - "@ + t.title@
    } else {
        t.title@
    }
}

impl Track {
    /// Track without a database id (results coming from an API).
    pub fn new(title: String, artists: Vec<Artist>, source: Source) -> (t: Self)
        ensures
            t.id == 0,
            t.title == title,
            t.artists == artists,
            t.album is None,
            t.duration_ms is None,
            t.genres@.len() == 0,
            t.source == source,
            t.external_id is None,
            t.isrc is None,
            t.url is None,
            t.thumbnail is None,
    {
        Track {
            id: 0,
            title,
            artists,
            album: None,
            duration_ms: None,
            genres: Vec::new(),
            source,
            external_id: None,
            isrc: None,
            url: None,
            thumbnail: None,
        }
    }

    /// Name of the main artist.
    pub fn primary_artist_name(&self) -> (r: Option<&str>)
        ensures
            self.artists@.len() == 0 ==> r is None,
            self.artists@.len() > 0 ==> r is Some && r->0@ == self.artists@[0].name@,
    {
        if self.artists.len() > 0 {
            Some(self.artists[0].name.as_str())
        } else {
            None
        }
    }

    /// "Artist - Title", or just the title without artists.
    pub fn display_title(&self) -> (r: String)
        ensures
            r@ == display_title_spec(*self),
    {
        if self.artists.len() > 0 {
            let mut s = self.artists[0].name.clone();
            s.append(" - ");
            s.append(self.title.as_str());
            s
        } else {
            self.title.clone()
        }
    }

    /// Stable identifier used to compare copies of the same track: the
    /// external id when there is one, else `title|first artist`.
    pub fn identifier(&self) -> (r: String)
        ensures
            r@ == track_key(*self),
    {
        match &self.external_id {
            Some(e) => e.clone(),
            None => {
                let mut s = self.title.clone();
                s.append("|");
                if self.artists.len() > 0 {
                    s.append(self.artists[0].name.as_str());
                }
                proof {
                    if self.artists@.len() == 0 {
                        assert(s@ == self.title@ + "|"@ + Seq::<char>::empty());
                    }
                }
                s
            }
        }
    }
}

} // verus!
