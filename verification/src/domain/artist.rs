//! Domain model: artist.

use vstd::prelude::*;

verus! {

/// An artist as known by a provider or by the local database.
#[derive(Debug, PartialEq, Eq)]
pub struct Artist {
    pub id: i64,
    pub name: String,
    pub country: Option<String>,
    pub biography: Option<String>,
    pub image: Option<String>,
    pub genres: Vec<String>,
    /// External id on the platform of origin.
    pub external_id: Option<String>,
    /// Aggregated length of every known work, in milliseconds.
    pub total_duration_ms: Option<u64>,
}

/// Mathematical content of an [`Artist`].
pub struct ArtistModel {
    pub id: i64,
    pub name: Seq<char>,
    pub country: Option<Seq<char>>,
    pub biography: Option<Seq<char>>,
    pub image: Option<Seq<char>>,
    pub genres: Seq<Seq<char>>,
    pub external_id: Option<Seq<char>>,
    pub total_duration_ms: Option<u64>,
}

impl DeepView for Artist {
    type V = ArtistModel;

    open spec fn deep_view(&self) -> ArtistModel {
        ArtistModel {
            id: self.id,
            name: self.name@,
            country: self.country.deep_view(),
            biography: self.biography.deep_view(),
            image: self.image.deep_view(),
            genres: self.genres.deep_view(),
            external_id: self.external_id.deep_view(),
            total_duration_ms: self.total_duration_ms,
        }
    }
}

impl Clone for Artist {
    fn clone(&self) -> (r: Self)
        ensures
            r.deep_view() == self.deep_view(),
    {
        let genres = self.genres.clone();
        proof {
            assert(genres.deep_view() =~= self.genres.deep_view());
        }
        Artist {
            id: self.id,
            name: self.name.clone(),
            country: self.country.clone(),
            biography: self.biography.clone(),
            image: self.image.clone(),
            genres,
            external_id: self.external_id.clone(),
            total_duration_ms: self.total_duration_ms,
        }
    }
}

impl Artist {
    /// Artist without a database id (results coming from an API).
    pub fn new(
        name: String,
        country: Option<String>,
        biography: Option<String>,
        image: Option<String>,
    ) -> (a: Self)
        ensures
            a.id == 0,
            a.name == name,
            a.country == country,
            a.biography == biography,
            a.image == image,
            a.genres@.len() == 0,
            a.external_id is None,
            a.total_duration_ms is None,
    {
        Artist {
            id: 0,
            name,
            country,
            biography,
            image,
            genres: Vec::new(),
            external_id: None,
            total_duration_ms: None,
        }
    }
}

} // verus!
