//! Recommendation session.
//!
//! The backend answers through an asynchronous channel: while a request is
//! in flight the user may play another song (or the same one again). The
//! session owns WHICH recommendations are shown and WHICH answers are valid:
//! each request takes a growing `generation` and an answer is accepted only
//! when its `(track, generation)` matches the load IN FLIGHT, so a late
//! answer of a previous session never fills the new list nor releases the
//! current request.

use vstd::prelude::*;

use crate::text::same_text;

verus! {

/// Recommendation load asked of the backend and not yet answered.
#[derive(Debug, Clone, PartialEq, Eq)]
pub struct ActiveLoad {
    /// Stable identifier of the track the recommendations were asked for.
    pub track_key: String,
    /// Generation of the request (identity within the session).
    pub generation: u64,
}

/// Owner of which recommendations are shown and which are valid.
#[derive(Debug)]
pub struct RecommendationSession {
    source_track_key: Option<String>,
    generation: u64,
    loading: Option<ActiveLoad>,
}

/// Mathematical state of a session.
pub struct SessionModel {
    /// Track whose recommendations are shown.
    pub source: Option<Seq<char>>,
    /// Last generation handed out (grows with each request, never shrinks).
    pub generation: u64,
    /// Load in flight: track and generation.
    pub loading: Option<(Seq<char>, u64)>,
}

impl View for RecommendationSession {
    type V = SessionModel;

    closed spec fn view(&self) -> SessionModel {
        SessionModel {
            source: match self.source_track_key {
                Some(k) => Some(k@),
                None => None,
            },
            generation: self.generation,
            loading: match self.loading {
                Some(l) => Some((l.track_key@, l.generation)),
                None => None,
            },
        }
    }
}

/// Session invariant: the load in flight carries a generation already
/// handed out.
pub open spec fn session_wf(m: SessionModel) -> bool {
    m.loading matches Some(l) ==> l.1 <= m.generation
}

/// Whether a request for `key` is sent: not already shown for that song and
/// not already in flight for it.
pub open spec fn wants_request(m: SessionModel, key: Seq<char>) -> bool {
    m.source != Some(key) && !(m.loading matches Some(l) && l.0 == key)
}

/// Whether an answer `(key, generation)` matches the load in flight.
pub open spec fn accepts(m: SessionModel, key: Seq<char>, generation: u64) -> bool {
    m.loading == Some((key, generation))
}

impl RecommendationSession {
    /// Session invariant.
    pub open spec fn wf(&self) -> bool {
        session_wf(self@)
    }

    /// Empty session.
    pub fn new() -> (s: Self)
        ensures
            s.wf(),
            s@.source is None,
            s@.generation == 0,
            s@.loading is None,
    {
        RecommendationSession { source_track_key: None, generation: 0, loading: None }
    }

    /// Track whose recommendations are currently shown.
    pub fn source_track_key(&self) -> (k: Option<&str>)
        ensures
            match k {
                Some(s) => self@.source == Some(s@),
                None => self@.source is None,
            },
    {
        match &self.source_track_key {
            Some(s) => Some(s.as_str()),
            None => None,
        }
    }

    /// Whether a load is still unanswered.
    pub fn is_loading(&self) -> (b: bool)
        ensures
            b == self@.loading is Some,
    {
        self.loading.is_some()
    }

    /// The load in flight, if any.
    pub fn loading(&self) -> (l: Option<&ActiveLoad>)
        ensures
            match l {
                Some(a) => self@.loading == Some((a.track_key@, a.generation)),
                None => self@.loading is None,
            },
    {
        match &self.loading {
            Some(a) => Some(a),
            None => None,
        }
    }

    /// Last generation handed out.
    pub fn generation(&self) -> (g: u64)
        ensures
            g == self@.generation,
    {
        self.generation
    }

    /// Asks recommendations for `track_key`. Nothing is sent (`None`) when
    /// they are already shown for that song or a load for it is in flight;
    /// otherwise the load is marked in flight and the generation that
    /// travels with the request is returned.
    pub fn request(&mut self, track_key: &str) -> (g: Option<u64>)
        requires
            old(self).wf(),
            old(self)@.generation < u64::MAX,
        ensures
            final(self).wf(),
            if wants_request(old(self)@, track_key@) {
                &&& g == Some((old(self)@.generation + 1) as u64)
                &&& final(self)@ == (SessionModel {
                    generation: (old(self)@.generation + 1) as u64,
                    loading: Some((track_key@, (old(self)@.generation + 1) as u64)),
                    ..old(self)@
                })
            } else {
                g is None && final(self)@ == old(self)@
            },
    {
        let shown = match &self.source_track_key {
            Some(s) => same_text(s.as_str(), track_key),
            None => false,
        };
        let in_flight = match &self.loading {
            Some(l) => same_text(l.track_key.as_str(), track_key),
            None => false,
        };
        if shown || in_flight {
            return None;
        }
        self.generation = self.generation + 1;
        self.loading = Some(ActiveLoad { track_key: track_key.to_owned(), generation: self.generation });
        Some(self.generation)
    }

    /// Completes the session with the backend's answer. It applies only when
    /// `(track_key, generation)` matches the load IN FLIGHT; a stale answer
    /// is dropped without touching anything. Returns whether it applied.
    pub fn complete(&mut self, track_key: &str, generation: u64) -> (applied: bool)
        requires
            old(self).wf(),
        ensures
            final(self).wf(),
            applied == accepts(old(self)@, track_key@, generation),
            applied ==> final(self)@ == (SessionModel {
                source: Some(track_key@),
                loading: None,
                ..old(self)@
            }),
            !applied ==> final(self)@ == old(self)@,
    {
        let matches = match &self.loading {
            Some(l) => same_text(l.track_key.as_str(), track_key) && l.generation == generation,
            None => false,
        };
        if !matches {
            return false;
        }
        self.loading = None;
        self.source_track_key = Some(track_key.to_owned());
        true
    }

    /// Cancels the load in flight (e.g. a backend error); what is shown stays.
    pub fn abort(&mut self)
        requires
            old(self).wf(),
        ensures
            final(self).wf(),
            final(self)@ == (SessionModel { loading: None, ..old(self)@ }),
    {
        self.loading = None;
    }

    /// The playing song changed: neither what is shown nor what is in flight
    /// belongs to the session any more.
    pub fn on_track_changed(&mut self)
        requires
            old(self).wf(),
        ensures
            final(self).wf(),
            final(self)@ == (SessionModel { source: None, loading: None, ..old(self)@ }),
    {
        self.source_track_key = None;
        self.loading = None;
    }

    /// Full restart (explicit reload): drops what is shown and what is in
    /// flight. The generation is NOT reset, so answers of earlier sessions
    /// can never match a future load.
    pub fn reset(&mut self)
        requires
            old(self).wf(),
        ensures
            final(self).wf(),
            final(self)@ == (SessionModel { source: None, loading: None, ..old(self)@ }),
    {
        self.source_track_key = None;
        self.loading = None;
    }
}

impl Default for RecommendationSession {
    fn default() -> (s: Self)
        ensures
            s.wf(),
            s@.source is None,
            s@.generation == 0,
            s@.loading is None,
    {
        RecommendationSession::new()
    }
}

/// A request hands out a generation strictly greater than every earlier
/// one, so an answer carrying an older generation is never accepted by the
/// new load.
pub proof fn law_stale_answers_rejected(m: SessionModel, key: Seq<char>, old_key: Seq<char>, old_gen: u64)
    requires
        session_wf(m),
        wants_request(m, key),
        m.generation < u64::MAX,
        old_gen <= m.generation,
    ensures
        !accepts(
            SessionModel {
                generation: (m.generation + 1) as u64,
                loading: Some((key, (m.generation + 1) as u64)),
                ..m
            },
            old_key,
            old_gen,
        ),
{
}

/// Once recommendations for a song are shown (or in flight), asking again
/// for it sends nothing.
pub proof fn law_no_duplicate_request(m: SessionModel, key: Seq<char>, g: u64)
    ensures
        !wants_request(SessionModel { source: Some(key), ..m }, key),
        !wants_request(SessionModel { loading: Some((key, g)), ..m }, key),
{
}

/// After aborting or a change of song nothing can be completed.
pub proof fn law_nothing_to_complete_after_abort(m: SessionModel, key: Seq<char>, g: u64)
    ensures
        !accepts(SessionModel { loading: None, ..m }, key, g),
{
}

/// A song whose recommendations are not shown gets a request whenever the
/// load in flight, if any, is for another song; the request takes the next
/// generation and becomes the load in flight.
pub proof fn law_other_song_is_requested(m: SessionModel, key: Seq<char>)
    requires
        m.source != Some(key),
        m.loading is None || m.loading.unwrap().0 != key,
    ensures
        wants_request(m, key),
{
}

/// An answer applies exactly when it names the song AND the generation of
/// the load in flight; right after a request, its own answer applies and an
/// answer with any other generation does not.
pub proof fn law_request_then_answer(m: SessionModel, key: Seq<char>, g: u64)
    requires
        session_wf(m),
        wants_request(m, key),
        m.generation < u64::MAX,
    ensures
        ({
            let after = SessionModel {
                generation: (m.generation + 1) as u64,
                loading: Some((key, (m.generation + 1) as u64)),
                ..m
            };
            &&& accepts(after, key, (m.generation + 1) as u64)
            &&& g != m.generation + 1 ==> !accepts(after, key, g)
        }),
        accepts(m, key, g) ==> m.loading == Some((key, g)),
        m.loading == Some((key, g)) ==> accepts(m, key, g),
{
}

} // verus!
