//! Model of the user's interaction signals.
//!
//! Each [`PlaySignal`] is ONE interaction with ONE track, with its context.
//! Signals the old history mixed up (play ≠ completed ≠ skip) are told apart,
//! so that the profile never treats `play` as `like` nor `skip` as
//! `dislike` without looking at the context.

use vstd::prelude::*;

use crate::recommendation::types::TrackSignals;
use crate::text::same_text;

verus! {

broadcast use vstd::std_specs::hash::group_hash_axioms;

/// Kind of interaction; each one weighs differently in the profile.
#[derive(Debug, Clone, Copy, PartialEq, Eq, Hash, Structural)]
pub enum SignalKind {
    /// A playback started (no judgement).
    Play,
    /// The song reached its end (strong positive).
    Completed,
    /// The user skipped the song before its end (neutral until the context
    /// is seen).
    Skip,
    /// The user replayed the song at once (strong positive).
    Replay,
    /// Explicit "like" (strongest positive).
    Like,
    /// The "like" was removed (negative).
    Unlike,
    /// The song was added to a playlist (positive).
    PlaylistAdd,
    /// The user chose to play a recommendation (conversion).
    RecClick,
    /// The recommendation was shown (impression: measured, never scored).
    RecImpression,
}

/// Stored name of a signal kind.
pub open spec fn kind_str_spec(k: SignalKind) -> Seq<char> {
    match k {
        SignalKind::Play => "play"@,
        SignalKind::Completed => "completed"@,
        SignalKind::Skip => "skip"@,
        SignalKind::Replay => "replay"@,
        SignalKind::Like => "like"@,
        SignalKind::Unlike => "unlike"@,
        SignalKind::PlaylistAdd => "playlist_add"@,
        SignalKind::RecClick => "rec_click"@,
        SignalKind::RecImpression => "rec_impression"@,
    }
}

/// Signal kind stored under a name.
pub open spec fn kind_parse_spec(s: Seq<char>) -> Option<SignalKind> {
    if s == "play"@ {
        Some(SignalKind::Play)
    } else if s == "completed"@ {
        Some(SignalKind::Completed)
    } else if s == "skip"@ {
        Some(SignalKind::Skip)
    } else if s == "replay"@ {
        Some(SignalKind::Replay)
    } else if s == "like"@ {
        Some(SignalKind::Like)
    } else if s == "unlike"@ {
        Some(SignalKind::Unlike)
    } else if s == "playlist_add"@ {
        Some(SignalKind::PlaylistAdd)
    } else if s == "rec_click"@ {
        Some(SignalKind::RecClick)
    } else if s == "rec_impression"@ {
        Some(SignalKind::RecImpression)
    } else {
        None
    }
}

impl SignalKind {
    /// Stored name.
    pub fn as_str(self) -> (r: &'static str)
        ensures
            r@ == kind_str_spec(self),
    {
        match self {
            SignalKind::Play => "play",
            SignalKind::Completed => "completed",
            SignalKind::Skip => "skip",
            SignalKind::Replay => "replay",
            SignalKind::Like => "like",
            SignalKind::Unlike => "unlike",
            SignalKind::PlaylistAdd => "playlist_add",
            SignalKind::RecClick => "rec_click",
            SignalKind::RecImpression => "rec_impression",
        }
    }

    /// Kind stored under `s`, if any.
    pub fn parse(s: &str) -> (r: Option<SignalKind>)
        ensures
            r == kind_parse_spec(s@),
    {
        if same_text(s, "play") {
            Some(SignalKind::Play)
        } else if same_text(s, "completed") {
            Some(SignalKind::Completed)
        } else if same_text(s, "skip") {
            Some(SignalKind::Skip)
        } else if same_text(s, "replay") {
            Some(SignalKind::Replay)
        } else if same_text(s, "like") {
            Some(SignalKind::Like)
        } else if same_text(s, "unlike") {
            Some(SignalKind::Unlike)
        } else if same_text(s, "playlist_add") {
            Some(SignalKind::PlaylistAdd)
        } else if same_text(s, "rec_click") {
            Some(SignalKind::RecClick)
        } else if same_text(s, "rec_impression") {
            Some(SignalKind::RecImpression)
        } else {
            None
        }
    }
}

/// Context of an interaction: a `play` by autoplay implies no taste, a
/// manual one (or a recommendation click) does.
#[derive(Debug, Clone, Copy, PartialEq, Eq, Hash, Structural)]
pub enum PlayContext {
    /// The user chose the song explicitly (search, playlist, queue).
    Manual,
    /// Playback of a manually queued song.
    Queue,
    /// Automatic playback after another song ended (weaker signal).
    Autoplay,
    /// Playback chosen from a recommendation (strong signal).
    Recommendation,
}

/// Stored name of a context.
pub open spec fn context_str_spec(c: PlayContext) -> Seq<char> {
    match c {
        PlayContext::Manual => "manual"@,
        PlayContext::Queue => "queue"@,
        PlayContext::Autoplay => "autoplay"@,
        PlayContext::Recommendation => "recommendation"@,
    }
}

/// Context stored under a name.
pub open spec fn context_parse_spec(s: Seq<char>) -> Option<PlayContext> {
    if s == "manual"@ {
        Some(PlayContext::Manual)
    } else if s == "queue"@ {
        Some(PlayContext::Queue)
    } else if s == "autoplay"@ {
        Some(PlayContext::Autoplay)
    } else if s == "recommendation"@ {
        Some(PlayContext::Recommendation)
    } else {
        None
    }
}

impl PlayContext {
    /// Stored name.
    pub fn as_str(self) -> (r: &'static str)
        ensures
            r@ == context_str_spec(self),
    {
        match self {
            PlayContext::Manual => "manual",
            PlayContext::Queue => "queue",
            PlayContext::Autoplay => "autoplay",
            PlayContext::Recommendation => "recommendation",
        }
    }

    /// Context stored under `s`, if any.
    pub fn parse(s: &str) -> (r: Option<PlayContext>)
        ensures
            r == context_parse_spec(s@),
    {
        if same_text(s, "manual") {
            Some(PlayContext::Manual)
        } else if same_text(s, "queue") {
            Some(PlayContext::Queue)
        } else if same_text(s, "autoplay") {
            Some(PlayContext::Autoplay)
        } else if same_text(s, "recommendation") {
            Some(PlayContext::Recommendation)
        } else {
            None
        }
    }
}

/// A stored interaction event.
#[derive(Debug, Clone, PartialEq, Eq)]
pub struct PlaySignal {
    pub id: i64,
    pub track_id: i64,
    pub signal: SignalKind,
    pub context: PlayContext,
    pub at: String,
    /// Milliseconds really listened in this event.
    pub duration_ms: Option<i64>,
    /// Identifier of the recommendation, when it applies.
    pub recomm_id: Option<i64>,
    /// Total duration of the track, to normalise completed / skip.
    pub track_duration_ms: Option<i64>,
}

/// The event counts as listened to the end.
pub open spec fn completion_spec(d: Option<i64>, td: Option<i64>) -> bool {
    match (d, td) {
        (Some(d), Some(td)) => td > 0 && d >= td,
        _ => false,
    }
}

/// The event counts as short (under a fifth of the track).
pub open spec fn short_spec(d: Option<i64>, td: Option<i64>) -> bool {
    match (d, td) {
        (Some(d), Some(td)) => td > 0 && d * 5 < td,
        _ => false,
    }
}

/// The short check can be computed in `i64` (`d * 5` fits).
pub open spec fn short_computable(d: Option<i64>, td: Option<i64>) -> bool {
    match (d, td) {
        (Some(d), Some(td)) => td > 0 ==> i64::MIN <= d * 5 <= i64::MAX,
        _ => true,
    }
}

impl PlaySignal {
    /// Whether this event counts as "listened to the end" (positive).
    pub fn is_completion(&self) -> (b: bool)
        ensures
            b == completion_spec(self.duration_ms, self.track_duration_ms),
    {
        match (self.duration_ms, self.track_duration_ms) {
            (Some(d), Some(td)) => td > 0 && d >= td,
            _ => false,
        }
    }

    /// Whether this event counts as "skipped" (depends on the context).
    pub fn is_short(&self) -> (b: bool)
        requires
            short_computable(self.duration_ms, self.track_duration_ms),
        ensures
            b == short_spec(self.duration_ms, self.track_duration_ms),
    {
        match (self.duration_ms, self.track_duration_ms) {
            (Some(d), Some(td)) => td > 0 && d * 5 < td,
            _ => false,
        }
    }
}

/// A skip or unlike, unless it happened under autoplay: not every skip is
/// dislike.
pub open spec fn meaningful_negative_spec(signal: SignalKind, context: PlayContext) -> bool {
    (signal == SignalKind::Skip || signal == SignalKind::Unlike) && context != PlayContext::Autoplay
}

/// Filters out negatives that should not feed negative affinity.
pub fn is_meaningful_negative(signal: SignalKind, context: PlayContext) -> (b: bool)
    ensures
        b == meaningful_negative_spec(signal, context),
{
    match signal {
        SignalKind::Skip | SignalKind::Unlike => match context {
            PlayContext::Autoplay => false,
            _ => true,
        },
        _ => false,
    }
}

/// A play attempt: a play or a recommendation click.
pub open spec fn attempt_spec(signal: SignalKind) -> bool {
    signal == SignalKind::Play || signal == SignalKind::RecClick
}

/// Aggregate of one more signal.
pub open spec fn bumped(e: TrackSignals, s: PlaySignal) -> TrackSignals {
    TrackSignals {
        plays: if attempt_spec(s.signal) { (e.plays + 1) as u64 } else { e.plays },
        negative: if meaningful_negative_spec(s.signal, s.context) {
            (e.negative + 1) as u64
        } else {
            e.negative
        },
    }
}

/// Per-track aggregate of a sequence of signals: every track that appears
/// gets an entry; attempts are plays plus recommendation clicks, negatives
/// only the meaningful skips and unlikes.
pub open spec fn aggregate_spec(s: Seq<PlaySignal>) -> Map<i64, TrackSignals>
    decreases s.len(),
{
    if s.len() == 0 {
        Map::empty()
    } else {
        let m = aggregate_spec(s.drop_last());
        let x = s.last();
        let e = if m.contains_key(x.track_id) {
            m[x.track_id]
        } else {
            TrackSignals { plays: 0, negative: 0 }
        };
        m.insert(x.track_id, bumped(e, x))
    }
}

proof fn lemma_aggregate_bounded(s: Seq<PlaySignal>)
    ensures
        forall|k: i64| #[trigger] aggregate_spec(s).contains_key(k) ==> aggregate_spec(s)[k].plays <= s.len()
            && aggregate_spec(s)[k].negative <= s.len(),
    decreases s.len(),
{
    if s.len() > 0 {
        let d = s.drop_last();
        lemma_aggregate_bounded(d);
        let m = aggregate_spec(d);
        let x = s.last();
        assert forall|k: i64| #[trigger] aggregate_spec(s).contains_key(k) implies aggregate_spec(s)[k].plays
            <= s.len() && aggregate_spec(s)[k].negative <= s.len() by {
            if k != x.track_id {
                assert(m.contains_key(k));
            }
        }
    }
}

/// Aggregates signals per track into play attempts and meaningful
/// negatives, for the negative penalty of the ranking.
pub fn aggregate_signals(signals: &[PlaySignal]) -> (map: std::collections::HashMap<i64, TrackSignals>)
    ensures
        map@ == aggregate_spec(signals@),
{
    let mut map: std::collections::HashMap<i64, TrackSignals> = std::collections::HashMap::new();
    let mut i: usize = 0;
    while i < signals.len()
        invariant
            i <= signals@.len(),
            map@ == aggregate_spec(signals@.take(i as int)),
        decreases signals@.len() - i,
    {
        let s = &signals[i];
        proof {
            assert(signals@.take(i + 1).drop_last() =~= signals@.take(i as int));
            assert(signals@.take(i + 1).last() == signals@[i as int]);
            lemma_aggregate_bounded(signals@.take(i as int));
        }
        let mut e = match map.get(&s.track_id) {
            Some(v) => *v,
            None => TrackSignals::default(),
        };
        proof {
            if map@.contains_key(s.track_id) {
                assert(e.plays <= i && e.negative <= i);
            }
        }
        if matches!(s.signal, SignalKind::Play | SignalKind::RecClick) {
            e.plays = e.plays + 1;
        }
        if is_meaningful_negative(s.signal, s.context) {
            e.negative = e.negative + 1;
        }
        map.insert(s.track_id, e);
        i = i + 1;
    }
    proof {
        assert(signals@.take(signals@.len() as int) =~= signals@);
    }
    map
}

/// Names of signal kinds and contexts read back as what was stored.
pub proof fn law_names_roundtrip(k: SignalKind, c: PlayContext)
    ensures
        kind_parse_spec(kind_str_spec(k)) == Some(k),
        context_parse_spec(context_str_spec(c)) == Some(c),
{
    reveal_strlit("play");
    reveal_strlit("completed");
    reveal_strlit("skip");
    reveal_strlit("replay");
    reveal_strlit("like");
    reveal_strlit("unlike");
    reveal_strlit("playlist_add");
    reveal_strlit("rec_click");
    reveal_strlit("rec_impression");
    reveal_strlit("manual");
    reveal_strlit("queue");
    reveal_strlit("autoplay");
    reveal_strlit("recommendation");
    let names = seq![
        "play"@, "completed"@, "skip"@, "replay"@, "like"@, "unlike"@, "playlist_add"@,
        "rec_click"@, "rec_impression"@,
    ];
    assert forall|a: int, b: int| 0 <= a < b < 9 implies names[a] != names[b] by {
        if names[a] == names[b] {
            assert(names[a].len() == names[b].len());
            assert(names[a][0] == names[b][0]);
            assert(names[a][names[a].len() - 1] == names[b][names[b].len() - 1]);
        }
    }
    let ctxs = seq!["manual"@, "queue"@, "autoplay"@, "recommendation"@];
    assert forall|a: int, b: int| 0 <= a < b < 4 implies ctxs[a] != ctxs[b] by {
        if ctxs[a] == ctxs[b] {
            assert(ctxs[a].len() == ctxs[b].len());
        }
    }
    match k {
        SignalKind::Play => {},
        SignalKind::Completed => { assert(names[1] != names[0]); },
        SignalKind::Skip => { assert(names[2] != names[0] && names[2] != names[1]); },
        SignalKind::Replay => { assert(names[3] != names[0] && names[3] != names[1] && names[3] != names[2]); },
        SignalKind::Like => { assert(names[4] != names[0] && names[4] != names[1] && names[4] != names[2] && names[4] != names[3]); },
        SignalKind::Unlike => { assert(names[5] != names[0] && names[5] != names[1] && names[5] != names[2] && names[5] != names[3] && names[5] != names[4]); },
        SignalKind::PlaylistAdd => { assert(names[6] != names[0] && names[6] != names[1] && names[6] != names[2] && names[6] != names[3] && names[6] != names[4] && names[6] != names[5]); },
        SignalKind::RecClick => { assert(names[7] != names[0] && names[7] != names[1] && names[7] != names[2] && names[7] != names[3] && names[7] != names[4] && names[7] != names[5] && names[7] != names[6]); },
        SignalKind::RecImpression => { assert(names[8] != names[0] && names[8] != names[1] && names[8] != names[2] && names[8] != names[3] && names[8] != names[4] && names[8] != names[5] && names[8] != names[6] && names[8] != names[7]); },
    }
    match c {
        PlayContext::Manual => {},
        PlayContext::Queue => { assert(ctxs[1] != ctxs[0]); },
        PlayContext::Autoplay => { assert(ctxs[2] != ctxs[0] && ctxs[2] != ctxs[1]); },
        PlayContext::Recommendation => { assert(ctxs[3] != ctxs[0] && ctxs[3] != ctxs[1] && ctxs[3] != ctxs[2]); },
    }
}

/// A skip or unlike under autoplay never counts as a negative, and nothing
/// but a skip or unlike ever does.
pub proof fn law_autoplay_skip_is_not_dislike(signal: SignalKind, context: PlayContext)
    ensures
        context == PlayContext::Autoplay ==> !meaningful_negative_spec(signal, context),
        meaningful_negative_spec(signal, context) ==> (signal == SignalKind::Skip || signal
            == SignalKind::Unlike),
{
}

/// A listened-to-the-end event is never short.
pub proof fn law_completion_is_not_short(d: Option<i64>, td: Option<i64>)
    ensures
        completion_spec(d, td) ==> !short_spec(d, td),
{
}

/// A skip or an unlike outside autoplay always counts as a meaningful
/// negative, and nothing else ever does.
pub proof fn law_skip_outside_autoplay_is_negative(signal: SignalKind, context: PlayContext)
    ensures
        (signal == SignalKind::Skip || signal == SignalKind::Unlike) && context
            != PlayContext::Autoplay ==> meaningful_negative_spec(signal, context),
        !(signal == SignalKind::Skip || signal == SignalKind::Unlike) ==> !meaningful_negative_spec(
            signal,
            context,
        ),
{
}

/// Aggregating a single signal gives its track one entry: one attempt for
/// a play or a recommendation click, one negative for a skip or an unlike
/// outside autoplay, and zero otherwise.
pub proof fn law_single_signal_aggregate(s: PlaySignal)
    ensures
        aggregate_spec(seq![s]).contains_key(s.track_id),
        aggregate_spec(seq![s])[s.track_id].negative == if (s.signal == SignalKind::Skip
            || s.signal == SignalKind::Unlike) && s.context != PlayContext::Autoplay {
            1int
        } else {
            0int
        },
        aggregate_spec(seq![s])[s.track_id].plays == if s.signal == SignalKind::Play || s.signal
            == SignalKind::RecClick {
            1int
        } else {
            0int
        },
{
    assert(seq![s].drop_last() =~= Seq::<PlaySignal>::empty());
    assert(aggregate_spec(Seq::<PlaySignal>::empty()) == Map::<i64, TrackSignals>::empty());
}

/// A play counts as listened to the end exactly when it lasted at least the
/// (known, positive) track duration, and as short exactly when it lasted
/// under a fifth of it; without both durations it is neither.
pub proof fn law_completion_and_short_thresholds(d: i64, td: i64)
    ensures
        td > 0 && d >= td ==> completion_spec(Some(d), Some(td)),
        d < td ==> !completion_spec(Some(d), Some(td)),
        td > 0 && 5 * d < td ==> short_spec(Some(d), Some(td)),
        5 * d >= td ==> !short_spec(Some(d), Some(td)),
        td <= 0 ==> !completion_spec(Some(d), Some(td)) && !short_spec(Some(d), Some(td)),
        !completion_spec(None, Some(td)) && !completion_spec(Some(d), None),
        !short_spec(None, Some(td)) && !short_spec(Some(d), None),
{
}

} // verus!
