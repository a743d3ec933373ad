use playfusion::recommendation::signals::{
    aggregate_signals, is_meaningful_negative, PlayContext, PlaySignal, SignalKind,
};
use playfusion::recommendation::types::TrackSignals;

#[test]
fn completed_is_completion() {
    let s = PlaySignal {
        id: 1,
        track_id: 1,
        signal: SignalKind::Completed,
        context: PlayContext::Manual,
        at: "now".into(),
        duration_ms: Some(200_000),
        recomm_id: None,
        track_duration_ms: Some(200_000),
    };
    assert!(s.is_completion());
    assert!(!s.is_short());
}

#[test]
fn short_play_is_not_completion() {
    let s = PlaySignal {
        id: 2,
        track_id: 1,
        signal: SignalKind::Play,
        context: PlayContext::Manual,
        at: "now".into(),
        duration_ms: Some(10_000),
        recomm_id: None,
        track_duration_ms: Some(200_000),
    };
    assert!(!s.is_completion());
    assert!(s.is_short());
}

#[test]
fn skip_in_autoplay_is_not_meaningful_negative() {
    assert!(!is_meaningful_negative(SignalKind::Skip, PlayContext::Autoplay));
    assert!(is_meaningful_negative(SignalKind::Skip, PlayContext::Manual));
    assert!(is_meaningful_negative(SignalKind::Unlike, PlayContext::Manual));
}

#[test]
fn roundtrip_kind_and_context() {
    for s in [
        SignalKind::Play,
        SignalKind::Completed,
        SignalKind::Skip,
        SignalKind::Replay,
        SignalKind::Like,
        SignalKind::Unlike,
        SignalKind::PlaylistAdd,
        SignalKind::RecClick,
        SignalKind::RecImpression,
    ] {
        assert_eq!(SignalKind::parse(s.as_str()), Some(s));
    }
    for c in [
        PlayContext::Manual,
        PlayContext::Queue,
        PlayContext::Autoplay,
        PlayContext::Recommendation,
    ] {
        assert_eq!(PlayContext::parse(c.as_str()), Some(c));
    }
}

fn mks(track_id: i64, kind: SignalKind, ctx: PlayContext) -> PlaySignal {
    PlaySignal {
        id: track_id,
        track_id,
        signal: kind,
        context: ctx,
        at: "now".into(),
        duration_ms: Some(1000),
        recomm_id: None,
        track_duration_ms: Some(200_000),
    }
}

#[test]
fn aggregate_signals_counts_plays_and_meaningful_negatives() {
    let sigs = vec![
        mks(1, SignalKind::Play, PlayContext::Manual),
        mks(1, SignalKind::RecClick, PlayContext::Recommendation),
        mks(1, SignalKind::Skip, PlayContext::Manual),
        mks(1, SignalKind::Skip, PlayContext::Autoplay),
        mks(2, SignalKind::Play, PlayContext::Manual),
        mks(2, SignalKind::Unlike, PlayContext::Manual),
        mks(3, SignalKind::Completed, PlayContext::Manual),
    ];
    let map = aggregate_signals(&sigs);
    assert_eq!(map[&1], TrackSignals { plays: 2, negative: 1 });
    assert_eq!(map[&2], TrackSignals { plays: 1, negative: 1 });
    assert_eq!(map[&3], TrackSignals { plays: 0, negative: 0 });
}

#[test]
fn unknown_names_do_not_parse() {
    assert_eq!(SignalKind::parse("PLAY"), None);
    assert_eq!(SignalKind::parse(""), None);
    assert_eq!(PlayContext::parse("radio"), None);
}

#[test]
fn stored_names_are_exact() {
    assert_eq!(SignalKind::PlaylistAdd.as_str(), "playlist_add");
    assert_eq!(SignalKind::RecImpression.as_str(), "rec_impression");
    assert_eq!(PlayContext::Recommendation.as_str(), "recommendation");
}

#[test]
fn unknown_durations_are_neither_complete_nor_short() {
    let mut s = mks(1, SignalKind::Play, PlayContext::Manual);
    s.track_duration_ms = None;
    assert!(!s.is_completion());
    assert!(!s.is_short());
    s.track_duration_ms = Some(0);
    assert!(!s.is_completion());
    assert!(!s.is_short());
}

#[test]
fn empty_history_aggregates_to_nothing() {
    assert!(aggregate_signals(&[]).is_empty());
}
