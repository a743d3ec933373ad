use playfusion::domain::track::Track;
use playfusion::playback::queue::{QueueManager, RepeatMode};
use playfusion::Source;

fn track(id: &str) -> Track {
    let mut t = Track::new(id.to_string(), Vec::new(), Source::YouTube);
    t.external_id = Some(id.to_string());
    t
}

fn queue(ids: &[&str]) -> QueueManager {
    let mut q = QueueManager::with_seed(42);
    q.set_tracks(ids.iter().map(|id| track(id)).collect());
    q
}

fn id(t: &Option<Track>) -> String {
    t.as_ref().unwrap().identifier()
}

#[test]
fn advances_and_wraps_through_queue() {
    let mut q = queue(&["a", "b", "c"]);
    assert_eq!(id(&q.pick(true, None)), "a", "sin histórico: primera");
    q.mark_played("a");
    assert_eq!(id(&q.pick(true, None)), "b");
    q.mark_played("b");
    assert_eq!(id(&q.pick(true, None)), "c");
    q.mark_played("c");
    assert_eq!(id(&q.pick(true, None)), "a", "envuelve al principio");
}

#[test]
fn backward_goes_previous_and_wraps() {
    let mut q = queue(&["a", "b", "c"]);
    q.mark_played("b");
    assert_eq!(id(&q.pick(false, None)), "a");
    q.mark_played("a");
    assert_eq!(id(&q.pick(false, None)), "c", "desde la primera, a la última");
}

#[test]
fn unknown_anchor_starts_from_extremes() {
    let mut q = queue(&["a", "b", "c"]);
    assert_eq!(id(&q.pick(true, Some("zz"))), "a");
    assert_eq!(id(&q.pick(false, Some("zz"))), "c");
}

#[test]
fn empty_queue_never_picks() {
    let mut q = QueueManager::default();
    assert!(q.pick(true, None).is_none());
    assert!(q.pick(false, None).is_none());
}

#[test]
fn explicit_anchor_wins_over_last_played() {
    let mut q = queue(&["a", "b", "c"]);
    q.mark_played("a");
    assert_eq!(id(&q.pick(true, Some("b"))), "c");
}

#[test]
fn pick_does_not_move_the_anchor() {
    let mut q = queue(&["a", "b", "c"]);
    q.mark_played("a");
    let _ = q.pick(true, None);
    let _ = q.pick(true, None);
    assert_eq!(q.last_played(), Some("a"), "solo mark_played mueve el ancla");
}

#[test]
fn repeat_off_stops_at_edges() {
    let mut q = queue(&["a", "b"]);
    q.set_repeat(RepeatMode::Off);
    q.mark_played("b");
    assert!(q.pick(true, None).is_none(), "sin wrap hacia adelante");
    q.mark_played("a");
    assert!(q.pick(false, None).is_none(), "sin wrap hacia atrás");
}

#[test]
fn shuffle_keeps_every_track_and_anchor_first() {
    let ids = ["a", "b", "c", "d", "e"];
    let mut q = queue(&ids);
    q.mark_played("c");
    q.set_shuffle(true);
    let mut visited = Vec::new();
    let mut anchor = Some(String::from("c"));
    for _ in 0..ids.len() {
        let next = q.pick(true, anchor.as_deref()).expect("permutación completa");
        visited.push(next.identifier());
        anchor = Some(visited.last().unwrap().clone());
    }
    let mut sorted = visited.clone();
    sorted.sort();
    assert_eq!(sorted, ["a", "b", "c", "d", "e"], "el shuffle no pierde ni duplica tracks");
    assert_eq!(visited.last().unwrap(), "c", "the walk ends back at the anchor, first in the order");
}

#[test]
fn shuffle_is_deterministic_under_fixed_seed() {
    let build = || {
        let mut q = queue(&["a", "b", "c", "d"]);
        q.mark_played("a");
        q.set_shuffle(true);
        let mut out = Vec::new();
        let mut anchor = Some("a".to_string());
        for _ in 0..4 {
            let t = q.pick(true, anchor.as_deref()).unwrap();
            out.push(t.identifier());
            anchor = Some(out.last().unwrap().clone());
        }
        out
    };
    assert_eq!(build(), build(), "misma semilla, misma permutación");
}

#[test]
fn disabling_shuffle_restores_linear_order() {
    let mut q = queue(&["a", "b", "c"]);
    q.set_shuffle(true);
    q.set_shuffle(false);
    q.mark_played("a");
    assert_eq!(id(&q.pick(true, None)), "b");
}

#[test]
fn replacing_queue_regenerates_shuffle_safely() {
    let mut q = queue(&["a", "b", "c", "d"]);
    q.set_shuffle(true);
    q.set_tracks(vec![track("x"), track("y")]);
    let mut seen = std::collections::HashSet::new();
    let mut anchor: Option<String> = None;
    for _ in 0..2 {
        let t = q.pick(true, anchor.as_deref()).unwrap();
        seen.insert(t.identifier());
        anchor = Some(t.identifier());
    }
    assert_eq!(seen.len(), 2);
}

#[test]
fn queue_state_accessors() {
    let mut q = queue(&["a", "b"]);
    assert_eq!(q.len(), 2);
    assert!(!q.is_empty());
    assert_eq!(q.tracks()[1].identifier(), "b");
    assert!(!q.shuffle_active());
    assert_eq!(q.repeat(), RepeatMode::All);
    q.set_shuffle(true);
    assert!(q.shuffle_active());
}
