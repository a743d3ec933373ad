use playfusion::app::search::{merge_related, related_seed};
use playfusion::domain::track::Track;
use playfusion::Source;

fn track(id: &str) -> Track {
    let mut t = Track::new(id.to_string(), Vec::new(), Source::YouTube);
    t.external_id = Some(id.to_string());
    t
}

fn ids(v: &[Track]) -> Vec<String> {
    v.iter().map(|t| t.identifier()).collect()
}

#[test]
fn related_tracks_are_appended_without_duplicates() {
    let mut items = vec![track("a"), track("b")];
    let from = merge_related(&mut items, vec![track("b"), track("c"), track("c"), track("d")]);
    assert_eq!(from, Some(2));
    assert_eq!(ids(&items), vec!["a", "b", "c", "d"]);
}

#[test]
fn at_most_eight_related_tracks_are_added() {
    let mut items = vec![track("seed")];
    let related: Vec<Track> = (0..12).map(|i| track(&format!("r{i}"))).collect();
    assert_eq!(merge_related(&mut items, related), Some(1));
    assert_eq!(items.len(), 9);
    assert_eq!(items[8].identifier(), "r7");
}

#[test]
fn nothing_new_leaves_the_result_alone() {
    let mut items = vec![track("a")];
    assert_eq!(merge_related(&mut items, vec![track("a")]), None);
    assert_eq!(merge_related(&mut items, Vec::new()), None);
    assert_eq!(ids(&items), vec!["a"]);
}

#[test]
fn seed_is_the_first_result_with_an_external_id() {
    let mut local = Track::new("local".to_string(), Vec::new(), Source::YouTube);
    local.external_id = None;
    assert_eq!(related_seed(&vec![local.clone(), track("x"), track("y")]), Some("x".to_string()));
    assert_eq!(related_seed(&vec![local]), None);
    assert_eq!(related_seed(&Vec::new()), None);
}
