use playfusion::catalog::{provider_for, thumbnail_candidates};
use playfusion::domain::track::{Thumbnail, Track};
use playfusion::Source;

#[test]
fn thumbnail_candidates_default_to_the_attached_one() {
    let mut t = Track::new("T".to_string(), Vec::new(), Source::YouTube);
    assert!(thumbnail_candidates(&t).is_empty());
    t.thumbnail = Some(Thumbnail { url: "https://img/x.jpg".to_string() });
    assert_eq!(thumbnail_candidates(&t), vec!["https://img/x.jpg".to_string()]);
}

#[test]
fn registry_serves_the_first_provider_of_a_source() {
    assert_eq!(provider_for(&vec![Source::YouTube, Source::YouTube], Source::YouTube), Some(0));
    assert_eq!(provider_for(&Vec::new(), Source::YouTube), None);
}
