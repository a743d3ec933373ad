use playfusion::domain::artist::Artist;
use playfusion::domain::genre::Genre;
use playfusion::domain::stream::StreamResolution;
use playfusion::domain::track::Track;
use playfusion::text::duration_text;
use playfusion::Source;

fn artist(name: &str) -> Artist {
    Artist::new(name.to_string(), None, None, None)
}

#[test]
fn identifier_prefers_the_external_id() {
    let mut t = Track::new("Song".to_string(), vec![artist("Queen")], Source::YouTube);
    assert_eq!(t.identifier(), "Song|Queen");
    t.external_id = Some("vid".to_string());
    assert_eq!(t.identifier(), "vid");
    let lone = Track::new("Solo".to_string(), Vec::new(), Source::YouTube);
    assert_eq!(lone.identifier(), "Solo|");
}

#[test]
fn display_title_joins_artist_and_title() {
    let t = Track::new("Song".to_string(), vec![artist("Queen"), artist("Bowie")], Source::YouTube);
    assert_eq!(t.display_title(), "Queen - Song");
    assert_eq!(t.primary_artist_name(), Some("Queen"));
    let lone = Track::new("Solo".to_string(), Vec::new(), Source::YouTube);
    assert_eq!(lone.display_title(), "Solo");
    assert_eq!(lone.primary_artist_name(), None);
}

#[test]
fn resolution_validation_and_expiry() {
    let mut r = StreamResolution::new(Source::YouTube, "https://x".to_string());
    assert!(r.validate().is_ok());
    assert!(!r.is_expired_at(10));
    r.expires_at = Some(10);
    assert!(r.is_expired_at(10));
    assert!(!r.is_expired_at(9));
    assert!(StreamResolution::new(Source::YouTube, String::new()).validate().is_err());
}

#[test]
fn source_names() {
    assert_eq!(Source::YouTube.label(), "YouTube");
    assert_eq!(Source::YouTube.as_str(), "youtube");
}

#[test]
fn new_values_start_without_id() {
    assert_eq!(Genre::new("rock".to_string()).id, 0);
    assert_eq!(artist("x").id, 0);
}

#[test]
fn durations_print_like_debug() {
    assert_eq!(duration_text(0), "0ns");
    assert_eq!(duration_text(80), "80ms");
    assert_eq!(duration_text(20_000), "20s");
    assert_eq!(duration_text(1_500), "1.5s");
    assert_eq!(duration_text(1_005), "1.005s");
    assert_eq!(duration_text(2_050), "2.05s");
}
