//! Frontmatter parsing and block upsert tests
//!
//! Covers:
//! - extract_meta success and error paths
//! - upsert_weather_block append/insert/replace idempotency

use weather_helper::block::upsert_weather_block;
use weather_helper::err::WxError;
use weather_helper::meta::extract_meta;

fn b(s: &str) -> Vec<u8> {
    s.as_bytes().to_vec()
}

fn s(v: &Vec<u8>) -> String {
    String::from_utf8(v.clone()).unwrap()
}

#[test]
fn upsert_block_variants() {
    let new_block = b("## Weather Forecast\n<!-- WEATHER:BEGIN -->\nNEW\n<!-- WEATHER:END -->\n");

    // Append when no heading
    let mut content = b("# Title\n\nBody\n");
    upsert_weather_block(&mut content, &new_block);
    assert!(s(&content).contains("## Weather Forecast"));
    assert!(s(&content).contains("NEW"));

    // Insert after heading with empty block
    let mut content2 = b("Intro\n\n## Weather Forecast\n");
    upsert_weather_block(&mut content2, &new_block);
    assert!(s(&content2).contains("NEW"));

    // Replace existing
    let mut content3 = b("## Weather Forecast\n<!-- WEATHER:BEGIN -->\nOLD\n<!-- WEATHER:END -->\n");
    upsert_weather_block(&mut content3, &new_block);
    assert!(s(&content3).contains("NEW"));
    assert!(!s(&content3).contains("OLD"));
}

#[test]
fn upsert_twice_is_idempotent() {
    let new_block = b("## Weather Forecast\n<!-- WEATHER:BEGIN -->\nNEW\n<!-- WEATHER:END -->\n");
    let starts = [
        b("# Title\n\nBody\n"),
        b("Intro\n\n## Weather Forecast\n\nOutro\n"),
        b("## Weather Forecast\n<!-- WEATHER:BEGIN -->\nOLD\n<!-- WEATHER:END -->\ntail\n"),
        b(""),
    ];
    for start in starts.iter() {
        let mut once = start.clone();
        upsert_weather_block(&mut once, &new_block);
        let mut twice = once.clone();
        upsert_weather_block(&mut twice, &new_block);
        assert_eq!(once, twice);
    }
}

#[test]
fn upsert_append_preserves_content() {
    let new_block = b("## Weather Forecast\n<!-- WEATHER:BEGIN -->\nX\n<!-- WEATHER:END -->\n");
    let original = b("# Notes\n\nSome body text.\n");
    let mut content = original.clone();
    upsert_weather_block(&mut content, &new_block);
    let mut expected = original.clone();
    expected.extend_from_slice(b"\n\n");
    expected.extend_from_slice(&new_block);
    assert_eq!(content, expected);
}

#[test]
fn upsert_bare_heading_yields_one_pair() {
    let new_block = b("## Weather Forecast\n<!-- WEATHER:BEGIN -->\nX\n<!-- WEATHER:END -->\n");
    let mut content = b("Intro\n\n## Weather Forecast\n\nOutro\n");
    upsert_weather_block(&mut content, &new_block);
    let text = s(&content);
    assert_eq!(text.matches("<!-- WEATHER:BEGIN -->").count(), 1);
    assert_eq!(text.matches("<!-- WEATHER:END -->").count(), 1);
    assert_eq!(text.matches("## Weather Forecast").count(), 1);
    assert!(text.starts_with("Intro\n\n## Weather Forecast\n<!-- WEATHER:BEGIN -->\nX\n"));
    assert!(text.ends_with("\nOutro\n"));
}

#[test]
fn upsert_replaces_whole_region() {
    let new_block = b("## Weather Forecast\n<!-- WEATHER:BEGIN -->\nNEW\n<!-- WEATHER:END -->\n");
    let mut content =
        b("before\n## Weather Forecast\n<!-- WEATHER:BEGIN -->\nOLD1\nOLD2\n<!-- WEATHER:END -->\nafter\n");
    upsert_weather_block(&mut content, &new_block);
    assert_eq!(
        s(&content),
        "before\n## Weather Forecast\n<!-- WEATHER:BEGIN -->\nNEW\n<!-- WEATHER:END -->\nafter\n"
    );
}

#[test]
fn extract_meta_fields() {
    let text = b("---\ncity-place: Rome\narrival: 2025-08-20\ndeparture: 2025-08-25\n---\n\n# Title\n");
    let meta = extract_meta(&text, &b("trip.md")).expect("meta ok");
    assert_eq!(meta.city, b("Rome"));
    assert_eq!(meta.arrival.year, 2025);
    assert_eq!(meta.arrival.month, 8);
    assert_eq!(meta.arrival.day, 20);
    assert_eq!(meta.departure.day, 25);
    assert_eq!(meta.path, b("trip.md"));
}

#[test]
fn extract_meta_trims_place() {
    let text = b("---\ncity-place:    Reggio Emilia   \narrival: 2025-08-20\ndeparture: 2025-08-25\n---\n");
    let meta = extract_meta(&text, &b("n.md")).unwrap();
    assert_eq!(meta.city, b("Reggio Emilia"));
}

#[test]
fn extract_meta_missing_header() {
    let err = extract_meta(&b("# Just a note\n"), &b("n.md")).unwrap_err();
    assert_eq!(err, WxError::MissingHeader);
    let err2 = extract_meta(&b("---\nnever closed\n"), &b("n.md")).unwrap_err();
    assert_eq!(err2, WxError::MissingHeader);
}

#[test]
fn extract_meta_missing_fields() {
    let err = extract_meta(&b("---\ncity-place: Rome\n---\n"), &b("n.md")).unwrap_err();
    let msg = String::from_utf8(err.message()).unwrap();
    assert!(msg.contains("missing 'arrival'") || msg.contains("missing 'departure'"));

    let err2 = extract_meta(&b("---\narrival: 2025-08-20\n---\n"), &b("n.md")).unwrap_err();
    assert_eq!(err2, WxError::MissingField(b("city-place")));
}

#[test]
fn extract_meta_invalid_date() {
    let text = b("---\ncity-place: Rome\narrival: not-a-date\ndeparture: 2025-08-25\n---\n");
    let err = extract_meta(&text, &b("n.md")).unwrap_err();
    assert_eq!(
        err,
        WxError::InvalidDate { field: b("arrival"), raw: b("not-a-date") }
    );
}
