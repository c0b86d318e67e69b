//! The composed write step: block building and in-place note rewriting.

use weather_helper::block::{apply_weather, build_weather_block};
use weather_helper::date::{parse_date, Date};
use weather_helper::temps::DayTemp;

fn b(s: &str) -> Vec<u8> {
    s.as_bytes().to_vec()
}

fn d(s: &str) -> Date {
    parse_date(&b(s)).expect("valid date")
}

fn one_day() -> Vec<DayTemp> {
    vec![DayTemp { date: d("2025-01-10"), tmax: 1000, tmin: 0, tmax_f: 5000, tmin_f: 3200 }]
}

#[test]
fn build_block_shape() {
    let block = build_weather_block(&b("L"), &b("50°F"), &b("32°F"), &b("note"), &b("table"));
    assert_eq!(
        String::from_utf8(block).unwrap(),
        "## Weather Forecast\n<!-- WEATHER:BEGIN -->\n**L**  \n**Range**: 50°F / 32°F  \n\nnote\n\ntable\n<!-- WEATHER:END -->\n"
    );
}

#[test]
fn apply_weather_writes_block() {
    let mut content = b("# Trip\n\nPacking list.\n");
    apply_weather(&mut content, &b("Forecast 2025-01-10 → 2025-01-10"), &one_day());
    let text = String::from_utf8(content.clone()).unwrap();
    assert!(text.starts_with("# Trip\n\nPacking list.\n\n\n## Weather Forecast\n"));
    assert!(text.contains("**Forecast 2025-01-10 → 2025-01-10**"));
    assert!(text.contains("**Range**: 50°F / 32°F"));
    assert!(text.contains("| 2025-01-10 | 50 | 32 | 10 | 0 |"));
}

#[test]
fn apply_weather_twice_is_idempotent() {
    let label = b("Forecast 2025-01-10 → 2025-01-10");
    let starts = [
        b("# Trip\n"),
        b("Intro\n\n## Weather Forecast\n\nOutro\n"),
        b("## Weather Forecast\n<!-- WEATHER:BEGIN -->\nstale\n<!-- WEATHER:END -->\n"),
    ];
    for start in starts.iter() {
        let mut once = start.clone();
        apply_weather(&mut once, &label, &one_day());
        let mut twice = once.clone();
        apply_weather(&mut twice, &label, &one_day());
        assert_eq!(once, twice);
    }
}

#[test]
fn apply_weather_empty_days_writes_placeholders() {
    let mut content = b("");
    apply_weather(&mut content, &b("Forecast"), &vec![]);
    let text = String::from_utf8(content).unwrap();
    assert!(text.contains("**Range**: n/a / n/a"));
    assert!(text.contains("_No data returned_"));
    assert!(text.contains("_(no rows)_"));
}
