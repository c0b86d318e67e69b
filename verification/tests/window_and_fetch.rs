//! Window selection, calendar arithmetic, URL construction, and the retry
//! policy.

use weather_helper::date::{format_date, parse_date, Date};
use weather_helper::err::WxError;
use weather_helper::fetch::{next_retry, resolve_geocode, Coordinates, FetchFailure, GeoItem, RetryDecision};
use weather_helper::url::{build_archive_url, build_forecast_url, build_geocode_url, Config};
use weather_helper::window::{select_window, WindowMode};

fn b(s: &str) -> Vec<u8> {
    s.as_bytes().to_vec()
}

fn d(s: &str) -> Date {
    parse_date(&b(s)).expect("valid date")
}

#[test]
fn window_within_horizon_is_forecast_clamped() {
    let w = select_window(&d("2025-01-10"), &d("2025-01-15"), &d("2025-01-01")).unwrap();
    assert_eq!(w.mode, WindowMode::Forecast);
    assert_eq!(w.start, d("2025-01-10"));
    assert_eq!(w.end, d("2025-01-15"));
    assert_eq!(w.label, b("Forecast 2025-01-10 → 2025-01-15"));
}

#[test]
fn window_past_start_clamps_to_today() {
    let w = select_window(&d("2024-12-20"), &d("2025-01-30"), &d("2025-01-01")).unwrap();
    assert_eq!(w.mode, WindowMode::Forecast);
    assert_eq!(w.start, d("2025-01-01"));
    assert_eq!(w.end, d("2025-01-17"));
}

#[test]
fn window_beyond_horizon_shifts_one_year() {
    let w = select_window(&d("2026-06-01"), &d("2026-06-05"), &d("2025-01-01")).unwrap();
    assert_eq!(w.mode, WindowMode::HistoricalProxy);
    assert_eq!(w.start, d("2025-06-01"));
    assert_eq!(w.end, d("2025-06-05"));
    assert_eq!(w.label, b("Historic (proxy) 2025-06-01 → 2025-06-05"));
}

#[test]
fn window_swaps_reversed_dates() {
    let w = select_window(&d("2026-06-05"), &d("2026-06-01"), &d("2025-01-01")).unwrap();
    assert_eq!(w.start, d("2025-06-01"));
    assert_eq!(w.end, d("2025-06-05"));
}

#[test]
fn window_leap_day_proxy_fails() {
    let w = select_window(&d("2028-02-29"), &d("2028-02-29"), &d("2025-01-01"));
    assert_eq!(w.unwrap_err(), WxError::InvalidProxyDate);
}

#[test]
fn dates_parse_and_render() {
    assert_eq!(format_date(&d("2025-08-05")), b("2025-08-05"));
    assert!(parse_date(&b("2025-02-29")).is_none());
    assert!(parse_date(&b("2024-02-29")).is_some());
    assert!(parse_date(&b("2024-00-10")).is_none());
    assert!(parse_date(&b("2024-13-10")).is_none());
    assert!(parse_date(&b("24-01-10")).is_none());
    assert!(parse_date(&b("2024/01/10")).is_none());
}

#[test]
fn geocode_url_percent_encodes_place() {
    let cfg = Config::default_config();
    let url = build_geocode_url(&cfg, &b("Reggio nell'Emilia"));
    assert_eq!(
        String::from_utf8(url).unwrap(),
        "https://geocoding-api.open-meteo.com/v1/search?name=Reggio%20nell%27Emilia&country=IT&count=1"
    );
}

#[test]
fn forecast_and_archive_urls() {
    let cfg = Config::default_config();
    let url = build_forecast_url(&cfg, &b("44.7"), &b("10.63"), &d("2025-01-10"), &d("2025-01-15"), &b("Europe/Rome"));
    assert_eq!(
        String::from_utf8(url).unwrap(),
        "https://api.open-meteo.com/v1/forecast?latitude=44.7&longitude=10.63&daily=temperature_2m_max,temperature_2m_min&start_date=2025-01-10&end_date=2025-01-15&timezone=Europe%2FRome"
    );
    let url2 = build_archive_url(&cfg, &b("44.7"), &b("10.63"), &d("2025-06-01"), &d("2025-06-05"), &b(""));
    assert_eq!(
        String::from_utf8(url2).unwrap(),
        "https://archive-api.open-meteo.com/v1/era5?latitude=44.7&longitude=10.63&daily=temperature_2m_max,temperature_2m_min&start_date=2025-06-01&end_date=2025-06-05&timezone=Europe%2FRome"
    );
}

#[test]
fn retry_policy_backs_off_then_fails() {
    let url = b("http://example.invalid/x");
    assert_eq!(
        next_retry(1, &FetchFailure::Network, &url),
        RetryDecision::RetryAfterMs(100)
    );
    assert_eq!(
        next_retry(2, &FetchFailure::HttpStatus(500), &url),
        RetryDecision::RetryAfterMs(200)
    );
    match next_retry(3, &FetchFailure::Network, &url) {
        RetryDecision::Fail(e) => {
            assert_eq!(e, WxError::NetworkError(url.clone()));
            let msg = String::from_utf8(e.message()).unwrap();
            assert_eq!(msg, "network error: http://example.invalid/x");
        }
        other => panic!("expected failure, got {:?}", other),
    }
    match next_retry(3, &FetchFailure::HttpStatus(503), &url) {
        RetryDecision::Fail(e) => {
            let msg = String::from_utf8(e.message()).unwrap();
            assert_eq!(msg, "request failed (status 503): http://example.invalid/x");
        }
        other => panic!("expected failure, got {:?}", other),
    }
}

#[test]
fn geocode_resolution() {
    let err = resolve_geocode(None, &b("Atlantis")).unwrap_err();
    assert_eq!(err, WxError::GeocodeNotFound(b("Atlantis")));
    let err2 = resolve_geocode(Some(vec![]), &b("Atlantis")).unwrap_err();
    let msg = String::from_utf8(err2.message()).unwrap();
    assert_eq!(msg, "geocoding failed for city: Atlantis");

    let with_tz = resolve_geocode(
        Some(vec![GeoItem {
            latitude: b("44.7"),
            longitude: b("10.63"),
            timezone: Some(b("Europe/Berlin")),
        }]),
        &b("Parma"),
    )
    .unwrap();
    assert_eq!(
        with_tz,
        Coordinates { latitude: b("44.7"), longitude: b("10.63"), timezone: b("Europe/Berlin") }
    );

    let no_tz = resolve_geocode(
        Some(vec![GeoItem { latitude: b("1"), longitude: b("2"), timezone: None }]),
        &b("Parma"),
    )
    .unwrap();
    assert_eq!(no_tz.timezone, b("Europe/Rome"));
}

#[test]
fn error_messages_render() {
    assert_eq!(
        String::from_utf8(WxError::MissingHeader.message()).unwrap(),
        "no YAML frontmatter"
    );
    assert_eq!(
        String::from_utf8(WxError::InvalidProxyDate.message()).unwrap(),
        "proxy date does not exist"
    );
    assert_eq!(
        String::from_utf8(WxError::FileIoError(b("a/b.md")).message()).unwrap(),
        "file error: a/b.md"
    );
    assert_eq!(
        String::from_utf8(WxError::DecodeError(b("ctx")).message()).unwrap(),
        "failed to decode response: ctx"
    );
}
