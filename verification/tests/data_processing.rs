//! Data processing tests (no network)
//! - parse_daily shape handling
//! - summarize formatting
//! - render_table output

use weather_helper::aggregate::{render_table, summarize, Summary};
use weather_helper::date::{parse_date, Date};
use weather_helper::temps::{celsius_to_fahrenheit, parse_daily, DailyTemps, DayTemp, ForecastResp};

fn b(s: &str) -> Vec<u8> {
    s.as_bytes().to_vec()
}

fn d(s: &str) -> Date {
    parse_date(&b(s)).expect("valid date")
}

fn sample_days() -> Vec<DayTemp> {
    vec![
        DayTemp {
            date: d("2025-01-01"),
            tmax: 1000,
            tmin: 0,
            tmax_f: 5200,
            tmin_f: 3200,
        },
        DayTemp {
            date: d("2025-01-02"),
            tmax: 1200,
            tmin: 100,
            tmax_f: 5600,
            tmin_f: 300,
        },
    ]
}

#[test]
fn parse_daily_empty_ok() {
    let resp = ForecastResp {
        daily: Some(DailyTemps {
            time: vec![],
            temperature_2m_max: vec![],
            temperature_2m_min: vec![],
        }),
    };
    let out = parse_daily(resp).unwrap();
    assert!(out.is_empty());
}

#[test]
fn parse_daily_mismatched_lengths_errs() {
    let resp = ForecastResp {
        daily: Some(DailyTemps {
            time: vec![b("2025-01-01"), b("2025-01-02")],
            temperature_2m_max: vec![1000],
            temperature_2m_min: vec![100, 200],
        }),
    };
    let err = parse_daily(resp).unwrap_err();
    let msg = String::from_utf8(err.message()).unwrap();
    assert!(msg.contains("mismatched lengths"));
}

#[test]
fn summarize_formats() {
    let data = sample_days();
    let s: Summary = summarize(&data);
    assert_eq!(s.max, b("56°F"));
    assert_eq!(s.min, b("3°F"));
    assert!(String::from_utf8(s.note).unwrap().contains("2 days"));
}

#[test]
fn render_table_outputs_rows() {
    let data = sample_days();
    let table = String::from_utf8(render_table(&data)).unwrap();
    assert!(table.contains("| 2025-01-01 | 52 | 32 |"));
    assert!(table.contains("| 2025-01-02 | 56 | 3 |"));
}

#[test]
fn summarize_empty_is_not_available() {
    let s = summarize(&vec![]);
    assert_eq!(s.max, b("n/a"));
    assert_eq!(s.min, b("n/a"));
    assert_eq!(s.note, b("_No data returned_"));
}

#[test]
fn summarize_note_reports_both_ranges() {
    let data = sample_days();
    let s = summarize(&data);
    let note = String::from_utf8(s.note).unwrap();
    assert_eq!(note, "_2 days • High range 52° → 56° • Low range 3° → 32°_");
}

#[test]
fn render_table_empty_is_placeholder() {
    assert_eq!(render_table(&vec![]), b("_(no rows)_"));
}

#[test]
fn render_table_full_output() {
    let data = sample_days();
    let table = String::from_utf8(render_table(&data)).unwrap();
    let expected = "| Date | High (°F) | Low (°F) | High (°C) | Low (°C) |\n\
                    |---|---:|---:|---:|---:|\n\
                    | 2025-01-01 | 52 | 32 | 10 | 0 |\n\
                    | 2025-01-02 | 56 | 3 | 12 | 1 |\n";
    assert_eq!(table, expected);
}

#[test]
fn celsius_converts_exactly() {
    assert_eq!(celsius_to_fahrenheit(0), 3200);
    assert_eq!(celsius_to_fahrenheit(10000), 21200);
    assert_eq!(celsius_to_fahrenheit(-4000), -4000);
}

#[test]
fn parse_daily_computes_fahrenheit() {
    let resp = ForecastResp {
        daily: Some(DailyTemps {
            time: vec![b("2025-03-05")],
            temperature_2m_max: vec![2500],
            temperature_2m_min: vec![-500],
        }),
    };
    let out = parse_daily(resp).unwrap();
    assert_eq!(out.len(), 1);
    assert_eq!(out[0].date, d("2025-03-05"));
    assert_eq!(out[0].tmax_f, 7700);
    assert_eq!(out[0].tmin_f, 2300);
}

#[test]
fn parse_daily_missing_daily_is_decode_error() {
    let resp = ForecastResp { daily: None };
    let err = parse_daily(resp).unwrap_err();
    let msg = String::from_utf8(err.message()).unwrap();
    assert!(msg.contains("no daily data"));
}

#[test]
fn parse_daily_bad_date_is_decode_error() {
    let resp = ForecastResp {
        daily: Some(DailyTemps {
            time: vec![b("2025-01-01"), b("2025-13-40")],
            temperature_2m_max: vec![100, 200],
            temperature_2m_min: vec![0, 0],
        }),
    };
    let err = parse_daily(resp).unwrap_err();
    let msg = String::from_utf8(err.message()).unwrap();
    assert!(msg.contains("2025-13-40"));
}

#[test]
fn mismatched_lengths_names_all_three() {
    let resp = ForecastResp {
        daily: Some(DailyTemps {
            time: vec![b("2025-01-01"), b("2025-01-02")],
            temperature_2m_max: vec![1000],
            temperature_2m_min: vec![100, 200],
        }),
    };
    let err = parse_daily(resp).unwrap_err();
    let msg = String::from_utf8(err.message()).unwrap();
    assert_eq!(msg, "daily arrays have mismatched lengths: time=2, tmax=1, tmin=2");
}
