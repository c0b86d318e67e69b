//! Provider URL construction: the configurable service bases, the exact
//! percent-encoding of query values, and the three request URLs.

use vstd::prelude::*;
use crate::date::{Date, date_fmt, date_valid, format_date};
use crate::bytes::push_all;

verus! {

/// The three service base URLs, constructed once at startup.
#[derive(Debug, Clone, PartialEq, Eq)]
pub struct Config {
    pub geocode_base: Vec<u8>,
    pub forecast_base: Vec<u8>,
    pub archive_base: Vec<u8>,
}

/// Bytes of 'https://geocoding-api.open-meteo.com/v1'.
pub open spec fn lit_geocode_base_s() -> Seq<u8> {
    seq![104u8, 116, 116, 112, 115, 58, 47, 47, 103, 101, 111, 99, 111, 100, 105, 110, 103, 45, 97, 112, 105, 46, 111, 112, 101, 110, 45, 109, 101, 116, 101, 111, 46, 99, 111, 109, 47, 118, 49]
}

pub fn lit_geocode_base_b() -> (r: Vec<u8>)
    ensures
        r@ == lit_geocode_base_s(),
{
    let r: Vec<u8> = vec![104u8, 116, 116, 112, 115, 58, 47, 47, 103, 101, 111, 99, 111, 100, 105, 110, 103, 45, 97, 112, 105, 46, 111, 112, 101, 110, 45, 109, 101, 116, 101, 111, 46, 99, 111, 109, 47, 118, 49];
    proof {
        assert(r@ =~= lit_geocode_base_s());
    }
    r
}
/// Bytes of 'https://api.open-meteo.com/v1'.
pub open spec fn lit_forecast_base_s() -> Seq<u8> {
    seq![104u8, 116, 116, 112, 115, 58, 47, 47, 97, 112, 105, 46, 111, 112, 101, 110, 45, 109, 101, 116, 101, 111, 46, 99, 111, 109, 47, 118, 49]
}

pub fn lit_forecast_base_b() -> (r: Vec<u8>)
    ensures
        r@ == lit_forecast_base_s(),
{
    let r: Vec<u8> = vec![104u8, 116, 116, 112, 115, 58, 47, 47, 97, 112, 105, 46, 111, 112, 101, 110, 45, 109, 101, 116, 101, 111, 46, 99, 111, 109, 47, 118, 49];
    proof {
        assert(r@ =~= lit_forecast_base_s());
    }
    r
}
/// Bytes of 'https://archive-api.open-meteo.com/v1'.
pub open spec fn lit_archive_base_s() -> Seq<u8> {
    seq![104u8, 116, 116, 112, 115, 58, 47, 47, 97, 114, 99, 104, 105, 118, 101, 45, 97, 112, 105, 46, 111, 112, 101, 110, 45, 109, 101, 116, 101, 111, 46, 99, 111, 109, 47, 118, 49]
}

pub fn lit_archive_base_b() -> (r: Vec<u8>)
    ensures
        r@ == lit_archive_base_s(),
{
    let r: Vec<u8> = vec![104u8, 116, 116, 112, 115, 58, 47, 47, 97, 114, 99, 104, 105, 118, 101, 45, 97, 112, 105, 46, 111, 112, 101, 110, 45, 109, 101, 116, 101, 111, 46, 99, 111, 109, 47, 118, 49];
    proof {
        assert(r@ =~= lit_archive_base_s());
    }
    r
}
/// Bytes of '/search?name='.
pub open spec fn lit_search_path_s() -> Seq<u8> {
    seq![47u8, 115, 101, 97, 114, 99, 104, 63, 110, 97, 109, 101, 61]
}

pub fn lit_search_path_b() -> (r: Vec<u8>)
    ensures
        r@ == lit_search_path_s(),
{
    let r: Vec<u8> = vec![47u8, 115, 101, 97, 114, 99, 104, 63, 110, 97, 109, 101, 61];
    proof {
        assert(r@ =~= lit_search_path_s());
    }
    r
}
/// Bytes of '&country=IT&count=1'.
pub open spec fn lit_country_tail_s() -> Seq<u8> {
    seq![38u8, 99, 111, 117, 110, 116, 114, 121, 61, 73, 84, 38, 99, 111, 117, 110, 116, 61, 49]
}

pub fn lit_country_tail_b() -> (r: Vec<u8>)
    ensures
        r@ == lit_country_tail_s(),
{
    let r: Vec<u8> = vec![38u8, 99, 111, 117, 110, 116, 114, 121, 61, 73, 84, 38, 99, 111, 117, 110, 116, 61, 49];
    proof {
        assert(r@ =~= lit_country_tail_s());
    }
    r
}
/// Bytes of '/forecast?latitude='.
pub open spec fn lit_forecast_path_s() -> Seq<u8> {
    seq![47u8, 102, 111, 114, 101, 99, 97, 115, 116, 63, 108, 97, 116, 105, 116, 117, 100, 101, 61]
}

pub fn lit_forecast_path_b() -> (r: Vec<u8>)
    ensures
        r@ == lit_forecast_path_s(),
{
    let r: Vec<u8> = vec![47u8, 102, 111, 114, 101, 99, 97, 115, 116, 63, 108, 97, 116, 105, 116, 117, 100, 101, 61];
    proof {
        assert(r@ =~= lit_forecast_path_s());
    }
    r
}
/// Bytes of '/era5?latitude='.
pub open spec fn lit_era5_path_s() -> Seq<u8> {
    seq![47u8, 101, 114, 97, 53, 63, 108, 97, 116, 105, 116, 117, 100, 101, 61]
}

pub fn lit_era5_path_b() -> (r: Vec<u8>)
    ensures
        r@ == lit_era5_path_s(),
{
    let r: Vec<u8> = vec![47u8, 101, 114, 97, 53, 63, 108, 97, 116, 105, 116, 117, 100, 101, 61];
    proof {
        assert(r@ =~= lit_era5_path_s());
    }
    r
}
/// Bytes of '&longitude='.
pub open spec fn lit_lon_param_s() -> Seq<u8> {
    seq![38u8, 108, 111, 110, 103, 105, 116, 117, 100, 101, 61]
}

pub fn lit_lon_param_b() -> (r: Vec<u8>)
    ensures
        r@ == lit_lon_param_s(),
{
    let r: Vec<u8> = vec![38u8, 108, 111, 110, 103, 105, 116, 117, 100, 101, 61];
    proof {
        assert(r@ =~= lit_lon_param_s());
    }
    r
}
/// Bytes of '&daily=temperature_2m_max,temperature_2m_min&start_date='.
pub open spec fn lit_daily_param_s() -> Seq<u8> {
    seq![38u8, 100, 97, 105, 108, 121, 61, 116, 101, 109, 112, 101, 114, 97, 116, 117, 114, 101, 95, 50, 109, 95, 109, 97, 120, 44, 116, 101, 109, 112, 101, 114, 97, 116, 117, 114, 101, 95, 50, 109, 95, 109, 105, 110, 38, 115, 116, 97, 114, 116, 95, 100, 97, 116, 101, 61]
}

pub fn lit_daily_param_b() -> (r: Vec<u8>)
    ensures
        r@ == lit_daily_param_s(),
{
    let r: Vec<u8> = vec![38u8, 100, 97, 105, 108, 121, 61, 116, 101, 109, 112, 101, 114, 97, 116, 117, 114, 101, 95, 50, 109, 95, 109, 97, 120, 44, 116, 101, 109, 112, 101, 114, 97, 116, 117, 114, 101, 95, 50, 109, 95, 109, 105, 110, 38, 115, 116, 97, 114, 116, 95, 100, 97, 116, 101, 61];
    proof {
        assert(r@ =~= lit_daily_param_s());
    }
    r
}
/// Bytes of '&end_date='.
pub open spec fn lit_end_param_s() -> Seq<u8> {
    seq![38u8, 101, 110, 100, 95, 100, 97, 116, 101, 61]
}

pub fn lit_end_param_b() -> (r: Vec<u8>)
    ensures
        r@ == lit_end_param_s(),
{
    let r: Vec<u8> = vec![38u8, 101, 110, 100, 95, 100, 97, 116, 101, 61];
    proof {
        assert(r@ =~= lit_end_param_s());
    }
    r
}
/// Bytes of '&timezone='.
pub open spec fn lit_tz_param_s() -> Seq<u8> {
    seq![38u8, 116, 105, 109, 101, 122, 111, 110, 101, 61]
}

pub fn lit_tz_param_b() -> (r: Vec<u8>)
    ensures
        r@ == lit_tz_param_s(),
{
    let r: Vec<u8> = vec![38u8, 116, 105, 109, 101, 122, 111, 110, 101, 61];
    proof {
        assert(r@ =~= lit_tz_param_s());
    }
    r
}
/// Bytes of 'Europe/Rome'.
pub open spec fn lit_rome_s() -> Seq<u8> {
    seq![69u8, 117, 114, 111, 112, 101, 47, 82, 111, 109, 101]
}

pub fn lit_rome_b() -> (r: Vec<u8>)
    ensures
        r@ == lit_rome_s(),
{
    let r: Vec<u8> = vec![69u8, 117, 114, 111, 112, 101, 47, 82, 111, 109, 101];
    proof {
        assert(r@ =~= lit_rome_s());
    }
    r
}

impl Config {
    /// The default service bases.
    pub fn default_config() -> (r: Config)
        ensures
            r.geocode_base@ == lit_geocode_base_s(),
            r.forecast_base@ == lit_forecast_base_s(),
            r.archive_base@ == lit_archive_base_s(),
    {
        Config {
            geocode_base: lit_geocode_base_b(),
            forecast_base: lit_forecast_base_b(),
            archive_base: lit_archive_base_b(),
        }
    }
}

/// A byte the encoding keeps as it is: an ASCII alphanumeric or `-`, `_`,
/// `.`, `~`.
pub open spec fn pct_keep(b: u8) -> bool {
    (48 <= b <= 57) || (65 <= b <= 90) || (97 <= b <= 122) || b == 45 || b == 46 || b == 95
        || b == 126
}

/// The upper-case hexadecimal digit of `n < 16`.
pub open spec fn hex_upper(n: u8) -> u8 {
    if n < 10 {
        (48 + n) as u8
    } else {
        (55 + n) as u8
    }
}

/// Percent-encoding: kept bytes stand as themselves, every other byte
/// becomes `%` and two upper-case hex digits.
pub open spec fn pct_encode(s: Seq<u8>) -> Seq<u8>
    decreases s.len(),
{
    if s.len() == 0 {
        Seq::empty()
    } else {
        (if pct_keep(s[0]) {
            seq![s[0]]
        } else {
            seq![37u8, hex_upper(s[0] / 16), hex_upper(s[0] % 16)]
        }) + pct_encode(s.skip(1))
    }
}

/// Relies on `urlencoding::encode_binary`: percent-encodes every byte except
/// ASCII alphanumerics and `-`, `_`, `.`, `~`, using upper-case hex digits.
#[verifier::external_body]
fn percent_encode(s: &Vec<u8>) -> (r: Vec<u8>)
    ensures
        r@ == pct_encode(s@),
{
    urlencoding::encode_binary(s.as_slice()).into_owned().into_bytes()
}

/// The geocoding lookup URL for a place name.
pub open spec fn geocode_url_spec(base: Seq<u8>, place: Seq<u8>) -> Seq<u8> {
    base + lit_search_path_s() + pct_encode(place) + lit_country_tail_s()
}

/// Build the geocoding URL: the top match for the place, constrained to the
/// fixed country filter.
pub fn build_geocode_url(cfg: &Config, place: &Vec<u8>) -> (r: Vec<u8>)
    ensures
        r@ == geocode_url_spec(cfg.geocode_base@, place@),
{
    let mut r = crate::bytes::slice_range(&cfg.geocode_base, 0, cfg.geocode_base.len());
    proof {
        assert(r@ =~= cfg.geocode_base@);
    }
    let p1 = lit_search_path_b();
    push_all(&mut r, &p1);
    let enc = percent_encode(place);
    push_all(&mut r, &enc);
    let p2 = lit_country_tail_b();
    push_all(&mut r, &p2);
    r
}

/// The timezone actually sent: the fixed fallback when the given one is
/// empty.
pub open spec fn effective_tz(tz: Seq<u8>) -> Seq<u8> {
    if tz.len() == 0 {
        lit_rome_s()
    } else {
        tz
    }
}

/// The daily-series URL over a base and path prefix.
pub open spec fn series_url_spec(
    base: Seq<u8>,
    path: Seq<u8>,
    lat: Seq<u8>,
    lon: Seq<u8>,
    start: Date,
    end: Date,
    tz: Seq<u8>,
) -> Seq<u8> {
    base + path + lat + lit_lon_param_s() + lon + lit_daily_param_s() + date_fmt(start)
        + lit_end_param_s() + date_fmt(end) + lit_tz_param_s() + pct_encode(effective_tz(tz))
}

fn build_series_url(
    base: &Vec<u8>,
    forecast: bool,
    lat: &Vec<u8>,
    lon: &Vec<u8>,
    start: &Date,
    end: &Date,
    tz: &Vec<u8>,
) -> (r: Vec<u8>)
    requires
        date_valid(*start),
        date_valid(*end),
    ensures
        forecast ==> r@ == series_url_spec(
            base@,
            lit_forecast_path_s(),
            lat@,
            lon@,
            *start,
            *end,
            tz@,
        ),
        !forecast ==> r@ == series_url_spec(
            base@,
            lit_era5_path_s(),
            lat@,
            lon@,
            *start,
            *end,
            tz@,
        ),
{
    let mut r = crate::bytes::slice_range(base, 0, base.len());
    proof {
        assert(r@ =~= base@);
    }
    let p = if forecast {
        lit_forecast_path_b()
    } else {
        lit_era5_path_b()
    };
    push_all(&mut r, &p);
    push_all(&mut r, lat);
    let lp = lit_lon_param_b();
    push_all(&mut r, &lp);
    push_all(&mut r, lon);
    let dp = lit_daily_param_b();
    push_all(&mut r, &dp);
    let sd = format_date(start);
    push_all(&mut r, &sd);
    let ep = lit_end_param_b();
    push_all(&mut r, &ep);
    let ed = format_date(end);
    push_all(&mut r, &ed);
    let tp = lit_tz_param_b();
    push_all(&mut r, &tp);
    let tzv = if tz.len() == 0 {
        lit_rome_b()
    } else {
        crate::bytes::slice_range(tz, 0, tz.len())
    };
    proof {
        assert(tzv@ =~= effective_tz(tz@));
    }
    let enc = percent_encode(&tzv);
    push_all(&mut r, &enc);
    r
}

/// Build the live-forecast URL for a coordinate pair and date range.
pub fn build_forecast_url(
    cfg: &Config,
    lat: &Vec<u8>,
    lon: &Vec<u8>,
    start: &Date,
    end: &Date,
    tz: &Vec<u8>,
) -> (r: Vec<u8>)
    requires
        date_valid(*start),
        date_valid(*end),
    ensures
        r@ == series_url_spec(
            cfg.forecast_base@,
            lit_forecast_path_s(),
            lat@,
            lon@,
            *start,
            *end,
            tz@,
        ),
{
    build_series_url(&cfg.forecast_base, true, lat, lon, start, end, tz)
}

/// Build the historical-archive URL for a coordinate pair and date range.
pub fn build_archive_url(
    cfg: &Config,
    lat: &Vec<u8>,
    lon: &Vec<u8>,
    start: &Date,
    end: &Date,
    tz: &Vec<u8>,
) -> (r: Vec<u8>)
    requires
        date_valid(*start),
        date_valid(*end),
    ensures
        r@ == series_url_spec(
            cfg.archive_base@,
            lit_era5_path_s(),
            lat@,
            lon@,
            *start,
            *end,
            tz@,
        ),
{
    build_series_url(&cfg.archive_base, false, lat, lon, start, end, tz)
}

} // verus!
