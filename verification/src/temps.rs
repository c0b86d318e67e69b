//! Temperatures in integer hundredths of a degree: Celsius-to-Fahrenheit
//! conversion, rounding to whole degrees, and decoding of the provider's
//! parallel daily arrays.

use vstd::prelude::*;
use crate::date::{Date, parse_date, parse_date_spec};
use crate::err::WxError;

verus! {

/// Temperatures a day's record may carry, in hundredths of a degree.
/// Generous physical bound that keeps every conversion within `i64`.
pub open spec fn temp_in_range(t: int) -> bool {
    -10_000_000 <= t <= 10_000_000
}

/// Nearest-integer division of `n` by 5 (exact halves cannot arise).
pub open spec fn rdiv5(n: int) -> int {
    if n >= 0 {
        (n + 2) / 5
    } else {
        -((-n + 2) / 5)
    }
}

/// Fahrenheit hundredths from Celsius hundredths: `F = C * 9/5 + 32`,
/// rounded to the nearest hundredth.
pub open spec fn c_to_f(c: int) -> int {
    rdiv5(9 * c) + 3200
}

/// Hundredths rounded to whole degrees, ties away from zero.
pub open spec fn round_deg(h: int) -> int {
    if h >= 0 {
        (h + 50) / 100
    } else {
        -((-h + 50) / 100)
    }
}

/// Convert Celsius hundredths to Fahrenheit hundredths.
pub fn celsius_to_fahrenheit(c: i64) -> (r: i64)
    requires
        temp_in_range(c as int),
    ensures
        r == c_to_f(c as int),
        -20_000_000 <= r <= 20_000_000,
{
    let n: i64 = 9 * c;
    if n >= 0 {
        (n + 2) / 5 + 3200
    } else {
        -((-n + 2) / 5) + 3200
    }
}

/// Round hundredths of a degree to whole degrees.
pub fn round_to_degrees(h: i64) -> (r: i64)
    requires
        -1_000_000_000 <= h <= 1_000_000_000,
    ensures
        r == round_deg(h as int),
        -10_000_001 <= r <= 10_000_001,
{
    if h >= 0 {
        (h + 50) / 100
    } else {
        -((-h + 50) / 100)
    }
}

/// One calendar day of temperatures; Celsius and Fahrenheit values are in
/// hundredths of a degree.
#[derive(PartialEq, Eq, Structural, Clone, Copy, Debug)]
pub struct DayTemp {
    pub date: Date,
    pub tmax: i64,
    pub tmin: i64,
    pub tmax_f: i64,
    pub tmin_f: i64,
}

/// The provider's `daily` object: parallel arrays of dates (as `YYYY-MM-DD`
/// bytes) and of Celsius extremes in hundredths of a degree.
#[derive(Debug)]
pub struct DailyTemps {
    pub time: Vec<Vec<u8>>,
    pub temperature_2m_max: Vec<i64>,
    pub temperature_2m_min: Vec<i64>,
}

/// A decoded provider response; `daily` is absent when the body lacked it.
#[derive(Debug)]
pub struct ForecastResp {
    pub daily: Option<DailyTemps>,
}

/// The record index `i` must decode to.
pub open spec fn day_at(times: Seq<Seq<u8>>, highs: Seq<i64>, lows: Seq<i64>, i: int) -> DayTemp {
    DayTemp {
        date: parse_date_spec(times[i])->Some_0,
        tmax: highs[i],
        tmin: lows[i],
        tmax_f: c_to_f(highs[i] as int) as i64,
        tmin_f: c_to_f(lows[i] as int) as i64,
    }
}

/// First index whose date bytes do not parse, or the length if all parse.
pub open spec fn first_bad_date(times: Seq<Seq<u8>>, i: int) -> int
    decreases times.len() - i,
{
    if i < 0 || i >= times.len() {
        times.len() as int
    } else if parse_date_spec(times[i]) is None {
        i
    } else {
        first_bad_date(times, i + 1)
    }
}

pub proof fn lemma_first_bad_date(times: Seq<Seq<u8>>, i: int)
    requires
        0 <= i <= times.len(),
    ensures
        i <= first_bad_date(times, i) <= times.len(),
        forall|k: int|
            i <= k < first_bad_date(times, i) ==> parse_date_spec(times[k]) is Some,
        first_bad_date(times, i) < times.len() ==> parse_date_spec(
            times[first_bad_date(times, i)],
        ) is None,
    decreases times.len() - i,
{
    if i < times.len() && parse_date_spec(times[i]) is Some {
        lemma_first_bad_date(times, i + 1);
    }
}

/// Decode the provider's parallel daily arrays into day records.
///
/// All three arrays must have one length; a missing `daily` object or an
/// unparsable date is a decode failure, and unequal lengths are reported
/// with all three lengths. Empty arrays are data, not an error.
pub fn parse_daily(api: ForecastResp) -> (r: Result<Vec<DayTemp>, WxError>)
    requires
        api.daily is Some ==> forall|i: int|
            0 <= i < api.daily->Some_0.temperature_2m_max@.len() ==> temp_in_range(
                #[trigger] api.daily->Some_0.temperature_2m_max@[i] as int,
            ),
        api.daily is Some ==> forall|i: int|
            0 <= i < api.daily->Some_0.temperature_2m_min@.len() ==> temp_in_range(
                #[trigger] api.daily->Some_0.temperature_2m_min@[i] as int,
            ),
    ensures
        api.daily is None ==> (r matches Err(WxError::DecodeError(c)) && c@
            == crate::err::lit_no_daily_s()),
        api.daily matches Some(d) ==> {
            let times = d.time.deep_view();
            let highs = d.temperature_2m_max@;
            let lows = d.temperature_2m_min@;
            if times.len() != highs.len() || times.len() != lows.len() {
                r matches Err(e) && e == (WxError::MismatchedLengths {
                    time: times.len() as usize,
                    high: highs.len() as usize,
                    low: lows.len() as usize,
                })
            } else if first_bad_date(times, 0) < times.len() {
                r matches Err(WxError::DecodeError(c)) && c@ == times[
                    first_bad_date(times, 0)
                ]
            } else {
                r is Ok && r->Ok_0@.len() == times.len() && (forall|i: int|
                    0 <= i < times.len() ==> #[trigger] r->Ok_0@[i] == day_at(
                        times,
                        highs,
                        lows,
                        i,
                    ))
            }
        },
{
    let d = match api.daily {
        Some(d) => d,
        None => {
            return Err(WxError::DecodeError(crate::err::lit_no_daily_b()));
        },
    };
    let n_time = d.time.len();
    let n_max = d.temperature_2m_max.len();
    let n_min = d.temperature_2m_min.len();
    if n_time != n_max || n_time != n_min {
        proof {
            assert(d.time.deep_view().len() == d.time@.len());
        }
        return Err(WxError::MismatchedLengths { time: n_time, high: n_max, low: n_min });
    }
    let ghost times = d.time.deep_view();
    let mut out: Vec<DayTemp> = Vec::new();
    let mut i: usize = 0;
    proof {
        assert(times.len() == n_time);
        lemma_first_bad_date(times, 0);
    }
    while i < n_time
        invariant
            api.daily == Some(d),
            n_time == d.time@.len() == d.temperature_2m_max@.len()
                == d.temperature_2m_min@.len(),
            times == d.time.deep_view(),
            times.len() == n_time,
            forall|k: int|
                0 <= k < n_time ==> temp_in_range(
                    #[trigger] d.temperature_2m_max@[k] as int,
                ),
            forall|k: int|
                0 <= k < n_time ==> temp_in_range(
                    #[trigger] d.temperature_2m_min@[k] as int,
                ),
            0 <= i <= n_time,
            forall|k: int| 0 <= k < i ==> parse_date_spec(times[k]) is Some,
            first_bad_date(times, 0) >= i,
            out@.len() == i,
            forall|k: int|
                0 <= k < i ==> #[trigger] out@[k] == day_at(
                    times,
                    d.temperature_2m_max@,
                    d.temperature_2m_min@,
                    k,
                ),
        decreases n_time - i,
    {
        proof {
            assert(times[i as int] =~= d.time@[i as int]@);
            lemma_first_bad_date(times, 0);
        }
        let date = match parse_date(&d.time[i]) {
            Some(dt) => dt,
            None => {
                proof {
                    lemma_first_bad_date(times, 0);
                    assert(first_bad_date(times, 0) == i);
                }
                let raw = crate::bytes::slice_range(&d.time[i], 0, d.time[i].len());
                proof {
                    assert(raw@ =~= d.time@[i as int]@);
                }
                return Err(WxError::DecodeError(raw));
            },
        };
        let tmax = d.temperature_2m_max[i];
        let tmin = d.temperature_2m_min[i];
        let tmax_f = celsius_to_fahrenheit(tmax);
        let tmin_f = celsius_to_fahrenheit(tmin);
        out.push(DayTemp { date, tmax, tmin, tmax_f, tmin_f });
        proof {
            lemma_first_bad_date(times, 0);
        }
        i = i + 1;
    }
    proof {
        lemma_first_bad_date(times, 0);
        assert(first_bad_date(times, 0) == times.len());
    }
    Ok(out)
}

} // verus!
