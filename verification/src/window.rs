//! The window selector: normalizes the trip range, compares it with the
//! provider's sixteen-day forecast horizon, and either clamps to a live
//! forecast window or shifts one year back for the historical proxy.

use vstd::prelude::*;
use crate::date::{
    Date, date_add_days, date_fmt, date_le, date_le_exec, date_plus_days, date_valid,
    format_date, shift_year_back, shift_year_back_spec,
};
use crate::err::WxError;
use crate::bytes::{marker_free, push_all};

verus! {

/// Whether a window queries the live forecast or last year's archive.
#[derive(PartialEq, Eq, Structural, Clone, Copy, Debug)]
pub enum WindowMode {
    Forecast,
    HistoricalProxy,
}

/// The date range to request, with its presentation label.
#[derive(Debug, Clone, PartialEq, Eq)]
pub struct QueryWindow {
    pub mode: WindowMode,
    pub start: Date,
    pub end: Date,
    pub label: Vec<u8>,
}

/// Bytes of 'Forecast '.
pub open spec fn lit_label_forecast_s() -> Seq<u8> {
    seq![70u8, 111, 114, 101, 99, 97, 115, 116, 32]
}

pub fn lit_label_forecast_b() -> (r: Vec<u8>)
    ensures
        r@ == lit_label_forecast_s(),
{
    let r: Vec<u8> = vec![70u8, 111, 114, 101, 99, 97, 115, 116, 32];
    proof {
        assert(r@ =~= lit_label_forecast_s());
    }
    r
}

pub proof fn lit_label_forecast_mf()
    ensures
        crate::bytes::marker_free(lit_label_forecast_s()),
{
    assert forall|i: int| 0 <= i < lit_label_forecast_s().len() implies lit_label_forecast_s()[i] != 60 && lit_label_forecast_s()[i]
        != 35 by {}
}
/// Bytes of 'Historic (proxy) '.
pub open spec fn lit_label_historic_s() -> Seq<u8> {
    seq![72u8, 105, 115, 116, 111, 114, 105, 99, 32, 40, 112, 114, 111, 120, 121, 41, 32]
}

pub fn lit_label_historic_b() -> (r: Vec<u8>)
    ensures
        r@ == lit_label_historic_s(),
{
    let r: Vec<u8> = vec![72u8, 105, 115, 116, 111, 114, 105, 99, 32, 40, 112, 114, 111, 120, 121, 41, 32];
    proof {
        assert(r@ =~= lit_label_historic_s());
    }
    r
}

pub proof fn lit_label_historic_mf()
    ensures
        crate::bytes::marker_free(lit_label_historic_s()),
{
    assert forall|i: int| 0 <= i < lit_label_historic_s().len() implies lit_label_historic_s()[i] != 60 && lit_label_historic_s()[i]
        != 35 by {}
}
/// Bytes of ' → '.
pub open spec fn lit_label_arrow_s() -> Seq<u8> {
    seq![32u8, 226, 134, 146, 32]
}

pub fn lit_label_arrow_b() -> (r: Vec<u8>)
    ensures
        r@ == lit_label_arrow_s(),
{
    let r: Vec<u8> = vec![32u8, 226, 134, 146, 32];
    proof {
        assert(r@ =~= lit_label_arrow_s());
    }
    r
}

pub proof fn lit_label_arrow_mf()
    ensures
        crate::bytes::marker_free(lit_label_arrow_s()),
{
    assert forall|i: int| 0 <= i < lit_label_arrow_s().len() implies lit_label_arrow_s()[i] != 60 && lit_label_arrow_s()[i]
        != 35 by {}
}

/// The presentation label of a window.
pub open spec fn label_spec(mode: WindowMode, s: Date, e: Date) -> Seq<u8> {
    (if mode is Forecast {
        lit_label_forecast_s()
    } else {
        lit_label_historic_s()
    }) + date_fmt(s) + lit_label_arrow_s() + date_fmt(e)
}

/// The earlier of the two trip dates.
pub open spec fn window_start(arrival: Date, departure: Date) -> Date {
    if date_le(arrival, departure) {
        arrival
    } else {
        departure
    }
}

/// The later of the two trip dates.
pub open spec fn window_end(arrival: Date, departure: Date) -> Date {
    if date_le(arrival, departure) {
        departure
    } else {
        arrival
    }
}

/// A window label never holds a heading or marker byte.
pub proof fn lemma_label_marker_free(mode: WindowMode, s: Date, e: Date)
    requires
        date_valid(s),
        date_valid(e),
    ensures
        marker_free(label_spec(mode, s, e)),
{
    lit_label_forecast_mf();
    lit_label_historic_mf();
    lit_label_arrow_mf();
    crate::date::lemma_date_fmt_bytes(s);
    crate::date::lemma_date_fmt_bytes(e);
    assert(marker_free(date_fmt(s)));
    assert(marker_free(date_fmt(e)));
    let head = if mode is Forecast {
        lit_label_forecast_s()
    } else {
        lit_label_historic_s()
    };
    crate::bytes::lemma_marker_free_concat(head, date_fmt(s));
    crate::bytes::lemma_marker_free_concat(head + date_fmt(s), lit_label_arrow_s());
    crate::bytes::lemma_marker_free_concat(head + date_fmt(s) + lit_label_arrow_s(), date_fmt(e));
}

/// Render the label of a selected window.
fn build_label(forecast: bool, s: &Date, e: &Date) -> (r: Vec<u8>)
    requires
        date_valid(*s),
        date_valid(*e),
    ensures
        forecast ==> r@ == label_spec(WindowMode::Forecast, *s, *e),
        !forecast ==> r@ == label_spec(WindowMode::HistoricalProxy, *s, *e),
{
    let mut r = if forecast {
        lit_label_forecast_b()
    } else {
        lit_label_historic_b()
    };
    let ds = format_date(s);
    push_all(&mut r, &ds);
    let ar = lit_label_arrow_b();
    push_all(&mut r, &ar);
    let de = format_date(e);
    push_all(&mut r, &de);
    r
}

/// Select the query window for a trip.
///
/// The trip range is normalized so `start <= end`. If `start` lies within
/// sixteen days of `today`, the window is the live forecast clamped to
/// `[today, today + 16]`; otherwise both ends shift back exactly one
/// calendar year, failing with `InvalidProxyDate` when a shifted day does
/// not exist.
pub fn select_window(arrival: &Date, departure: &Date, today: &Date) -> (r: Result<
    QueryWindow,
    WxError,
>)
    requires
        date_valid(*arrival),
        date_valid(*departure),
        date_valid(*today),
        today.year < 9999,
    ensures
        ({
            let start = window_start(*arrival, *departure);
            let end = window_end(*arrival, *departure);
            let hz = date_plus_days(*today, 16);
            if date_le(start, hz) {
                let s = if date_le(start, *today) {
                    *today
                } else {
                    start
                };
                let e = if date_le(end, hz) {
                    end
                } else {
                    hz
                };
                r matches Ok(w) && w.mode == WindowMode::Forecast && w.start == s && w.end
                    == e && w.label@ == label_spec(WindowMode::Forecast, s, e)
            } else {
                match shift_year_back_spec(start) {
                    None => r == Result::<QueryWindow, WxError>::Err(
                        WxError::InvalidProxyDate,
                    ),
                    Some(s) => match shift_year_back_spec(end) {
                        None => r == Result::<QueryWindow, WxError>::Err(
                            WxError::InvalidProxyDate,
                        ),
                        Some(e) => r matches Ok(w) && w.mode == WindowMode::HistoricalProxy
                            && w.start == s && w.end == e && w.label@ == label_spec(
                            WindowMode::HistoricalProxy,
                            s,
                            e,
                        ),
                    },
                }
            }
        }),
        r matches Ok(w) ==> date_valid(w.start) && date_valid(w.end) && marker_free(w.label@),
{
    let start: Date = if date_le_exec(arrival, departure) {
        *arrival
    } else {
        *departure
    };
    let end: Date = if date_le_exec(arrival, departure) {
        *departure
    } else {
        *arrival
    };
    let hz = date_add_days(today, 16);
    if date_le_exec(&start, &hz) {
        let s = if date_le_exec(&start, today) {
            *today
        } else {
            start
        };
        let e = if date_le_exec(&end, &hz) {
            end
        } else {
            hz
        };
        let label = build_label(true, &s, &e);
        proof {
            lemma_label_marker_free(WindowMode::Forecast, s, e);
        }
        Ok(QueryWindow { mode: WindowMode::Forecast, start: s, end: e, label })
    } else {
        let s = match shift_year_back(&start) {
            Some(s) => s,
            None => {
                return Err(WxError::InvalidProxyDate);
            },
        };
        let e = match shift_year_back(&end) {
            Some(e) => e,
            None => {
                return Err(WxError::InvalidProxyDate);
            },
        };
        let label = build_label(false, &s, &e);
        proof {
            lemma_label_marker_free(WindowMode::HistoricalProxy, s, e);
        }
        Ok(QueryWindow { mode: WindowMode::HistoricalProxy, start: s, end: e, label })
    }
}

} // verus!
