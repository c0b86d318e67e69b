//! The aggregator: summary statistics over a day sequence and the rendered
//! Markdown table, both with exact byte-level contracts.

use vstd::prelude::*;
use crate::temps::{DayTemp, round_deg, round_to_degrees};
use crate::numfmt::{dec_i, dec_u, fmt_i64, fmt_u64, lemma_dec_i_digits, lemma_dec_u_digits};
use crate::date::{date_fmt, date_valid, format_date, lemma_date_fmt_bytes};
use crate::bytes::{marker_free, lemma_marker_free_concat, push_all};

verus! {

/// Presentation summary of a day sequence.
#[derive(Debug, Clone, PartialEq, Eq)]
pub struct Summary {
    pub max: Vec<u8>,
    pub min: Vec<u8>,
    pub note: Vec<u8>,
}

/// Bytes of 'n/a'.
pub open spec fn lit_na_s() -> Seq<u8> {
    seq![110u8, 47, 97]
}

pub fn lit_na_b() -> (r: Vec<u8>)
    ensures
        r@ == lit_na_s(),
{
    let r: Vec<u8> = vec![110u8, 47, 97];
    proof {
        assert(r@ =~= lit_na_s());
    }
    r
}

pub proof fn lit_na_mf()
    ensures
        crate::bytes::marker_free(lit_na_s()),
{
    assert forall|i: int| 0 <= i < lit_na_s().len() implies lit_na_s()[i] != 60 && lit_na_s()[i]
        != 35 by {}
}
/// Bytes of '_No data returned_'.
pub open spec fn lit_no_data_s() -> Seq<u8> {
    seq![95u8, 78, 111, 32, 100, 97, 116, 97, 32, 114, 101, 116, 117, 114, 110, 101, 100, 95]
}

pub fn lit_no_data_b() -> (r: Vec<u8>)
    ensures
        r@ == lit_no_data_s(),
{
    let r: Vec<u8> = vec![95u8, 78, 111, 32, 100, 97, 116, 97, 32, 114, 101, 116, 117, 114, 110, 101, 100, 95];
    proof {
        assert(r@ =~= lit_no_data_s());
    }
    r
}

pub proof fn lit_no_data_mf()
    ensures
        crate::bytes::marker_free(lit_no_data_s()),
{
    assert forall|i: int| 0 <= i < lit_no_data_s().len() implies lit_no_data_s()[i] != 60 && lit_no_data_s()[i]
        != 35 by {}
}
/// Bytes of '_(no rows)_'.
pub open spec fn lit_no_rows_s() -> Seq<u8> {
    seq![95u8, 40, 110, 111, 32, 114, 111, 119, 115, 41, 95]
}

pub fn lit_no_rows_b() -> (r: Vec<u8>)
    ensures
        r@ == lit_no_rows_s(),
{
    let r: Vec<u8> = vec![95u8, 40, 110, 111, 32, 114, 111, 119, 115, 41, 95];
    proof {
        assert(r@ =~= lit_no_rows_s());
    }
    r
}

pub proof fn lit_no_rows_mf()
    ensures
        crate::bytes::marker_free(lit_no_rows_s()),
{
    assert forall|i: int| 0 <= i < lit_no_rows_s().len() implies lit_no_rows_s()[i] != 60 && lit_no_rows_s()[i]
        != 35 by {}
}
/// Bytes of '°F'.
pub open spec fn lit_degf_s() -> Seq<u8> {
    seq![194u8, 176, 70]
}

pub fn lit_degf_b() -> (r: Vec<u8>)
    ensures
        r@ == lit_degf_s(),
{
    let r: Vec<u8> = vec![194u8, 176, 70];
    proof {
        assert(r@ =~= lit_degf_s());
    }
    r
}

pub proof fn lit_degf_mf()
    ensures
        crate::bytes::marker_free(lit_degf_s()),
{
    assert forall|i: int| 0 <= i < lit_degf_s().len() implies lit_degf_s()[i] != 60 && lit_degf_s()[i]
        != 35 by {}
}
/// Bytes of '_'.
pub open spec fn lit_open_us_s() -> Seq<u8> {
    seq![95u8]
}

pub fn lit_open_us_b() -> (r: Vec<u8>)
    ensures
        r@ == lit_open_us_s(),
{
    let r: Vec<u8> = vec![95u8];
    proof {
        assert(r@ =~= lit_open_us_s());
    }
    r
}

pub proof fn lit_open_us_mf()
    ensures
        crate::bytes::marker_free(lit_open_us_s()),
{
    assert forall|i: int| 0 <= i < lit_open_us_s().len() implies lit_open_us_s()[i] != 60 && lit_open_us_s()[i]
        != 35 by {}
}
/// Bytes of ' days • High range '.
pub open spec fn lit_days_sep_s() -> Seq<u8> {
    seq![32u8, 100, 97, 121, 115, 32, 226, 128, 162, 32, 72, 105, 103, 104, 32, 114, 97, 110, 103, 101, 32]
}

pub fn lit_days_sep_b() -> (r: Vec<u8>)
    ensures
        r@ == lit_days_sep_s(),
{
    let r: Vec<u8> = vec![32u8, 100, 97, 121, 115, 32, 226, 128, 162, 32, 72, 105, 103, 104, 32, 114, 97, 110, 103, 101, 32];
    proof {
        assert(r@ =~= lit_days_sep_s());
    }
    r
}

pub proof fn lit_days_sep_mf()
    ensures
        crate::bytes::marker_free(lit_days_sep_s()),
{
    assert forall|i: int| 0 <= i < lit_days_sep_s().len() implies lit_days_sep_s()[i] != 60 && lit_days_sep_s()[i]
        != 35 by {}
}
/// Bytes of '° → '.
pub open spec fn lit_deg_arrow_s() -> Seq<u8> {
    seq![194u8, 176, 32, 226, 134, 146, 32]
}

pub fn lit_deg_arrow_b() -> (r: Vec<u8>)
    ensures
        r@ == lit_deg_arrow_s(),
{
    let r: Vec<u8> = vec![194u8, 176, 32, 226, 134, 146, 32];
    proof {
        assert(r@ =~= lit_deg_arrow_s());
    }
    r
}

pub proof fn lit_deg_arrow_mf()
    ensures
        crate::bytes::marker_free(lit_deg_arrow_s()),
{
    assert forall|i: int| 0 <= i < lit_deg_arrow_s().len() implies lit_deg_arrow_s()[i] != 60 && lit_deg_arrow_s()[i]
        != 35 by {}
}
/// Bytes of '° • Low range '.
pub open spec fn lit_low_range_s() -> Seq<u8> {
    seq![194u8, 176, 32, 226, 128, 162, 32, 76, 111, 119, 32, 114, 97, 110, 103, 101, 32]
}

pub fn lit_low_range_b() -> (r: Vec<u8>)
    ensures
        r@ == lit_low_range_s(),
{
    let r: Vec<u8> = vec![194u8, 176, 32, 226, 128, 162, 32, 76, 111, 119, 32, 114, 97, 110, 103, 101, 32];
    proof {
        assert(r@ =~= lit_low_range_s());
    }
    r
}

pub proof fn lit_low_range_mf()
    ensures
        crate::bytes::marker_free(lit_low_range_s()),
{
    assert forall|i: int| 0 <= i < lit_low_range_s().len() implies lit_low_range_s()[i] != 60 && lit_low_range_s()[i]
        != 35 by {}
}
/// Bytes of '°_'.
pub open spec fn lit_deg_close_s() -> Seq<u8> {
    seq![194u8, 176, 95]
}

pub fn lit_deg_close_b() -> (r: Vec<u8>)
    ensures
        r@ == lit_deg_close_s(),
{
    let r: Vec<u8> = vec![194u8, 176, 95];
    proof {
        assert(r@ =~= lit_deg_close_s());
    }
    r
}

pub proof fn lit_deg_close_mf()
    ensures
        crate::bytes::marker_free(lit_deg_close_s()),
{
    assert forall|i: int| 0 <= i < lit_deg_close_s().len() implies lit_deg_close_s()[i] != 60 && lit_deg_close_s()[i]
        != 35 by {}
}
/// Bytes of '| Date | High (°F) | Low (°F) | High (°C) | Low (°C) |\n|---|---:|---:|---:|---:|\n'.
pub open spec fn lit_table_header_s() -> Seq<u8> {
    seq![124u8, 32, 68, 97, 116, 101, 32, 124, 32, 72, 105, 103, 104, 32, 40, 194, 176, 70, 41, 32, 124, 32, 76, 111, 119, 32, 40, 194, 176, 70, 41, 32, 124, 32, 72, 105, 103, 104, 32, 40, 194, 176, 67, 41, 32, 124, 32, 76, 111, 119, 32, 40, 194, 176, 67, 41, 32, 124, 10, 124, 45, 45, 45, 124, 45, 45, 45, 58, 124, 45, 45, 45, 58, 124, 45, 45, 45, 58, 124, 45, 45, 45, 58, 124, 10]
}

pub fn lit_table_header_b() -> (r: Vec<u8>)
    ensures
        r@ == lit_table_header_s(),
{
    let r: Vec<u8> = vec![124u8, 32, 68, 97, 116, 101, 32, 124, 32, 72, 105, 103, 104, 32, 40, 194, 176, 70, 41, 32, 124, 32, 76, 111, 119, 32, 40, 194, 176, 70, 41, 32, 124, 32, 72, 105, 103, 104, 32, 40, 194, 176, 67, 41, 32, 124, 32, 76, 111, 119, 32, 40, 194, 176, 67, 41, 32, 124, 10, 124, 45, 45, 45, 124, 45, 45, 45, 58, 124, 45, 45, 45, 58, 124, 45, 45, 45, 58, 124, 45, 45, 45, 58, 124, 10];
    proof {
        assert(r@ =~= lit_table_header_s());
    }
    r
}

pub proof fn lit_table_header_mf()
    ensures
        crate::bytes::marker_free(lit_table_header_s()),
{
    assert forall|i: int| 0 <= i < lit_table_header_s().len() implies lit_table_header_s()[i] != 60 && lit_table_header_s()[i]
        != 35 by {}
}
/// Bytes of '| '.
pub open spec fn lit_cell_open_s() -> Seq<u8> {
    seq![124u8, 32]
}

pub fn lit_cell_open_b() -> (r: Vec<u8>)
    ensures
        r@ == lit_cell_open_s(),
{
    let r: Vec<u8> = vec![124u8, 32];
    proof {
        assert(r@ =~= lit_cell_open_s());
    }
    r
}

pub proof fn lit_cell_open_mf()
    ensures
        crate::bytes::marker_free(lit_cell_open_s()),
{
    assert forall|i: int| 0 <= i < lit_cell_open_s().len() implies lit_cell_open_s()[i] != 60 && lit_cell_open_s()[i]
        != 35 by {}
}
/// Bytes of ' | '.
pub open spec fn lit_cell_sep_s() -> Seq<u8> {
    seq![32u8, 124, 32]
}

pub fn lit_cell_sep_b() -> (r: Vec<u8>)
    ensures
        r@ == lit_cell_sep_s(),
{
    let r: Vec<u8> = vec![32u8, 124, 32];
    proof {
        assert(r@ =~= lit_cell_sep_s());
    }
    r
}

pub proof fn lit_cell_sep_mf()
    ensures
        crate::bytes::marker_free(lit_cell_sep_s()),
{
    assert forall|i: int| 0 <= i < lit_cell_sep_s().len() implies lit_cell_sep_s()[i] != 60 && lit_cell_sep_s()[i]
        != 35 by {}
}
/// Bytes of ' |\n'.
pub open spec fn lit_row_close_s() -> Seq<u8> {
    seq![32u8, 124, 10]
}

pub fn lit_row_close_b() -> (r: Vec<u8>)
    ensures
        r@ == lit_row_close_s(),
{
    let r: Vec<u8> = vec![32u8, 124, 10];
    proof {
        assert(r@ =~= lit_row_close_s());
    }
    r
}

pub proof fn lit_row_close_mf()
    ensures
        crate::bytes::marker_free(lit_row_close_s()),
{
    assert forall|i: int| 0 <= i < lit_row_close_s().len() implies lit_row_close_s()[i] != 60 && lit_row_close_s()[i]
        != 35 by {}
}

/// Largest Fahrenheit high across a non-empty sequence.
pub open spec fn max_highf(s: Seq<DayTemp>) -> int
    decreases s.len(),
{
    if s.len() <= 1 {
        s[0].tmax_f as int
    } else {
        let m = max_highf(s.drop_last());
        if s.last().tmax_f > m {
            s.last().tmax_f as int
        } else {
            m
        }
    }
}

/// Smallest Fahrenheit high across a non-empty sequence.
pub open spec fn min_highf(s: Seq<DayTemp>) -> int
    decreases s.len(),
{
    if s.len() <= 1 {
        s[0].tmax_f as int
    } else {
        let m = min_highf(s.drop_last());
        if s.last().tmax_f < m {
            s.last().tmax_f as int
        } else {
            m
        }
    }
}

/// Largest Fahrenheit low across a non-empty sequence.
pub open spec fn max_lowf(s: Seq<DayTemp>) -> int
    decreases s.len(),
{
    if s.len() <= 1 {
        s[0].tmin_f as int
    } else {
        let m = max_lowf(s.drop_last());
        if s.last().tmin_f > m {
            s.last().tmin_f as int
        } else {
            m
        }
    }
}

/// Smallest Fahrenheit low across a non-empty sequence.
pub open spec fn min_lowf(s: Seq<DayTemp>) -> int
    decreases s.len(),
{
    if s.len() <= 1 {
        s[0].tmin_f as int
    } else {
        let m = min_lowf(s.drop_last());
        if s.last().tmin_f < m {
            s.last().tmin_f as int
        } else {
            m
        }
    }
}

/// Every temperature of every record is in the renderable range.
pub open spec fn days_bounded(s: Seq<DayTemp>) -> bool {
    forall|i: int|
        0 <= i < s.len() ==> -1_000_000_000 <= #[trigger] s[i].tmax <= 1_000_000_000
            && -1_000_000_000 <= s[i].tmin <= 1_000_000_000 && -1_000_000_000 <= s[i].tmax_f
            <= 1_000_000_000 && -1_000_000_000 <= s[i].tmin_f <= 1_000_000_000
}

/// The descriptive note of a non-empty sequence: day count and the ranges of
/// highs and of lows, rounded to whole degrees.
pub open spec fn note_spec(s: Seq<DayTemp>) -> Seq<u8> {
    lit_open_us_s() + dec_u(s.len() as int) + lit_days_sep_s() + dec_i(round_deg(min_highf(s)))
        + lit_deg_arrow_s() + dec_i(round_deg(max_highf(s))) + lit_low_range_s() + dec_i(
        round_deg(min_lowf(s)),
    ) + lit_deg_arrow_s() + dec_i(round_deg(max_lowf(s))) + lit_deg_close_s()
}

/// The label of a rounded Fahrenheit extreme, `"<N>°F"`.
pub open spec fn deg_label_spec(n: int) -> Seq<u8> {
    dec_i(n) + lit_degf_s()
}

/// The bounds the four extrema inherit from a bounded sequence.
pub proof fn lemma_extrema_bounded(s: Seq<DayTemp>)
    requires
        s.len() > 0,
        days_bounded(s),
    ensures
        -1_000_000_000 <= max_highf(s) <= 1_000_000_000,
        -1_000_000_000 <= min_highf(s) <= 1_000_000_000,
        -1_000_000_000 <= max_lowf(s) <= 1_000_000_000,
        -1_000_000_000 <= min_lowf(s) <= 1_000_000_000,
    decreases s.len(),
{
    assert(-1_000_000_000 <= s[0].tmax <= 1_000_000_000);
    assert(-1_000_000_000 <= s[s.len() - 1].tmax <= 1_000_000_000);
    if s.len() > 1 {
        assert(days_bounded(s.drop_last())) by {
            assert(forall|i: int|
                0 <= i < s.len() - 1 ==> s.drop_last()[i] == s[i]);
        }
        lemma_extrema_bounded(s.drop_last());
    }
}

/// Render the label of one rounded extreme.
pub fn deg_label(h: i64) -> (r: Vec<u8>)
    requires
        -1_000_000_000 <= h <= 1_000_000_000,
    ensures
        r@ == deg_label_spec(round_deg(h as int)),
{
    let n = round_to_degrees(h);
    let mut r = fmt_i64(n);
    let f = lit_degf_b();
    push_all(&mut r, &f);
    r
}

/// Summarize a day sequence: extreme labels and the descriptive note.
///
/// An empty sequence yields the fixed `n/a` labels and no-data note; a
/// non-empty one yields the rounded maximum of the highs, the rounded
/// minimum of the lows, and the note with both ranges.
pub fn summarize(data: &Vec<DayTemp>) -> (r: Summary)
    requires
        days_bounded(data@),
    ensures
        data@.len() == 0 ==> r.max@ == lit_na_s() && r.min@ == lit_na_s() && r.note@
            == lit_no_data_s(),
        data@.len() > 0 ==> r.max@ == deg_label_spec(round_deg(max_highf(data@))) && r.min@
            == deg_label_spec(round_deg(min_lowf(data@))) && r.note@ == note_spec(data@),
{
    if data.len() == 0 {
        return Summary { max: lit_na_b(), min: lit_na_b(), note: lit_no_data_b() };
    }
    let mut mxh: i64 = data[0].tmax_f;
    let mut mnh: i64 = data[0].tmax_f;
    let mut mxl: i64 = data[0].tmin_f;
    let mut mnl: i64 = data[0].tmin_f;
    let mut i: usize = 1;
    proof {
        assert(data@.take(1).len() == 1);
        assert(data@.take(1)[0] == data@[0]);
    }
    while i < data.len()
        invariant
            1 <= i <= data@.len(),
            days_bounded(data@),
            mxh == max_highf(data@.take(i as int)),
            mnh == min_highf(data@.take(i as int)),
            mxl == max_lowf(data@.take(i as int)),
            mnl == min_lowf(data@.take(i as int)),
        decreases data@.len() - i,
    {
        proof {
            assert(data@.take(i + 1).drop_last() =~= data@.take(i as int));
            assert(data@.take(i + 1).last() == data@[i as int]);
        }
        let d = data[i];
        if d.tmax_f > mxh {
            mxh = d.tmax_f;
        }
        if d.tmax_f < mnh {
            mnh = d.tmax_f;
        }
        if d.tmin_f > mxl {
            mxl = d.tmin_f;
        }
        if d.tmin_f < mnl {
            mnl = d.tmin_f;
        }
        i = i + 1;
    }
    proof {
        assert(data@.take(data@.len() as int) =~= data@);
        lemma_extrema_bounded(data@);
    }
    let max_label = deg_label(mxh);
    let min_label = deg_label(mnl);
    let mut note = lit_open_us_b();
    let n = fmt_u64(data.len() as u64);
    push_all(&mut note, &n);
    let p = lit_days_sep_b();
    push_all(&mut note, &p);
    let v1 = fmt_i64(round_to_degrees(mnh));
    push_all(&mut note, &v1);
    let p2 = lit_deg_arrow_b();
    push_all(&mut note, &p2);
    let v2 = fmt_i64(round_to_degrees(mxh));
    push_all(&mut note, &v2);
    let p3 = lit_low_range_b();
    push_all(&mut note, &p3);
    let v3 = fmt_i64(round_to_degrees(mnl));
    push_all(&mut note, &v3);
    let p4 = lit_deg_arrow_b();
    push_all(&mut note, &p4);
    let v4 = fmt_i64(round_to_degrees(mxl));
    push_all(&mut note, &v4);
    let p5 = lit_deg_close_b();
    push_all(&mut note, &p5);
    Summary { max: max_label, min: min_label, note }
}

/// One rendered table row of a record.
pub open spec fn row_spec(d: DayTemp) -> Seq<u8> {
    lit_cell_open_s() + date_fmt(d.date) + lit_cell_sep_s() + dec_i(round_deg(d.tmax_f as int))
        + lit_cell_sep_s() + dec_i(round_deg(d.tmin_f as int)) + lit_cell_sep_s() + dec_i(
        round_deg(d.tmax as int),
    ) + lit_cell_sep_s() + dec_i(round_deg(d.tmin as int)) + lit_row_close_s()
}

/// All rows of a sequence, in order.
pub open spec fn rows_spec(s: Seq<DayTemp>) -> Seq<u8>
    decreases s.len(),
{
    if s.len() == 0 {
        Seq::empty()
    } else {
        rows_spec(s.drop_last()) + row_spec(s.last())
    }
}

/// The full rendered table: a fixed placeholder when empty, else the header
/// row, the alignment row, and one row per day.
pub open spec fn table_spec(s: Seq<DayTemp>) -> Seq<u8> {
    if s.len() == 0 {
        lit_no_rows_s()
    } else {
        lit_table_header_s() + rows_spec(s)
    }
}

/// Every date of every record is a valid calendar date.
pub open spec fn days_dated(s: Seq<DayTemp>) -> bool {
    forall|i: int| 0 <= i < s.len() ==> date_valid(#[trigger] s[i].date)
}

/// Render one table row.
fn build_row(d: &DayTemp) -> (r: Vec<u8>)
    requires
        -1_000_000_000 <= d.tmax <= 1_000_000_000,
        -1_000_000_000 <= d.tmin <= 1_000_000_000,
        -1_000_000_000 <= d.tmax_f <= 1_000_000_000,
        -1_000_000_000 <= d.tmin_f <= 1_000_000_000,
        date_valid(d.date),
    ensures
        r@ == row_spec(*d),
{
    let mut r = lit_cell_open_b();
    let ds = format_date(&d.date);
    push_all(&mut r, &ds);
    let c1 = lit_cell_sep_b();
    push_all(&mut r, &c1);
    let v1 = fmt_i64(round_to_degrees(d.tmax_f));
    push_all(&mut r, &v1);
    let c2 = lit_cell_sep_b();
    push_all(&mut r, &c2);
    let v2 = fmt_i64(round_to_degrees(d.tmin_f));
    push_all(&mut r, &v2);
    let c3 = lit_cell_sep_b();
    push_all(&mut r, &c3);
    let v3 = fmt_i64(round_to_degrees(d.tmax));
    push_all(&mut r, &v3);
    let c4 = lit_cell_sep_b();
    push_all(&mut r, &c4);
    let v4 = fmt_i64(round_to_degrees(d.tmin));
    push_all(&mut r, &v4);
    let c5 = lit_row_close_b();
    push_all(&mut r, &c5);
    r
}

/// Render the Markdown table of daily highs and lows.
pub fn render_table(data: &Vec<DayTemp>) -> (r: Vec<u8>)
    requires
        days_bounded(data@),
        days_dated(data@),
    ensures
        r@ == table_spec(data@),
{
    if data.len() == 0 {
        return lit_no_rows_b();
    }
    let mut r = lit_table_header_b();
    let ghost header = r@;
    let mut i: usize = 0;
    proof {
        assert(rows_spec(data@.take(0)) =~= Seq::<u8>::empty());
        assert(r@ =~= header + rows_spec(data@.take(0)));
    }
    while i < data.len()
        invariant
            0 <= i <= data@.len(),
            data@.len() > 0,
            days_bounded(data@),
            days_dated(data@),
            header == lit_table_header_s(),
            r@ == header + rows_spec(data@.take(i as int)),
        decreases data@.len() - i,
    {
        let d = data[i];
        proof {
            assert(-1_000_000_000 <= data@[i as int].tmax <= 1_000_000_000);
            assert(date_valid(data@[i as int].date));
        }
        let row = build_row(&d);
        push_all(&mut r, &row);
        proof {
            assert(data@.take(i + 1).drop_last() =~= data@.take(i as int));
            assert(data@.take(i + 1).last() == data@[i as int]);
            assert(r@ =~= header + rows_spec(data@.take(i + 1)));
        }
        i = i + 1;
    }
    proof {
        assert(data@.take(data@.len() as int) =~= data@);
    }
    r
}

/// The maximum label the summary must carry.
pub open spec fn summary_max_spec(s: Seq<DayTemp>) -> Seq<u8> {
    if s.len() == 0 {
        lit_na_s()
    } else {
        deg_label_spec(round_deg(max_highf(s)))
    }
}

/// The minimum label the summary must carry.
pub open spec fn summary_min_spec(s: Seq<DayTemp>) -> Seq<u8> {
    if s.len() == 0 {
        lit_na_s()
    } else {
        deg_label_spec(round_deg(min_lowf(s)))
    }
}

/// The note the summary must carry.
pub open spec fn summary_note_spec(s: Seq<DayTemp>) -> Seq<u8> {
    if s.len() == 0 {
        lit_no_data_s()
    } else {
        note_spec(s)
    }
}

/// Decimal renderings hold no heading or marker byte.
pub proof fn lemma_dec_i_marker_free(n: int)
    ensures
        marker_free(dec_i(n)),
{
    lemma_dec_i_digits(n);
}

/// An extreme label holds no heading or marker byte.
pub proof fn lemma_deg_label_marker_free(n: int)
    ensures
        marker_free(deg_label_spec(n)),
{
    lemma_dec_i_marker_free(n);
    lit_degf_mf();
    lemma_marker_free_concat(dec_i(n), lit_degf_s());
}

/// The summary labels and note hold no heading or marker byte.
pub proof fn lemma_summary_marker_free(s: Seq<DayTemp>)
    ensures
        marker_free(summary_max_spec(s)),
        marker_free(summary_min_spec(s)),
        marker_free(summary_note_spec(s)),
{
    lit_na_mf();
    lit_no_data_mf();
    if s.len() > 0 {
        lemma_deg_label_marker_free(round_deg(max_highf(s)));
        lemma_deg_label_marker_free(round_deg(min_lowf(s)));
        lit_open_us_mf();
        lit_days_sep_mf();
        lit_deg_arrow_mf();
        lit_low_range_mf();
        lit_deg_close_mf();
        lemma_dec_u_digits(s.len() as int);
        lemma_dec_i_marker_free(round_deg(min_highf(s)));
        lemma_dec_i_marker_free(round_deg(max_highf(s)));
        lemma_dec_i_marker_free(round_deg(min_lowf(s)));
        lemma_dec_i_marker_free(round_deg(max_lowf(s)));
        let a1 = lit_open_us_s();
        let a2 = a1 + dec_u(s.len() as int);
        lemma_marker_free_concat(a1, dec_u(s.len() as int));
        let a3 = a2 + lit_days_sep_s();
        lemma_marker_free_concat(a2, lit_days_sep_s());
        let a4 = a3 + dec_i(round_deg(min_highf(s)));
        lemma_marker_free_concat(a3, dec_i(round_deg(min_highf(s))));
        let a5 = a4 + lit_deg_arrow_s();
        lemma_marker_free_concat(a4, lit_deg_arrow_s());
        let a6 = a5 + dec_i(round_deg(max_highf(s)));
        lemma_marker_free_concat(a5, dec_i(round_deg(max_highf(s))));
        let a7 = a6 + lit_low_range_s();
        lemma_marker_free_concat(a6, lit_low_range_s());
        let a8 = a7 + dec_i(round_deg(min_lowf(s)));
        lemma_marker_free_concat(a7, dec_i(round_deg(min_lowf(s))));
        let a9 = a8 + lit_deg_arrow_s();
        lemma_marker_free_concat(a8, lit_deg_arrow_s());
        let a10 = a9 + dec_i(round_deg(max_lowf(s)));
        lemma_marker_free_concat(a9, dec_i(round_deg(max_lowf(s))));
        lemma_marker_free_concat(a10, lit_deg_close_s());
        assert(note_spec(s) == a10 + lit_deg_close_s());
    }
}

/// One table row holds no heading or marker byte.
pub proof fn lemma_row_marker_free(d: DayTemp)
    requires
        date_valid(d.date),
    ensures
        marker_free(row_spec(d)),
{
    lit_cell_open_mf();
    lit_cell_sep_mf();
    lit_row_close_mf();
    lemma_date_fmt_bytes(d.date);
    assert(marker_free(date_fmt(d.date)));
    lemma_dec_i_marker_free(round_deg(d.tmax_f as int));
    lemma_dec_i_marker_free(round_deg(d.tmin_f as int));
    lemma_dec_i_marker_free(round_deg(d.tmax as int));
    lemma_dec_i_marker_free(round_deg(d.tmin as int));
    let a1 = lit_cell_open_s();
    let a2 = a1 + date_fmt(d.date);
    lemma_marker_free_concat(a1, date_fmt(d.date));
    let a3 = a2 + lit_cell_sep_s();
    lemma_marker_free_concat(a2, lit_cell_sep_s());
    let a4 = a3 + dec_i(round_deg(d.tmax_f as int));
    lemma_marker_free_concat(a3, dec_i(round_deg(d.tmax_f as int)));
    let a5 = a4 + lit_cell_sep_s();
    lemma_marker_free_concat(a4, lit_cell_sep_s());
    let a6 = a5 + dec_i(round_deg(d.tmin_f as int));
    lemma_marker_free_concat(a5, dec_i(round_deg(d.tmin_f as int)));
    let a7 = a6 + lit_cell_sep_s();
    lemma_marker_free_concat(a6, lit_cell_sep_s());
    let a8 = a7 + dec_i(round_deg(d.tmax as int));
    lemma_marker_free_concat(a7, dec_i(round_deg(d.tmax as int)));
    let a9 = a8 + lit_cell_sep_s();
    lemma_marker_free_concat(a8, lit_cell_sep_s());
    let a10 = a9 + dec_i(round_deg(d.tmin as int));
    lemma_marker_free_concat(a9, dec_i(round_deg(d.tmin as int)));
    lemma_marker_free_concat(a10, lit_row_close_s());
    assert(row_spec(d) == a10 + lit_row_close_s());
}

proof fn lemma_rows_marker_free(s: Seq<DayTemp>)
    requires
        days_dated(s),
    ensures
        marker_free(rows_spec(s)),
    decreases s.len(),
{
    if s.len() > 0 {
        assert(days_dated(s.drop_last())) by {
            assert(forall|i: int| 0 <= i < s.len() - 1 ==> s.drop_last()[i] == s[i]);
        }
        lemma_rows_marker_free(s.drop_last());
        assert(date_valid(s[s.len() - 1].date));
        lemma_row_marker_free(s.last());
        lemma_marker_free_concat(rows_spec(s.drop_last()), row_spec(s.last()));
    }
}

/// The rendered table holds no heading or marker byte.
pub proof fn lemma_table_marker_free(s: Seq<DayTemp>)
    requires
        days_dated(s),
    ensures
        marker_free(table_spec(s)),
{
    lit_no_rows_mf();
    if s.len() > 0 {
        lit_table_header_mf();
        lemma_rows_marker_free(s);
        lemma_marker_free_concat(lit_table_header_s(), rows_spec(s));
    }
}

} // verus!
