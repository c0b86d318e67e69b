//! The typed failure taxonomy of the pipeline, with an exactly specified
//! message rendering for each variant.

use vstd::prelude::*;
use crate::numfmt::{dec_u, fmt_u64};

verus! {

/// Every failure the pipeline can report, with its contextual payload.
#[derive(Debug, Clone, PartialEq, Eq)]
pub enum WxError {
    /// No frontmatter header delimited by `---` lines at the top of the note.
    MissingHeader,
    /// A required frontmatter key is absent; carries the key name.
    MissingField(Vec<u8>),
    /// A frontmatter date failed to parse; carries the field name and raw text.
    InvalidDate { field: Vec<u8>, raw: Vec<u8> },
    /// The one-year proxy shift landed on a day that does not exist.
    InvalidProxyDate,
    /// The geocoding lookup returned no result; carries the place name.
    GeocodeNotFound(Vec<u8>),
    /// Transport-level failure after all retries; carries the URL.
    NetworkError(Vec<u8>),
    /// Non-success HTTP status after all retries; carries the URL and status.
    HttpStatusError(Vec<u8>, u16),
    /// A response body could not be decoded; carries context text.
    DecodeError(Vec<u8>),
    /// The daily arrays disagree in length; carries all three lengths.
    MismatchedLengths { time: usize, high: usize, low: usize },
    /// A file could not be read or written; carries the path.
    FileIoError(Vec<u8>),
}

/// Bytes of 'no YAML frontmatter'.
pub open spec fn lit_no_frontmatter_s() -> Seq<u8> {
    seq![110u8, 111, 32, 89, 65, 77, 76, 32, 102, 114, 111, 110, 116, 109, 97, 116, 116, 101, 114]
}

pub fn lit_no_frontmatter_b() -> (r: Vec<u8>)
    ensures
        r@ == lit_no_frontmatter_s(),
{
    let r: Vec<u8> = vec![110u8, 111, 32, 89, 65, 77, 76, 32, 102, 114, 111, 110, 116, 109, 97, 116, 116, 101, 114];
    proof {
        assert(r@ =~= lit_no_frontmatter_s());
    }
    r
}

/// Bytes of "missing '".
pub open spec fn lit_missing_pre_s() -> Seq<u8> {
    seq![109u8, 105, 115, 115, 105, 110, 103, 32, 39]
}

pub fn lit_missing_pre_b() -> (r: Vec<u8>)
    ensures
        r@ == lit_missing_pre_s(),
{
    let r: Vec<u8> = vec![109u8, 105, 115, 115, 105, 110, 103, 32, 39];
    proof {
        assert(r@ =~= lit_missing_pre_s());
    }
    r
}

/// Bytes of "'".
pub open spec fn lit_quote_s() -> Seq<u8> {
    seq![39u8]
}

pub fn lit_quote_b() -> (r: Vec<u8>)
    ensures
        r@ == lit_quote_s(),
{
    let r: Vec<u8> = vec![39u8];
    proof {
        assert(r@ =~= lit_quote_s());
    }
    r
}

/// Bytes of "invalid date in '".
pub open spec fn lit_invalid_date_pre_s() -> Seq<u8> {
    seq![105u8, 110, 118, 97, 108, 105, 100, 32, 100, 97, 116, 101, 32, 105, 110, 32, 39]
}

pub fn lit_invalid_date_pre_b() -> (r: Vec<u8>)
    ensures
        r@ == lit_invalid_date_pre_s(),
{
    let r: Vec<u8> = vec![105u8, 110, 118, 97, 108, 105, 100, 32, 100, 97, 116, 101, 32, 105, 110, 32, 39];
    proof {
        assert(r@ =~= lit_invalid_date_pre_s());
    }
    r
}

/// Bytes of "': ".
pub open spec fn lit_colon_sp_s() -> Seq<u8> {
    seq![39u8, 58, 32]
}

pub fn lit_colon_sp_b() -> (r: Vec<u8>)
    ensures
        r@ == lit_colon_sp_s(),
{
    let r: Vec<u8> = vec![39u8, 58, 32];
    proof {
        assert(r@ =~= lit_colon_sp_s());
    }
    r
}

/// Bytes of 'proxy date does not exist'.
pub open spec fn lit_proxy_s() -> Seq<u8> {
    seq![112u8, 114, 111, 120, 121, 32, 100, 97, 116, 101, 32, 100, 111, 101, 115, 32, 110, 111, 116, 32, 101, 120, 105, 115, 116]
}

pub fn lit_proxy_b() -> (r: Vec<u8>)
    ensures
        r@ == lit_proxy_s(),
{
    let r: Vec<u8> = vec![112u8, 114, 111, 120, 121, 32, 100, 97, 116, 101, 32, 100, 111, 101, 115, 32, 110, 111, 116, 32, 101, 120, 105, 115, 116];
    proof {
        assert(r@ =~= lit_proxy_s());
    }
    r
}

/// Bytes of 'geocoding failed for city: '.
pub open spec fn lit_geocode_pre_s() -> Seq<u8> {
    seq![103u8, 101, 111, 99, 111, 100, 105, 110, 103, 32, 102, 97, 105, 108, 101, 100, 32, 102, 111, 114, 32, 99, 105, 116, 121, 58, 32]
}

pub fn lit_geocode_pre_b() -> (r: Vec<u8>)
    ensures
        r@ == lit_geocode_pre_s(),
{
    let r: Vec<u8> = vec![103u8, 101, 111, 99, 111, 100, 105, 110, 103, 32, 102, 97, 105, 108, 101, 100, 32, 102, 111, 114, 32, 99, 105, 116, 121, 58, 32];
    proof {
        assert(r@ =~= lit_geocode_pre_s());
    }
    r
}

/// Bytes of 'network error: '.
pub open spec fn lit_network_pre_s() -> Seq<u8> {
    seq![110u8, 101, 116, 119, 111, 114, 107, 32, 101, 114, 114, 111, 114, 58, 32]
}

pub fn lit_network_pre_b() -> (r: Vec<u8>)
    ensures
        r@ == lit_network_pre_s(),
{
    let r: Vec<u8> = vec![110u8, 101, 116, 119, 111, 114, 107, 32, 101, 114, 114, 111, 114, 58, 32];
    proof {
        assert(r@ =~= lit_network_pre_s());
    }
    r
}

/// Bytes of 'request failed (status '.
pub open spec fn lit_status_pre_s() -> Seq<u8> {
    seq![114u8, 101, 113, 117, 101, 115, 116, 32, 102, 97, 105, 108, 101, 100, 32, 40, 115, 116, 97, 116, 117, 115, 32]
}

pub fn lit_status_pre_b() -> (r: Vec<u8>)
    ensures
        r@ == lit_status_pre_s(),
{
    let r: Vec<u8> = vec![114u8, 101, 113, 117, 101, 115, 116, 32, 102, 97, 105, 108, 101, 100, 32, 40, 115, 116, 97, 116, 117, 115, 32];
    proof {
        assert(r@ =~= lit_status_pre_s());
    }
    r
}

/// Bytes of '): '.
pub open spec fn lit_status_mid_s() -> Seq<u8> {
    seq![41u8, 58, 32]
}

pub fn lit_status_mid_b() -> (r: Vec<u8>)
    ensures
        r@ == lit_status_mid_s(),
{
    let r: Vec<u8> = vec![41u8, 58, 32];
    proof {
        assert(r@ =~= lit_status_mid_s());
    }
    r
}

/// Bytes of 'failed to decode response: '.
pub open spec fn lit_decode_pre_s() -> Seq<u8> {
    seq![102u8, 97, 105, 108, 101, 100, 32, 116, 111, 32, 100, 101, 99, 111, 100, 101, 32, 114, 101, 115, 112, 111, 110, 115, 101, 58, 32]
}

pub fn lit_decode_pre_b() -> (r: Vec<u8>)
    ensures
        r@ == lit_decode_pre_s(),
{
    let r: Vec<u8> = vec![102u8, 97, 105, 108, 101, 100, 32, 116, 111, 32, 100, 101, 99, 111, 100, 101, 32, 114, 101, 115, 112, 111, 110, 115, 101, 58, 32];
    proof {
        assert(r@ =~= lit_decode_pre_s());
    }
    r
}

/// Bytes of 'daily arrays have mismatched lengths: time='.
pub open spec fn lit_mm_pre_s() -> Seq<u8> {
    seq![100u8, 97, 105, 108, 121, 32, 97, 114, 114, 97, 121, 115, 32, 104, 97, 118, 101, 32, 109, 105, 115, 109, 97, 116, 99, 104, 101, 100, 32, 108, 101, 110, 103, 116, 104, 115, 58, 32, 116, 105, 109, 101, 61]
}

pub fn lit_mm_pre_b() -> (r: Vec<u8>)
    ensures
        r@ == lit_mm_pre_s(),
{
    let r: Vec<u8> = vec![100u8, 97, 105, 108, 121, 32, 97, 114, 114, 97, 121, 115, 32, 104, 97, 118, 101, 32, 109, 105, 115, 109, 97, 116, 99, 104, 101, 100, 32, 108, 101, 110, 103, 116, 104, 115, 58, 32, 116, 105, 109, 101, 61];
    proof {
        assert(r@ =~= lit_mm_pre_s());
    }
    r
}

/// Bytes of ', tmax='.
pub open spec fn lit_mm_mid1_s() -> Seq<u8> {
    seq![44u8, 32, 116, 109, 97, 120, 61]
}

pub fn lit_mm_mid1_b() -> (r: Vec<u8>)
    ensures
        r@ == lit_mm_mid1_s(),
{
    let r: Vec<u8> = vec![44u8, 32, 116, 109, 97, 120, 61];
    proof {
        assert(r@ =~= lit_mm_mid1_s());
    }
    r
}

/// Bytes of ', tmin='.
pub open spec fn lit_mm_mid2_s() -> Seq<u8> {
    seq![44u8, 32, 116, 109, 105, 110, 61]
}

pub fn lit_mm_mid2_b() -> (r: Vec<u8>)
    ensures
        r@ == lit_mm_mid2_s(),
{
    let r: Vec<u8> = vec![44u8, 32, 116, 109, 105, 110, 61];
    proof {
        assert(r@ =~= lit_mm_mid2_s());
    }
    r
}

/// Bytes of 'file error: '.
pub open spec fn lit_file_pre_s() -> Seq<u8> {
    seq![102u8, 105, 108, 101, 32, 101, 114, 114, 111, 114, 58, 32]
}

pub fn lit_file_pre_b() -> (r: Vec<u8>)
    ensures
        r@ == lit_file_pre_s(),
{
    let r: Vec<u8> = vec![102u8, 105, 108, 101, 32, 101, 114, 114, 111, 114, 58, 32];
    proof {
        assert(r@ =~= lit_file_pre_s());
    }
    r
}

/// Bytes of 'no daily data'.
pub open spec fn lit_no_daily_s() -> Seq<u8> {
    seq![110u8, 111, 32, 100, 97, 105, 108, 121, 32, 100, 97, 116, 97]
}

pub fn lit_no_daily_b() -> (r: Vec<u8>)
    ensures
        r@ == lit_no_daily_s(),
{
    let r: Vec<u8> = vec![110u8, 111, 32, 100, 97, 105, 108, 121, 32, 100, 97, 116, 97];
    proof {
        assert(r@ =~= lit_no_daily_s());
    }
    r
}

/// The rendered message of each failure.
pub open spec fn message_spec(e: WxError) -> Seq<u8> {
    match e {
        WxError::MissingHeader => lit_no_frontmatter_s(),
        WxError::MissingField(f) => lit_missing_pre_s() + f@ + lit_quote_s(),
        WxError::InvalidDate { field, raw } => lit_invalid_date_pre_s() + field@
            + lit_colon_sp_s() + raw@,
        WxError::InvalidProxyDate => lit_proxy_s(),
        WxError::GeocodeNotFound(p) => lit_geocode_pre_s() + p@,
        WxError::NetworkError(u) => lit_network_pre_s() + u@,
        WxError::HttpStatusError(u, st) => lit_status_pre_s() + dec_u(st as int)
            + lit_status_mid_s() + u@,
        WxError::DecodeError(c) => lit_decode_pre_s() + c@,
        WxError::MismatchedLengths { time, high, low } => lit_mm_pre_s() + dec_u(time as int)
            + lit_mm_mid1_s() + dec_u(high as int) + lit_mm_mid2_s() + dec_u(low as int),
        WxError::FileIoError(p) => lit_file_pre_s() + p@,
    }
}

impl WxError {
    /// Render this failure as human-readable bytes.
    pub fn message(&self) -> (r: Vec<u8>)
        ensures
            r@ == message_spec(*self),
    {
        match self {
            WxError::MissingHeader => lit_no_frontmatter_b(),
            WxError::MissingField(f) => {
                let mut r = lit_missing_pre_b();
                crate::bytes::push_all(&mut r, f);
                let q = lit_quote_b();
                crate::bytes::push_all(&mut r, &q);
                r
            },
            WxError::InvalidDate { field, raw } => {
                let mut r = lit_invalid_date_pre_b();
                crate::bytes::push_all(&mut r, field);
                let c = lit_colon_sp_b();
                crate::bytes::push_all(&mut r, &c);
                crate::bytes::push_all(&mut r, raw);
                r
            },
            WxError::InvalidProxyDate => lit_proxy_b(),
            WxError::GeocodeNotFound(p) => {
                let mut r = lit_geocode_pre_b();
                crate::bytes::push_all(&mut r, p);
                r
            },
            WxError::NetworkError(u) => {
                let mut r = lit_network_pre_b();
                crate::bytes::push_all(&mut r, u);
                r
            },
            WxError::HttpStatusError(u, st) => {
                let mut r = lit_status_pre_b();
                let n = fmt_u64(*st as u64);
                crate::bytes::push_all(&mut r, &n);
                let m = lit_status_mid_b();
                crate::bytes::push_all(&mut r, &m);
                crate::bytes::push_all(&mut r, u);
                r
            },
            WxError::DecodeError(c) => {
                let mut r = lit_decode_pre_b();
                crate::bytes::push_all(&mut r, c);
                r
            },
            WxError::MismatchedLengths { time, high, low } => {
                let mut r = lit_mm_pre_b();
                let t = fmt_u64(*time as u64);
                crate::bytes::push_all(&mut r, &t);
                let m1 = lit_mm_mid1_b();
                crate::bytes::push_all(&mut r, &m1);
                let h = fmt_u64(*high as u64);
                crate::bytes::push_all(&mut r, &h);
                let m2 = lit_mm_mid2_b();
                crate::bytes::push_all(&mut r, &m2);
                let l = fmt_u64(*low as u64);
                crate::bytes::push_all(&mut r, &l);
                r
            },
            WxError::FileIoError(p) => {
                let mut r = lit_file_pre_b();
                crate::bytes::push_all(&mut r, p);
                r
            },
        }
    }
}

} // verus!
