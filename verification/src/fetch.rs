//! The resilient-fetch policy: bounded retries with doubling backoff, and
//! the handling of the geocoding lookup's result.

use vstd::prelude::*;
use crate::err::WxError;
use crate::url::lit_rome_b;
use crate::url::lit_rome_s;
use crate::bytes::slice_range;

verus! {

/// How an attempted request failed, as the transport reports it.
#[derive(PartialEq, Eq, Structural, Clone, Copy, Debug)]
pub enum FetchFailure {
    /// The request never yielded a response.
    Network,
    /// A response arrived with a non-success status.
    HttpStatus(u16),
}

/// What the policy directs after a failed attempt.
#[derive(Debug, Clone, PartialEq, Eq)]
pub enum RetryDecision {
    /// Wait this many milliseconds, then attempt again.
    RetryAfterMs(u64),
    /// Give up, reporting this failure.
    Fail(WxError),
}

/// The backoff before the attempt after `attempt`: 100 ms, doubling.
pub open spec fn backoff_ms(attempt: int) -> int
    decreases attempt,
{
    if attempt <= 1 {
        100
    } else {
        2 * backoff_ms(attempt - 1)
    }
}

/// Decide what follows the failure of attempt number `attempt` (1-based):
/// retry after the doubling backoff while attempts remain, and convert the
/// failure into its terminal error on the third attempt.
pub fn next_retry(attempt: u32, failure: &FetchFailure, url: &Vec<u8>) -> (r: RetryDecision)
    requires
        1 <= attempt <= 3,
    ensures
        attempt < 3 ==> (r matches RetryDecision::RetryAfterMs(d) && d == backoff_ms(
            attempt as int,
        )),
        attempt == 3 ==> (r matches RetryDecision::Fail(e) && (match *failure {
            FetchFailure::Network => e matches WxError::NetworkError(u) && u@ == url@,
            FetchFailure::HttpStatus(st) => e matches WxError::HttpStatusError(u, s2) && u@
                == url@ && s2 == st,
        })),
{
    if attempt < 3 {
        let d: u64 = if attempt == 1 {
            100
        } else {
            200
        };
        proof {
            assert(backoff_ms(1) == 100);
            assert(backoff_ms(2) == 2 * backoff_ms(1));
        }
        RetryDecision::RetryAfterMs(d)
    } else {
        let u = slice_range(url, 0, url.len());
        proof {
            assert(u@ =~= url@);
        }
        match failure {
            FetchFailure::Network => RetryDecision::Fail(WxError::NetworkError(u)),
            FetchFailure::HttpStatus(st) => RetryDecision::Fail(
                WxError::HttpStatusError(u, *st),
            ),
        }
    }
}

/// One geocoding match: coordinates as the provider prints them, and the
/// timezone when the provider names one.
#[derive(Debug, Clone, PartialEq, Eq)]
pub struct GeoItem {
    pub latitude: Vec<u8>,
    pub longitude: Vec<u8>,
    pub timezone: Option<Vec<u8>>,
}

/// A resolved place: coordinates and the timezone to query with.
#[derive(Debug, Clone, PartialEq, Eq)]
pub struct Coordinates {
    pub latitude: Vec<u8>,
    pub longitude: Vec<u8>,
    pub timezone: Vec<u8>,
}

/// Turn the geocoding response's result list into coordinates.
///
/// An absent or empty list fails with `GeocodeNotFound` naming the place;
/// otherwise the first match is taken, with the fixed fallback timezone
/// when the provider omitted one.
pub fn resolve_geocode(results: Option<Vec<GeoItem>>, place: &Vec<u8>) -> (r: Result<
    Coordinates,
    WxError,
>)
    ensures
        (results is None || results->Some_0@.len() == 0) ==> (r matches Err(
            WxError::GeocodeNotFound(p),
        ) && p@ == place@),
        results is Some && results->Some_0@.len() > 0 ==> ({
            let v = results->Some_0@;
            r matches Ok(c) && c.latitude@ == v[0].latitude@ && c.longitude@
                == v[0].longitude@ && (match v[0].timezone {
                Some(t) => c.timezone@ == t@,
                None => c.timezone@ == lit_rome_s(),
            })
        }),
{
    let v = match results {
        Some(v) => v,
        None => {
            let p = slice_range(place, 0, place.len());
            proof {
                assert(p@ =~= place@);
            }
            return Err(WxError::GeocodeNotFound(p));
        },
    };
    if v.len() == 0 {
        let p = slice_range(place, 0, place.len());
        proof {
            assert(p@ =~= place@);
        }
        return Err(WxError::GeocodeNotFound(p));
    }
    let item = &v[0];
    let latitude = slice_range(&item.latitude, 0, item.latitude.len());
    let longitude = slice_range(&item.longitude, 0, item.longitude.len());
    let timezone = match &item.timezone {
        Some(t) => slice_range(t, 0, t.len()),
        None => lit_rome_b(),
    };
    proof {
        assert(latitude@ =~= v@[0].latitude@);
        assert(longitude@ =~= v@[0].longitude@);
        if v@[0].timezone is Some {
            assert(timezone@ =~= v@[0].timezone->Some_0@);
        }
    }
    Ok(Coordinates { latitude, longitude, timezone })
}

} // verus!
