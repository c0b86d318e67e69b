//! The metadata extractor: locates the frontmatter header delimited by
//! `---` lines at the top of a note and reads the trip fields from it.

use vstd::prelude::*;
use crate::bytes::{
    find_from, find_spec, line_end_spec, matches_at, slice_range, trim_spec, trim_range,
    line_end_at, eq_at,
};
use crate::date::{Date, parse_date, parse_date_spec};
use crate::err::WxError;

verus! {

/// Trip metadata read from a note's frontmatter.
#[derive(Debug, Clone, PartialEq, Eq)]
pub struct NoteMeta {
    pub city: Vec<u8>,
    pub arrival: Date,
    pub departure: Date,
    pub path: Vec<u8>,
}

/// Bytes of the `---` delimiter.
pub open spec fn dashes_s() -> Seq<u8> {
    seq![45u8, 45, 45]
}

/// Bytes of 'city-place'.
pub open spec fn lit_key_city_s() -> Seq<u8> {
    seq![99u8, 105, 116, 121, 45, 112, 108, 97, 99, 101]
}

pub fn lit_key_city_b() -> (r: Vec<u8>)
    ensures
        r@ == lit_key_city_s(),
{
    let r: Vec<u8> = vec![99u8, 105, 116, 121, 45, 112, 108, 97, 99, 101];
    proof {
        assert(r@ =~= lit_key_city_s());
    }
    r
}
/// Bytes of 'arrival'.
pub open spec fn lit_key_arrival_s() -> Seq<u8> {
    seq![97u8, 114, 114, 105, 118, 97, 108]
}

pub fn lit_key_arrival_b() -> (r: Vec<u8>)
    ensures
        r@ == lit_key_arrival_s(),
{
    let r: Vec<u8> = vec![97u8, 114, 114, 105, 118, 97, 108];
    proof {
        assert(r@ =~= lit_key_arrival_s());
    }
    r
}
/// Bytes of 'departure'.
pub open spec fn lit_key_departure_s() -> Seq<u8> {
    seq![100u8, 101, 112, 97, 114, 116, 117, 114, 101]
}

pub fn lit_key_departure_b() -> (r: Vec<u8>)
    ensures
        r@ == lit_key_departure_s(),
{
    let r: Vec<u8> = vec![100u8, 101, 112, 97, 114, 116, 117, 114, 101];
    proof {
        assert(r@ =~= lit_key_departure_s());
    }
    r
}

/// The note text carries a frontmatter header: an opening `---` at the very
/// start and a closing `---` somewhere after it.
pub open spec fn has_frontmatter(s: Seq<u8>) -> bool {
    matches_at(s, dashes_s(), 0) && find_spec(s, dashes_s(), 3) is Some
}

/// The raw bytes between the two delimiter lines.
pub open spec fn frontmatter_inner(s: Seq<u8>) -> Seq<u8> {
    s.subrange(3, find_spec(s, dashes_s(), 3)->Some_0)
}

/// The value a single `key: value` line binds `key` to, if it is that line.
pub open spec fn line_value(line: Seq<u8>, key: Seq<u8>) -> Option<Seq<u8>> {
    match find_spec(line, seq![58u8], 0) {
        Some(c) => if trim_spec(line.take(c)) == key {
            Some(trim_spec(line.skip(c + 1)))
        } else {
            None
        },
        None => None,
    }
}

/// The value the first matching `key: value` line at or after `pos` binds.
pub open spec fn kv_lookup_from(s: Seq<u8>, key: Seq<u8>, pos: int) -> Option<Seq<u8>>
    decreases s.len() + 1 - pos,
{
    if pos < 0 || pos >= s.len() {
        None
    } else {
        let le = line_end_spec(s, pos);
        let next = if pos < le + 1 && le <= s.len() {
            le + 1
        } else {
            s.len() as int + 1
        };
        match line_value(s.subrange(pos, le), key) {
            Some(v) => Some(v),
            None => kv_lookup_from(s, key, next),
        }
    }
}

/// The value the frontmatter mapping binds `key` to, if any.
pub open spec fn kv_lookup(s: Seq<u8>, key: Seq<u8>) -> Option<Seq<u8>> {
    kv_lookup_from(s, key, 0)
}

/// Exec lookup over an extracted frontmatter body.
fn kv_get(s: &Vec<u8>, key: &Vec<u8>) -> (r: Option<Vec<u8>>)
    ensures
        match r {
            Some(v) => kv_lookup(s@, key@) == Some(v@),
            None => kv_lookup(s@, key@) is None,
        },
{
    let n = s.len();
    let mut pos: usize = 0;
    loop
        invariant
            0 <= pos,
            n == s@.len(),
            kv_lookup(s@, key@) == kv_lookup_from(s@, key@, pos as int),
        decreases n + 1 - pos,
    {
        if pos >= n {
            return None;
        }
        let le = line_end_at(s, pos);
        proof {
            crate::bytes::lemma_line_end_bounds(s@, pos as int);
        }
        let line = slice_range(s, pos, le);
        let colon: Vec<u8> = vec![58u8];
        proof {
            assert(colon@ =~= seq![58u8]);
        }
        match find_from(&line, &colon, 0) {
            Some(c) => {
                proof {
                    crate::bytes::lemma_find_spec_props(line@, colon@, 0);
                }
                let keypart = trim_range(&line, 0, c);
                proof {
                    assert(line@.subrange(0, c as int) =~= line@.take(c as int));
                }
                let mut same = keypart.len() == key.len();
                if same {
                    same = eq_at(&keypart, 0, key);
                    proof {
                        if same {
                            assert(keypart@ =~= key@);
                        }
                    }
                }
                if same {
                    let v = trim_range(&line, c + 1, line.len());
                    proof {
                        assert(line@.subrange(c + 1, line@.len() as int) =~= line@.skip(c + 1));
                    }
                    return Some(v);
                }
                proof {
                    if keypart@ == key@ {
                        assert(matches_at(keypart@, key@, 0));
                    }
                    assert(line_value(line@, key@) is None);
                }
            },
            None => {
                proof {
                    assert(line_value(line@, key@) is None);
                }
            },
        }
        proof {
            assert(line@ == s@.subrange(pos as int, line_end_spec(s@, pos as int)));
            assert(kv_lookup_from(s@, key@, pos as int) == (if (pos as int) < le + 1 && le
                <= s@.len() {
                kv_lookup_from(s@, key@, le as int + 1)
            } else {
                kv_lookup_from(s@, key@, s@.len() as int + 1)
            }));
        }
        if le >= n {
            proof {
                assert(kv_lookup_from(s@, key@, s@.len() as int + 1) is None);
            }
            return None;
        }
        pos = le + 1;
    }
}

/// Read the frontmatter and extract the trip fields.
///
/// Fails with `MissingHeader` when no delimited header opens the note, with
/// `MissingField` for an absent key, and with `InvalidDate` for a date that
/// is not a valid `YYYY-MM-DD`; otherwise returns the record, with the place
/// name trimmed.
pub fn extract_meta(text: &Vec<u8>, path: &Vec<u8>) -> (r: Result<NoteMeta, WxError>)
    ensures
        !has_frontmatter(text@) ==> r == Result::<NoteMeta, WxError>::Err(
            WxError::MissingHeader,
        ),
        has_frontmatter(text@) ==> {
            let inner = frontmatter_inner(text@);
            match kv_lookup(inner, lit_key_city_s()) {
                None => r matches Err(WxError::MissingField(f)) && f@ == lit_key_city_s(),
                Some(city) => match kv_lookup(inner, lit_key_arrival_s()) {
                    None => r matches Err(WxError::MissingField(f)) && f@
                        == lit_key_arrival_s(),
                    Some(arr) => match kv_lookup(inner, lit_key_departure_s()) {
                        None => r matches Err(WxError::MissingField(f)) && f@
                            == lit_key_departure_s(),
                        Some(dep) => match parse_date_spec(arr) {
                            None => r matches Err(WxError::InvalidDate { field, raw })
                                && field@ == lit_key_arrival_s() && raw@ == arr,
                            Some(a) => match parse_date_spec(dep) {
                                None => r matches Err(WxError::InvalidDate { field, raw })
                                    && field@ == lit_key_departure_s() && raw@ == dep,
                                Some(d) => r matches Ok(m) && m.city@ == city && m.arrival
                                    == a && m.departure == d && m.path@ == path@,
                            },
                        },
                    },
                },
            }
        },
{
    let n = text.len();
    let dashes: Vec<u8> = vec![45u8, 45, 45];
    proof {
        assert(dashes@ =~= dashes_s());
    }
    if !eq_at(text, 0, &dashes) {
        return Err(WxError::MissingHeader);
    }
    let close = match find_from(text, &dashes, 3) {
        Some(j) => j,
        None => {
            return Err(WxError::MissingHeader);
        },
    };
    proof {
        crate::bytes::lemma_find_spec_props(text@, dashes_s(), 3);
    }
    let inner = slice_range(text, 3, close);
    proof {
        assert(inner@ =~= frontmatter_inner(text@));
    }
    let key_city = lit_key_city_b();
    let city = match kv_get(&inner, &key_city) {
        Some(c) => c,
        None => {
            return Err(WxError::MissingField(lit_key_city_b()));
        },
    };
    let key_arr = lit_key_arrival_b();
    let arr_raw = match kv_get(&inner, &key_arr) {
        Some(v) => v,
        None => {
            return Err(WxError::MissingField(lit_key_arrival_b()));
        },
    };
    let key_dep = lit_key_departure_b();
    let dep_raw = match kv_get(&inner, &key_dep) {
        Some(v) => v,
        None => {
            return Err(WxError::MissingField(lit_key_departure_b()));
        },
    };
    let arrival = match parse_date(&arr_raw) {
        Some(a) => a,
        None => {
            return Err(WxError::InvalidDate { field: lit_key_arrival_b(), raw: arr_raw });
        },
    };
    let departure = match parse_date(&dep_raw) {
        Some(d) => d,
        None => {
            return Err(WxError::InvalidDate { field: lit_key_departure_b(), raw: dep_raw });
        },
    };
    let p = slice_range(path, 0, path.len());
    proof {
        assert(p@ =~= path@);
    }
    Ok(NoteMeta { city, arrival, departure, path: p })
}

} // verus!
