//! Decimal rendering of integers as bytes, with exact specifications.

use vstd::prelude::*;

verus! {

/// Decimal digits of a non-negative integer, most significant first.
pub open spec fn dec_u(n: int) -> Seq<u8>
    decreases n,
{
    if n < 10 {
        seq![(48 + if n >= 0 { n } else { 0 }) as u8]
    } else {
        dec_u(n / 10).push((48 + n % 10) as u8)
    }
}

/// Decimal rendering of an integer, with a leading minus sign if negative.
pub open spec fn dec_i(n: int) -> Seq<u8> {
    if n < 0 {
        seq![45u8] + dec_u(-n)
    } else {
        dec_u(n)
    }
}

/// Every byte of `dec_u` is an ASCII digit.
pub proof fn lemma_dec_u_digits(n: int)
    requires
        n >= 0,
    ensures
        dec_u(n).len() >= 1,
        forall|k: int| 0 <= k < dec_u(n).len() ==> 48 <= #[trigger] dec_u(n)[k] <= 57,
    decreases n,
{
    if n >= 10 {
        lemma_dec_u_digits(n / 10);
    }
}

/// Every byte of `dec_i` is a digit or the minus sign.
pub proof fn lemma_dec_i_digits(n: int)
    ensures
        dec_i(n).len() >= 1,
        forall|k: int|
            0 <= k < dec_i(n).len() ==> (48 <= #[trigger] dec_i(n)[k] <= 57 || dec_i(n)[k]
                == 45),
{
    if n < 0 {
        lemma_dec_u_digits(-n);
    } else {
        lemma_dec_u_digits(n);
    }
}

/// Render a `u64` in decimal.
pub fn fmt_u64(n: u64) -> (r: Vec<u8>)
    ensures
        r@ == dec_u(n as int),
    decreases n,
{
    if n < 10 {
        let mut r: Vec<u8> = Vec::new();
        r.push(48 + (n as u8));
        proof {
            assert(r@ =~= dec_u(n as int));
        }
        r
    } else {
        let mut r = fmt_u64(n / 10);
        r.push(48 + ((n % 10) as u8));
        r
    }
}

/// Render an `i64` in decimal with its sign.
pub fn fmt_i64(n: i64) -> (r: Vec<u8>)
    requires
        n > i64::MIN,
    ensures
        r@ == dec_i(n as int),
{
    if n < 0 {
        let mut r: Vec<u8> = Vec::new();
        r.push(45);
        let d = fmt_u64((-n) as u64);
        crate::bytes::push_all(&mut r, &d);
        proof {
            assert(r@ =~= dec_i(n as int));
        }
        r
    } else {
        fmt_u64(n as u64)
    }
}

/// Two zero-padded decimal digits.
pub open spec fn pad2(n: int) -> Seq<u8> {
    seq![(48 + n / 10) as u8, (48 + n % 10) as u8]
}

/// Four zero-padded decimal digits.
pub open spec fn pad4(n: int) -> Seq<u8> {
    seq![(48 + n / 1000) as u8, (48 + (n / 100) % 10) as u8, (48 + (n / 10) % 10) as u8, (48 + n
        % 10) as u8]
}

/// Render `n` as exactly two digits.
pub fn fmt_pad2(n: u32) -> (r: Vec<u8>)
    requires
        n < 100,
    ensures
        r@ == pad2(n as int),
{
    let mut r: Vec<u8> = Vec::new();
    r.push(48 + ((n / 10) as u8));
    r.push(48 + ((n % 10) as u8));
    proof {
        assert(r@ =~= pad2(n as int));
    }
    r
}

/// Render `n` as exactly four digits.
pub fn fmt_pad4(n: u32) -> (r: Vec<u8>)
    requires
        n < 10000,
    ensures
        r@ == pad4(n as int),
{
    let mut r: Vec<u8> = Vec::new();
    r.push(48 + ((n / 1000) as u8));
    r.push(48 + (((n / 100) % 10) as u8));
    r.push(48 + (((n / 10) % 10) as u8));
    r.push(48 + ((n % 10) as u8));
    proof {
        assert(r@ =~= pad4(n as int));
    }
    r
}

} // verus!
