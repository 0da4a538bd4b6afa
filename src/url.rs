//! URLs of the form `scheme://host/part/part/...`, read as bytes.
//!
//! A URL is scanned once, left to right. The scan keeps what the drivers
//! need: the first two path parts as numbers, where they are numbers.
use vstd::prelude::*;

verus! {

pub const SLASH: u8 = 0x2F;
pub const COLON: u8 = 0x3A;

/// What the scan knows of one path part.
#[derive(Clone, Copy, Debug, PartialEq, Eq, Structural)]
pub struct PartScan {
    /// The part exists in the URL.
    pub present: bool,
    /// At least one byte of the part has been seen.
    pub nonempty: bool,
    /// Every byte seen is a decimal digit, and their value fits in 64 bits.
    pub numeric: bool,
    /// The value of the digits, while `numeric`.
    pub value: u64,
}

/// What the scan knows of a URL.
#[derive(Clone, Copy, Debug, PartialEq, Eq, Structural)]
pub struct UrlScan {
    /// The colon that ends the scheme has been seen.
    pub colon: bool,
    /// Slashes seen after that colon, counted up to 5.
    pub slashes: u8,
    pub first: PartScan,
    pub second: PartScan,
}

pub open spec fn absent_part() -> PartScan {
    PartScan { present: false, nonempty: false, numeric: false, value: 0 }
}

pub open spec fn opened_part() -> PartScan {
    PartScan { present: true, nonempty: false, numeric: true, value: 0 }
}

pub open spec fn is_digit(b: u8) -> bool {
    48 <= b && b <= 57
}

pub open spec fn part_step(p: PartScan, b: u8) -> PartScan {
    if p.numeric && is_digit(b) && p.value * 10 + (b - 48) <= u64::MAX {
        PartScan { present: true, nonempty: true, numeric: true, value: (p.value * 10 + (b - 48)) as u64 }
    } else {
        PartScan { present: true, nonempty: true, numeric: false, value: 0 }
    }
}

pub open spec fn url_step(s: UrlScan, b: u8) -> UrlScan {
    if !s.colon {
        if b == COLON {
            UrlScan { colon: true, ..s }
        } else {
            s
        }
    } else if b == SLASH {
        let n = if s.slashes < 5 { (s.slashes + 1) as u8 } else { 5u8 };
        UrlScan {
            slashes: n,
            first: if n == 3 { opened_part() } else { s.first },
            second: if n == 4 { opened_part() } else { s.second },
            ..s
        }
    } else if s.slashes == 3 {
        UrlScan { first: part_step(s.first, b), ..s }
    } else if s.slashes == 4 {
        UrlScan { second: part_step(s.second, b), ..s }
    } else {
        s
    }
}

pub open spec fn scan_start() -> UrlScan {
    UrlScan { colon: false, slashes: 0, first: absent_part(), second: absent_part() }
}

/// The scan of a whole URL.
pub open spec fn scan(u: Seq<u8>) -> UrlScan
    decreases u.len(),
{
    if u.len() == 0 {
        scan_start()
    } else {
        url_step(scan(u.drop_last()), u.last())
    }
}

/// The number a path part holds, or `default` where it is missing or no number.
pub open spec fn part_number(p: PartScan, default: u64) -> u64 {
    if p.present && p.nonempty && p.numeric {
        p.value
    } else {
        default
    }
}

/// Whether the URL's scheme is `name`: the URL starts with `name` and a colon.
pub open spec fn has_scheme(u: Seq<u8>, name: Seq<u8>) -> bool {
    u.len() > name.len() && u.subrange(0, name.len() as int) == name && u[name.len() as int] == COLON
}

fn start_part() -> (r: PartScan)
    ensures
        r == opened_part(),
{
    PartScan { present: true, nonempty: false, numeric: true, value: 0 }
}

fn step_part(p: PartScan, b: u8) -> (r: PartScan)
    ensures
        r == part_step(p, b),
{
    if p.numeric && 48 <= b && b <= 57 && p.value <= (u64::MAX - (b - 48) as u64) / 10 {
        PartScan { present: true, nonempty: true, numeric: true, value: p.value * 10 + (b - 48) as u64 }
    } else {
        proof {
            if p.numeric && is_digit(b) {
                assert(p.value * 10 + (b - 48) > u64::MAX) by (nonlinear_arith)
                    requires
                        p.value > (u64::MAX - (b - 48) as u64) / 10,
                        0 <= b - 48 <= 9,
                ;
            }
        }
        PartScan { present: true, nonempty: true, numeric: false, value: 0 }
    }
}

fn step_url(s: UrlScan, b: u8) -> (r: UrlScan)
    ensures
        r == url_step(s, b),
{
    if !s.colon {
        if b == COLON {
            UrlScan { colon: true, ..s }
        } else {
            s
        }
    } else if b == SLASH {
        let n: u8 = if s.slashes < 5 { s.slashes + 1 } else { 5 };
        UrlScan {
            slashes: n,
            first: if n == 3 { start_part() } else { s.first },
            second: if n == 4 { start_part() } else { s.second },
            ..s
        }
    } else if s.slashes == 3 {
        UrlScan { first: step_part(s.first, b), ..s }
    } else if s.slashes == 4 {
        UrlScan { second: step_part(s.second, b), ..s }
    } else {
        s
    }
}

/// Scans a URL.
pub fn scan_url(url: &[u8]) -> (r: UrlScan)
    ensures
        r == scan(url@),
{
    let mut s = UrlScan {
        colon: false,
        slashes: 0,
        first: PartScan { present: false, nonempty: false, numeric: false, value: 0 },
        second: PartScan { present: false, nonempty: false, numeric: false, value: 0 },
    };
    let mut i: usize = 0;
    while i < url.len()
        invariant
            i <= url@.len(),
            s == scan(url@.subrange(0, i as int)),
        decreases url@.len() - i,
    {
        proof {
            let next = url@.subrange(0, i + 1);
            assert(next.drop_last() =~= url@.subrange(0, i as int));
        }
        s = step_url(s, url[i]);
        i += 1;
    }
    proof {
        assert(url@.subrange(0, i as int) =~= url@);
    }
    s
}

/// The number in a scanned path part, or `default`.
pub fn number_or(p: PartScan, default: u64) -> (r: u64)
    ensures
        r == part_number(p, default),
{
    if p.present && p.nonempty && p.numeric {
        p.value
    } else {
        default
    }
}

/// Whether the URL's scheme is `name`.
pub fn matches_scheme(url: &[u8], name: &[u8]) -> (r: bool)
    ensures
        r == has_scheme(url@, name@),
{
    if url.len() <= name.len() {
        return false;
    }
    let mut i: usize = 0;
    while i < name.len()
        invariant
            i <= name@.len(),
            name@.len() < url@.len(),
            url@.subrange(0, i as int) == name@.subrange(0, i as int),
        decreases name@.len() - i,
    {
        if url[i] != name[i] {
            proof {
                assert(url@.subrange(0, name@.len() as int)[i as int] != name@[i as int]);
            }
            return false;
        }
        proof {
            assert(url@.subrange(0, i + 1) =~= url@.subrange(0, i as int).push(url@[i as int]));
            assert(name@.subrange(0, i + 1) =~= name@.subrange(0, i as int).push(name@[i as int]));
        }
        i += 1;
    }
    proof {
        assert(name@.subrange(0, name@.len() as int) =~= name@);
    }
    url[name.len()] == COLON
}

} // verus!
