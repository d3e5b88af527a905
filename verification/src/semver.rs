//! `MAJOR.MINOR.PATCH` version numbers as ontology packs use them.

use crate::text::{before_first, chars_of, contains, contains_str, is_ascii_digit, slice, split_once, split_once_str};
use vstd::prelude::*;

verus! {

pub open spec fn digit_value(c: char) -> nat {
    ((c as int) - ('0' as int)) as nat
}

/// The number written by the decimal digits `s`.
pub open spec fn digits_value(s: Seq<char>) -> nat
    decreases s.len(),
{
    if s.len() == 0 {
        0
    } else {
        digits_value(s.drop_last()) * 10 + digit_value(s.last())
    }
}

pub open spec fn all_digits(s: Seq<char>) -> bool {
    forall|i: int| 0 <= i < s.len() ==> is_ascii_digit(#[trigger] s[i])
}

/// What `u64::from_str` accepts: an optional `+`, then one or more decimal
/// digits whose value fits in a `u64`.
pub open spec fn parse_u64(s: Seq<char>) -> Option<nat> {
    let d = if s.len() > 0 && s[0] == '+' {
        s.drop_first()
    } else {
        s
    };
    if d.len() > 0 && all_digits(d) && digits_value(d) <= u64::MAX {
        Some(digits_value(d))
    } else {
        None
    }
}

/// `v` read as exactly three `.`-separated `u64` numbers.
pub open spec fn semver(v: Seq<char>) -> Option<(nat, nat, nat)> {
    match split_once(v, "."@) {
        None => None,
        Some((a, rest)) => match split_once(rest, "."@) {
            None => None,
            Some((b, c)) => if contains(c, "."@) {
                None
            } else {
                match (parse_u64(a), parse_u64(b), parse_u64(c)) {
                    (Some(x), Some(y), Some(z)) => Some((x, y, z)),
                    _ => None,
                }
            },
        },
    }
}

proof fn lemma_digits_monotone(s: Seq<char>, k: int)
    requires
        0 <= k <= s.len(),
    ensures
        digits_value(s.take(k)) <= digits_value(s),
    decreases s.len(),
{
    if k < s.len() {
        lemma_digits_monotone(s.drop_last(), k);
        assert(s.drop_last().take(k) =~= s.take(k));
        assert(s.take(s.len() as int) =~= s);
    } else {
        assert(s.take(k) =~= s);
    }
}

fn parse_digits(d: &[char]) -> (r: Option<u64>)
    ensures
        r matches Some(n) ==> d@.len() > 0 && all_digits(d@) && digits_value(d@) == n,
        r is None ==> !(d@.len() > 0 && all_digits(d@) && digits_value(d@) <= u64::MAX),
{
    if d.len() == 0 {
        return None;
    }
    let mut value: u64 = 0;
    let mut i: usize = 0;
    assert(d@.take(0) =~= Seq::<char>::empty());
    while i < d.len()
        invariant
            i <= d@.len(),
            value == digits_value(d@.take(i as int)),
            all_digits(d@.take(i as int)),
        decreases d@.len() - i,
    {
        let c = d[i];
        if !('0' <= c && c <= '9') {
            assert(!is_ascii_digit(d@[i as int]));
            return None;
        }
        let digit: u64 = (c as u32 - '0' as u32) as u64;
        assert(d@.take(i + 1).drop_last() =~= d@.take(i as int));
        if value > (u64::MAX - digit) / 10 {
            assert(value * 10 + digit > u64::MAX) by (nonlinear_arith)
                requires
                    value > (u64::MAX - digit) / 10,
                    digit <= 9,
            ;
            proof {
                lemma_digits_monotone(d@, i + 1);
            }
            return None;
        }
        assert(value * 10 + digit <= u64::MAX) by (nonlinear_arith)
            requires
                value <= (u64::MAX - digit) / 10,
                digit <= 9,
        ;
        value = value * 10 + digit;
        i = i + 1;
    }
    assert(d@.take(d@.len() as int) =~= d@);
    Some(value)
}

/// `u64::from_str` on the characters `s`.
pub fn parse_u64_exec(s: &[char]) -> (r: Option<u64>)
    ensures
        r matches Some(n) ==> parse_u64(s@) == Some(n as nat),
        r is None ==> parse_u64(s@) is None,
{
    if s.len() > 0 && s[0] == '+' {
        let d = slice(s, 1, s.len());
        assert(d@ =~= s@.drop_first());
        parse_digits(&d)
    } else {
        parse_digits(s)
    }
}

pub fn parse_simple_semver(value: &str) -> (r: Option<(u64, u64, u64)>)
    ensures
        r matches Some((x, y, z)) ==> semver(value@) == Some((x as nat, y as nat, z as nat)),
        r is None ==> semver(value@) is None,
{
    let v = chars_of(value);
    let (a, rest) = split_once_str(&v, ".")?;
    let (b, c) = split_once_str(&rest, ".")?;
    if contains_str(&c, ".") {
        return None;
    }
    let major = parse_u64_exec(&a)?;
    let minor = parse_u64_exec(&b)?;
    let patch = parse_u64_exec(&c)?;
    Some((major, minor, patch))
}

pub fn is_simple_semver(value: &str) -> (r: bool)
    ensures
        r == semver(value@) is Some,
{
    parse_simple_semver(value).is_some()
}

/// How two versions compare.
#[derive(Debug, Clone, Copy, PartialEq, Eq, Structural)]
pub enum VersionOrder {
    Less,
    Equal,
    Greater,
}

pub open spec fn triple_order(l: (nat, nat, nat), r: (nat, nat, nat)) -> VersionOrder {
    if l == r {
        VersionOrder::Equal
    } else if l.0 < r.0 || (l.0 == r.0 && (l.1 < r.1 || (l.1 == r.1 && l.2 < r.2))) {
        VersionOrder::Less
    } else {
        VersionOrder::Greater
    }
}

/// The order of two versions, when both are `MAJOR.MINOR.PATCH`.
pub open spec fn semver_order(left: Seq<char>, right: Seq<char>) -> Option<VersionOrder> {
    match (semver(left), semver(right)) {
        (Some(l), Some(r)) => Some(triple_order(l, r)),
        _ => None,
    }
}

pub fn compare_semver(left: &str, right: &str) -> (r: Option<VersionOrder>)
    ensures
        r == semver_order(left@, right@),
{
    let l = parse_simple_semver(left)?;
    let r = parse_simple_semver(right)?;
    if l.0 == r.0 && l.1 == r.1 && l.2 == r.2 {
        Some(VersionOrder::Equal)
    } else if l.0 < r.0 || (l.0 == r.0 && (l.1 < r.1 || (l.1 == r.1 && l.2 < r.2))) {
        Some(VersionOrder::Less)
    } else {
        Some(VersionOrder::Greater)
    }
}

} // verus!
