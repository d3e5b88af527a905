//! Human-readable graph stable keys: `<family>:<identifier>`.

use crate::text::{find, lemma_find_from, occurs_at, chars_of, is_ascii_digit, is_ascii_lower, is_control, is_control_exec, is_ws, is_ws_exec, split_once, split_once_str, append_str, append, string_of};
use vstd::prelude::*;

verus! {

#[derive(Debug, Clone, Copy, PartialEq, Eq, Structural)]
pub enum StableKeyError {
    Missing,
    MissingSeparator,
    EmptyPrefix,
    InvalidPrefix,
    EmptyBody,
    InvalidBody,
}

pub open spec fn prefix_char(c: char) -> bool {
    is_ascii_lower(c) || is_ascii_digit(c) || c == '-'
}

/// A family prefix: lowercase kebab-case, starting with a letter, no empty
/// segment (no `--`, no trailing `-`).
pub open spec fn valid_prefix(p: Seq<char>) -> bool {
    &&& p.len() > 0
    &&& is_ascii_lower(p[0])
    &&& forall|i: int| 0 <= i < p.len() ==> prefix_char(#[trigger] p[i])
    &&& forall|i: int| 0 <= i < p.len() - 1 ==> !(#[trigger] p[i] == '-' && p[i + 1] == '-')
    &&& p.last() != '-'
}

/// An identifier body: non-empty, no whitespace and no control characters.
pub open spec fn valid_body(b: Seq<char>) -> bool {
    b.len() > 0 && forall|i: int| 0 <= i < b.len() ==> !is_ws(#[trigger] b[i]) && !is_control(b[i])
}

/// The outcome of validating `v`, checks taken in order: presence, the `:`
/// separator, the prefix (empty, then malformed), the body (empty, then malformed).
pub open spec fn stable_key_result(v: Seq<char>) -> Result<(), StableKeyError> {
    if v.len() == 0 {
        Err(StableKeyError::Missing)
    } else {
        match split_once(v, ":"@) {
            None => Err(StableKeyError::MissingSeparator),
            Some((prefix, body)) => if prefix.len() == 0 {
                Err(StableKeyError::EmptyPrefix)
            } else if !valid_prefix(prefix) {
                Err(StableKeyError::InvalidPrefix)
            } else if body.len() == 0 {
                Err(StableKeyError::EmptyBody)
            } else if !valid_body(body) {
                Err(StableKeyError::InvalidBody)
            } else {
                Ok(())
            },
        }
    }
}

/// Validate a human-readable graph stable key such as `spec:AUTH-001` or
/// `requirement:AUTH-001/REQ-001`.
pub fn validate_stable_key(value: &str) -> (r: Result<(), StableKeyError>)
    ensures
        r == stable_key_result(value@),
{
    let v = chars_of(value);
    if v.len() == 0 {
        return Err(StableKeyError::Missing);
    }
    let (prefix, body) = match split_once_str(&v, ":") {
        Some(parts) => parts,
        None => return Err(StableKeyError::MissingSeparator),
    };
    validate_prefix(&prefix)?;
    validate_body(&body)?;
    Ok(())
}

fn validate_prefix(prefix: &[char]) -> (r: Result<(), StableKeyError>)
    ensures
        r == (if prefix@.len() == 0 {
            Err(StableKeyError::EmptyPrefix)
        } else if !valid_prefix(prefix@) {
            Err(StableKeyError::InvalidPrefix)
        } else {
            Ok(())
        }),
{
    if prefix.len() == 0 {
        return Err(StableKeyError::EmptyPrefix);
    }
    let mut previous_was_dash = false;
    let mut index: usize = 0;
    while index < prefix.len()
        invariant
            0 < prefix@.len(),
            index <= prefix@.len(),
            is_ascii_lower(prefix@[0]) || index == 0,
            forall|i: int| 0 <= i < index ==> prefix_char(#[trigger] prefix@[i]),
            forall|i: int|
                0 <= i < index - 1 ==> !(#[trigger] prefix@[i] == '-' && prefix@[i + 1] == '-'),
            previous_was_dash == (index > 0 && prefix@[index - 1] == '-'),
        decreases prefix@.len() - index,
    {
        let ch = prefix[index];
        let valid = ('a' <= ch && ch <= 'z') || ('0' <= ch && ch <= '9') || ch == '-';
        if !valid {
            return Err(StableKeyError::InvalidPrefix);
        }
        if index == 0 && !('a' <= ch && ch <= 'z') {
            return Err(StableKeyError::InvalidPrefix);
        }
        if ch == '-' {
            if previous_was_dash {
                assert(prefix@[index - 1] == '-' && prefix@[index as int] == '-');
                return Err(StableKeyError::InvalidPrefix);
            }
            previous_was_dash = true;
        } else {
            previous_was_dash = false;
        }
        index = index + 1;
    }
    if previous_was_dash {
        return Err(StableKeyError::InvalidPrefix);
    }
    Ok(())
}

fn validate_body(body: &[char]) -> (r: Result<(), StableKeyError>)
    ensures
        r == (if body@.len() == 0 {
            Err(StableKeyError::EmptyBody)
        } else if !valid_body(body@) {
            Err(StableKeyError::InvalidBody)
        } else {
            Ok(())
        }),
{
    if body.len() == 0 {
        return Err(StableKeyError::EmptyBody);
    }
    let mut i: usize = 0;
    while i < body.len()
        invariant
            i <= body@.len(),
            forall|k: int| 0 <= k < i ==> !is_ws(#[trigger] body@[k]) && !is_control(body@[k]),
        decreases body@.len() - i,
    {
        if is_control_exec(body[i]) || is_ws_exec(body[i]) {
            return Err(StableKeyError::InvalidBody);
        }
        i = i + 1;
    }
    Ok(())
}

proof fn lemma_colon_split_of(v: Seq<char>, p: Seq<char>, b: Seq<char>)
    requires
        v == p + ":"@ + b,
        !p.contains(':'),
    ensures
        split_once(v, ":"@) == Some((p, b)),
{
    reveal_strlit(":");
    let colon = ":"@;
    let n = p.len() as int;
    lemma_find_from(v, colon, 0);
    assert(v.subrange(n, n + 1) =~= colon);
    assert(occurs_at(v, colon, n));
    assert forall|j: int| 0 <= j < n implies !occurs_at(v, colon, j) by {
        if occurs_at(v, colon, j) {
            assert(v.subrange(j, j + 1)[0] == v[j]);
            assert(p[j] == v[j]);
        }
    }
    assert(find(v, colon) == Some(n));
    assert(v.take(n) =~= p);
    assert(v.skip(n + 1) =~= b);
}

proof fn lemma_colon_split_parts(v: Seq<char>)
    requires
        split_once(v, ":"@) is Some,
    ensures
        ({
            let (p, b) = split_once(v, ":"@)->0;
            v == p + ":"@ + b && !p.contains(':')
        }),
{
    reveal_strlit(":");
    let colon = ":"@;
    lemma_find_from(v, colon, 0);
    let i = find(v, colon)->0;
    let p = v.take(i);
    let b = v.skip(i + 1);
    assert(v.subrange(i, i + 1) =~= colon);
    assert(v =~= p + colon + b);
    assert(!p.contains(':')) by {
        if p.contains(':') {
            let j = choose|j: int| 0 <= j < p.len() && p[j] == ':';
            assert(v.subrange(j, j + 1) =~= colon);
            assert(occurs_at(v, colon, j));
        }
    }
}

/// A key is accepted exactly when it reads `<prefix>:<body>` with a prefix
/// that holds no `:` and is lowercase kebab-case, and a non-empty body free of
/// whitespace and control characters.
pub proof fn stable_key_accepts_exactly(v: Seq<char>)
    ensures
        stable_key_result(v) is Ok <==> exists|p: Seq<char>, b: Seq<char>|
            v == p + ":"@ + b && !p.contains(':') && valid_prefix(p) && valid_body(b),
{
    if stable_key_result(v) is Ok {
        lemma_colon_split_parts(v);
        let (p, b) = split_once(v, ":"@)->0;
        assert(v == p + ":"@ + b && !p.contains(':') && valid_prefix(p) && valid_body(b));
    }
    if exists|p: Seq<char>, b: Seq<char>|
        v == p + ":"@ + b && !p.contains(':') && valid_prefix(p) && valid_body(b) {
        let (p, b) = choose|p: Seq<char>, b: Seq<char>|
            v == p + ":"@ + b && !p.contains(':') && valid_prefix(p) && valid_body(b);
        lemma_colon_split_of(v, p, b);
        assert(v.len() > 0);
    }
}

/// The remediation message of an error for the key `value`.
pub open spec fn message_view(e: StableKeyError, value: Seq<char>) -> Seq<char> {
    match e {
        StableKeyError::Missing => "Stable key is required; use `<family>:<identifier>`."@,
        StableKeyError::MissingSeparator => "Stable key `"@ + value
            + "` is invalid; expected `<family>:<identifier>`."@,
        StableKeyError::EmptyPrefix => "Stable key `"@ + value
            + "` is invalid; prefix before `:` cannot be empty."@,
        StableKeyError::InvalidPrefix => "Stable key `"@ + value
            + "` is invalid; prefix must be lowercase kebab-case."@,
        StableKeyError::EmptyBody => "Stable key `"@ + value
            + "` is invalid; identifier after `:` cannot be empty."@,
        StableKeyError::InvalidBody => "Stable key `"@ + value
            + "` is invalid; identifier cannot contain whitespace or control characters."@,
    }
}

impl StableKeyError {
    pub fn message(self, value: &str) -> (r: String)
        ensures
            r@ == message_view(self, value@),
    {
        let tail = match self {
            StableKeyError::Missing => {
                return String::from_str("Stable key is required; use `<family>:<identifier>`.");
            },
            StableKeyError::MissingSeparator => "` is invalid; expected `<family>:<identifier>`.",
            StableKeyError::EmptyPrefix => "` is invalid; prefix before `:` cannot be empty.",
            StableKeyError::InvalidPrefix => "` is invalid; prefix must be lowercase kebab-case.",
            StableKeyError::EmptyBody => "` is invalid; identifier after `:` cannot be empty.",
            StableKeyError::InvalidBody => "` is invalid; identifier cannot contain whitespace or control characters.",
        };
        let mut m = chars_of("Stable key `");
        let v = chars_of(value);
        append(&mut m, &v);
        append_str(&mut m, tail);
        string_of(&m)
    }
}

} // verus!
