//! Character-level text toolkit: every operation is specified over the
//! `Seq<char>` view of the strings it reads and writes.

use vstd::prelude::*;

verus! {

broadcast use vstd::string::group_string_axioms;

pub open spec fn is_ascii_lower(c: char) -> bool {
    'a' <= c && c <= 'z'
}

pub open spec fn is_ascii_upper(c: char) -> bool {
    'A' <= c && c <= 'Z'
}

pub open spec fn is_ascii_digit(c: char) -> bool {
    '0' <= c && c <= '9'
}

pub open spec fn is_ascii_alnum(c: char) -> bool {
    is_ascii_lower(c) || is_ascii_upper(c) || is_ascii_digit(c)
}

/// Unicode `White_Space` (what `char::is_whitespace` tests).
pub open spec fn is_ws(c: char) -> bool {
    ||| ('\u{9}' <= c && c <= '\u{d}')
    ||| c == ' '
    ||| c == '\u{85}'
    ||| c == '\u{a0}'
    ||| c == '\u{1680}'
    ||| ('\u{2000}' <= c && c <= '\u{200a}')
    ||| c == '\u{2028}'
    ||| c == '\u{2029}'
    ||| c == '\u{202f}'
    ||| c == '\u{205f}'
    ||| c == '\u{3000}'
}

/// Unicode general category `Cc` (what `char::is_control` tests).
pub open spec fn is_control(c: char) -> bool {
    c <= '\u{1f}' || ('\u{7f}' <= c && c <= '\u{9f}')
}

pub open spec fn lower_char(c: char) -> char {
    if is_ascii_upper(c) { ((c as u32) + 32) as char } else { c }
}

pub open spec fn upper_char(c: char) -> char {
    if is_ascii_lower(c) { ((c as u32) - 32) as char } else { c }
}

pub open spec fn lower(s: Seq<char>) -> Seq<char> {
    s.map_values(|c: char| lower_char(c))
}

pub open spec fn upper(s: Seq<char>) -> Seq<char> {
    s.map_values(|c: char| upper_char(c))
}

pub fn is_ws_exec(c: char) -> (r: bool)
    ensures r == is_ws(c),
{
    ('\u{9}' <= c && c <= '\u{d}') || c == ' ' || c == '\u{85}' || c == '\u{a0}'
        || c == '\u{1680}' || ('\u{2000}' <= c && c <= '\u{200a}') || c == '\u{2028}'
        || c == '\u{2029}' || c == '\u{202f}' || c == '\u{205f}' || c == '\u{3000}'
}

pub fn is_control_exec(c: char) -> (r: bool)
    ensures r == is_control(c),
{
    c <= '\u{1f}' || ('\u{7f}' <= c && c <= '\u{9f}')
}

pub fn is_ascii_alnum_exec(c: char) -> (r: bool)
    ensures r == is_ascii_alnum(c),
{
    ('a' <= c && c <= 'z') || ('A' <= c && c <= 'Z') || ('0' <= c && c <= '9')
}

pub fn lower_char_exec(c: char) -> (r: char)
    ensures r == lower_char(c),
{
    if 'A' <= c && c <= 'Z' {
        let b: u8 = (c as u32 + 32) as u8;
        b as char
    } else {
        c
    }
}

pub fn upper_char_exec(c: char) -> (r: char)
    ensures r == upper_char(c),
{
    if 'a' <= c && c <= 'z' {
        let b: u8 = (c as u32 - 32) as u8;
        b as char
    } else {
        c
    }
}

/// Appends one character to a `String` (`String::push`).
#[verifier::external_body]
pub fn push_char(s: &mut String, c: char)
    ensures final(s)@ == old(s)@.push(c),
{
    s.push(c);
}

/// String slice equality.
pub fn str_eq(a: &str, b: &str) -> (r: bool)
    ensures
        r == (a@ == b@),
{
    let x = chars_of(a);
    let y = chars_of(b);
    eq_chars(&x, &y)
}

/// The characters of `s`, in order.
pub fn chars_of(s: &str) -> (v: Vec<char>)
    ensures v@ == s@,
{
    let mut v: Vec<char> = Vec::new();
    for c in it: s.chars()
        invariant
            v@ == it.seq().take(it.index() as int),
    {
        v.push(c);
    }
    v
}

/// A `String` holding exactly the characters of `v`.
pub fn string_of(v: &[char]) -> (s: String)
    ensures s@ == v@,
{
    let mut s = String::new();
    let mut i: usize = 0;
    while i < v.len()
        invariant
            i <= v@.len(),
            s@ == v@.take(i as int),
        decreases v@.len() - i,
    {
        push_char(&mut s, v[i]);
        i = i + 1;
        assert(s@ =~= v@.take(i as int));
    }
    assert(v@.take(v@.len() as int) =~= v@);
    s
}

/// The characters `s[from..to]`.
pub fn slice(s: &[char], from: usize, to: usize) -> (r: Vec<char>)
    requires
        from <= to <= s@.len(),
    ensures
        r@ == s@.subrange(from as int, to as int),
{
    let mut r: Vec<char> = Vec::new();
    let mut i: usize = from;
    while i < to
        invariant
            from <= i <= to <= s@.len(),
            r@ == s@.subrange(from as int, i as int),
        decreases to - i,
    {
        r.push(s[i]);
        i = i + 1;
        assert(r@ =~= s@.subrange(from as int, i as int));
    }
    r
}

pub fn eq_chars(a: &[char], b: &[char]) -> (r: bool)
    ensures r == (a@ == b@),
{
    if a.len() != b.len() {
        return false;
    }
    let mut i: usize = 0;
    while i < a.len()
        invariant
            a@.len() == b@.len(),
            i <= a@.len(),
            forall|k: int| 0 <= k < i ==> a@[k] == b@[k],
        decreases a@.len() - i,
    {
        if a[i] != b[i] {
            return false;
        }
        i = i + 1;
    }
    assert(a@ =~= b@);
    true
}

/// Whether `str` equals the literal `lit`, character by character.
pub fn eq_str(a: &[char], lit: &str) -> (r: bool)
    ensures r == (a@ == lit@),
{
    let l = chars_of(lit);
    eq_chars(a, &l)
}

pub open spec fn occurs_at(s: Seq<char>, p: Seq<char>, i: int) -> bool {
    0 <= i && i + p.len() <= s.len() && s.subrange(i, i + p.len()) == p
}

/// The first position at or after `i` where `p` occurs in `s`.
pub open spec fn find_from(s: Seq<char>, p: Seq<char>, i: int) -> Option<int>
    decreases s.len() + 1 - i,
{
    if i < 0 || i + p.len() > s.len() {
        None
    } else if occurs_at(s, p, i) {
        Some(i)
    } else {
        find_from(s, p, i + 1)
    }
}

pub open spec fn find(s: Seq<char>, p: Seq<char>) -> Option<int> {
    find_from(s, p, 0)
}

pub open spec fn contains(s: Seq<char>, p: Seq<char>) -> bool {
    find(s, p) is Some
}

pub open spec fn starts_with(s: Seq<char>, p: Seq<char>) -> bool {
    p.len() <= s.len() && s.take(p.len() as int) == p
}

pub open spec fn ends_with(s: Seq<char>, p: Seq<char>) -> bool {
    p.len() <= s.len() && s.skip(s.len() - p.len()) == p
}

pub proof fn lemma_find_from(s: Seq<char>, p: Seq<char>, i: int)
    requires
        0 <= i,
    ensures
        find_from(s, p, i) matches Some(k) ==> i <= k && occurs_at(s, p, k) && forall|j: int|
            i <= j < k ==> !occurs_at(s, p, j),
        find_from(s, p, i) is None ==> forall|j: int| i <= j ==> !occurs_at(s, p, j),
    decreases s.len() + 1 - i,
{
    if i + p.len() > s.len() {
    } else if occurs_at(s, p, i) {
    } else {
        lemma_find_from(s, p, i + 1);
    }
}

pub proof fn lemma_contains(s: Seq<char>, p: Seq<char>)
    ensures
        contains(s, p) <==> exists|j: int| occurs_at(s, p, j),
{
    lemma_find_from(s, p, 0);
    if contains(s, p) {
        let k = find(s, p)->0;
        assert(occurs_at(s, p, k));
    }
}

/// Whether `p` occurs in `s` at position `i`.
pub fn matches_at(s: &[char], p: &[char], i: usize) -> (r: bool)
    ensures
        r == occurs_at(s@, p@, i as int),
{
    if i > s.len() || p.len() > s.len() - i {
        return false;
    }
    let mut j: usize = 0;
    while j < p.len()
        invariant
            i + p@.len() <= s@.len(),
            s@.len() <= usize::MAX,
            j <= p@.len(),
            forall|k: int| 0 <= k < j ==> s@[i + k] == p@[k],
        decreases p@.len() - j,
    {
        if s[i + j] != p[j] {
            assert(s@.subrange(i as int, i + p@.len())[j as int] != p@[j as int]);
            return false;
        }
        j = j + 1;
    }
    assert(s@.subrange(i as int, i + p@.len()) =~= p@);
    true
}

/// The first position at or after `from` where `p` occurs in `s`.
pub fn find_exec(s: &[char], p: &[char], from: usize) -> (r: Option<usize>)
    ensures
        r matches Some(k) ==> find_from(s@, p@, from as int) == Some(k as int),
        r is None ==> find_from(s@, p@, from as int) is None,
{
    let mut i = from;
    while i <= s.len() && p.len() <= s.len() - i
        invariant
            from <= i,
            find_from(s@, p@, from as int) == find_from(s@, p@, i as int),
        decreases s@.len() + 1 - i,
    {
        if matches_at(s, p, i) {
            return Some(i);
        }
        assert(i < s@.len()) by {
            if i == s@.len() {
                assert(s@.subrange(i as int, i as int) =~= p@);
            }
        }
        i = i + 1;
    }
    None
}

pub fn contains_exec(s: &[char], p: &[char]) -> (r: bool)
    ensures
        r == contains(s@, p@),
{
    find_exec(s, p, 0).is_some()
}

/// Whether the literal `lit` occurs in `s`.
pub fn contains_str(s: &[char], lit: &str) -> (r: bool)
    ensures
        r == contains(s@, lit@),
{
    let p = chars_of(lit);
    contains_exec(s, &p)
}

pub fn starts_with_exec(s: &[char], p: &[char]) -> (r: bool)
    ensures
        r == starts_with(s@, p@),
{
    let r = matches_at(s, p, 0);
    assert(r ==> s@.take(p@.len() as int) =~= s@.subrange(0, p@.len() as int));
    assert(starts_with(s@, p@) ==> s@.take(p@.len() as int) =~= s@.subrange(0, p@.len() as int));
    r
}

pub fn starts_with_str(s: &[char], lit: &str) -> (r: bool)
    ensures
        r == starts_with(s@, lit@),
{
    let p = chars_of(lit);
    starts_with_exec(s, &p)
}

pub fn ends_with_exec(s: &[char], p: &[char]) -> (r: bool)
    ensures
        r == ends_with(s@, p@),
{
    if p.len() > s.len() {
        return false;
    }
    let start = s.len() - p.len();
    let r = matches_at(s, p, start);
    assert(s@.skip(start as int) =~= s@.subrange(start as int, start + p@.len()));
    r
}

pub fn ends_with_str(s: &[char], lit: &str) -> (r: bool)
    ensures
        r == ends_with(s@, lit@),
{
    let p = chars_of(lit);
    ends_with_exec(s, &p)
}


/// `occurs_at` read against a suffix of `s`.
pub proof fn lemma_occurs_shift(s: Seq<char>, p: Seq<char>, a: int, j: int)
    requires
        0 <= a <= s.len(),
        0 <= j,
    ensures
        occurs_at(s, p, a + j) == occurs_at(s.skip(a), p, j),
{
    if a + j + p.len() <= s.len() {
        assert(s.subrange(a + j, a + j + p.len()) =~= s.skip(a).subrange(j, j + p.len()));
    }
}

/// Searching from `a + j` in `s` is searching from `j` in `s[a..]`.
pub proof fn lemma_find_shift(s: Seq<char>, p: Seq<char>, a: int, j: int)
    requires
        0 <= a <= s.len(),
        0 <= j,
    ensures
        find_from(s, p, a + j) == (match find_from(s.skip(a), p, j) {
            Some(k) => Some(k + a),
            None => None,
        }),
    decreases s.len() + 1 - (a + j),
{
    lemma_occurs_shift(s, p, a, j);
    if a + j + p.len() > s.len() {
    } else if occurs_at(s, p, a + j) {
    } else {
        lemma_find_shift(s, p, a, j + 1);
        assert(a + (j + 1) == a + j + 1);
    }
}

/// `s` split around the first occurrence of `p`.
pub open spec fn split_once(s: Seq<char>, p: Seq<char>) -> Option<(Seq<char>, Seq<char>)> {
    match find(s, p) {
        Some(i) => Some((s.take(i), s.skip(i + p.len()))),
        None => None,
    }
}

pub fn split_once_exec(s: &[char], p: &[char]) -> (r: Option<(Vec<char>, Vec<char>)>)
    ensures
        r matches Some((a, b)) ==> split_once(s@, p@) == Some((a@, b@)),
        r is None ==> split_once(s@, p@) is None,
{
    let n = s.len();
    match find_exec(s, p, 0) {
        Some(i) => {
            proof {
                lemma_find_from(s@, p@, 0);
            }
            let a = slice(s, 0, i);
            let b = slice(s, i + p.len(), n);
            assert(a@ =~= s@.take(i as int));
            assert(b@ =~= s@.skip(i + p@.len()));
            Some((a, b))
        },
        None => None,
    }
}

pub fn split_once_str(s: &[char], lit: &str) -> (r: Option<(Vec<char>, Vec<char>)>)
    ensures
        r matches Some((a, b)) ==> split_once(s@, lit@) == Some((a@, b@)),
        r is None ==> split_once(s@, lit@) is None,
{
    let p = chars_of(lit);
    split_once_exec(s, &p)
}

/// The last position at or before `i` where `p` occurs in `s`.
pub open spec fn rfind_upto(s: Seq<char>, p: Seq<char>, i: int) -> Option<int>
    decreases i + 1,
{
    if i < 0 {
        None
    } else if occurs_at(s, p, i) {
        Some(i)
    } else {
        rfind_upto(s, p, i - 1)
    }
}

pub open spec fn rsplit_once(s: Seq<char>, p: Seq<char>) -> Option<(Seq<char>, Seq<char>)> {
    match rfind_upto(s, p, s.len() - p.len()) {
        Some(i) => Some((s.take(i), s.skip(i + p.len()))),
        None => None,
    }
}

pub proof fn lemma_rfind_upto(s: Seq<char>, p: Seq<char>, i: int)
    ensures
        rfind_upto(s, p, i) matches Some(k) ==> 0 <= k <= i && occurs_at(s, p, k),
    decreases i + 1,
{
    if i >= 0 && !occurs_at(s, p, i) {
        lemma_rfind_upto(s, p, i - 1);
    }
}

pub fn rsplit_once_str(s: &[char], lit: &str) -> (r: Option<(Vec<char>, Vec<char>)>)
    ensures
        r matches Some((a, b)) ==> rsplit_once(s@, lit@) == Some((a@, b@)),
        r is None ==> rsplit_once(s@, lit@) is None,
{
    let p = chars_of(lit);
    if p.len() > s.len() {
        assert(rfind_upto(s@, p@, s@.len() - p@.len()) is None);
        return None;
    }
    let mut i: usize = s.len() - p.len();
    loop
        invariant
            i + p@.len() <= s@.len(),
            s@.len() <= usize::MAX,
            p@ == lit@,
            rfind_upto(s@, p@, s@.len() - p@.len()) == rfind_upto(s@, p@, i as int),
        decreases i,
    {
        if matches_at(&s, &p, i) {
            proof {
                lemma_rfind_upto(s@, p@, i as int);
            }
            let a = slice(s, 0, i);
            let b = slice(s, i + p.len(), s.len());
            assert(a@ =~= s@.take(i as int));
            assert(b@ =~= s@.skip(i + p@.len()));
            return Some((a, b));
        }
        if i == 0 {
            assert(rfind_upto(s@, p@, i as int) == rfind_upto(s@, p@, -1));
            return None;
        }
        i = i - 1;
    }
}

/// First index at or after `i` whose character is not whitespace, or `s.len()`.
pub open spec fn non_ws_from(s: Seq<char>, i: int) -> int
    decreases s.len() - i,
{
    if i < 0 || i >= s.len() || !is_ws(s[i]) {
        i
    } else {
        non_ws_from(s, i + 1)
    }
}

/// One past the last non-whitespace character at or before `j`, or 0.
pub open spec fn non_ws_back(s: Seq<char>, j: int) -> int
    decreases j,
{
    if j <= 0 || j > s.len() || !is_ws(s[j - 1]) {
        j
    } else {
        non_ws_back(s, j - 1)
    }
}

pub open spec fn trim_start(s: Seq<char>) -> Seq<char> {
    s.skip(non_ws_from(s, 0))
}

pub open spec fn trim_end(s: Seq<char>) -> Seq<char> {
    s.take(non_ws_back(s, s.len() as int))
}

pub open spec fn trim(s: Seq<char>) -> Seq<char> {
    trim_end(trim_start(s))
}

pub proof fn lemma_non_ws_from(s: Seq<char>, i: int)
    requires
        0 <= i <= s.len(),
    ensures
        i <= non_ws_from(s, i) <= s.len(),
        forall|k: int| i <= k < non_ws_from(s, i) ==> is_ws(s[k]),
        non_ws_from(s, i) < s.len() ==> !is_ws(s[non_ws_from(s, i)]),
    decreases s.len() - i,
{
    if i < s.len() && is_ws(s[i]) {
        lemma_non_ws_from(s, i + 1);
    }
}

pub proof fn lemma_non_ws_back(s: Seq<char>, j: int)
    requires
        0 <= j <= s.len(),
    ensures
        0 <= non_ws_back(s, j) <= j,
        forall|k: int| non_ws_back(s, j) <= k < j ==> is_ws(s[k]),
        non_ws_back(s, j) > 0 ==> !is_ws(s[non_ws_back(s, j) - 1]),
    decreases j,
{
    if j > 0 && is_ws(s[j - 1]) {
        lemma_non_ws_back(s, j - 1);
    }
}

pub fn trim_start_exec(s: &[char]) -> (r: Vec<char>)
    ensures
        r@ == trim_start(s@),
{
    let mut i: usize = 0;
    while i < s.len() && is_ws_exec(s[i])
        invariant
            i <= s@.len(),
            non_ws_from(s@, 0) == non_ws_from(s@, i as int),
        decreases s@.len() - i,
    {
        i = i + 1;
    }
    slice(s, i, s.len())
}

pub fn trim_end_exec(s: &[char]) -> (r: Vec<char>)
    ensures
        r@ == trim_end(s@),
{
    let mut j: usize = s.len();
    while j > 0 && is_ws_exec(s[j - 1])
        invariant
            j <= s@.len(),
            non_ws_back(s@, s@.len() as int) == non_ws_back(s@, j as int),
        decreases j,
    {
        j = j - 1;
    }
    slice(s, 0, j)
}

pub fn trim_exec(s: &[char]) -> (r: Vec<char>)
    ensures
        r@ == trim(s@),
{
    let t = trim_start_exec(s);
    trim_end_exec(&t)
}

/// First index at or after `i` whose character is not in `set`, or `s.len()`.
pub open spec fn not_in_from(s: Seq<char>, set: Seq<char>, i: int) -> int
    decreases s.len() - i,
{
    if i < 0 || i >= s.len() || !set.contains(s[i]) {
        i
    } else {
        not_in_from(s, set, i + 1)
    }
}

/// One past the last character not in `set` at or before `j`, or 0.
pub open spec fn not_in_back(s: Seq<char>, set: Seq<char>, j: int) -> int
    decreases j,
{
    if j <= 0 || j > s.len() || !set.contains(s[j - 1]) {
        j
    } else {
        not_in_back(s, set, j - 1)
    }
}

pub open spec fn trim_start_set(s: Seq<char>, set: Seq<char>) -> Seq<char> {
    s.skip(not_in_from(s, set, 0))
}

pub open spec fn trim_end_set(s: Seq<char>, set: Seq<char>) -> Seq<char> {
    s.take(not_in_back(s, set, s.len() as int))
}

pub open spec fn trim_set(s: Seq<char>, set: Seq<char>) -> Seq<char> {
    trim_end_set(trim_start_set(s, set), set)
}

pub proof fn lemma_not_in_from(s: Seq<char>, set: Seq<char>, i: int)
    requires
        0 <= i <= s.len(),
    ensures
        i <= not_in_from(s, set, i) <= s.len(),
    decreases s.len() - i,
{
    if i < s.len() && set.contains(s[i]) {
        lemma_not_in_from(s, set, i + 1);
    }
}

pub proof fn lemma_not_in_back(s: Seq<char>, set: Seq<char>, j: int)
    requires
        0 <= j <= s.len(),
    ensures
        0 <= not_in_back(s, set, j) <= j,
    decreases j,
{
    if j > 0 && set.contains(s[j - 1]) {
        lemma_not_in_back(s, set, j - 1);
    }
}

pub fn in_set(set: &[char], c: char) -> (r: bool)
    ensures
        r == set@.contains(c),
{
    let mut i: usize = 0;
    while i < set.len()
        invariant
            i <= set@.len(),
            forall|k: int| 0 <= k < i ==> set@[k] != c,
        decreases set@.len() - i,
    {
        if set[i] == c {
            assert(set@[i as int] == c);
            return true;
        }
        i = i + 1;
    }
    false
}

pub fn trim_start_set_exec(s: &[char], set: &[char]) -> (r: Vec<char>)
    ensures
        r@ == trim_start_set(s@, set@),
{
    let mut i: usize = 0;
    while i < s.len() && in_set(set, s[i])
        invariant
            i <= s@.len(),
            not_in_from(s@, set@, 0) == not_in_from(s@, set@, i as int),
        decreases s@.len() - i,
    {
        i = i + 1;
    }
    slice(s, i, s.len())
}

pub fn trim_end_set_exec(s: &[char], set: &[char]) -> (r: Vec<char>)
    ensures
        r@ == trim_end_set(s@, set@),
{
    let mut j: usize = s.len();
    while j > 0 && in_set(set, s[j - 1])
        invariant
            j <= s@.len(),
            not_in_back(s@, set@, s@.len() as int) == not_in_back(s@, set@, j as int),
        decreases j,
    {
        j = j - 1;
    }
    slice(s, 0, j)
}

pub fn trim_set_exec(s: &[char], set: &[char]) -> (r: Vec<char>)
    ensures
        r@ == trim_set(s@, set@),
{
    let t = trim_start_set_exec(s, set);
    trim_end_set_exec(&t, set)
}

/// `s` with every leading repetition of `p` removed (`trim_start_matches` on a string).
pub open spec fn trim_start_str(s: Seq<char>, p: Seq<char>) -> Seq<char>
    decreases s.len(),
{
    if p.len() > 0 && starts_with(s, p) {
        trim_start_str(s.skip(p.len() as int), p)
    } else {
        s
    }
}

pub fn trim_start_str_exec(s: &[char], lit: &str) -> (r: Vec<char>)
    ensures
        r@ == trim_start_str(s@, lit@),
{
    let p = chars_of(lit);
    let mut i: usize = 0;
    assert(s@.skip(0) =~= s@);
    loop
        invariant
            i <= s@.len(),
            p@ == lit@,
            trim_start_str(s@, p@) == trim_start_str(s@.skip(i as int), p@),
        decreases s@.len() - i,
    {
        let rest = slice(s, i, s.len());
        assert(rest@ =~= s@.skip(i as int));
        if p.len() > 0 && starts_with_exec(&rest, &p) {
            assert(s@.skip(i as int).skip(p@.len() as int) =~= s@.skip(i + p@.len()));
            i = i + p.len();
        } else {
            assert(trim_start_str(rest@, p@) == rest@);
            return rest;
        }
    }
}

/// `s` with the prefix `p` removed, when `s` starts with `p`.
pub open spec fn strip_prefix(s: Seq<char>, p: Seq<char>) -> Option<Seq<char>> {
    if starts_with(s, p) {
        Some(s.skip(p.len() as int))
    } else {
        None
    }
}

pub fn strip_prefix_str(s: &[char], lit: &str) -> (r: Option<Vec<char>>)
    ensures
        r matches Some(v) ==> strip_prefix(s@, lit@) == Some(v@),
        r is None ==> strip_prefix(s@, lit@) is None,
{
    let p = chars_of(lit);
    if starts_with_exec(s, &p) {
        let v = slice(s, p.len(), s.len());
        assert(v@ =~= s@.skip(p@.len() as int));
        Some(v)
    } else {
        None
    }
}

pub fn lower_exec(s: &[char]) -> (r: Vec<char>)
    ensures
        r@ == lower(s@),
{
    let mut r: Vec<char> = Vec::new();
    let mut i: usize = 0;
    while i < s.len()
        invariant
            i <= s@.len(),
            r@ =~= lower(s@.take(i as int)),
        decreases s@.len() - i,
    {
        let c = lower_char_exec(s[i]);
        r.push(c);
        i = i + 1;
        assert(r@ =~= lower(s@.take(i as int)));
    }
    assert(s@.take(s@.len() as int) =~= s@);
    r
}

pub fn upper_exec(s: &[char]) -> (r: Vec<char>)
    ensures
        r@ == upper(s@),
{
    let mut r: Vec<char> = Vec::new();
    let mut i: usize = 0;
    while i < s.len()
        invariant
            i <= s@.len(),
            r@ =~= upper(s@.take(i as int)),
        decreases s@.len() - i,
    {
        let c = upper_char_exec(s[i]);
        r.push(c);
        i = i + 1;
        assert(r@ =~= upper(s@.take(i as int)));
    }
    assert(s@.take(s@.len() as int) =~= s@);
    r
}


pub open spec fn newline() -> Seq<char> {
    seq!['\n']
}

/// A line without the `\r` of a `\r\n` ending.
pub open spec fn strip_cr(l: Seq<char>) -> Seq<char> {
    if l.len() > 0 && l.last() == '\r' {
        l.drop_last()
    } else {
        l
    }
}

/// The lines of `s` as `str::lines` yields them: split at `\n`, a `\r`
/// before the `\n` dropped, and no empty line after a final `\n`.
pub open spec fn lines(s: Seq<char>) -> Seq<Seq<char>>
    decreases s.len(),
{
    if s.len() == 0 {
        Seq::empty()
    } else {
        match find(s, newline()) {
            Some(i) => {
                proof {
                    lemma_find_from(s, newline(), 0);
                }
                seq![strip_cr(s.take(i))] + lines(s.skip(i + 1))
            },
            None => seq![s],
        }
    }
}

pub open spec fn views(v: Seq<Vec<char>>) -> Seq<Seq<char>> {
    v.map_values(|x: Vec<char>| x@)
}

fn strip_cr_exec(l: Vec<char>) -> (r: Vec<char>)
    ensures
        r@ == strip_cr(l@),
{
    let mut l = l;
    if l.len() > 0 && l[l.len() - 1] == '\r' {
        l.pop();
    }
    l
}

pub fn lines_exec(s: &[char]) -> (r: Vec<Vec<char>>)
    ensures
        views(r@) == lines(s@),
{
    let n = s.len();
    let mut nl: Vec<char> = Vec::new();
    nl.push('\n');
    assert(nl@ =~= newline());
    let mut out: Vec<Vec<char>> = Vec::new();
    let mut start: usize = 0;
    assert(s@.skip(0) =~= s@);
    while start < n
        invariant
            n == s@.len(),
            start <= n,
            nl@ == newline(),
            lines(s@) == views(out@) + lines(s@.skip(start as int)),
        decreases n - start,
    {
        let ghost rest = s@.skip(start as int);
        proof {
            lemma_find_shift(s@, newline(), start as int, 0);
            lemma_find_from(s@, newline(), start as int);
        }
        let ghost prev = out@;
        match find_exec(s, &nl, start) {
            Some(i) => {
                let line = strip_cr_exec(slice(s, start, i));
                assert(rest.take(i - start) =~= s@.subrange(start as int, i as int));
                assert(rest.skip(i - start + 1) =~= s@.skip(i + 1));
                assert(lines(rest) == seq![line@] + lines(s@.skip(i + 1)));
                out.push(line);
                assert(views(out@) =~= views(prev).push(line@));
                assert(views(prev) + (seq![line@] + lines(s@.skip(i + 1))) =~= views(out@)
                    + lines(s@.skip(i + 1)));
                start = i + 1;
            },
            None => {
                let line = slice(s, start, n);
                assert(line@ =~= rest);
                assert(lines(rest) == seq![line@]);
                out.push(line);
                assert(views(out@) =~= views(prev).push(line@));
                assert(s@.skip(n as int) =~= Seq::<char>::empty());
                assert(views(prev) + seq![line@] =~= views(out@) + lines(s@.skip(n as int)));
                start = n;
            },
        }
    }
    assert(s@.skip(n as int) =~= Seq::<char>::empty());
    assert(views(out@) + lines(s@.skip(n as int)) =~= views(out@));
    out
}

/// First index at or after `i` whose character is whitespace, or `s.len()`.
pub open spec fn ws_from(s: Seq<char>, i: int) -> int
    decreases s.len() - i,
{
    if i < 0 || i >= s.len() || is_ws(s[i]) {
        i
    } else {
        ws_from(s, i + 1)
    }
}

pub proof fn lemma_ws_from(s: Seq<char>, i: int)
    requires
        0 <= i <= s.len(),
    ensures
        i <= ws_from(s, i) <= s.len(),
        forall|k: int| i <= k < ws_from(s, i) ==> !is_ws(s[k]),
    decreases s.len() - i,
{
    if i < s.len() && !is_ws(s[i]) {
        lemma_ws_from(s, i + 1);
    }
}

/// The first whitespace-separated word of `s` (`split_whitespace().next()`).
pub open spec fn first_word(s: Seq<char>) -> Option<Seq<char>> {
    let t = trim_start(s);
    if t.len() == 0 {
        None
    } else {
        Some(t.take(ws_from(t, 0)))
    }
}

pub fn first_word_exec(s: &[char]) -> (r: Option<Vec<char>>)
    ensures
        r matches Some(w) ==> first_word(s@) == Some(w@),
        r is None ==> first_word(s@) is None,
{
    let t = trim_start_exec(s);
    if t.len() == 0 {
        return None;
    }
    let mut j: usize = 0;
    while j < t.len() && !is_ws_exec(t[j])
        invariant
            j <= t@.len(),
            ws_from(t@, 0) == ws_from(t@, j as int),
        decreases t@.len() - j,
    {
        j = j + 1;
    }
    let w = slice(&t, 0, j);
    assert(w@ =~= t@.take(j as int));
    Some(w)
}

/// The part of `s` before the first occurrence of `p` (`split(p).next()`).
pub open spec fn before_first(s: Seq<char>, p: Seq<char>) -> Seq<char> {
    match split_once(s, p) {
        Some((a, _)) => a,
        None => s,
    }
}

/// The second `p`-separated field of `s` (`split(p).nth(1)`).
pub open spec fn second_field(s: Seq<char>, p: Seq<char>) -> Option<Seq<char>> {
    match split_once(s, p) {
        Some((_, rest)) => Some(before_first(rest, p)),
        None => None,
    }
}

pub fn before_first_str(s: &[char], lit: &str) -> (r: Vec<char>)
    ensures
        r@ == before_first(s@, lit@),
{
    match split_once_str(s, lit) {
        Some((a, _)) => a,
        None => {
            let mut v: Vec<char> = Vec::new();
            v.extend_from_slice(s);
            assert(v@ =~= s@);
            v
        },
    }
}

pub fn second_field_str(s: &[char], lit: &str) -> (r: Option<Vec<char>>)
    ensures
        r matches Some(w) ==> second_field(s@, lit@) == Some(w@),
        r is None ==> second_field(s@, lit@) is None,
{
    match split_once_str(s, lit) {
        Some((_, rest)) => Some(before_first_str(&rest, lit)),
        None => None,
    }
}

/// `s` with each occurrence of `p` (left to right, not overlapping) replaced by `r`.
pub open spec fn replace(s: Seq<char>, p: Seq<char>, r: Seq<char>) -> Seq<char>
    decreases s.len(),
{
    if p.len() == 0 {
        s
    } else {
        match find(s, p) {
            Some(i) => {
                proof {
                    lemma_find_from(s, p, 0);
                }
                s.take(i) + r + replace(s.skip(i + p.len()), p, r)
            },
            None => s,
        }
    }
}

pub fn append(v: &mut Vec<char>, w: &[char])
    ensures
        final(v)@ == old(v)@ + w@,
{
    v.extend_from_slice(w);
}

pub fn append_str(v: &mut Vec<char>, lit: &str)
    ensures
        final(v)@ == old(v)@ + lit@,
{
    let w = chars_of(lit);
    v.extend_from_slice(&w);
}

pub fn replace_str(s: &[char], pat: &str, with: &str) -> (r: Vec<char>)
    requires
        pat@.len() > 0,
    ensures
        r@ == replace(s@, pat@, with@),
{
    let p = chars_of(pat);
    let w = chars_of(with);
    let n = s.len();
    let mut out: Vec<char> = Vec::new();
    let mut start: usize = 0;
    assert(s@.skip(0) =~= s@);
    loop
        invariant
            n == s@.len(),
            start <= n,
            p@ == pat@,
            w@ == with@,
            p@.len() > 0,
            replace(s@, p@, w@) == out@ + replace(s@.skip(start as int), p@, w@),
        decreases n - start,
    {
        let ghost rest = s@.skip(start as int);
        proof {
            lemma_find_shift(s@, p@, start as int, 0);
            lemma_find_from(s@, p@, start as int);
        }
        match find_exec(s, &p, start) {
            Some(i) => {
                let piece = slice(s, start, i);
                assert(rest.take(i - start) =~= piece@);
                assert(rest.skip(i - start + p@.len()) =~= s@.skip(i + p@.len()));
                let ghost prev = out@;
                append(&mut out, &piece);
                append(&mut out, &w);
                assert(prev + (piece@ + w@ + replace(s@.skip(i + p@.len()), p@, w@)) =~= out@
                    + replace(s@.skip(i + p@.len()), p@, w@));
                start = i + p.len();
            },
            None => {
                let piece = slice(s, start, n);
                assert(piece@ =~= rest);
                append(&mut out, &piece);
                return out;
            },
        }
    }
}

/// `s` without the characters that belong to `set`.
pub open spec fn remove_set(s: Seq<char>, set: Seq<char>) -> Seq<char>
    decreases s.len(),
{
    if s.len() == 0 {
        s
    } else if set.contains(s.last()) {
        remove_set(s.drop_last(), set)
    } else {
        remove_set(s.drop_last(), set).push(s.last())
    }
}

pub fn remove_set_exec(s: &[char], set: &[char]) -> (r: Vec<char>)
    ensures
        r@ == remove_set(s@, set@),
{
    let mut out: Vec<char> = Vec::new();
    let mut i: usize = 0;
    assert(s@.take(0) =~= Seq::<char>::empty());
    while i < s.len()
        invariant
            i <= s@.len(),
            out@ == remove_set(s@.take(i as int), set@),
        decreases s@.len() - i,
    {
        assert(s@.take(i + 1).drop_last() =~= s@.take(i as int));
        if !in_set(set, s[i]) {
            out.push(s[i]);
        }
        i = i + 1;
    }
    assert(s@.take(s@.len() as int) =~= s@);
    out
}

pub open spec fn digit_char(d: nat) -> char {
    ((d + 48) as u32) as char
}

/// Decimal digits of `n`, most significant first.
pub open spec fn decimal(n: nat) -> Seq<char>
    decreases n,
{
    if n < 10 {
        seq![digit_char(n)]
    } else {
        decimal(n / 10).push(digit_char(n % 10))
    }
}

pub fn decimal_exec(n: u64) -> (r: Vec<char>)
    ensures
        r@ == decimal(n as nat),
    decreases n,
{
    let d: u8 = (n % 10) as u8;
    let c: char = (d + 48) as char;
    if n < 10 {
        let mut v: Vec<char> = Vec::new();
        v.push(c);
        assert(v@ =~= seq![digit_char(n as nat)]);
        v
    } else {
        let mut v = decimal_exec(n / 10);
        v.push(c);
        v
    }
}


/// Lexicographic order on characters (the order of `String`'s `Ord`).
pub open spec fn seq_lt(a: Seq<char>, b: Seq<char>) -> bool
    decreases a.len(),
{
    if a.len() == 0 {
        b.len() > 0
    } else if b.len() == 0 {
        false
    } else if a[0] != b[0] {
        a[0] < b[0]
    } else {
        seq_lt(a.drop_first(), b.drop_first())
    }
}

pub proof fn lemma_seq_lt_irreflexive(a: Seq<char>)
    ensures
        !seq_lt(a, a),
    decreases a.len(),
{
    if a.len() > 0 {
        lemma_seq_lt_irreflexive(a.drop_first());
    }
}

pub proof fn lemma_seq_lt_total(a: Seq<char>, b: Seq<char>)
    ensures
        a == b || seq_lt(a, b) || seq_lt(b, a),
        !(seq_lt(a, b) && seq_lt(b, a)),
    decreases a.len(),
{
    if a.len() > 0 && b.len() > 0 && a[0] == b[0] {
        lemma_seq_lt_total(a.drop_first(), b.drop_first());
        if a.drop_first() == b.drop_first() {
            assert(a =~= seq![a[0]] + a.drop_first());
            assert(b =~= seq![b[0]] + b.drop_first());
        }
    } else if a.len() == 0 && b.len() == 0 {
        assert(a =~= b);
    }
}

pub proof fn lemma_seq_lt_transitive(a: Seq<char>, b: Seq<char>, c: Seq<char>)
    requires
        seq_lt(a, b),
        seq_lt(b, c),
    ensures
        seq_lt(a, c),
    decreases a.len(),
{
    if a.len() > 0 && b.len() > 0 && c.len() > 0 && a[0] == b[0] && b[0] == c[0] {
        lemma_seq_lt_transitive(a.drop_first(), b.drop_first(), c.drop_first());
    }
}

pub fn lt_chars(a: &[char], b: &[char]) -> (r: bool)
    ensures
        r == seq_lt(a@, b@),
{
    let mut i: usize = 0;
    assert(a@.skip(0) =~= a@);
    assert(b@.skip(0) =~= b@);
    loop
        invariant
            i <= a@.len(),
            i <= b@.len(),
            seq_lt(a@, b@) == seq_lt(a@.skip(i as int), b@.skip(i as int)),
        decreases a@.len() - i,
    {
        if i == a.len() {
            return i < b.len();
        }
        if i == b.len() {
            return false;
        }
        if a[i] != b[i] {
            return a[i] < b[i];
        }
        assert(a@.skip(i as int).drop_first() =~= a@.skip(i + 1));
        assert(b@.skip(i as int).drop_first() =~= b@.skip(i + 1));
        i = i + 1;
    }
}

pub open spec fn strings_view(v: Seq<String>) -> Seq<Seq<char>> {
    v.map_values(|s: String| s@)
}

/// Strictly increasing in `seq_lt`, hence free of duplicates.
pub open spec fn sorted_strict(v: Seq<Seq<char>>) -> bool {
    forall|i: int, j: int| 0 <= i < j < v.len() ==> seq_lt(#[trigger] v[i], #[trigger] v[j])
}

/// In a strictly sorted list, the first element precedes every other.
proof fn lemma_sorted_first_least(a: Seq<Seq<char>>, x: Seq<char>)
    requires
        sorted_strict(a),
        a.len() > 0,
        a.contains(x),
    ensures
        x == a[0] || seq_lt(a[0], x),
{
    let k = choose|k: int| 0 <= k < a.len() && a[k] == x;
    if k > 0 {
        assert(seq_lt(a[0], a[k]));
    }
}

/// Two strictly sorted lists with the same elements are the same list.
pub proof fn lemma_sorted_unique(a: Seq<Seq<char>>, b: Seq<Seq<char>>)
    requires
        sorted_strict(a),
        sorted_strict(b),
        a.to_set() == b.to_set(),
    ensures
        a == b,
    decreases a.len(),
{
    if a.len() == 0 {
        if b.len() > 0 {
            assert(b.to_set().contains(b[0]));
        }
        assert(a =~= b);
    } else if b.len() == 0 {
        assert(a.to_set().contains(a[0]));
    } else {
        assert(a.to_set().contains(a[0]));
        assert(b.to_set().contains(b[0]));
        lemma_sorted_first_least(b, a[0]);
        lemma_sorted_first_least(a, b[0]);
        if a[0] != b[0] {
            lemma_seq_lt_transitive(a[0], b[0], a[0]);
            lemma_seq_lt_irreflexive(a[0]);
        }
        let a1 = a.drop_first();
        let b1 = b.drop_first();
        assert forall|x: Seq<char>| a1.to_set().contains(x) == b1.to_set().contains(x) by {
            if a1.contains(x) {
                let k = choose|k: int| 0 <= k < a1.len() && a1[k] == x;
                assert(a[k + 1] == x);
                assert(seq_lt(a[0], a[k + 1]));
                lemma_seq_lt_irreflexive(x);
                assert(a.to_set().contains(x));
                assert(b.contains(x));
                let j = choose|j: int| 0 <= j < b.len() && b[j] == x;
                assert(j != 0);
                assert(b1[j - 1] == x);
            }
            if b1.contains(x) {
                let k = choose|k: int| 0 <= k < b1.len() && b1[k] == x;
                assert(b[k + 1] == x);
                assert(seq_lt(b[0], b[k + 1]));
                lemma_seq_lt_irreflexive(x);
                assert(b.to_set().contains(x));
                assert(a.contains(x));
                let j = choose|j: int| 0 <= j < a.len() && a[j] == x;
                assert(j != 0);
                assert(a1[j - 1] == x);
            }
        }
        assert(a1.to_set() =~= b1.to_set());
        assert forall|i: int, j: int| 0 <= i < j < a1.len() implies seq_lt(#[trigger] a1[i], #[trigger] a1[j]) by {
            assert(a1[i] == a[i + 1] && a1[j] == a[j + 1]);
        }
        assert forall|i: int, j: int| 0 <= i < j < b1.len() implies seq_lt(#[trigger] b1[i], #[trigger] b1[j]) by {
            assert(b1[i] == b[i + 1] && b1[j] == b[j + 1]);
        }
        lemma_sorted_unique(a1, b1);
        assert(a =~= seq![a[0]] + a1);
        assert(b =~= seq![b[0]] + b1);
    }
}

/// The strictly sorted list of the elements of a finite set of strings.
pub open spec fn sorted_list(s: Set<Seq<char>>) -> Seq<Seq<char>> {
    choose|l: Seq<Seq<char>>| sorted_strict(l) && l.to_set() == s
}

/// A strictly sorted list is the sorted list of its elements.
pub proof fn lemma_sorted_list(l: Seq<Seq<char>>)
    requires
        sorted_strict(l),
    ensures
        sorted_list(l.to_set()) == l,
{
    let c = sorted_list(l.to_set());
    assert(sorted_strict(c) && c.to_set() == l.to_set());
    lemma_sorted_unique(c, l);
}

/// Inserts `x` into a strictly sorted list of strings, keeping it strictly
/// sorted; returns whether `x` was absent.
pub fn sorted_insert(v: &mut Vec<String>, x: String) -> (added: bool)
    requires
        sorted_strict(strings_view(old(v)@)),
    ensures
        sorted_strict(strings_view(final(v)@)),
        strings_view(final(v)@).to_set() == strings_view(old(v)@).to_set().insert(x@),
        added == !strings_view(old(v)@).contains(x@),
{
    let xc = chars_of(x.as_str());
    let ghost old_v = strings_view(v@);
    let mut j: usize = 0;
    while j < v.len()
        invariant
            j <= v@.len(),
            xc@ == x@,
            strings_view(v@) == old_v,
            sorted_strict(old_v),
            forall|i: int| 0 <= i < j ==> seq_lt(#[trigger] old_v[i], x@),
        ensures
            j <= v@.len(),
            j < v@.len() ==> !seq_lt(old_v[j as int], x@),
        decreases v@.len() - j,
    {
        let cj = chars_of(v[j].as_str());
        if !lt_chars(&cj, &xc) {
            break;
        }
        j = j + 1;
    }
    if j < v.len() {
        let cj = chars_of(v[j].as_str());
        if eq_chars(&cj, &xc) {
            assert(old_v[j as int] == x@);
            assert(old_v.contains(x@));
            assert(old_v.to_set().insert(x@) =~= old_v.to_set());
            return false;
        }
    }
    proof {
        if j < old_v.len() {
            lemma_seq_lt_total(old_v[j as int], x@);
        }
        assert forall|k: int| j <= k < old_v.len() implies seq_lt(x@, #[trigger] old_v[k]) by {
            if k > j {
                lemma_seq_lt_transitive(x@, old_v[j as int], old_v[k]);
            }
        }
        assert forall|i: int| 0 <= i < old_v.len() implies old_v[i] != x@ by {
            lemma_seq_lt_irreflexive(x@);
        }
    }
    v.insert(j, x);
    let ghost new_v = strings_view(v@);
    assert(new_v =~= old_v.insert(j as int, x@));
    proof {
        assert forall|a: int, b: int| 0 <= a < b < new_v.len() implies seq_lt(
            #[trigger] new_v[a],
            #[trigger] new_v[b],
        ) by {
            if b < j {
            } else if b == j {
            } else if a < j {
                assert(new_v[b] == old_v[b - 1]);
                lemma_seq_lt_transitive(new_v[a], x@, new_v[b]);
            } else if a == j {
                assert(new_v[b] == old_v[b - 1]);
            } else {
                assert(new_v[a] == old_v[a - 1] && new_v[b] == old_v[b - 1]);
            }
        }
        assert forall|s: Seq<char>| new_v.to_set().contains(s) == old_v.to_set().insert(x@).contains(s) by {
            if new_v.contains(s) {
                let k = choose|k: int| 0 <= k < new_v.len() && new_v[k] == s;
                if k < j {
                    assert(old_v[k] == s);
                } else if k > j {
                    assert(old_v[k - 1] == s);
                }
            }
            if old_v.contains(s) {
                let k = choose|k: int| 0 <= k < old_v.len() && old_v[k] == s;
                if k < j {
                    assert(new_v[k] == s);
                } else {
                    assert(new_v[k + 1] == s);
                }
            }
            if s == x@ {
                assert(new_v[j as int] == s);
            }
        }
        assert(new_v.to_set() =~= old_v.to_set().insert(x@));
    }
    true
}

/// Whether `x` is in a list of strings.
pub fn contains_string(v: &Vec<String>, x: &str) -> (r: bool)
    ensures
        r == strings_view(v@).contains(x@),
{
    let xc = chars_of(x);
    let mut i: usize = 0;
    while i < v.len()
        invariant
            i <= v@.len(),
            xc@ == x@,
            forall|k: int| 0 <= k < i ==> v@[k]@ != x@,
        decreases v@.len() - i,
    {
        let c = chars_of(v[i].as_str());
        if eq_chars(&c, &xc) {
            assert(strings_view(v@)[i as int] == x@);
            return true;
        }
        i = i + 1;
    }
    assert forall|k: int| 0 <= k < strings_view(v@).len() implies strings_view(v@)[k] != x@ by {
        assert(strings_view(v@)[k] == v@[k]@);
    }
    false
}


/// `a` then `x` then `b`, as a `String`.
pub fn msg3(a: &str, x: &[char], b: &str) -> (r: String)
    ensures
        r@ == a@ + x@ + b@,
{
    let mut m = chars_of(a);
    append(&mut m, x);
    append_str(&mut m, b);
    string_of(&m)
}

/// `a x b y c`, as a `String`.
pub fn msg5(a: &str, x: &[char], b: &str, y: &[char], c: &str) -> (r: String)
    ensures
        r@ == a@ + x@ + b@ + y@ + c@,
{
    let mut m = chars_of(a);
    append(&mut m, x);
    append_str(&mut m, b);
    append(&mut m, y);
    append_str(&mut m, c);
    string_of(&m)
}

/// `a x b y c z d`, as a `String`.
pub fn msg7(a: &str, x: &[char], b: &str, y: &[char], c: &str, z: &[char], d: &str) -> (r: String)
    ensures
        r@ == a@ + x@ + b@ + y@ + c@ + z@ + d@,
{
    let mut m = chars_of(a);
    append(&mut m, x);
    append_str(&mut m, b);
    append(&mut m, y);
    append_str(&mut m, c);
    append(&mut m, z);
    append_str(&mut m, d);
    string_of(&m)
}

pub fn string_chars(s: &String) -> (r: Vec<char>)
    ensures
        r@ == s@,
{
    chars_of(s.as_str())
}

/// The parts joined by `sep`.
pub open spec fn joined(parts: Seq<Seq<char>>, sep: Seq<char>) -> Seq<char>
    decreases parts.len(),
{
    if parts.len() == 0 {
        Seq::empty()
    } else if parts.len() == 1 {
        parts[0]
    } else {
        joined(parts.drop_last(), sep) + sep + parts.last()
    }
}

pub fn join_strings(parts: &Vec<String>, sep: &str) -> (r: Vec<char>)
    ensures
        r@ == joined(strings_view(parts@), sep@),
{
    let ghost ps = strings_view(parts@);
    let mut out: Vec<char> = Vec::new();
    let mut i: usize = 0;
    while i < parts.len()
        invariant
            i <= ps.len(),
            ps == strings_view(parts@),
            out@ == joined(ps.take(i as int), sep@),
        decreases ps.len() - i,
    {
        assert(ps.take(i + 1).drop_last() =~= ps.take(i as int));
        if i > 0 {
            append_str(&mut out, sep);
        } else {
            assert(ps.take(1)[0] == ps[0]);
        }
        append(&mut out, &string_chars(&parts[i]));
        i = i + 1;
    }
    assert(ps.take(ps.len() as int) =~= ps);
    out
}

} // verus!
