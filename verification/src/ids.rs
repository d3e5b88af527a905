//! Deterministic graph identifiers derived from human-readable names.

use crate::text::{is_ascii_digit, is_ascii_lower, not_in_back, not_in_from, append, append_str, chars_of, is_ascii_alnum, is_ascii_alnum_exec, lower_char, lower_char_exec, string_of, trim_set, trim_set_exec};
use vstd::prelude::*;

verus! {

/// Lower-cased ASCII alphanumerics of `s`, each run of other characters
/// collapsed into one `sep`.
pub open spec fn collapse(s: Seq<char>, sep: char) -> Seq<char>
    decreases s.len(),
{
    if s.len() == 0 {
        s
    } else {
        let r = collapse(s.drop_last(), sep);
        let c = s.last();
        if is_ascii_alnum(c) {
            r.push(lower_char(c))
        } else if r.len() > 0 && r.last() == sep {
            r
        } else {
            r.push(sep)
        }
    }
}

/// `collapse` with separators `_`, trimmed of leading and trailing `_`.
pub open spec fn fragment_view(s: Seq<char>) -> Seq<char> {
    trim_set(collapse(s, '_'), seq!['_'])
}

/// `collapse` with separators `-`, trimmed of `-`; `unknown` when nothing is left.
pub open spec fn stable_view(s: Seq<char>) -> Seq<char> {
    let t = trim_set(collapse(s, '-'), seq!['-']);
    if t.len() == 0 {
        "unknown"@
    } else {
        t
    }
}

proof fn lemma_lower_alnum(c: char)
    requires
        is_ascii_alnum(c),
    ensures
        is_ascii_alnum(lower_char(c)),
{
}

pub fn collapse_exec(s: &[char], sep: char) -> (r: Vec<char>)
    requires
        !is_ascii_alnum(sep),
    ensures
        r@ == collapse(s@, sep),
{
    let mut out: Vec<char> = Vec::new();
    let mut last_was_separator = false;
    let mut i: usize = 0;
    assert(s@.take(0) =~= Seq::<char>::empty());
    while i < s.len()
        invariant
            i <= s@.len(),
            !is_ascii_alnum(sep),
            out@ == collapse(s@.take(i as int), sep),
            last_was_separator == (out@.len() > 0 && out@.last() == sep),
        decreases s@.len() - i,
    {
        assert(s@.take(i + 1).drop_last() =~= s@.take(i as int));
        let c = s[i];
        if is_ascii_alnum_exec(c) {
            let l = lower_char_exec(c);
            proof {
                lemma_lower_alnum(c);
            }
            out.push(l);
            last_was_separator = false;
        } else if !last_was_separator {
            out.push(sep);
            last_was_separator = true;
        }
        i = i + 1;
    }
    assert(s@.take(s@.len() as int) =~= s@);
    out
}

/// The `_`-separated fragment of `s`, as characters.
pub fn fragment_chars(s: &[char]) -> (r: Vec<char>)
    ensures
        r@ == fragment_view(s@),
{
    let c = collapse_exec(s, '_');
    let mut set: Vec<char> = Vec::new();
    set.push('_');
    assert(set@ =~= seq!['_']);
    trim_set_exec(&c, &set)
}

/// The `-`-separated fragment of `s`, as characters.
pub fn stable_chars(s: &[char]) -> (r: Vec<char>)
    ensures
        r@ == stable_view(s@),
{
    let c = collapse_exec(s, '-');
    let mut set: Vec<char> = Vec::new();
    set.push('-');
    assert(set@ =~= seq!['-']);
    let t = trim_set_exec(&c, &set);
    if t.len() == 0 {
        chars_of("unknown")
    } else {
        t
    }
}

/// Lower-case `_`-separated identifier fragment of `value`.
pub fn stable_fragment(value: &str) -> (r: String)
    ensures
        r@ == fragment_view(value@),
{
    let v = chars_of(value);
    string_of(&fragment_chars(&v))
}

/// A character a stable fragment may hold.
pub open spec fn stable_char(c: char) -> bool {
    is_ascii_lower(c) || is_ascii_digit(c) || c == '-'
}

/// A well-formed stable fragment: non-empty, lowercase ASCII letters, digits
/// and `-`, no `-` at either end and never two in a row.
pub open spec fn stable_shape(t: Seq<char>) -> bool {
    &&& t.len() > 0
    &&& forall|i: int| 0 <= i < t.len() ==> stable_char(#[trigger] t[i])
    &&& forall|i: int| 0 <= i < t.len() - 1 ==> !(#[trigger] t[i] == '-' && t[i + 1] == '-')
    &&& t[0] != '-'
    &&& t.last() != '-'
}

proof fn lemma_collapse_shape(s: Seq<char>)
    ensures
        forall|i: int| 0 <= i < collapse(s, '-').len() ==> stable_char(#[trigger] collapse(s, '-')[i]),
        forall|i: int|
            0 <= i < collapse(s, '-').len() - 1 ==> !(#[trigger] collapse(s, '-')[i] == '-' && collapse(s, '-')[i + 1]
                == '-'),
    decreases s.len(),
{
    if s.len() > 0 {
        lemma_collapse_shape(s.drop_last());
        let r = collapse(s.drop_last(), '-');
        let c = s.last();
        let out = collapse(s, '-');
        assert forall|i: int| 0 <= i < out.len() implies stable_char(#[trigger] out[i]) by {
            if i < r.len() {
                assert(out[i] == r[i]);
            }
        }
        assert forall|i: int| 0 <= i < out.len() - 1 implies !(#[trigger] out[i] == '-' && out[i + 1] == '-') by {
            if i < r.len() - 1 {
                assert(out[i] == r[i] && out[i + 1] == r[i + 1]);
            } else {
                assert(out[i] == r[i]);
                assert(r.last() == r[i]);
            }
        }
    }
}

proof fn lemma_collapse_fixed(t: Seq<char>)
    requires
        forall|i: int| 0 <= i < t.len() ==> stable_char(#[trigger] t[i]),
        forall|i: int| 0 <= i < t.len() - 1 ==> !(#[trigger] t[i] == '-' && t[i + 1] == '-'),
    ensures
        collapse(t, '-') == t,
    decreases t.len(),
{
    if t.len() > 0 {
        let init = t.drop_last();
        assert forall|i: int| 0 <= i < init.len() implies stable_char(#[trigger] init[i]) by {
            assert(init[i] == t[i]);
        }
        assert forall|i: int| 0 <= i < init.len() - 1 implies !(#[trigger] init[i] == '-' && init[i + 1] == '-') by {
            assert(init[i] == t[i] && init[i + 1] == t[i + 1]);
        }
        lemma_collapse_fixed(init);
        assert(t.last() == t[t.len() - 1]);
        assert(stable_char(t.last()));
        if t.len() > 1 {
            assert(init.last() == t[t.len() - 2]);
        }
        assert(init.push(t.last()) =~= t);
    }
}

proof fn lemma_not_in_from_stop(s: Seq<char>, set: Seq<char>, i: int)
    requires
        0 <= i <= s.len(),
    ensures
        not_in_from(s, set, i) < s.len() ==> !set.contains(s[not_in_from(s, set, i)]),
    decreases s.len() - i,
{
    if i < s.len() && set.contains(s[i]) {
        lemma_not_in_from_stop(s, set, i + 1);
    }
}

proof fn lemma_not_in_back_stop(s: Seq<char>, set: Seq<char>, j: int)
    requires
        0 <= j <= s.len(),
    ensures
        not_in_back(s, set, j) > 0 ==> !set.contains(s[not_in_back(s, set, j) - 1]),
    decreases j,
{
    if j > 0 && set.contains(s[j - 1]) {
        lemma_not_in_back_stop(s, set, j - 1);
    }
}

proof fn lemma_stable_view_shape(s: Seq<char>)
    ensures
        stable_shape(stable_view(s)),
{
    let set = seq!['-'];
    let c = collapse(s, '-');
    lemma_collapse_shape(s);
    crate::text::lemma_not_in_from(c, set, 0);
    lemma_not_in_from_stop(c, set, 0);
    let a = not_in_from(c, set, 0);
    let u = c.skip(a);
    crate::text::lemma_not_in_back(u, set, u.len() as int);
    lemma_not_in_back_stop(u, set, u.len() as int);
    let b = not_in_back(u, set, u.len() as int);
    let t = u.take(b);
    assert(trim_set(c, set) == t);
    if t.len() == 0 {
        reveal_strlit("unknown");
        let k = "unknown"@;
        assert(k =~= seq!['u', 'n', 'k', 'n', 'o', 'w', 'n']);
        assert forall|i: int| 0 <= i < k.len() implies stable_char(#[trigger] k[i]) by {}
    } else {
        assert forall|i: int| 0 <= i < t.len() implies stable_char(#[trigger] t[i]) by {
            assert(t[i] == c[a + i]);
        }
        assert forall|i: int| 0 <= i < t.len() - 1 implies !(#[trigger] t[i] == '-' && t[i + 1] == '-') by {
            assert(t[i] == c[a + i] && t[i + 1] == c[a + i + 1]);
        }
        assert(t[0] == c[a]);
        assert(!set.contains(c[a]));
        assert(t.last() == u[b - 1]);
        assert(!set.contains(u[b - 1]));
        assert(set[0] == '-');
    }
}

proof fn lemma_collapse_no_alnum(s: Seq<char>)
    requires
        forall|i: int| 0 <= i < s.len() ==> !is_ascii_alnum(#[trigger] s[i]),
    ensures
        forall|i: int| 0 <= i < collapse(s, '-').len() ==> #[trigger] collapse(s, '-')[i] == '-',
    decreases s.len(),
{
    if s.len() > 0 {
        let init = s.drop_last();
        assert forall|i: int| 0 <= i < init.len() implies !is_ascii_alnum(#[trigger] init[i]) by {
            assert(init[i] == s[i]);
        }
        lemma_collapse_no_alnum(init);
        assert(s.last() == s[s.len() - 1]);
        let r = collapse(init, '-');
        let out = collapse(s, '-');
        assert forall|i: int| 0 <= i < out.len() implies #[trigger] out[i] == '-' by {
            if i < r.len() {
                assert(out[i] == r[i]);
            }
        }
    }
}

proof fn lemma_not_in_from_all(s: Seq<char>, set: Seq<char>, i: int)
    requires
        0 <= i <= s.len(),
        forall|k: int| 0 <= k < s.len() ==> set.contains(#[trigger] s[k]),
    ensures
        not_in_from(s, set, i) == s.len(),
    decreases s.len() - i,
{
    if i < s.len() {
        lemma_not_in_from_all(s, set, i + 1);
    }
}

/// A value with no ASCII letter or digit has the fragment `unknown`.
pub proof fn stable_fragment_of_no_alnum(s: Seq<char>)
    requires
        forall|i: int| 0 <= i < s.len() ==> !is_ascii_alnum(#[trigger] s[i]),
    ensures
        stable_view(s) == "unknown"@,
{
    let set = seq!['-'];
    let c = collapse(s, '-');
    lemma_collapse_no_alnum(s);
    assert forall|k: int| 0 <= k < c.len() implies set.contains(#[trigger] c[k]) by {
        assert(set[0] == c[k]);
    }
    lemma_not_in_from_all(c, set, 0);
    let u = c.skip(c.len() as int);
    assert(u.len() == 0);
    crate::text::lemma_not_in_back(u, set, 0);
    assert(trim_set(c, set).len() == 0);
}

/// A stable fragment is non-empty, made of lowercase ASCII letters, digits and
/// `-`, with no `-` at either end and never two in a row (`unknown` where
/// nothing else is left); and taking the fragment of a fragment changes
/// nothing.
pub proof fn stable_fragments_are_canonical(s: Seq<char>)
    ensures
        stable_shape(stable_view(s)),
        stable_view(stable_view(s)) == stable_view(s),
{
    lemma_stable_view_shape(s);
    let t = stable_view(s);
    let set = seq!['-'];
    lemma_collapse_fixed(t);
    assert(!set.contains(t[0])) by {
        if set.contains(t[0]) {
            let k = choose|k: int| 0 <= k < set.len() && set[k] == t[0];
            assert(set[k] == '-');
        }
    }
    assert(not_in_from(t, set, 0) == 0);
    assert(t.skip(0) =~= t);
    assert(t.last() == t[t.len() - 1]);
    assert(!set.contains(t[t.len() - 1])) by {
        if set.contains(t[t.len() - 1]) {
            let k = choose|k: int| 0 <= k < set.len() && set[k] == t[t.len() - 1];
            assert(set[k] == '-');
        }
    }
    assert(not_in_back(t, set, t.len() as int) == t.len());
    assert(t.take(t.len() as int) =~= t);
    assert(trim_set(collapse(t, '-'), set) == t);
}

/// Lower-case `-`-separated identifier fragment of `value`, `unknown` when empty.
pub fn stable(value: &str) -> (r: String)
    ensures
        r@ == stable_view(value@),
{
    let v = chars_of(value);
    string_of(&stable_chars(&v))
}

/// `prefix`, then `_` and the `-` fragment of `part`.
pub fn push_stable_part(id: &mut Vec<char>, part: &str)
    ensures
        final(id)@ == old(id)@ + "_"@ + stable_view(part@),
{
    append_str(id, "_");
    let v = chars_of(part);
    let f = stable_chars(&v);
    append(id, &f);
}

pub fn push_fragment_part(id: &mut Vec<char>, part: &str)
    ensures
        final(id)@ == old(id)@ + "_"@ + fragment_view(part@),
{
    append_str(id, "_");
    let v = chars_of(part);
    let f = fragment_chars(&v);
    append(id, &f);
}

/// `prefix_{stable(a)}`.
pub fn stable_id1(prefix: &str, a: &str) -> (r: String)
    ensures
        r@ == prefix@ + "_"@ + stable_view(a@),
{
    let mut id = chars_of(prefix);
    push_stable_part(&mut id, a);
    string_of(&id)
}

/// `prefix_{stable(a)}_{stable(b)}`.
pub fn stable_id2(prefix: &str, a: &str, b: &str) -> (r: String)
    ensures
        r@ == prefix@ + "_"@ + stable_view(a@) + "_"@ + stable_view(b@),
{
    let mut id = chars_of(prefix);
    push_stable_part(&mut id, a);
    push_stable_part(&mut id, b);
    string_of(&id)
}

/// `prefix_{stable(a)}_{stable(b)}_{stable(c)}`.
pub fn stable_id3(prefix: &str, a: &str, b: &str, c: &str) -> (r: String)
    ensures
        r@ == prefix@ + "_"@ + stable_view(a@) + "_"@ + stable_view(b@) + "_"@ + stable_view(
            c@,
        ),
{
    let mut id = chars_of(prefix);
    push_stable_part(&mut id, a);
    push_stable_part(&mut id, b);
    push_stable_part(&mut id, c);
    string_of(&id)
}

/// `node_{fragment(kind)}_{fragment(value)}`: the node id scheme of the spec,
/// store, impact and adoption projections.
pub fn node_id(kind: &str, value: &str) -> (r: String)
    ensures
        r@ == "node"@ + "_"@ + fragment_view(kind@) + "_"@ + fragment_view(value@),
{
    let mut id = chars_of("node");
    push_fragment_part(&mut id, kind);
    push_fragment_part(&mut id, value);
    string_of(&id)
}

/// `node_{stable(kind)}_{stable(value)}`: the node id scheme of the data,
/// migration and module projections.
pub fn stable_node_id(kind: &str, value: &str) -> (r: String)
    ensures
        r@ == "node"@ + "_"@ + stable_view(kind@) + "_"@ + stable_view(value@),
{
    stable_id2("node", kind, value)
}

/// `edge_{stable(from)}_{stable(edge_type)}_{stable(to)}`.
pub fn stable_edge_id(from: &str, edge_type: &str, to: &str) -> (r: String)
    ensures
        r@ == "edge"@ + "_"@ + stable_view(from@) + "_"@ + stable_view(edge_type@) + "_"@
            + stable_view(to@),
{
    stable_id3("edge", from, edge_type, to)
}

} // verus!
