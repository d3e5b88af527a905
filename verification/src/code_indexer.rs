//! Lightweight, line-oriented source indexer: languages, frameworks,
//! symbols, imports and routes observed in a source file.

use crate::model::{Edge, EdgeV, Finding, FindingSeverity, GraphDelta, JsonV, JsonValue, Node, NodeV, findings_view, json_fields_view, no_related, opt_string_view, opt_text, push_attr, push_finding, push_opt, push_text};
use crate::ids::{fragment_chars, fragment_view, push_fragment_part};
use crate::text::{
    append, append_str, before_first, before_first_str, chars_of, contains, contains_str,
    ends_with, ends_with_str, eq_chars, eq_str, first_word, first_word_exec, is_ascii_alnum,
    is_ascii_digit, is_ws, is_ws_exec, lemma_non_ws_from, lines, lines_exec, lower, lower_exec,
    msg3, msg5, non_ws_from, replace, replace_str, second_field, second_field_str, slice,
    split_once, split_once_exec, split_once_str, starts_with, starts_with_str, string_chars,
    string_of, strip_prefix, strip_prefix_str, trim, trim_end_set, trim_end_set_exec, trim_exec,
    trim_start, trim_start_exec, trim_start_set, trim_start_set_exec, trim_start_str,
    trim_start_str_exec, upper, upper_exec, views,
};
use vstd::prelude::*;

verus! {

/// `line` up to the first occurrence of `marker` (`split_once(marker)`'s left part).
pub open spec fn strip_comment(line: Seq<char>, marker: Seq<char>) -> Seq<char> {
    before_first(line, marker)
}

fn strip_line_comment(line: &[char], marker: &str) -> (r: Vec<char>)
    ensures
        r@ == strip_comment(line@, marker@),
{
    before_first_str(line, marker)
}

pub open spec fn is_quote(c: char) -> bool {
    c == '\'' || c == '"'
}

/// First index at or after `i` holding a `'` or `"`, or `s.len()`.
pub open spec fn quote_from(s: Seq<char>, i: int) -> int
    decreases s.len() - i,
{
    if i < 0 || i >= s.len() || is_quote(s[i]) {
        i
    } else {
        quote_from(s, i + 1)
    }
}

proof fn lemma_quote_from(s: Seq<char>, i: int)
    requires
        0 <= i <= s.len(),
    ensures
        i <= quote_from(s, i) <= s.len(),
    decreases s.len() - i,
{
    if i < s.len() && !is_quote(s[i]) {
        lemma_quote_from(s, i + 1);
    }
}

/// The text between the first quote character (`'` or `"`) of `v` and the
/// next occurrence of that same character.
pub open spec fn quoted(v: Seq<char>) -> Option<Seq<char>> {
    let q = quote_from(v, 0);
    if q >= v.len() {
        None
    } else {
        let after = v.skip(q + 1);
        match find(after, seq![v[q]]) {
            Some(j) => Some(after.take(j)),
            None => None,
        }
    }
}

pub open spec fn find(s: Seq<char>, p: Seq<char>) -> Option<int> {
    crate::text::find(s, p)
}

fn quoted_value(value: &[char]) -> (r: Option<Vec<char>>)
    ensures
        r matches Some(v) ==> quoted(value@) == Some(v@),
        r is None ==> quoted(value@) is None,
{
    let mut q: usize = 0;
    while q < value.len() && !(value[q] == '\'' || value[q] == '"')
        invariant
            q <= value@.len(),
            quote_from(value@, 0) == quote_from(value@, q as int),
        decreases value@.len() - q,
    {
        q = q + 1;
    }
    if q >= value.len() {
        return None;
    }
    let after = slice(value, q + 1, value.len());
    assert(after@ =~= value@.skip(q + 1));
    let mut quote: Vec<char> = Vec::new();
    quote.push(value[q]);
    assert(quote@ =~= seq![value@[q as int]]);
    match split_once_exec(&after, &quote) {
        Some((inner, _)) => Some(inner),
        None => None,
    }
}

pub open spec fn is_ident_char(c: char) -> bool {
    is_ascii_alnum(c) || c == '_' || c == '$'
}

/// First index at or after `i` whose character is not an identifier character.
pub open spec fn ident_end(s: Seq<char>, i: int) -> int
    decreases s.len() - i,
{
    if i < 0 || i >= s.len() || !is_ident_char(s[i]) {
        i
    } else {
        ident_end(s, i + 1)
    }
}

proof fn lemma_ident_end(s: Seq<char>, i: int)
    requires
        0 <= i <= s.len(),
    ensures
        i <= ident_end(s, i) <= s.len(),
    decreases s.len() - i,
{
    if i < s.len() && is_ident_char(s[i]) {
        lemma_ident_end(s, i + 1);
    }
}

/// The leading identifier of `v` after any `*`/`&`, unless empty or starting with a digit.
pub open spec fn identifier(v: Seq<char>) -> Option<Seq<char>> {
    let t = trim_start_set(v, seq!['*', '&']);
    let id = t.take(ident_end(t, 0));
    if id.len() == 0 || is_ascii_digit(id[0]) {
        None
    } else {
        Some(id)
    }
}

fn clean_identifier(value: &[char]) -> (r: Option<Vec<char>>)
    ensures
        r matches Some(v) ==> identifier(value@) == Some(v@),
        r is None ==> identifier(value@) is None,
{
    let mut set: Vec<char> = Vec::new();
    set.push('*');
    set.push('&');
    assert(set@ =~= seq!['*', '&']);
    let t = trim_start_set_exec(value, &set);
    let mut j: usize = 0;
    while j < t.len() && (('a' <= t[j] && t[j] <= 'z') || ('A' <= t[j] && t[j] <= 'Z') || ('0'
        <= t[j] && t[j] <= '9') || t[j] == '_' || t[j] == '$')
        invariant
            j <= t@.len(),
            ident_end(t@, 0) == ident_end(t@, j as int),
        decreases t@.len() - j,
    {
        j = j + 1;
    }
    let id = slice(&t, 0, j);
    assert(id@ =~= t@.take(j as int));
    if id.len() == 0 || ('0' <= id[0] && id[0] <= '9') {
        None
    } else {
        Some(id)
    }
}

/// `value` after `keyword`, when the keyword stands alone (followed by
/// whitespace, `<` or nothing).
pub open spec fn after_keyword(value: Seq<char>, keyword: Seq<char>) -> Option<Seq<char>> {
    match strip_prefix(value, keyword) {
        None => None,
        Some(rest) => if rest.len() == 0 || is_ws(rest[0]) || rest[0] == '<' {
            Some(rest)
        } else {
            None
        },
    }
}

fn strip_leading_keyword(value: &[char], keyword: &str) -> (r: Option<Vec<char>>)
    ensures
        r matches Some(v) ==> after_keyword(value@, keyword@) == Some(v@),
        r is None ==> after_keyword(value@, keyword@) is None,
{
    let rest = strip_prefix_str(value, keyword)?;
    if rest.len() == 0 || is_ws_exec(rest[0]) || rest[0] == '<' {
        Some(rest)
    } else {
        None
    }
}

/// The identifier a declaration `keyword` introduces in `value`.
pub open spec fn identifier_after(value: Seq<char>, keyword: Seq<char>) -> Option<Seq<char>> {
    match after_keyword(value, keyword) {
        None => None,
        Some(r) => {
            let rest = trim_start(r);
            let rest2 = if keyword == "impl"@ && starts_with(rest, "<"@) {
                match split_once(rest, ">"@) {
                    Some((_, after)) => Some(trim_start(after)),
                    None => None,
                }
            } else {
                Some(rest)
            };
            match rest2 {
                None => None,
                Some(r2) => {
                    let r3 = match strip_prefix(r2, "r#"@) {
                        Some(x) => x,
                        None => r2,
                    };
                    identifier(r3)
                },
            }
        },
    }
}

fn identifier_after_keyword(value: &[char], keyword: &str) -> (r: Option<Vec<char>>)
    ensures
        r matches Some(v) ==> identifier_after(value@, keyword@) == Some(v@),
        r is None ==> identifier_after(value@, keyword@) is None,
{
    let stripped = strip_leading_keyword(value, keyword)?;
    let rest = trim_start_exec(&stripped);
    let kw = chars_of(keyword);
    let rest2 = if eq_str(&kw, "impl") && starts_with_str(&rest, "<") {
        let (_, after) = split_once_str(&rest, ">")?;
        trim_start_exec(&after)
    } else {
        rest
    };
    let rest3 = match strip_prefix_str(&rest2, "r#") {
        Some(x) => x,
        None => rest2,
    };
    clean_identifier(&rest3)
}

pub open spec fn lits(s: Seq<&'static str>) -> Seq<Seq<char>> {
    s.map_values(|x: &'static str| x@)
}

pub open spec fn all_nonempty(kws: Seq<Seq<char>>) -> bool {
    forall|i: int| 0 <= i < kws.len() ==> (#[trigger] kws[i]).len() > 0
}

/// `value` after the first keyword of `kws` that stands alone at its start.
pub open spec fn first_keyword_strip(value: Seq<char>, kws: Seq<Seq<char>>) -> Option<Seq<char>>
    decreases kws.len(),
{
    if kws.len() == 0 {
        None
    } else {
        match after_keyword(value, kws[0]) {
            Some(rest) => Some(rest),
            None => first_keyword_strip(value, kws.drop_first()),
        }
    }
}

pub proof fn lemma_first_keyword_strip(value: Seq<char>, kws: Seq<Seq<char>>)
    requires
        all_nonempty(kws),
    ensures
        first_keyword_strip(value, kws) matches Some(rest) ==> rest.len() < value.len(),
    decreases kws.len(),
{
    if kws.len() > 0 {
        assert(kws[0].len() > 0);
        if after_keyword(value, kws[0]) is None {
            assert forall|i: int| 0 <= i < kws.drop_first().len() implies (
            #[trigger] kws.drop_first()[i]).len() > 0 by {
                assert(kws.drop_first()[i] == kws[i + 1]);
            }
            lemma_first_keyword_strip(value, kws.drop_first());
        }
    }
}

pub proof fn lemma_trim_start_len(s: Seq<char>)
    ensures
        trim_start(s).len() <= s.len(),
{
    lemma_non_ws_from(s, 0);
}

/// `value` with leading modifier keywords of `kws` (and the whitespace after
/// each) removed, repeatedly.
pub open spec fn normalize_keywords(value: Seq<char>, kws: Seq<Seq<char>>) -> Seq<char>
    decreases value.len(),
{
    if !all_nonempty(kws) {
        value
    } else {
        match first_keyword_strip(value, kws) {
            Some(rest) => {
                proof {
                    lemma_first_keyword_strip(value, kws);
                    lemma_trim_start_len(rest);
                }
                normalize_keywords(trim_start(rest), kws)
            },
            None => value,
        }
    }
}

fn first_keyword_strip_exec(value: &[char], kws: &[&'static str]) -> (r: Option<Vec<char>>)
    ensures
        r matches Some(v) ==> first_keyword_strip(value@, lits(kws@)) == Some(v@),
        r is None ==> first_keyword_strip(value@, lits(kws@)) is None,
{
    let mut k: usize = 0;
    assert(lits(kws@).skip(0) =~= lits(kws@));
    while k < kws.len()
        invariant
            k <= kws@.len(),
            first_keyword_strip(value@, lits(kws@)) == first_keyword_strip(
                value@,
                lits(kws@).skip(k as int),
            ),
        decreases kws@.len() - k,
    {
        assert(lits(kws@).skip(k as int)[0] == kws@[k as int]@);
        assert(lits(kws@).skip(k as int).drop_first() =~= lits(kws@).skip(k + 1));
        if let Some(rest) = strip_leading_keyword(value, kws[k]) {
            return Some(rest);
        }
        k = k + 1;
    }
    None
}

fn normalize_leading_keywords(value: &[char], kws: &[&'static str]) -> (r: Vec<char>)
    requires
        all_nonempty(lits(kws@)),
    ensures
        r@ == normalize_keywords(value@, lits(kws@)),
{
    let mut v: Vec<char> = Vec::new();
    v.extend_from_slice(value);
    assert(v@ =~= value@);
    loop
        invariant
            all_nonempty(lits(kws@)),
            normalize_keywords(value@, lits(kws@)) == normalize_keywords(v@, lits(kws@)),
        decreases v@.len(),
    {
        match first_keyword_strip_exec(&v, kws) {
            Some(rest) => {
                proof {
                    lemma_first_keyword_strip(v@, lits(kws@));
                    lemma_trim_start_len(rest@);
                }
                v = trim_start_exec(&rest);
            },
            None => {
                return v;
            },
        }
    }
}


/// A symbol observed on a line: its kind and its name.
pub type SymbolView = (Seq<char>, Seq<char>);

pub open spec fn pairs_view(v: Seq<(String, String)>) -> Seq<(Seq<char>, Seq<char>)> {
    v.map_values(|p: (String, String)| (p.0@, p.1@))
}

/// The symbol a declaration `keyword` introduces, if any.
pub open spec fn sym_if(n: Seq<char>, keyword: Seq<char>, kind: Seq<char>) -> Seq<SymbolView> {
    match identifier_after(n, keyword) {
        Some(name) => seq![(kind, name)],
        None => Seq::empty(),
    }
}

fn push_sym(out: &mut Vec<(String, String)>, n: &[char], keyword: &str, kind: &str)
    ensures
        pairs_view(final(out)@) == pairs_view(old(out)@) + sym_if(n@, keyword@, kind@),
{
    let ghost prev = pairs_view(out@);
    match identifier_after_keyword(n, keyword) {
        Some(name) => {
            out.push((String::from_str(kind), string_of(&name)));
            assert(pairs_view(out@) =~= prev + sym_if(n@, keyword@, kind@));
        },
        None => {
            assert(pairs_view(out@) =~= prev + sym_if(n@, keyword@, kind@));
        },
    }
}

pub open spec fn rust_modifiers() -> Seq<Seq<char>> {
    seq!["pub(crate)"@, "pub(super)"@, "pub(self)"@, "pub"@, "async"@, "const"@, "unsafe"@, "extern"@]
}

pub open spec fn javascript_modifiers() -> Seq<Seq<char>> {
    seq!["export"@, "default"@, "declare"@, "abstract"@, "async"@, "public"@, "private"@, "protected"@, "static"@, "readonly"@]
}

pub open spec fn c_family_modifiers() -> Seq<Seq<char>> {
    seq!["public"@, "private"@, "protected"@, "static"@, "final"@, "abstract"@, "open"@, "export"@, "internal"@]
}

pub open spec fn python_modifiers() -> Seq<Seq<char>> {
    seq!["async"@]
}

proof fn lemma_rust_modifiers_nonempty()
    ensures
        all_nonempty(rust_modifiers()),
{
    reveal_strlit("pub(crate)");
    reveal_strlit("pub(super)");
    reveal_strlit("pub(self)");
    reveal_strlit("pub");
    reveal_strlit("async");
    reveal_strlit("const");
    reveal_strlit("unsafe");
    reveal_strlit("extern");
    assert(forall|i: int| 0 <= i < rust_modifiers().len() ==> (#[trigger] rust_modifiers()[i]).len() > 0);
}

proof fn lemma_javascript_modifiers_nonempty()
    ensures
        all_nonempty(javascript_modifiers()),
{
    reveal_strlit("export");
    reveal_strlit("default");
    reveal_strlit("declare");
    reveal_strlit("abstract");
    reveal_strlit("async");
    reveal_strlit("public");
    reveal_strlit("private");
    reveal_strlit("protected");
    reveal_strlit("static");
    reveal_strlit("readonly");
    assert(forall|i: int| 0 <= i < javascript_modifiers().len() ==> (#[trigger] javascript_modifiers()[i]).len() > 0);
}

proof fn lemma_c_family_modifiers_nonempty()
    ensures
        all_nonempty(c_family_modifiers()),
{
    reveal_strlit("public");
    reveal_strlit("private");
    reveal_strlit("protected");
    reveal_strlit("static");
    reveal_strlit("final");
    reveal_strlit("abstract");
    reveal_strlit("open");
    reveal_strlit("export");
    reveal_strlit("internal");
    assert(forall|i: int| 0 <= i < c_family_modifiers().len() ==> (#[trigger] c_family_modifiers()[i]).len() > 0);
}

proof fn lemma_python_modifiers_nonempty()
    ensures
        all_nonempty(python_modifiers()),
{
    reveal_strlit("async");
    assert(forall|i: int| 0 <= i < python_modifiers().len() ==> (#[trigger] python_modifiers()[i]).len() > 0);
}

pub open spec fn rust_symbols(line: Seq<char>) -> Seq<SymbolView> {
    let n = normalize_keywords(trim(strip_comment(line, "//"@)), rust_modifiers());
    sym_if(n, "fn"@, "function"@) + sym_if(n, "struct"@, "struct"@) + sym_if(n, "enum"@, "enum"@) + sym_if(n, "trait"@, "trait"@) + sym_if(n, "mod"@, "module"@) + sym_if(n, "type"@, "type"@) + sym_if(n, "impl"@, "impl"@)
}

pub open spec fn javascript_symbols(line: Seq<char>) -> Seq<SymbolView> {
    let n = normalize_keywords(trim(strip_comment(line, "//"@)), javascript_modifiers());
    let binding_kind = if contains(n, "=>"@) || contains(n, "function"@) {
        "function"@
    } else {
        "variable"@
    };
    sym_if(n, "function"@, "function"@) + sym_if(n, "class"@, "class"@) + sym_if(n, "interface"@, "interface"@) + sym_if(n, "type"@, "type"@) + sym_if(n, "enum"@, "enum"@) + sym_if(n, "const"@, binding_kind) + sym_if(n, "let"@, binding_kind) + sym_if(
        n,
        "var"@,
        binding_kind,
    )
}

pub open spec fn python_symbols(line: Seq<char>) -> Seq<SymbolView> {
    let n = normalize_keywords(trim(strip_comment(line, "#"@)), python_modifiers());
    sym_if(n, "def"@, "function"@) + sym_if(n, "class"@, "class"@)
}

pub open spec fn go_symbols(line: Seq<char>) -> Seq<SymbolView> {
    let n = trim(strip_comment(line, "//"@));
    sym_if(n, "func"@, "function"@) + (if starts_with(n, "type "@) && contains(n, " struct"@) {
        sym_if(n, "type"@, "struct"@)
    } else {
        Seq::empty()
    }) + (if starts_with(n, "type "@) && contains(n, " interface"@) {
        sym_if(n, "type"@, "interface"@)
    } else {
        Seq::empty()
    })
}

pub open spec fn c_family_symbols(line: Seq<char>) -> Seq<SymbolView> {
    let n = normalize_keywords(trim(strip_comment(line, "//"@)), c_family_modifiers());
    sym_if(n, "class"@, "class"@) + sym_if(n, "interface"@, "interface"@) + sym_if(n, "enum"@, "enum"@) + sym_if(n, "struct"@, "struct"@) + sym_if(n, "func"@, "function"@) + sym_if(n, "fun"@, "function"@)
}

/// The symbols `line` declares in `language`.
pub open spec fn line_symbols(language: Seq<char>, line: Seq<char>) -> Seq<SymbolView> {
    if language == "rust"@ {
        rust_symbols(line)
    } else if language == "typescript"@ || language == "javascript"@ {
        javascript_symbols(line)
    } else if language == "python"@ {
        python_symbols(line)
    } else if language == "go"@ {
        go_symbols(line)
    } else if language == "java"@ || language == "kotlin"@ || language == "swift"@ {
        c_family_symbols(line)
    } else {
        Seq::empty()
    }
}

fn rust_symbols_from_line(line: &[char]) -> (r: Vec<(String, String)>)
    ensures
        pairs_view(r@) == rust_symbols(line@),
{
    let mods: &[&'static str] = &["pub(crate)", "pub(super)", "pub(self)", "pub", "async", "const", "unsafe", "extern"];
    assert(lits(mods@) =~= rust_modifiers());
    proof {
        lemma_rust_modifiers_nonempty();
    }
    let stripped = strip_line_comment(line, "//");
    let n = normalize_leading_keywords(&trim_exec(&stripped), mods);
    let mut out: Vec<(String, String)> = Vec::new();
    assert(pairs_view(out@) =~= Seq::<SymbolView>::empty());
    push_sym(&mut out, &n, "fn", "function");
    push_sym(&mut out, &n, "struct", "struct");
    push_sym(&mut out, &n, "enum", "enum");
    push_sym(&mut out, &n, "trait", "trait");
    push_sym(&mut out, &n, "mod", "module");
    push_sym(&mut out, &n, "type", "type");
    push_sym(&mut out, &n, "impl", "impl");
    assert(pairs_view(out@) =~= rust_symbols(line@));
    out
}

fn javascript_symbols_from_line(line: &[char]) -> (r: Vec<(String, String)>)
    ensures
        pairs_view(r@) == javascript_symbols(line@),
{
    let mods: &[&'static str] = &["export", "default", "declare", "abstract", "async", "public", "private", "protected", "static", "readonly"];
    assert(lits(mods@) =~= javascript_modifiers());
    proof {
        lemma_javascript_modifiers_nonempty();
    }
    let stripped = strip_line_comment(line, "//");
    let n = normalize_leading_keywords(&trim_exec(&stripped), mods);
    let mut out: Vec<(String, String)> = Vec::new();
    assert(pairs_view(out@) =~= Seq::<SymbolView>::empty());
    push_sym(&mut out, &n, "function", "function");
    push_sym(&mut out, &n, "class", "class");
    push_sym(&mut out, &n, "interface", "interface");
    push_sym(&mut out, &n, "type", "type");
    push_sym(&mut out, &n, "enum", "enum");
    let kind = if contains_str(&n, "=>") || contains_str(&n, "function") {
        "function"
    } else {
        "variable"
    };
    push_sym(&mut out, &n, "const", kind);
    push_sym(&mut out, &n, "let", kind);
    push_sym(&mut out, &n, "var", kind);
    assert(pairs_view(out@) =~= javascript_symbols(line@));
    out
}

fn python_symbols_from_line(line: &[char]) -> (r: Vec<(String, String)>)
    ensures
        pairs_view(r@) == python_symbols(line@),
{
    let mods: &[&'static str] = &["async"];
    assert(lits(mods@) =~= python_modifiers());
    proof {
        lemma_python_modifiers_nonempty();
    }
    let stripped = strip_line_comment(line, "#");
    let n = normalize_leading_keywords(&trim_exec(&stripped), mods);
    let mut out: Vec<(String, String)> = Vec::new();
    assert(pairs_view(out@) =~= Seq::<SymbolView>::empty());
    push_sym(&mut out, &n, "def", "function");
    push_sym(&mut out, &n, "class", "class");
    assert(pairs_view(out@) =~= python_symbols(line@));
    out
}

fn go_symbols_from_line(line: &[char]) -> (r: Vec<(String, String)>)
    ensures
        pairs_view(r@) == go_symbols(line@),
{
    let stripped = strip_line_comment(line, "//");
    let n = trim_exec(&stripped);
    let mut out: Vec<(String, String)> = Vec::new();
    assert(pairs_view(out@) =~= Seq::<SymbolView>::empty());
    push_sym(&mut out, &n, "func", "function");
    let ghost after_func = pairs_view(out@);
    if starts_with_str(&n, "type ") && contains_str(&n, " struct") {
        push_sym(&mut out, &n, "type", "struct");
    }
    let ghost after_struct = pairs_view(out@);
    if starts_with_str(&n, "type ") && contains_str(&n, " interface") {
        push_sym(&mut out, &n, "type", "interface");
    }
    assert(pairs_view(out@) =~= go_symbols(line@));
    out
}

fn c_family_symbols_from_line(line: &[char]) -> (r: Vec<(String, String)>)
    ensures
        pairs_view(r@) == c_family_symbols(line@),
{
    let mods: &[&'static str] = &["public", "private", "protected", "static", "final", "abstract", "open", "export", "internal"];
    assert(lits(mods@) =~= c_family_modifiers());
    proof {
        lemma_c_family_modifiers_nonempty();
    }
    let stripped = strip_line_comment(line, "//");
    let n = normalize_leading_keywords(&trim_exec(&stripped), mods);
    let mut out: Vec<(String, String)> = Vec::new();
    assert(pairs_view(out@) =~= Seq::<SymbolView>::empty());
    push_sym(&mut out, &n, "class", "class");
    push_sym(&mut out, &n, "interface", "interface");
    push_sym(&mut out, &n, "enum", "enum");
    push_sym(&mut out, &n, "struct", "struct");
    push_sym(&mut out, &n, "func", "function");
    push_sym(&mut out, &n, "fun", "function");
    assert(pairs_view(out@) =~= c_family_symbols(line@));
    out
}

fn symbols_from_line(language: &[char], line: &[char]) -> (r: Vec<(String, String)>)
    ensures
        pairs_view(r@) == line_symbols(language@, line@),
{
    if eq_str(language, "rust") {
        rust_symbols_from_line(line)
    } else if eq_str(language, "typescript") || eq_str(language, "javascript") {
        javascript_symbols_from_line(line)
    } else if eq_str(language, "python") {
        python_symbols_from_line(line)
    } else if eq_str(language, "go") {
        go_symbols_from_line(line)
    } else if eq_str(language, "java") || eq_str(language, "kotlin") || eq_str(language, "swift") {
        c_family_symbols_from_line(line)
    } else {
        let out: Vec<(String, String)> = Vec::new();
        assert(pairs_view(out@) =~= Seq::<SymbolView>::empty());
        out
    }
}


/// An import observed on a line: the specifier as written and what it resolves to.
pub type ImportView = (Seq<char>, Seq<char>);

/// The directory part of `path` (what `Path::parent` gives), `""` for none.
pub open spec fn parent_dir(path: Seq<char>) -> Seq<char> {
    let p = trim_end_set(path, seq!['/']);
    match crate::text::rsplit_once(p, "/"@) {
        Some((a, _)) => if a.len() == 0 {
            "/"@
        } else {
            a
        },
        None => Seq::empty(),
    }
}

/// `base` joined with the relative path `rel` by one `/`.
pub open spec fn join_path(base: Seq<char>, rel: Seq<char>) -> Seq<char> {
    if base.len() == 0 {
        rel
    } else if base.last() == '/' {
        base + rel
    } else {
        base + "/"@ + rel
    }
}

/// A relative JavaScript specifier resolved against the importing file's
/// directory; package specifiers unchanged.
pub open spec fn resolved_import(path: Seq<char>, specifier: Seq<char>) -> Seq<char> {
    if !starts_with(specifier, "."@) {
        specifier
    } else {
        trim_start_str(join_path(parent_dir(path), specifier), "./"@)
    }
}

fn resolve_javascript_import(path: &[char], specifier: &[char]) -> (r: Vec<char>)
    ensures
        r@ == resolved_import(path@, specifier@),
{
    if !starts_with_str(specifier, ".") {
        let mut v: Vec<char> = Vec::new();
        v.extend_from_slice(specifier);
        assert(v@ =~= specifier@);
        return v;
    }
    let mut slash: Vec<char> = Vec::new();
    slash.push('/');
    assert(slash@ =~= seq!['/']);
    let p = trim_end_set_exec(path, &slash);
    let base = match crate::text::rsplit_once_str(&p, "/") {
        Some((a, _)) => if a.len() == 0 {
            chars_of("/")
        } else {
            a
        },
        None => Vec::new(),
    };
    assert(base@ =~= parent_dir(path@));
    let mut joined: Vec<char> = Vec::new();
    if base.len() == 0 {
        append(&mut joined, specifier);
    } else if base[base.len() - 1] == '/' {
        append(&mut joined, &base);
        append(&mut joined, specifier);
    } else {
        append(&mut joined, &base);
        append_str(&mut joined, "/");
        append(&mut joined, specifier);
    }
    assert(joined@ =~= join_path(parent_dir(path@), specifier@));
    trim_start_str_exec(&joined, "./")
}

pub open spec fn javascript_imports(path: Seq<char>, line: Seq<char>) -> Seq<ImportView> {
    let l = trim(strip_comment(line, "//"@));
    let specifier = match split_once(l, " from "@) {
        Some((_, rest)) => quoted(rest),
        None => match split_once(l, "require("@) {
            Some((_, rest)) => quoted(rest),
            None => None,
        },
    };
    match specifier {
        Some(sp) => seq![(sp, resolved_import(path, sp))],
        None => Seq::empty(),
    }
}

pub open spec fn rust_imports(line: Seq<char>) -> Seq<ImportView> {
    let l = trim(strip_comment(line, "//"@));
    match strip_prefix(l, "use "@) {
        Some(rest) => {
            let sp = trim(trim_end_set(rest, seq![';']));
            seq![(sp, replace(sp, "::"@, "/"@))]
        },
        None => match strip_prefix(l, "mod "@) {
            Some(rest) => {
                let sp = trim(trim_end_set(rest, seq![';']));
                seq![(sp, sp + ".rs"@)]
            },
            None => Seq::empty(),
        },
    }
}

pub open spec fn python_imports(line: Seq<char>) -> Seq<ImportView> {
    let l = trim(strip_comment(line, "#"@));
    match strip_prefix(l, "from "@) {
        Some(rest) => {
            let m = match first_word(rest) {
                Some(w) => w,
                None => Seq::empty(),
            };
            seq![(m, replace(m, "."@, "/"@))]
        },
        None => match strip_prefix(l, "import "@) {
            Some(rest) => {
                let m = trim(before_first(rest, ","@));
                seq![(m, replace(m, "."@, "/"@))]
            },
            None => Seq::empty(),
        },
    }
}

/// The imports `line` of the file `path` declares in `language`.
pub open spec fn line_imports(path: Seq<char>, language: Seq<char>, line: Seq<char>) -> Seq<ImportView> {
    if language == "javascript"@ || language == "typescript"@ {
        javascript_imports(path, line)
    } else if language == "rust"@ {
        rust_imports(line)
    } else if language == "python"@ {
        python_imports(line)
    } else {
        Seq::empty()
    }
}

fn one_pair(a: Vec<char>, b: Vec<char>) -> (r: Vec<(String, String)>)
    ensures
        pairs_view(r@) == seq![(a@, b@)],
{
    let mut r: Vec<(String, String)> = Vec::new();
    r.push((string_of(&a), string_of(&b)));
    assert(pairs_view(r@) =~= seq![(a@, b@)]);
    r
}

fn no_pairs() -> (r: Vec<(String, String)>)
    ensures
        pairs_view(r@) == Seq::<(Seq<char>, Seq<char>)>::empty(),
{
    let r: Vec<(String, String)> = Vec::new();
    assert(pairs_view(r@) =~= Seq::<(Seq<char>, Seq<char>)>::empty());
    r
}

fn javascript_imports_from_line(path: &[char], line: &[char]) -> (r: Vec<(String, String)>)
    ensures
        pairs_view(r@) == javascript_imports(path@, line@),
{
    let l = trim_exec(&strip_line_comment(line, "//"));
    let specifier = match split_once_str(&l, " from ") {
        Some((_, rest)) => quoted_value(&rest),
        None => match split_once_str(&l, "require(") {
            Some((_, rest)) => quoted_value(&rest),
            None => None,
        },
    };
    match specifier {
        Some(sp) => {
            let imported = resolve_javascript_import(path, &sp);
            one_pair(sp, imported)
        },
        None => no_pairs(),
    }
}

fn rust_imports_from_line(line: &[char]) -> (r: Vec<(String, String)>)
    ensures
        pairs_view(r@) == rust_imports(line@),
{
    proof {
        reveal_strlit("::");
    }
    let l = trim_exec(&strip_line_comment(line, "//"));
    let mut semi: Vec<char> = Vec::new();
    semi.push(';');
    assert(semi@ =~= seq![';']);
    if let Some(rest) = strip_prefix_str(&l, "use ") {
        let sp = trim_exec(&trim_end_set_exec(&rest, &semi));
        let imported = replace_str(&sp, "::", "/");
        one_pair(sp, imported)
    } else if let Some(rest) = strip_prefix_str(&l, "mod ") {
        let sp = trim_exec(&trim_end_set_exec(&rest, &semi));
        let mut imported: Vec<char> = Vec::new();
        append(&mut imported, &sp);
        append_str(&mut imported, ".rs");
        one_pair(sp, imported)
    } else {
        no_pairs()
    }
}

fn python_imports_from_line(line: &[char]) -> (r: Vec<(String, String)>)
    ensures
        pairs_view(r@) == python_imports(line@),
{
    proof {
        reveal_strlit(".");
    }
    let l = trim_exec(&strip_line_comment(line, "#"));
    if let Some(rest) = strip_prefix_str(&l, "from ") {
        let m = match first_word_exec(&rest) {
            Some(w) => w,
            None => Vec::new(),
        };
        let imported = replace_str(&m, ".", "/");
        one_pair(m, imported)
    } else if let Some(rest) = strip_prefix_str(&l, "import ") {
        let m = trim_exec(&before_first_str(&rest, ","));
        let imported = replace_str(&m, ".", "/");
        one_pair(m, imported)
    } else {
        no_pairs()
    }
}

fn imports_from_line(path: &[char], language: &[char], line: &[char]) -> (r: Vec<(String, String)>)
    ensures
        pairs_view(r@) == line_imports(path@, language@, line@),
{
    if eq_str(language, "javascript") || eq_str(language, "typescript") {
        javascript_imports_from_line(path, line)
    } else if eq_str(language, "rust") {
        rust_imports_from_line(line)
    } else if eq_str(language, "python") {
        python_imports_from_line(line)
    } else {
        no_pairs()
    }
}

/// A route observed on a line: method, path and handler symbol.
pub type RouteView = (Seq<char>, Seq<char>, Option<Seq<char>>);

pub open spec fn routes_view(v: Seq<(String, String, Option<String>)>) -> Seq<RouteView> {
    v.map_values(
        |r: (String, String, Option<String>)|
            (
                r.0@,
                r.1@,
                match r.2 {
                    Some(h) => Some(h@),
                    None => None,
                },
            ),
    )
}

/// The handler named in the second argument of a route registration.
pub open spec fn route_handler(rest: Seq<char>) -> Option<Seq<char>> {
    match second_field(rest, ","@) {
        Some(v) => identifier(trim(v)),
        None => None,
    }
}

/// The first candidate `(method, prefix)` whose prefix occurs in `t` and is
/// followed by a quoted path.
pub open spec fn first_route(t: Seq<char>, cands: Seq<(Seq<char>, Seq<char>)>, with_handler: bool) -> Seq<
    RouteView,
>
    decreases cands.len(),
{
    if cands.len() == 0 {
        Seq::empty()
    } else {
        let (method, prefix) = cands[0];
        match split_once(t, prefix) {
            Some((_, rest)) => match quoted(rest) {
                Some(path) => seq![
                    (upper(method), path, if with_handler {
                        route_handler(rest)
                    } else {
                        None
                    }),
                ],
                None => first_route(t, cands.drop_first(), with_handler),
            },
            None => first_route(t, cands.drop_first(), with_handler),
        }
    }
}

pub open spec fn route_methods() -> Seq<Seq<char>> {
    seq!["get"@, "post"@, "put"@, "patch"@, "delete"@]
}

/// For each method in turn, the registration prefixes `{head}{method}(` of both heads.
pub open spec fn route_candidates(heads: Seq<Seq<char>>) -> Seq<(Seq<char>, Seq<char>)> {
    Seq::new(
        10,
        |j: int| (route_methods()[j / 2], heads[j % 2] + route_methods()[j / 2] + "("@),
    )
}

pub open spec fn express_candidates() -> Seq<(Seq<char>, Seq<char>)> {
    route_candidates(seq!["app."@, "router."@])
}

pub open spec fn python_route_candidates() -> Seq<(Seq<char>, Seq<char>)> {
    route_candidates(seq!["@app."@, "@router."@])
}

pub open spec fn express_routes(line: Seq<char>) -> Seq<RouteView> {
    first_route(trim(strip_comment(line, "//"@)), express_candidates(), true)
}

pub open spec fn python_routes(line: Seq<char>) -> Seq<RouteView> {
    first_route(trim(strip_comment(line, "#"@)), python_route_candidates(), false)
}

fn try_route_prefix(t: &[char], method: &str, head: &str, with_handler: bool) -> (r: Option<Vec<(String, String, Option<String>)>>)
    ensures
        ({
            let prefix = head@ + method@ + "("@;
            match split_once(t@, prefix) {
                Some((_, rest)) => match quoted(rest) {
                    Some(path) => r matches Some(v) && routes_view(v@) == seq![
                        (upper(method@), path, if with_handler {
                            route_handler(rest)
                        } else {
                            None
                        }),
                    ],
                    None => r is None,
                },
                None => r is None,
            }
        }),
{
    let mut prefix = chars_of(head);
    append_str(&mut prefix, method);
    append_str(&mut prefix, "(");
    let (_, rest) = split_once_exec(t, &prefix)?;
    let path = quoted_value(&rest)?;
    let handler = if with_handler {
        match second_field_str(&rest, ",") {
            Some(v) => clean_identifier(&trim_exec(&v)),
            None => None,
        }
    } else {
        None
    };
    let handler_string = match handler {
        Some(h) => Some(string_of(&h)),
        None => None,
    };
    let m = upper_exec(&chars_of(method));
    let mut out: Vec<(String, String, Option<String>)> = Vec::new();
    out.push((string_of(&m), string_of(&path), handler_string));
    assert(routes_view(out@) =~= seq![
        (upper(method@), path@, if with_handler {
            route_handler(rest@)
        } else {
            None
        }),
    ]);
    Some(out)
}

fn no_routes() -> (r: Vec<(String, String, Option<String>)>)
    ensures
        routes_view(r@) == Seq::<RouteView>::empty(),
{
    let r: Vec<(String, String, Option<String>)> = Vec::new();
    assert(routes_view(r@) =~= Seq::<RouteView>::empty());
    r
}

fn first_route_exec(t: &[char], heads: &[&'static str], with_handler: bool) -> (r: Vec<(String, String, Option<String>)>)
    requires
        heads@.len() == 2,
    ensures
        routes_view(r@) == first_route(t@, route_candidates(lits(heads@)), with_handler),
{
    let methods: &[&'static str] = &["get", "post", "put", "patch", "delete"];
    assert(lits(methods@) =~= route_methods());
    let ghost cands = route_candidates(lits(heads@));
    assert(cands.skip(0) =~= cands);
    let mut j: usize = 0;
    while j < 10
        invariant
            j <= 10,
            heads@.len() == 2,
            lits(methods@) == route_methods(),
            methods@.len() == 5,
            cands == route_candidates(lits(heads@)),
            first_route(t@, cands, with_handler) == first_route(t@, cands.skip(j as int), with_handler),
        decreases 10 - j,
    {
        let method = methods[j / 2];
        let head = heads[j % 2];
        assert(cands.skip(j as int)[0] == (method@, head@ + method@ + "("@));
        assert(cands.skip(j as int).drop_first() =~= cands.skip(j + 1));
        if let Some(route) = try_route_prefix(t, method, head, with_handler) {
            return route;
        }
        j = j + 1;
    }
    assert(cands.skip(10) =~= Seq::<(Seq<char>, Seq<char>)>::empty());
    no_routes()
}

fn express_routes_from_line(line: &[char]) -> (r: Vec<(String, String, Option<String>)>)
    ensures
        routes_view(r@) == express_routes(line@),
{
    let t = trim_exec(&strip_line_comment(line, "//"));
    let heads: &[&'static str] = &["app.", "router."];
    assert(lits(heads@) =~= seq!["app."@, "router."@]);
    first_route_exec(&t, heads, true)
}

fn python_routes_from_line(line: &[char]) -> (r: Vec<(String, String, Option<String>)>)
    ensures
        routes_view(r@) == python_routes(line@),
{
    let t = trim_exec(&strip_line_comment(line, "#"));
    let heads: &[&'static str] = &["@app.", "@router."];
    assert(lits(heads@) =~= seq!["@app."@, "@router."@]);
    first_route_exec(&t, heads, false)
}


/// The method an axum `.route(` call registers: the first method whose call
/// `method(` appears in `rest`, upper-cased; `GET` otherwise.
pub open spec fn axum_method_from(rest: Seq<char>, ms: Seq<Seq<char>>) -> Seq<char>
    decreases ms.len(),
{
    if ms.len() == 0 {
        "GET"@
    } else if contains(rest, ms[0] + "("@) {
        upper(ms[0])
    } else {
        axum_method_from(rest, ms.drop_first())
    }
}

pub open spec fn axum_routes(line: Seq<char>) -> Seq<RouteView> {
    let t = trim(strip_comment(line, "//"@));
    match split_once(t, ".route("@) {
        None => Seq::empty(),
        Some((_, rest)) => match quoted(rest) {
            None => Seq::empty(),
            Some(path) => {
                let method = axum_method_from(rest, route_methods());
                let handler = match split_once(rest, lower(method) + "("@) {
                    Some((_, v)) => identifier(v),
                    None => None,
                };
                seq![(method, path, handler)]
            },
        },
    }
}

fn axum_routes_from_line(line: &[char]) -> (r: Vec<(String, String, Option<String>)>)
    ensures
        routes_view(r@) == axum_routes(line@),
{
    let t = trim_exec(&strip_line_comment(line, "//"));
    let rest = match split_once_str(&t, ".route(") {
        Some((_, rest)) => rest,
        None => return no_routes(),
    };
    let path = match quoted_value(&rest) {
        Some(p) => p,
        None => return no_routes(),
    };
    let methods: &[&'static str] = &["get", "post", "put", "patch", "delete"];
    assert(lits(methods@) =~= route_methods());
    let mut k: usize = 0;
    assert(lits(methods@).skip(0) =~= lits(methods@));
    let mut method: Vec<char> = chars_of("GET");
    while k < methods.len()
        invariant_except_break
            method@ == "GET"@,
        invariant
            k <= methods@.len(),
            lits(methods@) == route_methods(),
            axum_method_from(rest@, route_methods()) == axum_method_from(
                rest@,
                lits(methods@).skip(k as int),
            ),
        ensures
            method@ == axum_method_from(rest@, route_methods()),
        decreases methods@.len() - k,
    {
        assert(lits(methods@).skip(k as int)[0] == methods@[k as int]@);
        assert(lits(methods@).skip(k as int).drop_first() =~= lits(methods@).skip(k + 1));
        let mut call = chars_of(methods[k]);
        append_str(&mut call, "(");
        if crate::text::contains_exec(&rest, &call) {
            method = upper_exec(&chars_of(methods[k]));
            break;
        }
        k = k + 1;
    }
    let mut call = lower_exec(&method);
    append_str(&mut call, "(");
    let handler = match split_once_exec(&rest, &call) {
        Some((_, v)) => clean_identifier(&v),
        None => None,
    };
    let handler_string = match handler {
        Some(h) => Some(string_of(&h)),
        None => None,
    };
    let mut out: Vec<(String, String, Option<String>)> = Vec::new();
    out.push((string_of(&method), string_of(&path), handler_string));
    assert(routes_view(out@) =~= axum_routes(line@));
    out
}

/// The routes `line` registers for `language` under `framework`.
pub open spec fn line_routes(language: Seq<char>, framework: Option<Seq<char>>, line: Seq<char>) -> Seq<
    RouteView,
> {
    if (language == "javascript"@ || language == "typescript"@) && framework == Some("express"@) {
        express_routes(line)
    } else if language == "python"@ && (framework == Some("fastapi"@) || framework == Some(
        "flask"@,
    )) {
        python_routes(line)
    } else if language == "rust"@ && framework == Some("axum"@) {
        axum_routes(line)
    } else {
        Seq::empty()
    }
}

pub open spec fn opt_view(o: Option<Vec<char>>) -> Option<Seq<char>> {
    match o {
        Some(v) => Some(v@),
        None => None,
    }
}

fn routes_from_line(language: &[char], framework: &Option<Vec<char>>, line: &[char]) -> (r: Vec<(String, String, Option<String>)>)
    ensures
        routes_view(r@) == line_routes(language@, opt_view(*framework), line@),
{
    let (express, python, axum) = match framework {
        Some(f) => (eq_str(f, "express"), eq_str(f, "fastapi") || eq_str(f, "flask"), eq_str(f, "axum")),
        None => (false, false, false),
    };
    if (eq_str(language, "javascript") || eq_str(language, "typescript")) && express {
        express_routes_from_line(line)
    } else if eq_str(language, "python") && python {
        python_routes_from_line(line)
    } else if eq_str(language, "rust") && axum {
        axum_routes_from_line(line)
    } else {
        no_routes()
    }
}

/// A line carrying a generated-code marker.
pub open spec fn generated_marker(line: Seq<char>) -> bool {
    contains(lower(line), "@generated"@) || contains(lower(line), "do not edit"@)
}

/// Generated source: a generated path, or a marker in one of the first five lines.
pub open spec fn is_generated(path: Seq<char>, source: Seq<char>) -> bool {
    ||| contains(path, "/generated/"@)
    ||| ends_with(path, ".generated.ts"@)
    ||| ends_with(path, ".generated.js"@)
    ||| exists|i: int| 0 <= i < 5 && i < lines(source).len() && generated_marker(#[trigger] lines(source)[i])
}

fn is_generated_source(path: &[char], source: &[char]) -> (r: bool)
    ensures
        r == is_generated(path@, source@),
{
    if contains_str(path, "/generated/") || ends_with_str(path, ".generated.ts") || ends_with_str(
        path,
        ".generated.js",
    ) {
        return true;
    }
    let ls = lines_exec(source);
    let mut i: usize = 0;
    while i < 5 && i < ls.len()
        invariant
            i <= 5,
            i <= ls@.len(),
            views(ls@) == lines(source@),
            forall|k: int| 0 <= k < i ==> !generated_marker(#[trigger] lines(source@)[k]),
        decreases 5 - i,
    {
        assert(lines(source@)[i as int] == ls@[i as int]@);
        let lower_line = lower_exec(&ls[i]);
        if contains_str(&lower_line, "@generated") || contains_str(&lower_line, "do not edit") {
            return true;
        }
        i = i + 1;
    }
    false
}

/// The last path component of `path`, ignoring trailing `/`.
pub open spec fn file_name(path: Seq<char>) -> Option<Seq<char>> {
    let p = trim_end_set(path, seq!['/']);
    let name = match crate::text::rsplit_once(p, "/"@) {
        Some((_, n)) => n,
        None => p,
    };
    if name.len() == 0 || name == "."@ || name == ".."@ {
        None
    } else {
        Some(name)
    }
}

/// The text after the last `.` of the file name, unless that `.` starts it.
pub open spec fn extension(path: Seq<char>) -> Option<Seq<char>> {
    match file_name(path) {
        None => None,
        Some(n) => match crate::text::rsplit_once(n, "."@) {
            Some((before, after)) => if before.len() == 0 {
                None
            } else {
                Some(after)
            },
            None => None,
        },
    }
}

/// The language a (lower-cased) file extension denotes.
pub open spec fn language_of_extension(e: Seq<char>) -> Option<Seq<char>> {
    if e == "ts"@ || e == "tsx"@ {
        Some("typescript"@)
    } else if e == "js"@ || e == "jsx"@ || e == "mjs"@ || e == "cjs"@ {
        Some("javascript"@)
    } else if e == "rs"@ {
        Some("rust"@)
    } else if e == "py"@ {
        Some("python"@)
    } else if e == "go"@ {
        Some("go"@)
    } else if e == "java"@ {
        Some("java"@)
    } else if e == "kt"@ || e == "kts"@ {
        Some("kotlin"@)
    } else if e == "swift"@ {
        Some("swift"@)
    } else {
        None
    }
}

pub open spec fn path_language(path: Seq<char>) -> Option<Seq<char>> {
    match extension(path) {
        Some(e) => language_of_extension(lower(e)),
        None => None,
    }
}

pub open spec fn static_opt(o: Option<&'static str>) -> Option<Seq<char>> {
    match o {
        Some(s) => Some(s@),
        None => None,
    }
}

pub fn extension_of(path: &[char]) -> (r: Option<Vec<char>>)
    ensures
        opt_view(r) == extension(path@),
{
    let mut slash: Vec<char> = Vec::new();
    slash.push('/');
    assert(slash@ =~= seq!['/']);
    let p = trim_end_set_exec(path, &slash);
    let name = match crate::text::rsplit_once_str(&p, "/") {
        Some((_, n)) => n,
        None => p,
    };
    if name.len() == 0 || eq_str(&name, ".") || eq_str(&name, "..") {
        return None;
    }
    match crate::text::rsplit_once_str(&name, ".") {
        Some((before, after)) => if before.len() == 0 {
            None
        } else {
            Some(after)
        },
        None => None,
    }
}

pub fn language_for_path(path: &str) -> (r: Option<&'static str>)
    ensures
        static_opt(r) == path_language(path@),
{
    let p = chars_of(path);
    let e = match extension_of(&p) {
        Some(e) => lower_exec(&e),
        None => return None,
    };
    if eq_str(&e, "ts") || eq_str(&e, "tsx") {
        Some("typescript")
    } else if eq_str(&e, "js") || eq_str(&e, "jsx") || eq_str(&e, "mjs") || eq_str(&e, "cjs") {
        Some("javascript")
    } else if eq_str(&e, "rs") {
        Some("rust")
    } else if eq_str(&e, "py") {
        Some("python")
    } else if eq_str(&e, "go") {
        Some("go")
    } else if eq_str(&e, "java") {
        Some("java")
    } else if eq_str(&e, "kt") || eq_str(&e, "kts") {
        Some("kotlin")
    } else if eq_str(&e, "swift") {
        Some("swift")
    } else {
        None
    }
}

/// The web framework a source file uses, recognised by its imports and calls.
pub open spec fn source_framework(path: Seq<char>, language: Seq<char>, source: Seq<char>) -> Option<
    Seq<char>,
> {
    if language == "javascript"@ || language == "typescript"@ {
        if contains(source, "express()"@) || contains(source, "require('express')"@) || contains(
            source,
            "require(\"express\")"@,
        ) || contains(source, " from 'express'"@) || contains(source, " from \"express\""@) {
            Some("express"@)
        } else if contains(path, "/pages/"@) || contains(path, "/app/"@) {
            Some("nextjs"@)
        } else {
            None
        }
    } else if language == "rust"@ {
        if contains(source, "axum::"@) || contains(source, "Router::new()"@) {
            Some("axum"@)
        } else if contains(source, "actix_web::"@) {
            Some("actix-web"@)
        } else {
            None
        }
    } else if language == "python"@ {
        if contains(source, "FastAPI("@) {
            Some("fastapi"@)
        } else if contains(source, "Flask("@) {
            Some("flask"@)
        } else {
            None
        }
    } else {
        None
    }
}

pub fn framework_for_source(path: &str, language: &str, source: &str) -> (r: Option<&'static str>)
    ensures
        static_opt(r) == source_framework(path@, language@, source@),
{
    let p = chars_of(path);
    let l = chars_of(language);
    let s = chars_of(source);
    if eq_str(&l, "javascript") || eq_str(&l, "typescript") {
        if contains_str(&s, "express()") || contains_str(&s, "require('express')") || contains_str(
            &s,
            "require(\"express\")",
        ) || contains_str(&s, " from 'express'") || contains_str(&s, " from \"express\"") {
            Some("express")
        } else if contains_str(&p, "/pages/") || contains_str(&p, "/app/") {
            Some("nextjs")
        } else {
            None
        }
    } else if eq_str(&l, "rust") {
        if contains_str(&s, "axum::") || contains_str(&s, "Router::new()") {
            Some("axum")
        } else if contains_str(&s, "actix_web::") {
            Some("actix-web")
        } else {
            None
        }
    } else if eq_str(&l, "python") {
        if contains_str(&s, "FastAPI(") {
            Some("fastapi")
        } else if contains_str(&s, "Flask(") {
            Some("flask")
        } else {
            None
        }
    } else {
        None
    }
}


/// Where in a file an observation was made.
#[derive(Debug, Clone, PartialEq, Eq)]
pub struct SourceLocation {
    pub file: String,
    pub start_line: Option<u32>,
    pub end_line: Option<u32>,
    pub start_column: Option<u32>,
    pub end_column: Option<u32>,
}

#[derive(Debug, Clone, PartialEq, Eq)]
pub struct CodeIndexObservation {
    pub file: String,
    pub language: String,
    pub framework: Option<String>,
    pub generated: bool,
    pub symbols: Vec<CodeSymbolObservation>,
    pub imports: Vec<CodeImportObservation>,
    pub routes: Vec<CodeRouteObservation>,
}

#[derive(Debug, Clone, PartialEq, Eq)]
pub struct CodeSymbolObservation {
    pub name: String,
    pub kind: String,
    pub line: Option<u32>,
    pub location: Option<SourceLocation>,
}

#[derive(Debug, Clone, PartialEq, Eq)]
pub struct CodeImportObservation {
    pub imported: String,
    pub specifier: Option<String>,
    pub location: Option<SourceLocation>,
}

#[derive(Debug, Clone, PartialEq, Eq)]
pub struct CodeRouteObservation {
    pub method: String,
    pub path: String,
    pub handler_symbol: Option<String>,
    pub framework: Option<String>,
    pub location: Option<SourceLocation>,
}

/// A location covering exactly line `line` of `file`, without columns.
pub open spec fn line_location(loc: Option<SourceLocation>, file: Seq<char>, line: u32) -> bool {
    loc matches Some(l) && l.file@ == file && l.start_line == Some(line) && l.end_line == Some(line)
        && l.start_column is None && l.end_column is None
}

fn location_at(file: &[char], line: u32) -> (r: Option<SourceLocation>)
    ensures
        line_location(r, file@, line),
{
    Some(
        SourceLocation {
            file: string_of(file),
            start_line: Some(line),
            end_line: Some(line),
            start_column: None,
            end_column: None,
        },
    )
}

/// A symbol with the line where it was first declared.
pub type LocatedSymbol = (Seq<char>, Seq<char>, u32);

/// `acc` extended by `items` declared on `line`, skipping kind/name pairs already present.
pub open spec fn add_symbols(acc: Seq<LocatedSymbol>, items: Seq<SymbolView>, line: u32) -> Seq<LocatedSymbol>
    decreases items.len(),
{
    if items.len() == 0 {
        acc
    } else {
        let prev = add_symbols(acc, items.drop_last(), line);
        let (k, n) = items.last();
        if exists|i: int| 0 <= i < prev.len() && (#[trigger] prev[i]).0 == k && prev[i].1 == n {
            prev
        } else {
            prev.push((k, n, line))
        }
    }
}

/// The distinct symbols of `ls`, each at the line of its first declaration
/// (lines numbered from 1).
pub open spec fn symbols_of(language: Seq<char>, ls: Seq<Seq<char>>) -> Seq<LocatedSymbol>
    decreases ls.len(),
{
    if ls.len() == 0 {
        Seq::empty()
    } else {
        add_symbols(symbols_of(language, ls.drop_last()), line_symbols(language, ls.last()), ls.len() as u32)
    }
}

pub open spec fn symbol_obs_view(o: CodeSymbolObservation) -> LocatedSymbol {
    (o.kind@, o.name@, o.line->0)
}

pub open spec fn symbols_located(v: Seq<CodeSymbolObservation>, file: Seq<char>) -> bool {
    forall|i: int|
        0 <= i < v.len() ==> (#[trigger] v[i]).line is Some && line_location(v[i].location, file, v[i].line->0)
}

fn add_line_symbols(
    out: &mut Vec<CodeSymbolObservation>,
    items: Vec<(String, String)>,
    file: &[char],
    line: u32,
)
    requires
        symbols_located(old(out)@, file@),
    ensures
        symbols_located(final(out)@, file@),
        final(out)@.map_values(|o: CodeSymbolObservation| symbol_obs_view(o)) == add_symbols(
            old(out)@.map_values(|o: CodeSymbolObservation| symbol_obs_view(o)),
            pairs_view(items@),
            line,
        ),
{
    let ghost acc = out@.map_values(|o: CodeSymbolObservation| symbol_obs_view(o));
    let mut j: usize = 0;
    assert(pairs_view(items@).take(0) =~= Seq::<SymbolView>::empty());
    while j < items.len()
        invariant
            j <= items@.len(),
            symbols_located(out@, file@),
            out@.map_values(|o: CodeSymbolObservation| symbol_obs_view(o)) == add_symbols(
                acc,
                pairs_view(items@).take(j as int),
                line,
            ),
        decreases items@.len() - j,
    {
        let ghost prev = out@.map_values(|o: CodeSymbolObservation| symbol_obs_view(o));
        assert(pairs_view(items@).take(j + 1).drop_last() =~= pairs_view(items@).take(j as int));
        assert(pairs_view(items@).take(j + 1).last() == (items@[j as int].0@, items@[j as int].1@));
        let kind = string_chars(&items[j].0);
        let name = string_chars(&items[j].1);
        let mut seen = false;
        let mut i: usize = 0;
        while i < out.len()
            invariant
                i <= out@.len(),
                prev == out@.map_values(|o: CodeSymbolObservation| symbol_obs_view(o)),
                seen == exists|k: int| 0 <= k < i && (#[trigger] prev[k]).0 == kind@ && prev[k].1 == name@,
            decreases out@.len() - i,
        {
            let same = eq_chars(&string_chars(&out[i].kind), &kind) && eq_chars(
                &string_chars(&out[i].name),
                &name,
            );
            assert(prev[i as int] == symbol_obs_view(out@[i as int]));
            if same {
                seen = true;
            }
            i = i + 1;
        }
        if !seen {
            out.push(
                CodeSymbolObservation {
                    name: items[j].1.clone(),
                    kind: items[j].0.clone(),
                    line: Some(line),
                    location: location_at(file, line),
                },
            );
            assert(out@.map_values(|o: CodeSymbolObservation| symbol_obs_view(o)) =~= prev.push(
                (kind@, name@, line),
            ));
        }
        j = j + 1;
    }
    assert(pairs_view(items@).take(j as int) =~= pairs_view(items@));
}

fn extract_symbols(path: &[char], language: &[char], source: &[char]) -> (r: Vec<CodeSymbolObservation>)
    ensures
        symbols_located(r@, path@),
        r@.map_values(|o: CodeSymbolObservation| symbol_obs_view(o)) == symbols_of(
            language@,
            lines(source@),
        ),
{
    let ls = lines_exec(source);
    let mut out: Vec<CodeSymbolObservation> = Vec::new();
    let mut i: usize = 0;
    assert(lines(source@).take(0) =~= Seq::<Seq<char>>::empty());
    assert(out@.map_values(|o: CodeSymbolObservation| symbol_obs_view(o)) =~= Seq::<LocatedSymbol>::empty());
    while i < ls.len()
        invariant
            i <= ls@.len(),
            views(ls@) == lines(source@),
            symbols_located(out@, path@),
            out@.map_values(|o: CodeSymbolObservation| symbol_obs_view(o)) == symbols_of(
                language@,
                lines(source@).take(i as int),
            ),
        decreases ls@.len() - i,
    {
        assert(lines(source@).take(i + 1).drop_last() =~= lines(source@).take(i as int));
        assert(lines(source@).take(i + 1).last() == ls@[i as int]@);
        let line_number: u32 = (i + 1) as u32;
        let items = symbols_from_line(language, &ls[i]);
        add_line_symbols(&mut out, items, path, line_number);
        i = i + 1;
    }
    assert(lines(source@).take(i as int) =~= lines(source@));
    out
}


/// An import with the line where it was first seen: specifier, imported, line.
pub type LocatedImport = (Seq<char>, Seq<char>, u32);

pub open spec fn add_imports(acc: Seq<LocatedImport>, items: Seq<ImportView>, line: u32) -> Seq<LocatedImport>
    decreases items.len(),
{
    if items.len() == 0 {
        acc
    } else {
        let prev = add_imports(acc, items.drop_last(), line);
        let (sp, imported) = items.last();
        if exists|i: int| 0 <= i < prev.len() && (#[trigger] prev[i]).1 == imported {
            prev
        } else {
            prev.push((sp, imported, line))
        }
    }
}

/// The distinct imported targets of `ls`, each at its first line.
pub open spec fn imports_of(path: Seq<char>, language: Seq<char>, ls: Seq<Seq<char>>) -> Seq<LocatedImport>
    decreases ls.len(),
{
    if ls.len() == 0 {
        Seq::empty()
    } else {
        add_imports(
            imports_of(path, language, ls.drop_last()),
            line_imports(path, language, ls.last()),
            ls.len() as u32,
        )
    }
}

pub open spec fn import_obs_view(o: CodeImportObservation) -> LocatedImport {
    (o.specifier->0@, o.imported@, o.location->0.start_line->0)
}

pub open spec fn imports_located(v: Seq<CodeImportObservation>, file: Seq<char>) -> bool {
    forall|i: int|
        0 <= i < v.len() ==> (#[trigger] v[i]).specifier is Some && v[i].location is Some
            && line_location(v[i].location, file, v[i].location->0.start_line->0)
}

fn add_line_imports(
    out: &mut Vec<CodeImportObservation>,
    items: Vec<(String, String)>,
    file: &[char],
    line: u32,
)
    requires
        imports_located(old(out)@, file@),
    ensures
        imports_located(final(out)@, file@),
        final(out)@.map_values(|o: CodeImportObservation| import_obs_view(o)) == add_imports(
            old(out)@.map_values(|o: CodeImportObservation| import_obs_view(o)),
            pairs_view(items@),
            line,
        ),
{
    let ghost acc = out@.map_values(|o: CodeImportObservation| import_obs_view(o));
    let mut j: usize = 0;
    assert(pairs_view(items@).take(0) =~= Seq::<ImportView>::empty());
    while j < items.len()
        invariant
            j <= items@.len(),
            imports_located(out@, file@),
            out@.map_values(|o: CodeImportObservation| import_obs_view(o)) == add_imports(
                acc,
                pairs_view(items@).take(j as int),
                line,
            ),
        decreases items@.len() - j,
    {
        let ghost prev = out@.map_values(|o: CodeImportObservation| import_obs_view(o));
        assert(pairs_view(items@).take(j + 1).drop_last() =~= pairs_view(items@).take(j as int));
        assert(pairs_view(items@).take(j + 1).last() == (items@[j as int].0@, items@[j as int].1@));
        let imported = string_chars(&items[j].1);
        let mut seen = false;
        let mut i: usize = 0;
        while i < out.len()
            invariant
                i <= out@.len(),
                prev == out@.map_values(|o: CodeImportObservation| import_obs_view(o)),
                seen == exists|k: int| 0 <= k < i && (#[trigger] prev[k]).1 == imported@,
            decreases out@.len() - i,
        {
            let same = eq_chars(&string_chars(&out[i].imported), &imported);
            assert(prev[i as int] == import_obs_view(out@[i as int]));
            if same {
                seen = true;
            }
            i = i + 1;
        }
        if !seen {
            let loc = location_at(file, line);
            out.push(
                CodeImportObservation {
                    imported: items[j].1.clone(),
                    specifier: Some(items[j].0.clone()),
                    location: loc,
                },
            );
            assert(out@.map_values(|o: CodeImportObservation| import_obs_view(o)) =~= prev.push(
                (items@[j as int].0@, imported@, line),
            ));
        }
        j = j + 1;
    }
    assert(pairs_view(items@).take(j as int) =~= pairs_view(items@));
}

fn extract_imports(path: &[char], language: &[char], source: &[char]) -> (r: Vec<CodeImportObservation>)
    ensures
        imports_located(r@, path@),
        r@.map_values(|o: CodeImportObservation| import_obs_view(o)) == imports_of(
            path@,
            language@,
            lines(source@),
        ),
{
    let ls = lines_exec(source);
    let mut out: Vec<CodeImportObservation> = Vec::new();
    let mut i: usize = 0;
    assert(lines(source@).take(0) =~= Seq::<Seq<char>>::empty());
    assert(out@.map_values(|o: CodeImportObservation| import_obs_view(o)) =~= Seq::<LocatedImport>::empty());
    while i < ls.len()
        invariant
            i <= ls@.len(),
            views(ls@) == lines(source@),
            imports_located(out@, path@),
            out@.map_values(|o: CodeImportObservation| import_obs_view(o)) == imports_of(
                path@,
                language@,
                lines(source@).take(i as int),
            ),
        decreases ls@.len() - i,
    {
        assert(lines(source@).take(i + 1).drop_last() =~= lines(source@).take(i as int));
        assert(lines(source@).take(i + 1).last() == ls@[i as int]@);
        let line_number: u32 = (i + 1) as u32;
        let items = imports_from_line(path, language, &ls[i]);
        add_line_imports(&mut out, items, path, line_number);
        i = i + 1;
    }
    assert(lines(source@).take(i as int) =~= lines(source@));
    out
}

/// A route with the line where it was first registered.
pub type LocatedRoute = (Seq<char>, Seq<char>, Option<Seq<char>>, u32);

pub open spec fn add_routes(acc: Seq<LocatedRoute>, items: Seq<RouteView>, line: u32) -> Seq<LocatedRoute>
    decreases items.len(),
{
    if items.len() == 0 {
        acc
    } else {
        let prev = add_routes(acc, items.drop_last(), line);
        let (m, p, h) = items.last();
        if exists|i: int| 0 <= i < prev.len() && (#[trigger] prev[i]).0 == m && prev[i].1 == p {
            prev
        } else {
            prev.push((m, p, h, line))
        }
    }
}

/// The distinct method/path routes of `ls`, each at its first line.
pub open spec fn routes_of(language: Seq<char>, framework: Option<Seq<char>>, ls: Seq<Seq<char>>) -> Seq<
    LocatedRoute,
>
    decreases ls.len(),
{
    if ls.len() == 0 {
        Seq::empty()
    } else {
        add_routes(
            routes_of(language, framework, ls.drop_last()),
            line_routes(language, framework, ls.last()),
            ls.len() as u32,
        )
    }
}

pub open spec fn string_opt(o: Option<String>) -> Option<Seq<char>> {
    match o {
        Some(s) => Some(s@),
        None => None,
    }
}

pub open spec fn route_obs_view(o: CodeRouteObservation) -> LocatedRoute {
    (o.method@, o.path@, string_opt(o.handler_symbol), o.location->0.start_line->0)
}

pub open spec fn routes_located(v: Seq<CodeRouteObservation>, file: Seq<char>, framework: Option<Seq<char>>) -> bool {
    forall|i: int|
        0 <= i < v.len() ==> (#[trigger] v[i]).location is Some && line_location(
            v[i].location,
            file,
            v[i].location->0.start_line->0,
        ) && string_opt(v[i].framework) == framework
}

fn add_line_routes(
    out: &mut Vec<CodeRouteObservation>,
    items: Vec<(String, String, Option<String>)>,
    file: &[char],
    framework: &Option<Vec<char>>,
    line: u32,
)
    requires
        routes_located(old(out)@, file@, opt_view(*framework)),
    ensures
        routes_located(final(out)@, file@, opt_view(*framework)),
        final(out)@.map_values(|o: CodeRouteObservation| route_obs_view(o)) == add_routes(
            old(out)@.map_values(|o: CodeRouteObservation| route_obs_view(o)),
            routes_view(items@),
            line,
        ),
{
    let ghost acc = out@.map_values(|o: CodeRouteObservation| route_obs_view(o));
    let mut j: usize = 0;
    assert(routes_view(items@).take(0) =~= Seq::<RouteView>::empty());
    while j < items.len()
        invariant
            j <= items@.len(),
            routes_located(out@, file@, opt_view(*framework)),
            out@.map_values(|o: CodeRouteObservation| route_obs_view(o)) == add_routes(
                acc,
                routes_view(items@).take(j as int),
                line,
            ),
        decreases items@.len() - j,
    {
        let ghost prev = out@.map_values(|o: CodeRouteObservation| route_obs_view(o));
        assert(routes_view(items@).take(j + 1).drop_last() =~= routes_view(items@).take(j as int));
        let method = string_chars(&items[j].0);
        let path = string_chars(&items[j].1);
        let mut seen = false;
        let mut i: usize = 0;
        while i < out.len()
            invariant
                i <= out@.len(),
                prev == out@.map_values(|o: CodeRouteObservation| route_obs_view(o)),
                seen == exists|k: int| 0 <= k < i && (#[trigger] prev[k]).0 == method@ && prev[k].1 == path@,
            decreases out@.len() - i,
        {
            let same = eq_chars(&string_chars(&out[i].method), &method) && eq_chars(
                &string_chars(&out[i].path),
                &path,
            );
            assert(prev[i as int] == route_obs_view(out@[i as int]));
            if same {
                seen = true;
            }
            i = i + 1;
        }
        if !seen {
            let handler_symbol = match &items[j].2 {
                Some(h) => Some(h.clone()),
                None => None,
            };
            let fw = match framework {
                Some(f) => Some(string_of(f)),
                None => None,
            };
            let loc = location_at(file, line);
            out.push(
                CodeRouteObservation {
                    method: items[j].0.clone(),
                    path: items[j].1.clone(),
                    handler_symbol,
                    framework: fw,
                    location: loc,
                },
            );
            assert(out@.map_values(|o: CodeRouteObservation| route_obs_view(o)) =~= prev.push(
                (method@, path@, string_opt(items@[j as int].2), line),
            ));
        }
        j = j + 1;
    }
    assert(routes_view(items@).take(j as int) =~= routes_view(items@));
}

fn extract_routes(path: &[char], language: &[char], framework: &Option<Vec<char>>, source: &[char]) -> (r: Vec<
    CodeRouteObservation,
>)
    ensures
        routes_located(r@, path@, opt_view(*framework)),
        r@.map_values(|o: CodeRouteObservation| route_obs_view(o)) == routes_of(
            language@,
            opt_view(*framework),
            lines(source@),
        ),
{
    let ls = lines_exec(source);
    let mut out: Vec<CodeRouteObservation> = Vec::new();
    let mut i: usize = 0;
    assert(lines(source@).take(0) =~= Seq::<Seq<char>>::empty());
    assert(out@.map_values(|o: CodeRouteObservation| route_obs_view(o)) =~= Seq::<LocatedRoute>::empty());
    while i < ls.len()
        invariant
            i <= ls@.len(),
            views(ls@) == lines(source@),
            routes_located(out@, path@, opt_view(*framework)),
            out@.map_values(|o: CodeRouteObservation| route_obs_view(o)) == routes_of(
                language@,
                opt_view(*framework),
                lines(source@).take(i as int),
            ),
        decreases ls@.len() - i,
    {
        assert(lines(source@).take(i + 1).drop_last() =~= lines(source@).take(i as int));
        assert(lines(source@).take(i + 1).last() == ls@[i as int]@);
        let line_number: u32 = (i + 1) as u32;
        let items = routes_from_line(language, framework, &ls[i]);
        add_line_routes(&mut out, items, path, framework, line_number);
        i = i + 1;
    }
    assert(lines(source@).take(i as int) =~= lines(source@));
    out
}

/// The language recorded for `path`: its language, or `unknown`.
pub open spec fn observed_language(path: Seq<char>) -> Seq<char> {
    match path_language(path) {
        Some(l) => l,
        None => "unknown"@,
    }
}

/// Index one source file: language, framework, generated flag, and the
/// symbols, imports and routes declared line by line.
pub fn index_source_file(path: &str, source: &str) -> (o: CodeIndexObservation)
    ensures
        o.file@ == path@,
        o.language@ == observed_language(path@),
        string_opt(o.framework) == source_framework(path@, observed_language(path@), source@),
        o.generated == is_generated(path@, source@),
        symbols_located(o.symbols@, path@),
        o.symbols@.map_values(|s: CodeSymbolObservation| symbol_obs_view(s)) == symbols_of(
            observed_language(path@),
            lines(source@),
        ),
        imports_located(o.imports@, path@),
        o.imports@.map_values(|i: CodeImportObservation| import_obs_view(i)) == imports_of(
            path@,
            observed_language(path@),
            lines(source@),
        ),
        routes_located(o.routes@, path@, string_opt(o.framework)),
        o.routes@.map_values(|r: CodeRouteObservation| route_obs_view(r)) == routes_of(
            observed_language(path@),
            string_opt(o.framework),
            lines(source@),
        ),
{
    let language: &str = match language_for_path(path) {
        Some(l) => l,
        None => "unknown",
    };
    let framework_str = framework_for_source(path, language, source);
    let framework: Option<Vec<char>> = match framework_str {
        Some(f) => Some(chars_of(f)),
        None => None,
    };
    let p = chars_of(path);
    let l = chars_of(language);
    let s = chars_of(source);
    let symbols = extract_symbols(&p, &l, &s);
    let imports = extract_imports(&p, &l, &s);
    let routes = extract_routes(&p, &l, &framework, &s);
    let framework_string = match framework_str {
        Some(f) => Some(String::from_str(f)),
        None => None,
    };
    CodeIndexObservation {
        file: String::from_str(path),
        language: String::from_str(language),
        framework: framework_string,
        generated: is_generated_source(&p, &s),
        symbols,
        imports,
        routes,
    }
}

/// Produces observations for one source file.
pub trait CodeIndexer {
    fn language(&self) -> &'static str;

    fn index_file(&self, path: &str, source: &str) -> Vec<CodeIndexObservation>;
}

#[derive(Debug, Clone, Copy, Default)]
pub struct LightweightCodeIndexer;

impl CodeIndexer for LightweightCodeIndexer {
    fn language(&self) -> (r: &'static str)
        ensures
            r@ == "multi"@,
    {
        "multi"
    }

    fn index_file(&self, path: &str, source: &str) -> (r: Vec<CodeIndexObservation>)
        ensures
            r@.len() == 1,
            r@[0].file@ == path@,
            r@[0].language@ == observed_language(path@),
            r@[0].symbols@.map_values(|s: CodeSymbolObservation| symbol_obs_view(s)) == symbols_of(
                observed_language(path@),
                lines(source@),
            ),
    {
        let mut r: Vec<CodeIndexObservation> = Vec::new();
        r.push(index_source_file(path, source));
        r
    }
}

#[derive(Debug, Clone, Copy, Default)]
pub struct FrameworkAwareCodeIndexer;

impl CodeIndexer for FrameworkAwareCodeIndexer {
    fn language(&self) -> (r: &'static str)
        ensures
            r@ == "multi-framework"@,
    {
        "multi-framework"
    }

    fn index_file(&self, path: &str, source: &str) -> (r: Vec<CodeIndexObservation>)
        ensures
            r@.len() == 1,
            r@[0].file@ == path@,
            string_opt(r@[0].framework) == source_framework(path@, observed_language(path@), source@),
            r@[0].routes@.map_values(|x: CodeRouteObservation| route_obs_view(x)) == routes_of(
                observed_language(path@),
                string_opt(r@[0].framework),
                lines(source@),
            ),
    {
        let mut r: Vec<CodeIndexObservation> = Vec::new();
        r.push(index_source_file(path, source));
        r
    }
}


pub type FindingView = (Seq<char>, FindingSeverity, Seq<char>);

pub open spec fn symbol_location_findings(syms: Seq<CodeSymbolObservation>, file: Seq<char>) -> Seq<FindingView>
    decreases syms.len(),
{
    if syms.len() == 0 {
        Seq::empty()
    } else {
        symbol_location_findings(syms.drop_last(), file) + if syms.last().location is None {
            seq![
                (
                    "code_indexer.symbol_location_required"@,
                    FindingSeverity::Error,
                    "Symbol `"@ + syms.last().name@ + "` in `"@ + file
                        + "` must include a source location."@,
                ),
            ]
        } else {
            Seq::empty()
        }
    }
}

pub open spec fn route_location_findings(routes: Seq<CodeRouteObservation>, file: Seq<char>) -> Seq<FindingView>
    decreases routes.len(),
{
    if routes.len() == 0 {
        Seq::empty()
    } else {
        route_location_findings(routes.drop_last(), file) + if routes.last().location is None {
            seq![
                (
                    "code_indexer.route_location_required"@,
                    FindingSeverity::Error,
                    "Route `"@ + routes.last().method@ + "` `"@ + routes.last().path@ + "` in `"@
                        + file + "` must include a source location."@,
                ),
            ]
        } else {
            Seq::empty()
        }
    }
}

pub open spec fn import_location_findings(imports: Seq<CodeImportObservation>, file: Seq<char>) -> Seq<FindingView>
    decreases imports.len(),
{
    if imports.len() == 0 {
        Seq::empty()
    } else {
        import_location_findings(imports.drop_last(), file) + if imports.last().location is None {
            seq![
                (
                    "code_indexer.import_location_required"@,
                    FindingSeverity::Error,
                    "Import `"@ + imports.last().imported@ + "` in `"@ + file
                        + "` must include a source location."@,
                ),
            ]
        } else {
            Seq::empty()
        }
    }
}

/// Findings for every observed symbol, route and import without a location.
pub open spec fn location_findings(obs: Seq<CodeIndexObservation>) -> Seq<FindingView>
    decreases obs.len(),
{
    if obs.len() == 0 {
        Seq::empty()
    } else {
        let o = obs.last();
        location_findings(obs.drop_last()) + symbol_location_findings(o.symbols@, o.file@)
            + route_location_findings(o.routes@, o.file@) + import_location_findings(
            o.imports@,
            o.file@,
        )
    }
}

/// How many symbols, routes and imports of the observations carry no source
/// location.
pub open spec fn unlocated_count(obs: Seq<CodeIndexObservation>) -> nat
    decreases obs.len(),
{
    if obs.len() == 0 {
        0
    } else {
        let o = obs.last();
        unlocated_count(obs.drop_last()) + o.symbols@.filter(|s: CodeSymbolObservation| s.location is None).len()
            + o.routes@.filter(|r: CodeRouteObservation| r.location is None).len() + o.imports@.filter(
            |i: CodeImportObservation| i.location is None,
        ).len()
    }
}

proof fn lemma_symbol_location_count(syms: Seq<CodeSymbolObservation>, file: Seq<char>)
    ensures
        symbol_location_findings(syms, file).len() == syms.filter(|s: CodeSymbolObservation| s.location is None).len(),
        forall|i: int|
            0 <= i < symbol_location_findings(syms, file).len() ==> (#[trigger] symbol_location_findings(syms, file)[i]).1
                == FindingSeverity::Error && symbol_location_findings(syms, file)[i].0 == "code_indexer.symbol_location_required"@,
    decreases syms.len(),
{
    reveal(Seq::filter);
    if syms.len() > 0 {
        lemma_symbol_location_count(syms.drop_last(), file);
        let prev = symbol_location_findings(syms.drop_last(), file);
        assert forall|i: int| 0 <= i < symbol_location_findings(syms, file).len() implies (
        #[trigger] symbol_location_findings(syms, file)[i]).1 == FindingSeverity::Error && symbol_location_findings(syms, file)[i].0
            == "code_indexer.symbol_location_required"@ by {
            if i < prev.len() {
                assert(symbol_location_findings(syms, file)[i] == prev[i]);
            }
        }
    }
}

proof fn lemma_route_location_count(routes: Seq<CodeRouteObservation>, file: Seq<char>)
    ensures
        route_location_findings(routes, file).len() == routes.filter(|r: CodeRouteObservation| r.location is None).len(),
        forall|i: int|
            0 <= i < route_location_findings(routes, file).len() ==> (#[trigger] route_location_findings(routes, file)[i]).1
                == FindingSeverity::Error && route_location_findings(routes, file)[i].0 == "code_indexer.route_location_required"@,
    decreases routes.len(),
{
    reveal(Seq::filter);
    if routes.len() > 0 {
        lemma_route_location_count(routes.drop_last(), file);
        let prev = route_location_findings(routes.drop_last(), file);
        assert forall|i: int| 0 <= i < route_location_findings(routes, file).len() implies (
        #[trigger] route_location_findings(routes, file)[i]).1 == FindingSeverity::Error && route_location_findings(routes, file)[i].0
            == "code_indexer.route_location_required"@ by {
            if i < prev.len() {
                assert(route_location_findings(routes, file)[i] == prev[i]);
            }
        }
    }
}

proof fn lemma_import_location_count(imports: Seq<CodeImportObservation>, file: Seq<char>)
    ensures
        import_location_findings(imports, file).len() == imports.filter(|i: CodeImportObservation| i.location is None).len(),
        forall|i: int|
            0 <= i < import_location_findings(imports, file).len() ==> (#[trigger] import_location_findings(imports, file)[i]).1
                == FindingSeverity::Error && import_location_findings(imports, file)[i].0 == "code_indexer.import_location_required"@,
    decreases imports.len(),
{
    reveal(Seq::filter);
    if imports.len() > 0 {
        lemma_import_location_count(imports.drop_last(), file);
        let prev = import_location_findings(imports.drop_last(), file);
        assert forall|i: int| 0 <= i < import_location_findings(imports, file).len() implies (
        #[trigger] import_location_findings(imports, file)[i]).1 == FindingSeverity::Error && import_location_findings(imports, file)[i].0
            == "code_indexer.import_location_required"@ by {
            if i < prev.len() {
                assert(import_location_findings(imports, file)[i] == prev[i]);
            }
        }
    }
}

/// Location validation reports one finding for each symbol, route and import
/// that carries no source location; every finding is an Error whose code
/// names the kind of fact that lacks its location.
pub proof fn location_findings_count_unlocated(obs: Seq<CodeIndexObservation>)
    ensures
        location_findings(obs).len() == unlocated_count(obs),
        forall|i: int|
            0 <= i < location_findings(obs).len() ==> (#[trigger] location_findings(obs)[i]).1 == FindingSeverity::Error
                && (location_findings(obs)[i].0 == "code_indexer.symbol_location_required"@ || location_findings(obs)[i].0
                == "code_indexer.route_location_required"@ || location_findings(obs)[i].0
                == "code_indexer.import_location_required"@),
    decreases obs.len(),
{
    if obs.len() > 0 {
        let o = obs.last();
        location_findings_count_unlocated(obs.drop_last());
        lemma_symbol_location_count(o.symbols@, o.file@);
        lemma_route_location_count(o.routes@, o.file@);
        lemma_import_location_count(o.imports@, o.file@);
        let a = location_findings(obs.drop_last());
        let b = symbol_location_findings(o.symbols@, o.file@);
        let c = route_location_findings(o.routes@, o.file@);
        let d = import_location_findings(o.imports@, o.file@);
        assert(location_findings(obs) == a + b + c + d);
        assert forall|i: int| 0 <= i < location_findings(obs).len() implies (#[trigger] location_findings(obs)[i]).1
            == FindingSeverity::Error && (location_findings(obs)[i].0 == "code_indexer.symbol_location_required"@
            || location_findings(obs)[i].0 == "code_indexer.route_location_required"@ || location_findings(obs)[i].0
            == "code_indexer.import_location_required"@) by {
            if i < a.len() {
                assert(location_findings(obs)[i] == a[i]);
            } else if i < a.len() + b.len() {
                assert(location_findings(obs)[i] == b[i - a.len()]);
            } else if i < a.len() + b.len() + c.len() {
                assert(location_findings(obs)[i] == c[i - a.len() - b.len()]);
            } else {
                assert(location_findings(obs)[i] == d[i - a.len() - b.len() - c.len()]);
            }
        }
    }
}

proof fn lemma_located_symbols_pass(syms: Seq<CodeSymbolObservation>, file: Seq<char>)
    requires
        symbols_located(syms, file),
    ensures
        symbol_location_findings(syms, file).len() == 0,
    decreases syms.len(),
{
    if syms.len() > 0 {
        assert(syms.last() == syms[syms.len() - 1]);
        lemma_located_symbols_pass(syms.drop_last(), file);
    }
}

proof fn lemma_located_routes_pass(routes: Seq<CodeRouteObservation>, file: Seq<char>, framework: Option<Seq<char>>)
    requires
        routes_located(routes, file, framework),
    ensures
        route_location_findings(routes, file).len() == 0,
    decreases routes.len(),
{
    if routes.len() > 0 {
        assert(routes.last() == routes[routes.len() - 1]);
        lemma_located_routes_pass(routes.drop_last(), file, framework);
    }
}

proof fn lemma_located_imports_pass(imports: Seq<CodeImportObservation>, file: Seq<char>)
    requires
        imports_located(imports, file),
    ensures
        import_location_findings(imports, file).len() == 0,
    decreases imports.len(),
{
    if imports.len() > 0 {
        assert(imports.last() == imports[imports.len() - 1]);
        lemma_located_imports_pass(imports.drop_last(), file);
    }
}

/// What `index_source_file` observes always carries source locations (it
/// ensures the three `*_located` facts), so location validation of it finds
/// nothing.
pub proof fn indexed_file_passes_location_checks(o: CodeIndexObservation)
    requires
        symbols_located(o.symbols@, o.file@),
        imports_located(o.imports@, o.file@),
        routes_located(o.routes@, o.file@, string_opt(o.framework)),
    ensures
        location_findings(seq![o]).len() == 0,
{
    lemma_located_symbols_pass(o.symbols@, o.file@);
    lemma_located_routes_pass(o.routes@, o.file@, string_opt(o.framework));
    lemma_located_imports_pass(o.imports@, o.file@);
    assert(seq![o].drop_last() =~= Seq::<CodeIndexObservation>::empty());
    assert(location_findings(seq![o].drop_last()) =~= Seq::<FindingView>::empty());
    assert(seq![o].last() == o);
}

fn check_symbol_locations(o: &CodeIndexObservation, findings: &mut Vec<Finding>)
    ensures
        no_related(old(findings)@) ==> no_related(final(findings)@),
        findings_view(final(findings)@) == findings_view(old(findings)@) + symbol_location_findings(
            o.symbols@,
            o.file@,
        ),
{
    let ghost before = findings_view(findings@);
    let file = string_chars(&o.file);
    let mut i: usize = 0;
    assert(o.symbols@.take(0) =~= Seq::<CodeSymbolObservation>::empty());
    while i < o.symbols.len()
        invariant
            i <= o.symbols@.len(),
            file@ == o.file@,
            findings_view(findings@) == before + symbol_location_findings(o.symbols@.take(i as int), o.file@),
            no_related(old(findings)@) ==> no_related(findings@),
        decreases o.symbols@.len() - i,
    {
        assert(o.symbols@.take(i + 1).drop_last() =~= o.symbols@.take(i as int));
        let ghost mid = findings_view(findings@);
        if o.symbols[i].location.is_none() {
            let name = string_chars(&o.symbols[i].name);
            push_finding(
                findings,
                "code_indexer.symbol_location_required",
                FindingSeverity::Error,
                msg5("Symbol `", &name, "` in `", &file, "` must include a source location."),
            );
        }
        assert(findings_view(findings@) =~= before + symbol_location_findings(o.symbols@.take(i + 1), o.file@));
        i = i + 1;
    }
    assert(o.symbols@.take(i as int) =~= o.symbols@);
}

fn check_route_locations(o: &CodeIndexObservation, findings: &mut Vec<Finding>)
    ensures
        no_related(old(findings)@) ==> no_related(final(findings)@),
        findings_view(final(findings)@) == findings_view(old(findings)@) + route_location_findings(
            o.routes@,
            o.file@,
        ),
{
    let ghost before = findings_view(findings@);
    let file = string_chars(&o.file);
    let mut i: usize = 0;
    assert(o.routes@.take(0) =~= Seq::<CodeRouteObservation>::empty());
    while i < o.routes.len()
        invariant
            i <= o.routes@.len(),
            file@ == o.file@,
            findings_view(findings@) == before + route_location_findings(o.routes@.take(i as int), o.file@),
            no_related(old(findings)@) ==> no_related(findings@),
        decreases o.routes@.len() - i,
    {
        assert(o.routes@.take(i + 1).drop_last() =~= o.routes@.take(i as int));
        if o.routes[i].location.is_none() {
            let method = string_chars(&o.routes[i].method);
            let path = string_chars(&o.routes[i].path);
            let mut m = chars_of("Route `");
            append(&mut m, &method);
            append_str(&mut m, "` `");
            append(&mut m, &path);
            append_str(&mut m, "` in `");
            append(&mut m, &file);
            append_str(&mut m, "` must include a source location.");
            push_finding(
                findings,
                "code_indexer.route_location_required",
                FindingSeverity::Error,
                string_of(&m),
            );
        }
        assert(findings_view(findings@) =~= before + route_location_findings(o.routes@.take(i + 1), o.file@));
        i = i + 1;
    }
    assert(o.routes@.take(i as int) =~= o.routes@);
}

fn check_import_locations(o: &CodeIndexObservation, findings: &mut Vec<Finding>)
    ensures
        no_related(old(findings)@) ==> no_related(final(findings)@),
        findings_view(final(findings)@) == findings_view(old(findings)@) + import_location_findings(
            o.imports@,
            o.file@,
        ),
{
    let ghost before = findings_view(findings@);
    let file = string_chars(&o.file);
    let mut i: usize = 0;
    assert(o.imports@.take(0) =~= Seq::<CodeImportObservation>::empty());
    while i < o.imports.len()
        invariant
            i <= o.imports@.len(),
            file@ == o.file@,
            findings_view(findings@) == before + import_location_findings(o.imports@.take(i as int), o.file@),
            no_related(old(findings)@) ==> no_related(findings@),
        decreases o.imports@.len() - i,
    {
        assert(o.imports@.take(i + 1).drop_last() =~= o.imports@.take(i as int));
        if o.imports[i].location.is_none() {
            let imported = string_chars(&o.imports[i].imported);
            push_finding(
                findings,
                "code_indexer.import_location_required",
                FindingSeverity::Error,
                msg5("Import `", &imported, "` in `", &file, "` must include a source location."),
            );
        }
        assert(findings_view(findings@) =~= before + import_location_findings(o.imports@.take(i + 1), o.file@));
        i = i + 1;
    }
    assert(o.imports@.take(i as int) =~= o.imports@);
}

/// Every observed symbol, route and import must carry a source location.
pub fn validate_code_index_observations(observations: &[CodeIndexObservation]) -> (r: Vec<Finding>)
    ensures
        findings_view(r@) == location_findings(observations@),
        no_related(r@),
{
    let mut findings: Vec<Finding> = Vec::new();
    let mut i: usize = 0;
    assert(observations@.take(0) =~= Seq::<CodeIndexObservation>::empty());
    assert(findings_view(findings@) =~= Seq::<FindingView>::empty());
    while i < observations.len()
        invariant
            i <= observations@.len(),
            findings_view(findings@) == location_findings(observations@.take(i as int)),
            no_related(findings@),
        decreases observations@.len() - i,
    {
        assert(observations@.take(i + 1).drop_last() =~= observations@.take(i as int));
        let ghost mid = findings_view(findings@);
        check_symbol_locations(&observations[i], &mut findings);
        check_route_locations(&observations[i], &mut findings);
        check_import_locations(&observations[i], &mut findings);
        assert(findings_view(findings@) =~= location_findings(observations@.take(i + 1)));
        i = i + 1;
    }
    assert(observations@.take(i as int) =~= observations@);
    findings
}


// ------------------------------------------------------------ graph delta

/// The adapter that records code-index observations, in the
/// `specgraph.adapter.<name>/v1` scheme of the adapter ids (such as the
/// migration observer's).
pub const CODE_INDEXER_ADAPTER_ID: &'static str = "specgraph.adapter.code-indexer/v1";

pub open spec fn code_file_id(path: Seq<char>) -> Seq<char> {
    "node_code_file"@ + "_"@ + fragment_view(path)
}

pub open spec fn code_symbol_id(file: Seq<char>, kind: Seq<char>, name: Seq<char>) -> Seq<char> {
    "node_code_symbol"@ + "_"@ + fragment_view(file) + "_"@ + fragment_view(kind) + "_"@ + fragment_view(name)
}

pub open spec fn code_import_id(file: Seq<char>, imported: Seq<char>) -> Seq<char> {
    "node_code_import"@ + "_"@ + fragment_view(file) + "_"@ + fragment_view(imported)
}

pub open spec fn code_route_id(method: Seq<char>, path: Seq<char>) -> Seq<char> {
    "node_code_route"@ + "_"@ + fragment_view(method) + "_"@ + fragment_view(path)
}

/// The trust marks of an observed fact, in key order.
pub open spec fn observed_fields() -> Seq<(Seq<char>, JsonV)> {
    seq![
        ("observedBy"@, JsonV::Text(CODE_INDEXER_ADAPTER_ID@)),
        ("sourceTrust"@, JsonV::Text("Observation"@)),
        ("trustState"@, JsonV::Text("Observed"@)),
    ]
}

/// An observed edge: its id is `edge_` and the fragment of `from:type:to`.
pub open spec fn observed_edgev(from: Seq<char>, edge_type: Seq<char>, to: Seq<char>) -> EdgeV {
    EdgeV {
        id: "edge"@ + "_"@ + fragment_view(from + ":"@ + edge_type + ":"@ + to),
        stable_key: "edge:"@ + from + ":"@ + edge_type + ":"@ + to,
        edge_type: edge_type,
        from: from,
        to: to,
        attributes: observed_fields(),
    }
}

pub open spec fn num_opt(v: Option<u32>) -> JsonV {
    match v {
        Some(x) => JsonV::Int(x as int),
        None => JsonV::Null,
    }
}

/// The location fields that sort before `file`.
pub open spec fn loc_head(loc: Option<SourceLocation>) -> Seq<(Seq<char>, JsonV)> {
    match loc {
        Some(l) => seq![("endColumn"@, num_opt(l.end_column)), ("endLine"@, num_opt(l.end_line))],
        None => Seq::empty(),
    }
}

/// The location field that sorts between `observedBy` and `sourceTrust`.
pub open spec fn loc_source(loc: Option<SourceLocation>) -> Seq<(Seq<char>, JsonV)> {
    match loc {
        Some(l) => seq![("sourceFile"@, JsonV::Text(l.file@))],
        None => Seq::empty(),
    }
}

/// The location fields that sort just before `trustState`.
pub open spec fn loc_start(loc: Option<SourceLocation>) -> Seq<(Seq<char>, JsonV)> {
    match loc {
        Some(l) => seq![("startColumn"@, num_opt(l.start_column)), ("startLine"@, num_opt(l.start_line))],
        None => Seq::empty(),
    }
}

pub open spec fn count_json(n: nat) -> JsonV {
    crate::test_runner::duration_json(Some(n as u64))
}

/// The CodeFile node of an observation.
pub open spec fn file_nodev(o: CodeIndexObservation) -> NodeV {
    NodeV {
        id: code_file_id(o.file@),
        stable_key: "code-file:"@ + o.file@,
        node_type: "CodeFile"@,
        attributes: seq![
            ("framework"@, opt_text(opt_string_view(o.framework))),
            ("generated"@, JsonV::Bool(o.generated)),
            ("importCount"@, count_json(o.imports@.len())),
            ("language"@, JsonV::Text(o.language@)),
            ("observedBy"@, JsonV::Text(CODE_INDEXER_ADAPTER_ID@)),
            ("path"@, JsonV::Text(o.file@)),
            ("routeCount"@, count_json(o.routes@.len())),
            ("sourceFile"@, JsonV::Text(o.file@)),
            ("sourceTrust"@, JsonV::Text("Observation"@)),
            ("symbolCount"@, count_json(o.symbols@.len())),
            ("trustState"@, JsonV::Text("Observed"@)),
        ],
    }
}

/// The CodeSymbol node of a symbol observed in `o`.
pub open spec fn symbol_nodev(o: CodeIndexObservation, s: CodeSymbolObservation) -> NodeV {
    NodeV {
        id: code_symbol_id(o.file@, s.kind@, s.name@),
        stable_key: "code-symbol:"@ + o.file@ + "/"@ + s.kind@ + "/"@ + s.name@,
        node_type: "CodeSymbol"@,
        attributes: loc_head(s.location) + seq![
            ("file"@, JsonV::Text(o.file@)),
            ("framework"@, opt_text(opt_string_view(o.framework))),
            ("kind"@, JsonV::Text(s.kind@)),
            ("language"@, JsonV::Text(o.language@)),
            ("line"@, num_opt(s.line)),
            ("name"@, JsonV::Text(s.name@)),
            ("observedBy"@, JsonV::Text(CODE_INDEXER_ADAPTER_ID@)),
        ] + loc_source(s.location) + seq![("sourceTrust"@, JsonV::Text("Observation"@))] + loc_start(s.location)
            + seq![("trustState"@, JsonV::Text("Observed"@))],
    }
}

/// The CodeImport node of an import observed in `o`.
pub open spec fn import_nodev(o: CodeIndexObservation, i: CodeImportObservation) -> NodeV {
    NodeV {
        id: code_import_id(o.file@, i.imported@),
        stable_key: "code-import:"@ + o.file@ + "->"@ + i.imported@,
        node_type: "CodeImport"@,
        attributes: loc_head(i.location) + seq![
            ("file"@, JsonV::Text(o.file@)),
            ("framework"@, opt_text(opt_string_view(o.framework))),
            ("imported"@, JsonV::Text(i.imported@)),
            ("language"@, JsonV::Text(o.language@)),
            ("observedBy"@, JsonV::Text(CODE_INDEXER_ADAPTER_ID@)),
        ] + loc_source(i.location) + seq![
            ("sourceTrust"@, JsonV::Text("Observation"@)),
            ("specifier"@, opt_text(opt_string_view(i.specifier))),
        ] + loc_start(i.location) + seq![("trustState"@, JsonV::Text("Observed"@))],
    }
}

/// The CodeRoute node of a route observed in `o`; its method is upper-cased.
pub open spec fn route_nodev(o: CodeIndexObservation, r: CodeRouteObservation) -> NodeV {
    NodeV {
        id: code_route_id(r.method@, r.path@),
        stable_key: "code-route:"@ + upper(r.method@) + "-"@ + r.path@,
        node_type: "CodeRoute"@,
        attributes: loc_head(r.location) + seq![
            ("file"@, JsonV::Text(o.file@)),
            ("framework"@, opt_text(opt_string_view(r.framework))),
            ("handlerSymbol"@, opt_text(opt_string_view(r.handler_symbol))),
            ("language"@, JsonV::Text(o.language@)),
            ("method"@, JsonV::Text(upper(r.method@))),
            ("observedBy"@, JsonV::Text(CODE_INDEXER_ADAPTER_ID@)),
            ("path"@, JsonV::Text(r.path@)),
        ] + loc_source(r.location) + seq![("sourceTrust"@, JsonV::Text("Observation"@))] + loc_start(r.location)
            + seq![("trustState"@, JsonV::Text("Observed"@))],
    }
}

pub open spec fn symbols_nodes(o: CodeIndexObservation, ss: Seq<CodeSymbolObservation>) -> Seq<NodeV>
    decreases ss.len(),
{
    if ss.len() == 0 {
        Seq::empty()
    } else {
        symbols_nodes(o, ss.drop_last()).push(symbol_nodev(o, ss.last()))
    }
}

pub open spec fn imports_nodes(o: CodeIndexObservation, is: Seq<CodeImportObservation>) -> Seq<NodeV>
    decreases is.len(),
{
    if is.len() == 0 {
        Seq::empty()
    } else {
        imports_nodes(o, is.drop_last()).push(import_nodev(o, is.last()))
    }
}

pub open spec fn routes_nodes(o: CodeIndexObservation, rs: Seq<CodeRouteObservation>) -> Seq<NodeV>
    decreases rs.len(),
{
    if rs.len() == 0 {
        Seq::empty()
    } else {
        routes_nodes(o, rs.drop_last()).push(route_nodev(o, rs.last()))
    }
}

pub open spec fn symbols_edges(o: CodeIndexObservation, ss: Seq<CodeSymbolObservation>) -> Seq<EdgeV>
    decreases ss.len(),
{
    if ss.len() == 0 {
        Seq::empty()
    } else {
        let s = ss.last();
        symbols_edges(o, ss.drop_last()).push(
            observed_edgev(code_file_id(o.file@), "DEFINES_SYMBOL"@, code_symbol_id(o.file@, s.kind@, s.name@)),
        )
    }
}

pub open spec fn import_edges(o: CodeIndexObservation, i: CodeImportObservation) -> Seq<EdgeV> {
    seq![
        observed_edgev(code_file_id(o.file@), "HAS_IMPORT"@, code_import_id(o.file@, i.imported@)),
        observed_edgev(code_file_id(o.file@), "IMPORTS_FILE"@, code_file_id(i.imported@)),
    ]
}

pub open spec fn imports_edges(o: CodeIndexObservation, is: Seq<CodeImportObservation>) -> Seq<EdgeV>
    decreases is.len(),
{
    if is.len() == 0 {
        Seq::empty()
    } else {
        imports_edges(o, is.drop_last()) + import_edges(o, is.last())
    }
}

pub open spec fn route_edges(o: CodeIndexObservation, r: CodeRouteObservation) -> Seq<EdgeV> {
    let rid = code_route_id(r.method@, r.path@);
    seq![observed_edgev(code_file_id(o.file@), "DECLARES_ROUTE"@, rid)] + match r.handler_symbol {
        Some(h) => seq![observed_edgev(rid, "HANDLED_BY_SYMBOL"@, code_symbol_id(o.file@, "function"@, h@))],
        None => Seq::empty(),
    }
}

pub open spec fn routes_edges(o: CodeIndexObservation, rs: Seq<CodeRouteObservation>) -> Seq<EdgeV>
    decreases rs.len(),
{
    if rs.len() == 0 {
        Seq::empty()
    } else {
        routes_edges(o, rs.drop_last()) + route_edges(o, rs.last())
    }
}

/// Every node an observation yields, in order: its file, then its symbols,
/// imports and routes.
pub open spec fn observation_nodes(o: CodeIndexObservation) -> Seq<NodeV> {
    seq![file_nodev(o)] + symbols_nodes(o, o.symbols@) + imports_nodes(o, o.imports@) + routes_nodes(o, o.routes@)
}

/// Every edge an observation yields, in order.
pub open spec fn observation_edges(o: CodeIndexObservation) -> Seq<EdgeV> {
    symbols_edges(o, o.symbols@) + imports_edges(o, o.imports@) + routes_edges(o, o.routes@)
}

pub open spec fn all_code_nodes(obs: Seq<CodeIndexObservation>) -> Seq<NodeV>
    decreases obs.len(),
{
    if obs.len() == 0 {
        Seq::empty()
    } else {
        all_code_nodes(obs.drop_last()) + observation_nodes(obs.last())
    }
}

pub open spec fn all_code_edges(obs: Seq<CodeIndexObservation>) -> Seq<EdgeV>
    decreases obs.len(),
{
    if obs.len() == 0 {
        Seq::empty()
    } else {
        all_code_edges(obs.drop_last()) + observation_edges(obs.last())
    }
}

pub open spec fn node_id_list(ns: Seq<NodeV>) -> Seq<Seq<char>> {
    ns.map_values(|n: NodeV| n.id)
}

pub open spec fn edge_id_list(es: Seq<EdgeV>) -> Seq<Seq<char>> {
    es.map_values(|e: EdgeV| e.id)
}

/// `out` with `n` added, unless a node of `out` already has its id.
pub open spec fn add_node_once(out: Seq<NodeV>, n: NodeV) -> Seq<NodeV> {
    if node_id_list(out).contains(n.id) {
        out
    } else {
        out.push(n)
    }
}

pub open spec fn add_edge_once(out: Seq<EdgeV>, e: EdgeV) -> Seq<EdgeV> {
    if edge_id_list(out).contains(e.id) {
        out
    } else {
        out.push(e)
    }
}

/// The first node of each id, in order.
pub open spec fn first_nodes(s: Seq<NodeV>) -> Seq<NodeV>
    decreases s.len(),
{
    if s.len() == 0 {
        Seq::empty()
    } else {
        add_node_once(first_nodes(s.drop_last()), s.last())
    }
}

/// The first edge of each id, in order.
pub open spec fn first_edges(s: Seq<EdgeV>) -> Seq<EdgeV>
    decreases s.len(),
{
    if s.len() == 0 {
        Seq::empty()
    } else {
        add_edge_once(first_edges(s.drop_last()), s.last())
    }
}

/// The nodes of a code index delta: every node the observations yield, the
/// first of each id kept.
pub open spec fn code_index_nodes(obs: Seq<CodeIndexObservation>) -> Seq<NodeV> {
    first_nodes(all_code_nodes(obs))
}

/// The edges of a code index delta, the first of each id kept.
pub open spec fn code_index_edges(obs: Seq<CodeIndexObservation>) -> Seq<EdgeV> {
    first_edges(all_code_edges(obs))
}

proof fn lemma_first_nodes_append(s: Seq<NodeV>, xs: Seq<NodeV>, x: NodeV)
    ensures
        first_nodes((s + xs).push(x)) == add_node_once(first_nodes(s + xs), x),
{
    assert((s + xs).push(x).drop_last() =~= s + xs);
}

proof fn lemma_first_edges_append(s: Seq<EdgeV>, xs: Seq<EdgeV>, x: EdgeV)
    ensures
        first_edges((s + xs).push(x)) == add_edge_once(first_edges(s + xs), x),
{
    assert((s + xs).push(x).drop_last() =~= s + xs);
}

fn has_node(v: &Vec<Node>, id: &String) -> (r: bool)
    ensures
        r == node_id_list(crate::keyed::views(v@)).contains(id@),
{
    let ic = string_chars(id);
    let mut i: usize = 0;
    while i < v.len()
        invariant
            i <= v@.len(),
            ic@ == id@,
            forall|k: int| 0 <= k < i ==> (#[trigger] v@[k])@.id != id@,
        decreases v@.len() - i,
    {
        if eq_chars(&string_chars(&v[i].id), &ic) {
            assert(node_id_list(crate::keyed::views(v@))[i as int] == id@);
            return true;
        }
        i = i + 1;
    }
    assert forall|k: int| 0 <= k < node_id_list(crate::keyed::views(v@)).len() implies node_id_list(
        crate::keyed::views(v@),
    )[k] != id@ by {
        assert(v@[k]@.id != id@);
    }
    false
}

fn has_edge(v: &Vec<Edge>, id: &String) -> (r: bool)
    ensures
        r == edge_id_list(crate::keyed::views(v@)).contains(id@),
{
    let ic = string_chars(id);
    let mut i: usize = 0;
    while i < v.len()
        invariant
            i <= v@.len(),
            ic@ == id@,
            forall|k: int| 0 <= k < i ==> (#[trigger] v@[k])@.id != id@,
        decreases v@.len() - i,
    {
        if eq_chars(&string_chars(&v[i].id), &ic) {
            assert(edge_id_list(crate::keyed::views(v@))[i as int] == id@);
            return true;
        }
        i = i + 1;
    }
    assert forall|k: int| 0 <= k < edge_id_list(crate::keyed::views(v@)).len() implies edge_id_list(
        crate::keyed::views(v@),
    )[k] != id@ by {
        assert(v@[k]@.id != id@);
    }
    false
}

fn push_node_once(nodes: &mut Vec<Node>, n: Node)
    ensures
        crate::keyed::views(final(nodes)@) == add_node_once(crate::keyed::views(old(nodes)@), n@),
{
    if !has_node(nodes, &n.id) {
        let ghost before = crate::keyed::views(nodes@);
        nodes.push(n);
        assert(crate::keyed::views(nodes@) =~= before.push(n@));
    }
}

fn push_edge_once(edges: &mut Vec<Edge>, e: Edge)
    ensures
        crate::keyed::views(final(edges)@) == add_edge_once(crate::keyed::views(old(edges)@), e@),
{
    if !has_edge(edges, &e.id) {
        let ghost before = crate::keyed::views(edges@);
        edges.push(e);
        assert(crate::keyed::views(edges@) =~= before.push(e@));
    }
}


/// `out` with each of `xs` added in turn (see `add_node_once`).
pub open spec fn add_nodes(out: Seq<NodeV>, xs: Seq<NodeV>) -> Seq<NodeV>
    decreases xs.len(),
{
    if xs.len() == 0 {
        out
    } else {
        add_node_once(add_nodes(out, xs.drop_last()), xs.last())
    }
}

/// `out` with each of `xs` added in turn (see `add_edge_once`).
pub open spec fn add_edges(out: Seq<EdgeV>, xs: Seq<EdgeV>) -> Seq<EdgeV>
    decreases xs.len(),
{
    if xs.len() == 0 {
        out
    } else {
        add_edge_once(add_edges(out, xs.drop_last()), xs.last())
    }
}

proof fn lemma_add_nodes_concat(out: Seq<NodeV>, a: Seq<NodeV>, b: Seq<NodeV>)
    ensures
        add_nodes(out, a + b) == add_nodes(add_nodes(out, a), b),
    decreases b.len(),
{
    if b.len() == 0 {
        assert(a + b =~= a);
    } else {
        lemma_add_nodes_concat(out, a, b.drop_last());
        assert((a + b).drop_last() =~= a + b.drop_last());
        assert((a + b).last() == b.last());
    }
}

proof fn lemma_add_edges_concat(out: Seq<EdgeV>, a: Seq<EdgeV>, b: Seq<EdgeV>)
    ensures
        add_edges(out, a + b) == add_edges(add_edges(out, a), b),
    decreases b.len(),
{
    if b.len() == 0 {
        assert(a + b =~= a);
    } else {
        lemma_add_edges_concat(out, a, b.drop_last());
        assert((a + b).drop_last() =~= a + b.drop_last());
        assert((a + b).last() == b.last());
    }
}

proof fn lemma_first_nodes_concat(s: Seq<NodeV>, xs: Seq<NodeV>)
    ensures
        first_nodes(s + xs) == add_nodes(first_nodes(s), xs),
    decreases xs.len(),
{
    if xs.len() == 0 {
        assert(s + xs =~= s);
    } else {
        lemma_first_nodes_concat(s, xs.drop_last());
        assert((s + xs).drop_last() =~= s + xs.drop_last());
        assert((s + xs).last() == xs.last());
    }
}

proof fn lemma_first_edges_concat(s: Seq<EdgeV>, xs: Seq<EdgeV>)
    ensures
        first_edges(s + xs) == add_edges(first_edges(s), xs),
    decreases xs.len(),
{
    if xs.len() == 0 {
        assert(s + xs =~= s);
    } else {
        lemma_first_edges_concat(s, xs.drop_last());
        assert((s + xs).drop_last() =~= s + xs.drop_last());
        assert((s + xs).last() == xs.last());
    }
}

fn num_value(v: Option<u32>) -> (r: JsonValue)
    ensures
        crate::model::json_view(r) == num_opt(v),
{
    match v {
        Some(x) => JsonValue::Int(x as i64),
        None => JsonValue::Null,
    }
}

fn push_loc_head(attrs: &mut Vec<(String, JsonValue)>, loc: &Option<SourceLocation>)
    ensures
        json_fields_view(final(attrs)@) == json_fields_view(old(attrs)@) + loc_head(*loc),
{
    let ghost before = json_fields_view(attrs@);
    match loc {
        Some(l) => {
            push_attr(attrs, "endColumn", num_value(l.end_column));
            push_attr(attrs, "endLine", num_value(l.end_line));
        },
        None => {},
    }
    assert(json_fields_view(attrs@) =~= before + loc_head(*loc));
}

fn push_loc_source(attrs: &mut Vec<(String, JsonValue)>, loc: &Option<SourceLocation>)
    ensures
        json_fields_view(final(attrs)@) == json_fields_view(old(attrs)@) + loc_source(*loc),
{
    let ghost before = json_fields_view(attrs@);
    match loc {
        Some(l) => {
            push_text(attrs, "sourceFile", l.file.as_str());
        },
        None => {},
    }
    assert(json_fields_view(attrs@) =~= before + loc_source(*loc));
}

fn push_loc_start(attrs: &mut Vec<(String, JsonValue)>, loc: &Option<SourceLocation>)
    ensures
        json_fields_view(final(attrs)@) == json_fields_view(old(attrs)@) + loc_start(*loc),
{
    let ghost before = json_fields_view(attrs@);
    match loc {
        Some(l) => {
            push_attr(attrs, "startColumn", num_value(l.start_column));
            push_attr(attrs, "startLine", num_value(l.start_line));
        },
        None => {},
    }
    assert(json_fields_view(attrs@) =~= before + loc_start(*loc));
}

fn code_file_node_id(path: &str) -> (r: String)
    ensures
        r@ == code_file_id(path@),
{
    let mut id = chars_of("node_code_file");
    push_fragment_part(&mut id, path);
    string_of(&id)
}

fn code_symbol_node_id(file: &str, kind: &str, name: &str) -> (r: String)
    ensures
        r@ == code_symbol_id(file@, kind@, name@),
{
    let mut id = chars_of("node_code_symbol");
    push_fragment_part(&mut id, file);
    push_fragment_part(&mut id, kind);
    push_fragment_part(&mut id, name);
    string_of(&id)
}

fn code_import_node_id(file: &str, imported: &str) -> (r: String)
    ensures
        r@ == code_import_id(file@, imported@),
{
    let mut id = chars_of("node_code_import");
    push_fragment_part(&mut id, file);
    push_fragment_part(&mut id, imported);
    string_of(&id)
}

fn code_route_node_id(method: &str, path: &str) -> (r: String)
    ensures
        r@ == code_route_id(method@, path@),
{
    let mut id = chars_of("node_code_route");
    push_fragment_part(&mut id, method);
    push_fragment_part(&mut id, path);
    string_of(&id)
}

fn observed_edge(from: &str, edge_type: &str, to: &str) -> (e: Edge)
    ensures
        e@ == observed_edgev(from@, edge_type@, to@),
{
    let mut raw = chars_of(from);
    append_str(&mut raw, ":");
    append_str(&mut raw, edge_type);
    append_str(&mut raw, ":");
    append_str(&mut raw, to);
    let f = fragment_chars(&raw);
    let mut id = chars_of("edge");
    append_str(&mut id, "_");
    append(&mut id, &f);
    let mut key = chars_of("edge:");
    append_str(&mut key, from);
    append_str(&mut key, ":");
    append_str(&mut key, edge_type);
    append_str(&mut key, ":");
    append_str(&mut key, to);
    let mut attrs: Vec<(String, JsonValue)> = Vec::new();
    assert(json_fields_view(attrs@) =~= Seq::empty());
    push_text(&mut attrs, "observedBy", CODE_INDEXER_ADAPTER_ID);
    push_text(&mut attrs, "sourceTrust", "Observation");
    push_text(&mut attrs, "trustState", "Observed");
    assert(json_fields_view(attrs@) =~= observed_fields());
    Edge {
        id: string_of(&id),
        stable_key: string_of(&key),
        edge_type: String::from_str(edge_type),
        from: String::from_str(from),
        to: String::from_str(to),
        attributes: attrs,
    }
}

fn file_node(o: &CodeIndexObservation) -> (n: Node)
    ensures
        n@ == file_nodev(*o),
{
    let mut attrs: Vec<(String, JsonValue)> = Vec::new();
    assert(json_fields_view(attrs@) =~= Seq::empty());
    push_opt(&mut attrs, "framework", &o.framework);
    push_attr(&mut attrs, "generated", JsonValue::Bool(o.generated));
    push_attr(&mut attrs, "importCount", crate::test_runner::duration_value(Some(o.imports.len() as u64)));
    push_text(&mut attrs, "language", o.language.as_str());
    push_text(&mut attrs, "observedBy", CODE_INDEXER_ADAPTER_ID);
    push_text(&mut attrs, "path", o.file.as_str());
    push_attr(&mut attrs, "routeCount", crate::test_runner::duration_value(Some(o.routes.len() as u64)));
    push_text(&mut attrs, "sourceFile", o.file.as_str());
    push_text(&mut attrs, "sourceTrust", "Observation");
    push_attr(&mut attrs, "symbolCount", crate::test_runner::duration_value(Some(o.symbols.len() as u64)));
    push_text(&mut attrs, "trustState", "Observed");
    assert(json_fields_view(attrs@) =~= file_nodev(*o).attributes);
    let mut key = chars_of("code-file:");
    append(&mut key, &string_chars(&o.file));
    crate::model::make_node(code_file_node_id(o.file.as_str()), string_of(&key), "CodeFile", attrs)
}

fn symbol_node(o: &CodeIndexObservation, s: &CodeSymbolObservation) -> (n: Node)
    ensures
        n@ == symbol_nodev(*o, *s),
{
    let mut attrs: Vec<(String, JsonValue)> = Vec::new();
    assert(json_fields_view(attrs@) =~= Seq::empty());
    push_loc_head(&mut attrs, &s.location);
    push_text(&mut attrs, "file", o.file.as_str());
    push_opt(&mut attrs, "framework", &o.framework);
    push_text(&mut attrs, "kind", s.kind.as_str());
    push_text(&mut attrs, "language", o.language.as_str());
    push_attr(&mut attrs, "line", num_value(s.line));
    push_text(&mut attrs, "name", s.name.as_str());
    push_text(&mut attrs, "observedBy", CODE_INDEXER_ADAPTER_ID);
    push_loc_source(&mut attrs, &s.location);
    push_text(&mut attrs, "sourceTrust", "Observation");
    push_loc_start(&mut attrs, &s.location);
    push_text(&mut attrs, "trustState", "Observed");
    assert(json_fields_view(attrs@) =~= symbol_nodev(*o, *s).attributes);
    let mut key = chars_of("code-symbol:");
    append(&mut key, &string_chars(&o.file));
    append_str(&mut key, "/");
    append(&mut key, &string_chars(&s.kind));
    append_str(&mut key, "/");
    append(&mut key, &string_chars(&s.name));
    crate::model::make_node(
        code_symbol_node_id(o.file.as_str(), s.kind.as_str(), s.name.as_str()),
        string_of(&key),
        "CodeSymbol",
        attrs,
    )
}

fn import_node(o: &CodeIndexObservation, i: &CodeImportObservation) -> (n: Node)
    ensures
        n@ == import_nodev(*o, *i),
{
    let mut attrs: Vec<(String, JsonValue)> = Vec::new();
    assert(json_fields_view(attrs@) =~= Seq::empty());
    push_loc_head(&mut attrs, &i.location);
    push_text(&mut attrs, "file", o.file.as_str());
    push_opt(&mut attrs, "framework", &o.framework);
    push_text(&mut attrs, "imported", i.imported.as_str());
    push_text(&mut attrs, "language", o.language.as_str());
    push_text(&mut attrs, "observedBy", CODE_INDEXER_ADAPTER_ID);
    push_loc_source(&mut attrs, &i.location);
    push_text(&mut attrs, "sourceTrust", "Observation");
    push_opt(&mut attrs, "specifier", &i.specifier);
    push_loc_start(&mut attrs, &i.location);
    push_text(&mut attrs, "trustState", "Observed");
    assert(json_fields_view(attrs@) =~= import_nodev(*o, *i).attributes);
    let mut key = chars_of("code-import:");
    append(&mut key, &string_chars(&o.file));
    append_str(&mut key, "->");
    append(&mut key, &string_chars(&i.imported));
    crate::model::make_node(
        code_import_node_id(o.file.as_str(), i.imported.as_str()),
        string_of(&key),
        "CodeImport",
        attrs,
    )
}

fn route_node(o: &CodeIndexObservation, r: &CodeRouteObservation) -> (n: Node)
    ensures
        n@ == route_nodev(*o, *r),
{
    let method = string_of(&upper_exec(&string_chars(&r.method)));
    let mut attrs: Vec<(String, JsonValue)> = Vec::new();
    assert(json_fields_view(attrs@) =~= Seq::empty());
    push_loc_head(&mut attrs, &r.location);
    push_text(&mut attrs, "file", o.file.as_str());
    push_opt(&mut attrs, "framework", &r.framework);
    push_opt(&mut attrs, "handlerSymbol", &r.handler_symbol);
    push_text(&mut attrs, "language", o.language.as_str());
    push_text(&mut attrs, "method", method.as_str());
    push_text(&mut attrs, "observedBy", CODE_INDEXER_ADAPTER_ID);
    push_text(&mut attrs, "path", r.path.as_str());
    push_loc_source(&mut attrs, &r.location);
    push_text(&mut attrs, "sourceTrust", "Observation");
    push_loc_start(&mut attrs, &r.location);
    push_text(&mut attrs, "trustState", "Observed");
    assert(json_fields_view(attrs@) =~= route_nodev(*o, *r).attributes);
    let mut key = chars_of("code-route:");
    append(&mut key, &string_chars(&method));
    append_str(&mut key, "-");
    append(&mut key, &string_chars(&r.path));
    crate::model::make_node(
        code_route_node_id(r.method.as_str(), r.path.as_str()),
        string_of(&key),
        "CodeRoute",
        attrs,
    )
}


fn add_symbol_facts(o: &CodeIndexObservation, fid: &String, nodes: &mut Vec<Node>, edges: &mut Vec<Edge>)
    requires
        fid@ == code_file_id(o.file@),
    ensures
        crate::keyed::views(final(nodes)@) == add_nodes(crate::keyed::views(old(nodes)@), symbols_nodes(*o, o.symbols@)),
        crate::keyed::views(final(edges)@) == add_edges(crate::keyed::views(old(edges)@), symbols_edges(*o, o.symbols@)),
{
    let ghost n0 = crate::keyed::views(nodes@);
    let ghost e0 = crate::keyed::views(edges@);
    let ghost ss = o.symbols@;
    let mut j: usize = 0;
    assert(ss.take(0) =~= Seq::<CodeSymbolObservation>::empty());
    while j < o.symbols.len()
        invariant
            j <= ss.len(),
            ss == o.symbols@,
            fid@ == code_file_id(o.file@),
            crate::keyed::views(nodes@) == add_nodes(n0, symbols_nodes(*o, ss.take(j as int))),
            crate::keyed::views(edges@) == add_edges(e0, symbols_edges(*o, ss.take(j as int))),
        decreases ss.len() - j,
    {
        let s = &o.symbols[j];
        assert(ss.take(j + 1).drop_last() =~= ss.take(j as int));
        assert(ss.take(j + 1).last() == ss[j as int]);
        let ghost sn = symbols_nodes(*o, ss.take(j as int));
        let ghost se = symbols_edges(*o, ss.take(j as int));
        assert(symbols_nodes(*o, ss.take(j + 1)).drop_last() =~= sn);
        assert(symbols_edges(*o, ss.take(j + 1)).drop_last() =~= se);
        push_node_once(nodes, symbol_node(o, s));
        let sid = code_symbol_node_id(o.file.as_str(), s.kind.as_str(), s.name.as_str());
        push_edge_once(edges, observed_edge(fid.as_str(), "DEFINES_SYMBOL", sid.as_str()));
        j = j + 1;
    }
    assert(ss.take(ss.len() as int) =~= ss);
}

fn add_import_facts(o: &CodeIndexObservation, fid: &String, nodes: &mut Vec<Node>, edges: &mut Vec<Edge>)
    requires
        fid@ == code_file_id(o.file@),
    ensures
        crate::keyed::views(final(nodes)@) == add_nodes(crate::keyed::views(old(nodes)@), imports_nodes(*o, o.imports@)),
        crate::keyed::views(final(edges)@) == add_edges(crate::keyed::views(old(edges)@), imports_edges(*o, o.imports@)),
{
    let ghost n0 = crate::keyed::views(nodes@);
    let ghost e0 = crate::keyed::views(edges@);
    let ghost is = o.imports@;
    let mut j: usize = 0;
    assert(is.take(0) =~= Seq::<CodeImportObservation>::empty());
    while j < o.imports.len()
        invariant
            j <= is.len(),
            is == o.imports@,
            fid@ == code_file_id(o.file@),
            crate::keyed::views(nodes@) == add_nodes(n0, imports_nodes(*o, is.take(j as int))),
            crate::keyed::views(edges@) == add_edges(e0, imports_edges(*o, is.take(j as int))),
        decreases is.len() - j,
    {
        let i = &o.imports[j];
        assert(is.take(j + 1).drop_last() =~= is.take(j as int));
        assert(is.take(j + 1).last() == is[j as int]);
        let ghost pe = imports_edges(*o, is.take(j as int));
        assert(imports_nodes(*o, is.take(j + 1)).drop_last() =~= imports_nodes(*o, is.take(j as int)));
        push_node_once(nodes, import_node(o, i));
        let iid = code_import_node_id(o.file.as_str(), i.imported.as_str());
        let target = code_file_node_id(i.imported.as_str());
        let e1 = observed_edge(fid.as_str(), "HAS_IMPORT", iid.as_str());
        let e2 = observed_edge(fid.as_str(), "IMPORTS_FILE", target.as_str());
        let ghost pair = seq![e1@, e2@];
        let ghost mid = crate::keyed::views(edges@);
        push_edge_once(edges, e1);
        push_edge_once(edges, e2);
        proof {
            assert(pair == import_edges(*o, is[j as int]));
            assert(pair.drop_last() =~= seq![e1@]);
            assert(seq![e1@].drop_last() =~= Seq::<EdgeV>::empty());
            assert(add_edges(mid, Seq::<EdgeV>::empty()) == mid);
            assert(add_edges(mid, seq![e1@]) == add_edge_once(mid, e1@));
            assert(add_edges(mid, pair) == add_edge_once(add_edge_once(mid, e1@), e2@));
            lemma_add_edges_concat(e0, pe, pair);
        }
        j = j + 1;
    }
    assert(is.take(is.len() as int) =~= is);
}

fn add_route_facts(o: &CodeIndexObservation, fid: &String, nodes: &mut Vec<Node>, edges: &mut Vec<Edge>)
    requires
        fid@ == code_file_id(o.file@),
    ensures
        crate::keyed::views(final(nodes)@) == add_nodes(crate::keyed::views(old(nodes)@), routes_nodes(*o, o.routes@)),
        crate::keyed::views(final(edges)@) == add_edges(crate::keyed::views(old(edges)@), routes_edges(*o, o.routes@)),
{
    let ghost n0 = crate::keyed::views(nodes@);
    let ghost e0 = crate::keyed::views(edges@);
    let ghost rs = o.routes@;
    let mut j: usize = 0;
    assert(rs.take(0) =~= Seq::<CodeRouteObservation>::empty());
    while j < o.routes.len()
        invariant
            j <= rs.len(),
            rs == o.routes@,
            fid@ == code_file_id(o.file@),
            crate::keyed::views(nodes@) == add_nodes(n0, routes_nodes(*o, rs.take(j as int))),
            crate::keyed::views(edges@) == add_edges(e0, routes_edges(*o, rs.take(j as int))),
        decreases rs.len() - j,
    {
        let r = &o.routes[j];
        assert(rs.take(j + 1).drop_last() =~= rs.take(j as int));
        assert(rs.take(j + 1).last() == rs[j as int]);
        let ghost pe = routes_edges(*o, rs.take(j as int));
        assert(routes_nodes(*o, rs.take(j + 1)).drop_last() =~= routes_nodes(*o, rs.take(j as int)));
        push_node_once(nodes, route_node(o, r));
        let rid = code_route_node_id(r.method.as_str(), r.path.as_str());
        let e1 = observed_edge(fid.as_str(), "DECLARES_ROUTE", rid.as_str());
        let ghost mid = crate::keyed::views(edges@);
        let ghost e1v = e1@;
        push_edge_once(edges, e1);
        match &r.handler_symbol {
            Some(h) => {
                let sid = code_symbol_node_id(o.file.as_str(), "function", h.as_str());
                let e2 = observed_edge(rid.as_str(), "HANDLED_BY_SYMBOL", sid.as_str());
                let ghost pair = seq![e1v, e2@];
                push_edge_once(edges, e2);
                proof {
                    assert(pair == route_edges(*o, rs[j as int]));
                    assert(pair.drop_last() =~= seq![e1v]);
                    assert(seq![e1v].drop_last() =~= Seq::<EdgeV>::empty());
                    assert(add_edges(mid, Seq::<EdgeV>::empty()) == mid);
                    assert(add_edges(mid, seq![e1v]) == add_edge_once(mid, e1v));
                    assert(add_edges(mid, pair) == add_edge_once(add_edge_once(mid, e1v), e2@));
                    lemma_add_edges_concat(e0, pe, pair);
                }
            },
            None => {
                proof {
                    let one = seq![e1v];
                    assert(one =~= route_edges(*o, rs[j as int]));
                    assert(one.drop_last() =~= Seq::<EdgeV>::empty());
                    assert(add_edges(mid, Seq::<EdgeV>::empty()) == mid);
                    assert(add_edges(mid, one) == add_edge_once(mid, e1v));
                    lemma_add_edges_concat(e0, pe, one);
                }
            },
        }
        j = j + 1;
    }
    assert(rs.take(rs.len() as int) =~= rs);
}

/// The graph delta of code-index observations: for each observation in
/// order, its CodeFile node, then a CodeSymbol node and a `DEFINES_SYMBOL`
/// edge per symbol, a CodeImport node with `HAS_IMPORT` and `IMPORTS_FILE`
/// edges per import, and a CodeRoute node with a `DECLARES_ROUTE` edge (and a
/// `HANDLED_BY_SYMBOL` edge where it names a handler) per route; each node
/// and edge id is created once, the first one kept. It creates only.
pub fn observations_to_delta(observations: &[CodeIndexObservation]) -> (d: GraphDelta)
    ensures
        crate::keyed::views(d.create_nodes@) == code_index_nodes(observations@),
        crate::keyed::views(d.create_edges@) == code_index_edges(observations@),
        d.update_nodes@.len() == 0,
        d.update_edges@.len() == 0,
        d.delete_nodes@.len() == 0,
        d.delete_edges@.len() == 0,
{
    let mut nodes: Vec<Node> = Vec::new();
    let mut edges: Vec<Edge> = Vec::new();
    let ghost obs = observations@;
    let mut i: usize = 0;
    assert(obs.take(0) =~= Seq::<CodeIndexObservation>::empty());
    assert(crate::keyed::views(nodes@) =~= Seq::<NodeV>::empty());
    assert(crate::keyed::views(edges@) =~= Seq::<EdgeV>::empty());
    while i < observations.len()
        invariant
            i <= obs.len(),
            obs == observations@,
            crate::keyed::views(nodes@) == first_nodes(all_code_nodes(obs.take(i as int))),
            crate::keyed::views(edges@) == first_edges(all_code_edges(obs.take(i as int))),
        decreases obs.len() - i,
    {
        let o = &observations[i];
        let ghost n0 = crate::keyed::views(nodes@);
        let ghost e0 = crate::keyed::views(edges@);
        assert(obs.take(i + 1).drop_last() =~= obs.take(i as int));
        assert(obs.take(i + 1).last() == obs[i as int]);
        let fid = code_file_node_id(o.file.as_str());
        push_node_once(&mut nodes, file_node(o));
        let ghost n1 = crate::keyed::views(nodes@);
        add_symbol_facts(o, &fid, &mut nodes, &mut edges);
        let ghost n2 = crate::keyed::views(nodes@);
        let ghost e2 = crate::keyed::views(edges@);
        add_import_facts(o, &fid, &mut nodes, &mut edges);
        let ghost n3 = crate::keyed::views(nodes@);
        let ghost e3 = crate::keyed::views(edges@);
        add_route_facts(o, &fid, &mut nodes, &mut edges);
        proof {
            let f = seq![file_nodev(*o)];
            let sn = symbols_nodes(*o, o.symbols@);
            let inn = imports_nodes(*o, o.imports@);
            let rn = routes_nodes(*o, o.routes@);
            assert(f.drop_last() =~= Seq::<NodeV>::empty());
            assert(add_nodes(n0, Seq::<NodeV>::empty()) == n0);
            assert(add_nodes(n0, f) == n1);
            lemma_add_nodes_concat(n0, f, sn);
            lemma_add_nodes_concat(n0, f + sn, inn);
            lemma_add_nodes_concat(n0, f + sn + inn, rn);
            assert(observation_nodes(*o) == f + sn + inn + rn);
            lemma_first_nodes_concat(all_code_nodes(obs.take(i as int)), observation_nodes(*o));
            let se = symbols_edges(*o, o.symbols@);
            let ie = imports_edges(*o, o.imports@);
            let re = routes_edges(*o, o.routes@);
            lemma_add_edges_concat(e0, se, ie);
            lemma_add_edges_concat(e0, se + ie, re);
            assert(observation_edges(*o) == se + ie + re);
            lemma_first_edges_concat(all_code_edges(obs.take(i as int)), observation_edges(*o));
        }
        i = i + 1;
    }
    assert(obs.take(obs.len() as int) =~= obs);
    let mut d = GraphDelta::empty();
    d.create_nodes = nodes;
    d.create_edges = edges;
    d
}


proof fn lemma_first_nodes_unique(s: Seq<NodeV>)
    ensures
        node_id_list(first_nodes(s)).no_duplicates(),
        forall|k: Seq<char>| node_id_list(first_nodes(s)).contains(k) <==> node_id_list(s).contains(k),
    decreases s.len(),
{
    if s.len() > 0 {
        lemma_first_nodes_unique(s.drop_last());
        let r = first_nodes(s.drop_last());
        let x = s.last();
        assert(s.drop_last().push(x) =~= s);
        assert(node_id_list(s) =~= node_id_list(s.drop_last()).push(x.id));
        broadcast use vstd::seq_lib::lemma_seq_contains_after_push;
        if !node_id_list(r).contains(x.id) {
            assert(node_id_list(r.push(x)) =~= node_id_list(r).push(x.id));
        }
    }
}

proof fn lemma_first_edges_unique(s: Seq<EdgeV>)
    ensures
        edge_id_list(first_edges(s)).no_duplicates(),
        forall|k: Seq<char>| edge_id_list(first_edges(s)).contains(k) <==> edge_id_list(s).contains(k),
    decreases s.len(),
{
    if s.len() > 0 {
        lemma_first_edges_unique(s.drop_last());
        let r = first_edges(s.drop_last());
        let x = s.last();
        assert(s.drop_last().push(x) =~= s);
        assert(edge_id_list(s) =~= edge_id_list(s.drop_last()).push(x.id));
        broadcast use vstd::seq_lib::lemma_seq_contains_after_push;
        if !edge_id_list(r).contains(x.id) {
            assert(edge_id_list(r.push(x)) =~= edge_id_list(r).push(x.id));
        }
    }
}

/// A code index delta creates each node id and each edge id once, and
/// creates a node (an edge) for every id the observations yield.
pub proof fn code_index_delta_ids_once(obs: Seq<CodeIndexObservation>)
    ensures
        node_id_list(code_index_nodes(obs)).no_duplicates(),
        edge_id_list(code_index_edges(obs)).no_duplicates(),
        forall|k: Seq<char>| node_id_list(code_index_nodes(obs)).contains(k) <==> node_id_list(all_code_nodes(obs)).contains(k),
        forall|k: Seq<char>| edge_id_list(code_index_edges(obs)).contains(k) <==> edge_id_list(all_code_edges(obs)).contains(k),
{
    lemma_first_nodes_unique(all_code_nodes(obs));
    lemma_first_edges_unique(all_code_edges(obs));
}


/// Whether `s` holds a symbol of kind `k` named `n`.
pub open spec fn has_symbol(s: Seq<LocatedSymbol>, k: Seq<char>, n: Seq<char>) -> bool {
    exists|i: int| 0 <= i < s.len() && (#[trigger] s[i]).0 == k && s[i].1 == n
}

proof fn lemma_add_symbols_keeps(acc: Seq<LocatedSymbol>, items: Seq<SymbolView>, line: u32)
    ensures
        forall|k: Seq<char>, n: Seq<char>| has_symbol(acc, k, n) ==> #[trigger] has_symbol(add_symbols(acc, items, line), k, n),
        forall|t: int|
            0 <= t < items.len() ==> has_symbol(add_symbols(acc, items, line), (#[trigger] items[t]).0, items[t].1),
    decreases items.len(),
{
    if items.len() > 0 {
        let init = items.drop_last();
        lemma_add_symbols_keeps(acc, init, line);
        let prev = add_symbols(acc, init, line);
        let all = add_symbols(acc, items, line);
        let (k0, n0) = items.last();
        assert forall|k: Seq<char>, n: Seq<char>| has_symbol(prev, k, n) implies #[trigger] has_symbol(all, k, n) by {
            let i = choose|i: int| 0 <= i < prev.len() && (#[trigger] prev[i]).0 == k && prev[i].1 == n;
            if !(exists|i: int| 0 <= i < prev.len() && (#[trigger] prev[i]).0 == k0 && prev[i].1 == n0) {
                assert(all == prev.push((k0, n0, line)));
                assert(all[i] == prev[i]);
            }
        }
        assert(has_symbol(all, k0, n0)) by {
            if !(exists|i: int| 0 <= i < prev.len() && (#[trigger] prev[i]).0 == k0 && prev[i].1 == n0) {
                assert(all[prev.len() as int] == (k0, n0, line));
            } else {
                assert(has_symbol(prev, k0, n0));
            }
        }
        assert forall|t: int| 0 <= t < items.len() implies has_symbol(all, (#[trigger] items[t]).0, items[t].1) by {
            if t < items.len() - 1 {
                assert(init[t] == items[t]);
                assert(has_symbol(prev, init[t].0, init[t].1));
            } else {
                assert(items[t] == items.last());
            }
        }
    }
}

/// Every symbol a line of a file declares is among the file's indexed
/// symbols.
pub proof fn declared_symbols_are_indexed(language: Seq<char>, ls: Seq<Seq<char>>, k: int)
    requires
        0 <= k < ls.len(),
    ensures
        forall|t: int|
            0 <= t < line_symbols(language, ls[k]).len() ==> has_symbol(
                symbols_of(language, ls),
                (#[trigger] line_symbols(language, ls[k])[t]).0,
                line_symbols(language, ls[k])[t].1,
            ),
    decreases ls.len(),
{
    let items = line_symbols(language, ls.last());
    lemma_add_symbols_keeps(symbols_of(language, ls.drop_last()), items, ls.len() as u32);
    if k < ls.len() - 1 {
        declared_symbols_are_indexed(language, ls.drop_last(), k);
        assert(ls.drop_last()[k] == ls[k]);
        assert forall|t: int| 0 <= t < line_symbols(language, ls[k]).len() implies has_symbol(
            symbols_of(language, ls),
            (#[trigger] line_symbols(language, ls[k])[t]).0,
            line_symbols(language, ls[k])[t].1,
        ) by {
            let x = line_symbols(language, ls[k])[t];
            assert(line_symbols(language, ls.drop_last()[k])[t] == x);
            assert(has_symbol(symbols_of(language, ls.drop_last()), x.0, x.1));
        }
    } else {
        assert(ls.last() == ls[k]);
    }
}

/// The declaration part of a Python line: without its `#` comment, trimmed,
/// and without leading `async` modifiers.
pub open spec fn python_declaration(line: Seq<char>) -> Seq<char> {
    normalize_keywords(trim(strip_comment(line, "#"@)), python_modifiers())
}

/// In a Python file, a line whose declaration reads `class Name` declares the
/// class `Name`, and one that reads `def name` the function `name`: both are
/// among the file's indexed symbols.
pub proof fn python_declarations_are_indexed(ls: Seq<Seq<char>>, k: int)
    requires
        0 <= k < ls.len(),
    ensures
        identifier_after(python_declaration(ls[k]), "class"@) matches Some(name) ==> has_symbol(
            symbols_of("python"@, ls),
            "class"@,
            name,
        ),
        identifier_after(python_declaration(ls[k]), "def"@) matches Some(name) ==> has_symbol(
            symbols_of("python"@, ls),
            "function"@,
            name,
        ),
{
    declared_symbols_are_indexed("python"@, ls, k);
    reveal_strlit("python");
    reveal_strlit("rust");
    reveal_strlit("typescript");
    reveal_strlit("javascript");
    assert("python"@.len() == 6 && "rust"@.len() == 4 && "typescript"@.len() == 10 && "javascript"@.len() == 10);
    let syms = line_symbols("python"@, ls[k]);
    assert(syms == python_symbols(ls[k]));
    let n = python_declaration(ls[k]);
    let a = sym_if(n, "def"@, "function"@);
    let b = sym_if(n, "class"@, "class"@);
    assert(syms == a + b);
    if identifier_after(n, "class"@) is Some {
        assert(syms[a.len() as int] == b[0]);
    }
    if identifier_after(n, "def"@) is Some {
        assert(syms[0] == a[0]);
    }
}

} // verus!
