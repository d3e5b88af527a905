//! Migration observation: recognise migration and schema formats, extract
//! table changes line by line, and classify their risk.

use crate::model::{Finding, FindingSeverity};
use crate::text::{
    lemma_seq_lt_irreflexive, lemma_seq_lt_total, lemma_seq_lt_transitive, lt_chars, seq_lt,
    sorted_insert, sorted_strict, strings_view, eq_chars,
    append, append_str, before_first, before_first_str, chars_of, contains, contains_str,
    ends_with, ends_with_str, eq_str, first_word, first_word_exec, lines, lines_exec, lower,
    lower_exec, msg3, remove_set, remove_set_exec, rsplit_once, rsplit_once_str, split_once,
    split_once_exec, split_once_str, starts_with, starts_with_str, string_chars, string_of,
    strip_prefix, strip_prefix_str, trim, trim_end_set, trim_end_set_exec, trim_exec, trim_set,
    trim_set_exec, trim_start_str, trim_start_str_exec, views,
};
use crate::ids::{stable_id2, stable_node_id, stable_view};
use crate::model::{
    Edge, EdgeV, Graph, GraphDelta, JsonV, JsonValue, Node, NodeV, attr_bool, attr_text, edge_of, fields_bool,
    fields_text, findings_full, json_fields_view, make_edge, make_node, push_related_finding, push_text,
};
use crate::git_graph::{FullFinding, has_outgoing, no_ids, one_id, outgoing};
use crate::text::msg5;
use vstd::prelude::*;

verus! {

pub const MIGRATION_OBSERVER_ID: &'static str = "specgraph.adapter.migration-observer/v1";

#[derive(Debug, Clone, PartialEq, Eq)]
pub struct MigrationObservation {
    pub id: String,
    pub file: String,
    pub parser: String,
    pub risk_classification: String,
    pub destructive: bool,
    pub production_sensitive: bool,
    pub affected_tables: Vec<String>,
    pub changes: Vec<MigrationChangeObservation>,
    pub findings: Vec<String>,
}

#[derive(Debug, Clone, PartialEq, Eq)]
pub struct MigrationChangeObservation {
    pub kind: String,
    pub table: Option<String>,
    pub column: Option<String>,
    pub detail: Option<String>,
    pub destructive: bool,
}

/// A change as values: kind, table, column, detail, destructive.
pub type ChangeView = (Seq<char>, Option<Seq<char>>, Option<Seq<char>>, Option<Seq<char>>, bool);

pub open spec fn sopt(o: Option<String>) -> Option<Seq<char>> {
    match o {
        Some(s) => Some(s@),
        None => None,
    }
}

pub open spec fn change_view(c: MigrationChangeObservation) -> ChangeView {
    (c.kind@, sopt(c.table), sopt(c.column), sopt(c.detail), c.destructive)
}

pub open spec fn changes_view(v: Seq<MigrationChangeObservation>) -> Seq<ChangeView> {
    v.map_values(|c: MigrationChangeObservation| change_view(c))
}

pub open spec fn table_quotes() -> Seq<char> {
    seq!['"', '\'', '`', '(', ')', ',', ';']
}

/// A table name without surrounding quotes, brackets and punctuation, a
/// leading `if`/`not`/`exists`, or surrounding dots.
pub open spec fn clean_table(value: Seq<char>) -> Seq<char> {
    trim_set(
        trim_start_str(
            trim_start_str(trim_start_str(trim_set(trim(value), table_quotes()), "if"@), "not"@),
            "exists"@,
        ),
        seq!['.'],
    )
}

fn clean_table_name(value: &[char]) -> (r: Vec<char>)
    ensures
        r@ == clean_table(value@),
{
    let quotes: Vec<char> = vec!['"', '\'', '`', '(', ')', ',', ';'];
    assert(quotes@ =~= table_quotes());
    let dots: Vec<char> = vec!['.'];
    assert(dots@ =~= seq!['.']);
    let a = trim_set_exec(&trim_exec(value), &quotes);
    let b = trim_start_str_exec(&trim_start_str_exec(&trim_start_str_exec(&a, "if"), "not"), "exists");
    trim_set_exec(&b, &dots)
}

/// A non-destructive change of `kind` to the cleaned `table`.
pub open spec fn change_of(kind: Seq<char>, table: Seq<char>) -> ChangeView {
    (kind, Some(clean_table(table)), None, None, false)
}

/// A destructive change of `kind` to the cleaned `table`.
pub open spec fn destructive_of(kind: Seq<char>, table: Seq<char>) -> ChangeView {
    (kind, Some(clean_table(table)), None, None, true)
}

fn change(kind: &str, table: &[char]) -> (c: MigrationChangeObservation)
    ensures
        change_view(c) == change_of(kind@, table@),
{
    MigrationChangeObservation {
        kind: String::from_str(kind),
        table: Some(string_of(&clean_table_name(table))),
        column: None,
        detail: None,
        destructive: false,
    }
}

fn destructive(kind: &str, table: &[char]) -> (c: MigrationChangeObservation)
    ensures
        change_view(c) == destructive_of(kind@, table@),
{
    let mut c = change(kind, table);
    c.destructive = true;
    c
}

/// The first non-blank value between two equal quotes, trying `"`, `'`
/// and then a backtick.
pub open spec fn quoted_in(line: Seq<char>, quotes: Seq<char>) -> Option<Seq<char>>
    decreases quotes.len(),
{
    if quotes.len() == 0 {
        None
    } else {
        let q = seq![quotes[0]];
        let found = match split_once(line, q) {
            Some((_, rest)) => match split_once(rest, q) {
                Some((value, _)) => if trim(value).len() != 0 {
                    Some(trim(value))
                } else {
                    None
                },
                None => None,
            },
            None => None,
        };
        match found {
            Some(v) => Some(v),
            None => quoted_in(line, quotes.drop_first()),
        }
    }
}

pub open spec fn migration_quotes() -> Seq<char> {
    seq!['"', '\'', '`']
}

pub open spec fn quoted(line: Seq<char>) -> Option<Seq<char>> {
    quoted_in(line, migration_quotes())
}

fn quoted_value(line: &[char]) -> (r: Option<Vec<char>>)
    ensures
        r matches Some(v) ==> quoted(line@) == Some(v@),
        r is None ==> quoted(line@) is None,
{
    let quotes: Vec<char> = vec!['"', '\'', '`'];
    assert(quotes@ =~= migration_quotes());
    let mut k: usize = 0;
    assert(quotes@.skip(0) =~= quotes@);
    while k < quotes.len()
        invariant
            k <= quotes@.len(),
            quotes@ == migration_quotes(),
            quoted(line@) == quoted_in(line@, quotes@.skip(k as int)),
        decreases quotes@.len() - k,
    {
        let q: Vec<char> = vec![quotes[k]];
        assert(q@ =~= seq![quotes@.skip(k as int)[0]]);
        assert(quotes@.skip(k as int).drop_first() =~= quotes@.skip(k + 1));
        if let Some((_, rest)) = split_once_exec(line, &q) {
            if let Some((value, _)) = split_once_exec(&rest, &q) {
                let t = trim_exec(&value);
                if t.len() != 0 {
                    return Some(t);
                }
            }
        }
        k = k + 1;
    }
    None
}

/// The first word after `prefix` in the lower-cased `line`.
pub open spec fn word_after(line: Seq<char>, prefix: Seq<char>) -> Option<Seq<char>> {
    match split_once(lower(line), prefix) {
        Some((_, rest)) => first_word(rest),
        None => None,
    }
}

/// The first word after the last `marker` in the lower-cased `line`.
pub open spec fn word_after_last(line: Seq<char>, marker: Seq<char>) -> Option<Seq<char>> {
    match rsplit_once(lower(line), marker) {
        Some((_, rest)) => first_word(rest),
        None => None,
    }
}

pub open spec fn token_quotes() -> Seq<char> {
    seq!['"', '\'', '`', ',', ';']
}

/// The first word after `marker` in `line`, without quotes and separators.
pub open spec fn token_after_marker(line: Seq<char>, marker: Seq<char>) -> Option<Seq<char>> {
    match split_once(line, marker) {
        Some((_, rest)) => match first_word(rest) {
            Some(w) => if trim_set(w, token_quotes()).len() != 0 {
                Some(trim_set(w, token_quotes()))
            } else {
                None
            },
            None => None,
        },
        None => None,
    }
}

fn table_after(line: &[char], prefix: &str) -> (r: Option<Vec<char>>)
    ensures
        r matches Some(v) ==> word_after(line@, prefix@) == Some(v@),
        r is None ==> word_after(line@, prefix@) is None,
{
    let l = lower_exec(line);
    let (_, rest) = split_once_str(&l, prefix)?;
    first_word_exec(&rest)
}

fn table_after_last(line: &[char], marker: &str) -> (r: Option<Vec<char>>)
    ensures
        r matches Some(v) ==> word_after_last(line@, marker@) == Some(v@),
        r is None ==> word_after_last(line@, marker@) is None,
{
    let l = lower_exec(line);
    let (_, rest) = rsplit_once_str(&l, marker)?;
    first_word_exec(&rest)
}

fn token_after(line: &[char], marker: &str) -> (r: Option<Vec<char>>)
    ensures
        r matches Some(v) ==> token_after_marker(line@, marker@) == Some(v@),
        r is None ==> token_after_marker(line@, marker@) is None,
{
    let (_, rest) = split_once_str(line, marker)?;
    let w = first_word_exec(&rest)?;
    let q: Vec<char> = vec!['"', '\'', '`', ',', ';'];
    assert(q@ =~= token_quotes());
    let t = trim_set_exec(&w, &q);
    if t.len() != 0 {
        Some(t)
    } else {
        None
    }
}

/// A SQL line without its `--` comment, surrounding blanks, trailing `;`,
/// backticks and double quotes.
pub open spec fn normalized_sql(line: Seq<char>) -> Seq<char> {
    remove_set(trim_end_set(trim(before_first(line, "--"@)), seq![';']), seq!['`', '"'])
}

fn normalize_sql_line(line: &[char]) -> (r: Vec<char>)
    ensures
        r@ == normalized_sql(line@),
{
    let semi: Vec<char> = vec![';'];
    assert(semi@ =~= seq![';']);
    let q: Vec<char> = vec!['`', '"'];
    assert(q@ =~= seq!['`', '"']);
    let a = trim_end_set_exec(&trim_exec(&before_first_str(line, "--")), &semi);
    remove_set_exec(&a, &q)
}

pub open spec fn opt_change(o: Option<Seq<char>>, kind: Seq<char>, destructive: bool) -> Option<ChangeView> {
    match o {
        Some(t) => Some(if destructive {
            destructive_of(kind, t)
        } else {
            change_of(kind, t)
        }),
        None => None,
    }
}

/// The change an `ALTER TABLE` line makes, by its first matching clause.
pub open spec fn sql_alter_change(line: Seq<char>) -> Option<ChangeView> {
    match word_after(line, "alter table"@) {
        None => None,
        Some(table) => {
            let l = lower(line);
            if contains(l, " drop column "@) {
                Some(("dropColumn"@, Some(clean_table(table)), token_after_marker(l, " drop column "@), None, true))
            } else if contains(l, " rename column "@) {
                Some(("renameColumn"@, Some(clean_table(table)), token_after_marker(l, " rename column "@), None, true))
            } else if contains(l, " add column "@) || contains(l, " add "@) {
                Some(
                    (
                        "addColumn"@,
                        Some(clean_table(table)),
                        match token_after_marker(l, " add column "@) {
                            Some(c) => Some(c),
                            None => token_after_marker(l, " add "@),
                        },
                        None,
                        false,
                    ),
                )
            } else if contains(l, " alter column "@) {
                Some(("alterColumn"@, Some(clean_table(table)), token_after_marker(l, " alter column "@), None, false))
            } else if contains(l, " constraint "@) {
                Some(change_of("addConstraint"@, table))
            } else {
                Some(("rawSql"@, Some(clean_table(table)), None, Some(line), false))
            }
        },
    }
}

fn opt_string(o: Option<Vec<char>>) -> (r: Option<String>)
    ensures
        sopt(r) == match o {
            Some(v) => Some(v@),
            None => None,
        },
{
    match o {
        Some(v) => Some(string_of(&v)),
        None => None,
    }
}

fn parse_sql_alter_table(line: &[char]) -> (r: Option<MigrationChangeObservation>)
    ensures
        r matches Some(c) ==> sql_alter_change(line@) == Some(change_view(c)),
        r is None ==> sql_alter_change(line@) is None,
{
    let table = table_after(line, "alter table")?;
    let l = lower_exec(line);
    if contains_str(&l, " drop column ") {
        let mut out = destructive("dropColumn", &table);
        out.column = opt_string(token_after(&l, " drop column "));
        Some(out)
    } else if contains_str(&l, " rename column ") {
        let mut out = destructive("renameColumn", &table);
        out.column = opt_string(token_after(&l, " rename column "));
        Some(out)
    } else if contains_str(&l, " add column ") || contains_str(&l, " add ") {
        let mut out = change("addColumn", &table);
        let column = match token_after(&l, " add column ") {
            Some(c) => Some(c),
            None => token_after(&l, " add "),
        };
        out.column = opt_string(column);
        Some(out)
    } else if contains_str(&l, " alter column ") {
        let mut out = change("alterColumn", &table);
        out.column = opt_string(token_after(&l, " alter column "));
        Some(out)
    } else if contains_str(&l, " constraint ") {
        Some(change("addConstraint", &table))
    } else {
        let mut out = change("rawSql", &table);
        out.detail = Some(string_of(line));
        Some(out)
    }
}

/// The change one SQL migration line makes, if any.
pub open spec fn sql_line_change(raw: Seq<char>) -> Option<ChangeView> {
    let n = normalized_sql(raw);
    let l = lower(n);
    if starts_with(l, "create table"@) {
        opt_change(word_after(n, "create table"@), "createTable"@, false)
    } else if starts_with(l, "drop table"@) {
        opt_change(word_after(n, "drop table"@), "dropTable"@, true)
    } else if starts_with(l, "alter table"@) {
        sql_alter_change(n)
    } else if starts_with(l, "create index"@) || starts_with(l, "create unique index"@) || contains(
        l,
        " create index "@,
    ) {
        opt_change(word_after_last(n, " on "@), "createIndex"@, false)
    } else {
        None
    }
}

fn opt_change_exec(o: Option<Vec<char>>, kind: &str, is_destructive: bool) -> (r: Option<MigrationChangeObservation>)
    ensures
        r matches Some(c) ==> opt_change(
            match o {
                Some(v) => Some(v@),
                None => None,
            },
            kind@,
            is_destructive,
        ) == Some(change_view(c)),
        r is None ==> o is None,
{
    match o {
        Some(t) => Some(if is_destructive {
            destructive(kind, &t)
        } else {
            change(kind, &t)
        }),
        None => None,
    }
}

fn sql_line_change_exec(raw: &[char]) -> (r: Option<MigrationChangeObservation>)
    ensures
        r matches Some(c) ==> sql_line_change(raw@) == Some(change_view(c)),
        r is None ==> sql_line_change(raw@) is None,
{
    let n = normalize_sql_line(raw);
    let l = lower_exec(&n);
    if starts_with_str(&l, "create table") {
        opt_change_exec(table_after(&n, "create table"), "createTable", false)
    } else if starts_with_str(&l, "drop table") {
        opt_change_exec(table_after(&n, "drop table"), "dropTable", true)
    } else if starts_with_str(&l, "alter table") {
        parse_sql_alter_table(&n)
    } else if starts_with_str(&l, "create index") || starts_with_str(&l, "create unique index")
        || contains_str(&l, " create index ") {
        opt_change_exec(table_after_last(&n, " on "), "createIndex", false)
    } else {
        None
    }
}


pub open spec fn prisma_line_change(line: Seq<char>) -> Option<ChangeView> {
    match strip_prefix(trim(line), "model "@) {
        Some(rest) => opt_change(first_word(rest), "createTable"@, false),
        None => None,
    }
}

/// The table a knex builder line names: the quoted value after
/// `createTable(`, else after `table(`.
pub open spec fn knex_table(line: Seq<char>) -> Option<Seq<char>> {
    match split_once(line, "createTable("@) {
        Some((_, rest)) => quoted(rest),
        None => match split_once(line, "table("@) {
            Some((_, rest)) => quoted(rest),
            None => None,
        },
    }
}

pub open spec fn knex_line_change(line: Seq<char>) -> Option<ChangeView> {
    let l = lower(line);
    if contains(l, ".createtable("@) {
        opt_change(quoted(line), "createTable"@, false)
    } else if contains(l, ".droptable("@) || contains(l, ".droptableifexists("@) {
        opt_change(quoted(line), "dropTable"@, true)
    } else if contains(l, ".renamecolumn("@) {
        opt_change(knex_table(line), "renameColumn"@, true)
    } else if contains(l, ".dropcolumn("@) {
        opt_change(knex_table(line), "dropColumn"@, true)
    } else if contains(l, "table."@) {
        opt_change(knex_table(line), "addColumn"@, false)
    } else {
        None
    }
}

pub open spec fn typeorm_line_change(line: Seq<char>) -> Option<ChangeView> {
    let l = lower(line);
    if contains(l, "createtable"@) {
        opt_change(quoted(line), "createTable"@, false)
    } else if contains(l, "droptable"@) {
        opt_change(quoted(line), "dropTable"@, true)
    } else if contains(l, "addcolumn"@) {
        opt_change(quoted(line), "addColumn"@, false)
    } else if contains(l, "dropcolumn"@) || contains(l, "renamecolumn"@) {
        opt_change(quoted(line), "dropColumn"@, true)
    } else if contains(l, "drop table"@) || contains(l, "drop column"@) {
        Some(("rawDestructiveSql"@, Some(clean_table("unknown"@)), None, Some(trim(line)), true))
    } else {
        None
    }
}

/// The change one line of a `format` migration makes.
pub open spec fn line_change(format: Seq<char>, line: Seq<char>) -> Option<ChangeView> {
    if format == "sql"@ {
        sql_line_change(line)
    } else if format == "prisma"@ {
        prisma_line_change(line)
    } else if format == "knex"@ {
        knex_line_change(line)
    } else if format == "typeorm"@ {
        typeorm_line_change(line)
    } else {
        None
    }
}

/// The changes of the lines `ls`, in line order.
pub open spec fn parsed_changes(format: Seq<char>, ls: Seq<Seq<char>>) -> Seq<ChangeView>
    decreases ls.len(),
{
    if ls.len() == 0 {
        Seq::empty()
    } else {
        parsed_changes(format, ls.drop_last()) + match line_change(format, ls.last()) {
            Some(c) => seq![c],
            None => Seq::empty(),
        }
    }
}

fn prisma_line_change_exec(line: &[char]) -> (r: Option<MigrationChangeObservation>)
    ensures
        r matches Some(c) ==> prisma_line_change(line@) == Some(change_view(c)),
        r is None ==> prisma_line_change(line@) is None,
{
    let rest = strip_prefix_str(&trim_exec(line), "model ")?;
    opt_change_exec(first_word_exec(&rest), "createTable", false)
}

fn current_knex_table(line: &[char]) -> (r: Option<Vec<char>>)
    ensures
        r matches Some(v) ==> knex_table(line@) == Some(v@),
        r is None ==> knex_table(line@) is None,
{
    match split_once_str(line, "createTable(") {
        Some((_, rest)) => quoted_value(&rest),
        None => match split_once_str(line, "table(") {
            Some((_, rest)) => quoted_value(&rest),
            None => None,
        },
    }
}

fn knex_line_change_exec(line: &[char]) -> (r: Option<MigrationChangeObservation>)
    ensures
        r matches Some(c) ==> knex_line_change(line@) == Some(change_view(c)),
        r is None ==> knex_line_change(line@) is None,
{
    let l = lower_exec(line);
    if contains_str(&l, ".createtable(") {
        opt_change_exec(quoted_value(line), "createTable", false)
    } else if contains_str(&l, ".droptable(") || contains_str(&l, ".droptableifexists(") {
        opt_change_exec(quoted_value(line), "dropTable", true)
    } else if contains_str(&l, ".renamecolumn(") {
        opt_change_exec(current_knex_table(line), "renameColumn", true)
    } else if contains_str(&l, ".dropcolumn(") {
        opt_change_exec(current_knex_table(line), "dropColumn", true)
    } else if contains_str(&l, "table.") {
        opt_change_exec(current_knex_table(line), "addColumn", false)
    } else {
        None
    }
}

fn typeorm_line_change_exec(line: &[char]) -> (r: Option<MigrationChangeObservation>)
    ensures
        r matches Some(c) ==> typeorm_line_change(line@) == Some(change_view(c)),
        r is None ==> typeorm_line_change(line@) is None,
{
    let l = lower_exec(line);
    if contains_str(&l, "createtable") {
        opt_change_exec(quoted_value(line), "createTable", false)
    } else if contains_str(&l, "droptable") {
        opt_change_exec(quoted_value(line), "dropTable", true)
    } else if contains_str(&l, "addcolumn") {
        opt_change_exec(quoted_value(line), "addColumn", false)
    } else if contains_str(&l, "dropcolumn") || contains_str(&l, "renamecolumn") {
        opt_change_exec(quoted_value(line), "dropColumn", true)
    } else if contains_str(&l, "drop table") || contains_str(&l, "drop column") {
        let mut out = destructive("rawDestructiveSql", &chars_of("unknown"));
        out.detail = Some(string_of(&trim_exec(line)));
        Some(out)
    } else {
        None
    }
}

fn line_change_exec(format: &[char], line: &[char]) -> (r: Option<MigrationChangeObservation>)
    ensures
        r matches Some(c) ==> line_change(format@, line@) == Some(change_view(c)),
        r is None ==> line_change(format@, line@) is None,
{
    if eq_str(format, "sql") {
        sql_line_change_exec(line)
    } else if eq_str(format, "prisma") {
        prisma_line_change_exec(line)
    } else if eq_str(format, "knex") {
        knex_line_change_exec(line)
    } else if eq_str(format, "typeorm") {
        typeorm_line_change_exec(line)
    } else {
        None
    }
}

fn parse_lines(format: &str, source: &[char]) -> (r: Vec<MigrationChangeObservation>)
    ensures
        changes_view(r@) == parsed_changes(format@, lines(source@)),
{
    let f = chars_of(format);
    let ls = lines_exec(source);
    let mut out: Vec<MigrationChangeObservation> = Vec::new();
    let mut i: usize = 0;
    assert(lines(source@).take(0) =~= Seq::<Seq<char>>::empty());
    assert(changes_view(out@) =~= Seq::<ChangeView>::empty());
    while i < ls.len()
        invariant
            i <= ls@.len(),
            f@ == format@,
            views(ls@) == lines(source@),
            changes_view(out@) == parsed_changes(format@, lines(source@).take(i as int)),
        decreases ls@.len() - i,
    {
        assert(lines(source@).take(i + 1).drop_last() =~= lines(source@).take(i as int));
        assert(lines(source@).take(i + 1).last() == ls@[i as int]@);
        let ghost prev = changes_view(out@);
        match line_change_exec(&f, &ls[i]) {
            Some(c) => {
                out.push(c);
                assert(changes_view(out@) =~= prev + seq![change_view(c)]);
            },
            None => {
                assert(changes_view(out@) =~= prev + Seq::<ChangeView>::empty());
            },
        }
        i = i + 1;
    }
    assert(lines(source@).take(i as int) =~= lines(source@));
    out
}

fn parse_sql_migration(source: &[char]) -> (r: Vec<MigrationChangeObservation>)
    ensures
        changes_view(r@) == parsed_changes("sql"@, lines(source@)),
{
    parse_lines("sql", source)
}

fn parse_prisma_schema(source: &[char]) -> (r: Vec<MigrationChangeObservation>)
    ensures
        changes_view(r@) == parsed_changes("prisma"@, lines(source@)),
{
    parse_lines("prisma", source)
}

fn parse_knex_migration(source: &[char]) -> (r: Vec<MigrationChangeObservation>)
    ensures
        changes_view(r@) == parsed_changes("knex"@, lines(source@)),
{
    parse_lines("knex", source)
}

fn parse_typeorm_migration(source: &[char]) -> (r: Vec<MigrationChangeObservation>)
    ensures
        changes_view(r@) == parsed_changes("typeorm"@, lines(source@)),
{
    parse_lines("typeorm", source)
}

/// The parser a file calls for, by its path, then its content.
pub open spec fn parser_of(path: Seq<char>, source: Seq<char>) -> Seq<char> {
    let p = lower(path);
    let s = lower(source);
    if ends_with(p, ".sql"@) {
        "sql"@
    } else if ends_with(p, "schema.prisma"@) || ends_with(p, ".prisma"@) {
        "prisma"@
    } else if contains(s, "knex.schema"@) || contains(s, ".createtable("@) {
        "knex"@
    } else if contains(s, "queryrunner"@) || contains(s, "new table("@) || contains(s, "typeorm"@) {
        "typeorm"@
    } else {
        "unsupported"@
    }
}

fn parser_for_path(path: &[char], source: &[char]) -> (r: String)
    ensures
        r@ == parser_of(path@, source@),
{
    let p = lower_exec(path);
    let s = lower_exec(source);
    if ends_with_str(&p, ".sql") {
        String::from_str("sql")
    } else if ends_with_str(&p, "schema.prisma") || ends_with_str(&p, ".prisma") {
        String::from_str("prisma")
    } else if contains_str(&s, "knex.schema") || contains_str(&s, ".createtable(") {
        String::from_str("knex")
    } else if contains_str(&s, "queryrunner") || contains_str(&s, "new table(") || contains_str(
        &s,
        "typeorm",
    ) {
        String::from_str("typeorm")
    } else {
        String::from_str("unsupported")
    }
}

pub open spec fn destructive_kind(k: Seq<char>) -> bool {
    k == "dropTable"@ || k == "dropColumn"@ || k == "renameTable"@ || k == "renameColumn"@ || k
        == "rawDestructiveSql"@
}

pub open spec fn rollback_kind(k: Seq<char>) -> bool {
    k == "alterColumn"@ || k == "rawSql"@
}

pub open spec fn additive_kind(k: Seq<char>) -> bool {
    k == "createTable"@ || k == "addColumn"@ || k == "createIndex"@ || k == "addConstraint"@
}

/// The risk class of a set of changes: destructive, rollback-required,
/// unknown (when the observer reported findings), additive, or compatible.
pub open spec fn risk_of(kinds: Seq<Seq<char>>, has_findings: bool) -> Seq<char> {
    if exists|i: int| 0 <= i < kinds.len() && destructive_kind(#[trigger] kinds[i]) {
        "destructive"@
    } else if exists|i: int| 0 <= i < kinds.len() && rollback_kind(#[trigger] kinds[i]) {
        "rollback-required"@
    } else if has_findings {
        "unknown"@
    } else if forall|i: int| 0 <= i < kinds.len() ==> additive_kind(#[trigger] kinds[i]) {
        "additive"@
    } else {
        "compatible"@
    }
}

pub open spec fn change_kinds(v: Seq<MigrationChangeObservation>) -> Seq<Seq<char>> {
    v.map_values(|c: MigrationChangeObservation| c.kind@)
}

pub fn classify_migration_risk(changes: &[MigrationChangeObservation], findings: &[String]) -> (r: String)
    ensures
        r@ == risk_of(change_kinds(changes@), findings@.len() > 0),
{
    let ghost kinds = change_kinds(changes@);
    let mut any_destructive = false;
    let mut any_rollback = false;
    let mut all_additive = true;
    let mut i: usize = 0;
    while i < changes.len()
        invariant
            i <= changes@.len(),
            kinds == change_kinds(changes@),
            any_destructive == exists|k: int| 0 <= k < i && destructive_kind(#[trigger] kinds[k]),
            any_rollback == exists|k: int| 0 <= k < i && rollback_kind(#[trigger] kinds[k]),
            all_additive == forall|k: int| 0 <= k < i ==> additive_kind(#[trigger] kinds[k]),
        decreases changes@.len() - i,
    {
        let k = string_chars(&changes[i].kind);
        assert(kinds[i as int] == k@);
        if eq_str(&k, "dropTable") || eq_str(&k, "dropColumn") || eq_str(&k, "renameTable")
            || eq_str(&k, "renameColumn") || eq_str(&k, "rawDestructiveSql") {
            any_destructive = true;
        }
        if eq_str(&k, "alterColumn") || eq_str(&k, "rawSql") {
            any_rollback = true;
        }
        if !(eq_str(&k, "createTable") || eq_str(&k, "addColumn") || eq_str(&k, "createIndex")
            || eq_str(&k, "addConstraint")) {
            all_additive = false;
        }
        i = i + 1;
    }
    if any_destructive {
        String::from_str("destructive")
    } else if any_rollback {
        String::from_str("rollback-required")
    } else if findings.len() > 0 {
        String::from_str("unknown")
    } else if all_additive {
        String::from_str("additive")
    } else {
        String::from_str("compatible")
    }
}


/// `None` before any value; values in `seq_lt` order.
pub open spec fn opt_lt(a: Option<Seq<char>>, b: Option<Seq<char>>) -> bool {
    match (a, b) {
        (None, Some(_)) => true,
        (Some(x), Some(y)) => seq_lt(x, y),
        _ => false,
    }
}

/// The order of changes by kind, then table, column and detail.
pub open spec fn change_lt(a: ChangeView, b: ChangeView) -> bool {
    ||| seq_lt(a.0, b.0)
    ||| a.0 == b.0 && opt_lt(a.1, b.1)
    ||| a.0 == b.0 && a.1 == b.1 && opt_lt(a.2, b.2)
    ||| a.0 == b.0 && a.1 == b.1 && a.2 == b.2 && opt_lt(a.3, b.3)
}

pub open spec fn changes_sorted(v: Seq<ChangeView>) -> bool {
    forall|i: int, j: int| 0 <= i < j < v.len() ==> !change_lt(#[trigger] v[j], #[trigger] v[i])
}

proof fn lemma_opt_lt(a: Option<Seq<char>>, b: Option<Seq<char>>, c: Option<Seq<char>>)
    ensures
        !opt_lt(a, a),
        !(opt_lt(a, b) && opt_lt(b, a)),
        opt_lt(a, b) && opt_lt(b, c) ==> opt_lt(a, c),
{
    if let Some(x) = a {
        lemma_seq_lt_irreflexive(x);
        if let Some(y) = b {
            lemma_seq_lt_total(x, y);
            if let Some(z) = c {
                if seq_lt(x, y) && seq_lt(y, z) {
                    lemma_seq_lt_transitive(x, y, z);
                }
            }
        }
    }
}

proof fn lemma_change_lt(a: ChangeView, b: ChangeView, c: ChangeView)
    ensures
        !change_lt(a, a),
        !(change_lt(a, b) && change_lt(b, a)),
        change_lt(a, b) && change_lt(b, c) ==> change_lt(a, c),
{
    lemma_seq_lt_irreflexive(a.0);
    lemma_seq_lt_total(a.0, b.0);
    lemma_seq_lt_total(b.0, c.0);
    lemma_seq_lt_total(a.0, c.0);
    if seq_lt(a.0, b.0) && seq_lt(b.0, c.0) {
        lemma_seq_lt_transitive(a.0, b.0, c.0);
    }
    lemma_opt_lt(a.1, b.1, c.1);
    lemma_opt_lt(a.2, b.2, c.2);
    lemma_opt_lt(a.3, b.3, c.3);
    lemma_opt_lt(b.1, a.1, c.1);
    lemma_opt_lt(b.2, a.2, c.2);
    lemma_opt_lt(b.3, a.3, c.3);
}

fn opt_chars(o: &Option<String>) -> (r: Option<Vec<char>>)
    ensures
        match r {
            Some(v) => Some(v@),
            None => None,
        } == sopt(*o),
{
    match o {
        Some(s) => Some(string_chars(s)),
        None => None,
    }
}

fn opt_lt_exec(a: &Option<String>, b: &Option<String>) -> (r: bool)
    ensures
        r == opt_lt(sopt(*a), sopt(*b)),
{
    match (a, b) {
        (None, Some(_)) => true,
        (Some(x), Some(y)) => lt_chars(&string_chars(x), &string_chars(y)),
        _ => false,
    }
}

fn opt_eq_exec(a: &Option<String>, b: &Option<String>) -> (r: bool)
    ensures
        r == (sopt(*a) == sopt(*b)),
{
    match (a, b) {
        (None, None) => true,
        (Some(x), Some(y)) => eq_chars(&string_chars(x), &string_chars(y)),
        _ => false,
    }
}

fn change_lt_exec(a: &MigrationChangeObservation, b: &MigrationChangeObservation) -> (r: bool)
    ensures
        r == change_lt(change_view(*a), change_view(*b)),
{
    let ak = string_chars(&a.kind);
    let bk = string_chars(&b.kind);
    if lt_chars(&ak, &bk) {
        return true;
    }
    if !eq_chars(&ak, &bk) {
        return false;
    }
    if opt_lt_exec(&a.table, &b.table) {
        return true;
    }
    if !opt_eq_exec(&a.table, &b.table) {
        return false;
    }
    if opt_lt_exec(&a.column, &b.column) {
        return true;
    }
    if !opt_eq_exec(&a.column, &b.column) {
        return false;
    }
    opt_lt_exec(&a.detail, &b.detail)
}

/// The changes ordered by kind, table, column and detail (insertion sort;
/// changes with equal keys keep their order).
fn sort_changes(changes: Vec<MigrationChangeObservation>) -> (r: Vec<MigrationChangeObservation>)
    ensures
        changes_sorted(changes_view(r@)),
        changes_view(r@).to_multiset() == changes_view(changes@).to_multiset(),
{
    broadcast use vstd::seq_lib::group_to_multiset_ensures;

    let mut out: Vec<MigrationChangeObservation> = Vec::new();
    let mut i: usize = 0;
    let n = changes.len();
    assert(changes_view(changes@).take(0) =~= Seq::<ChangeView>::empty());
    assert(changes_view(out@) =~= Seq::<ChangeView>::empty());
    while i < n
        invariant
            n == changes@.len(),
            i <= n,
            changes_sorted(changes_view(out@)),
            changes_view(out@).to_multiset() == changes_view(changes@).take(i as int).to_multiset(),
        decreases n - i,
    {
        let x = &changes[i];
        let ghost xv = change_view(*x);
        let ghost ov = changes_view(out@);
        let mut j: usize = 0;
        while j < out.len() && !change_lt_exec(x, &out[j])
            invariant
                j <= out@.len(),
                ov == changes_view(out@),
                xv == change_view(*x),
                forall|k: int| 0 <= k < j ==> !change_lt(xv, #[trigger] ov[k]),
            decreases out@.len() - j,
        {
            j = j + 1;
        }
        let c = MigrationChangeObservation {
            kind: x.kind.clone(),
            table: match &x.table {
                Some(t) => Some(t.clone()),
                None => None,
            },
            column: match &x.column {
                Some(t) => Some(t.clone()),
                None => None,
            },
            detail: match &x.detail {
                Some(t) => Some(t.clone()),
                None => None,
            },
            destructive: x.destructive,
        };
        assert(change_view(c) == xv);
        out.insert(j, c);
        let ghost nv = changes_view(out@);
        assert(nv =~= ov.insert(j as int, xv));
        proof {
            assert forall|a: int, b: int| 0 <= a < b < nv.len() implies !change_lt(
                #[trigger] nv[b],
                #[trigger] nv[a],
            ) by {
                if b < j {
                } else if b == j {
                    assert(!change_lt(xv, ov[a]));
                } else if a < j {
                    assert(nv[b] == ov[b - 1]);
                    assert(!change_lt(xv, ov[a]));
                    lemma_change_lt(ov[b - 1], ov[j as int], ov[a]);
                    lemma_change_lt(ov[b - 1], xv, ov[a]);
                    lemma_change_lt(ov[b - 1], ov[a], xv);
                    lemma_change_lt(xv, ov[j as int], ov[b - 1]);
                    lemma_change_lt(ov[a], xv, ov[j as int]);
                } else if a == j {
                    assert(nv[b] == ov[b - 1]);
                    lemma_change_lt(ov[b - 1], xv, ov[j as int]);
                    lemma_change_lt(xv, ov[j as int], ov[b - 1]);
                } else {
                    assert(nv[a] == ov[a - 1] && nv[b] == ov[b - 1]);
                }
            }
            vstd::seq_lib::to_multiset_insert(ov, j as int, xv);
            assert(changes_view(changes@).take(i + 1) =~= changes_view(changes@).take(i as int).push(xv));
            vstd::seq_lib::to_multiset_build(changes_view(changes@).take(i as int), xv);
        }
        i = i + 1;
    }
    assert(changes_view(changes@).take(n as int) =~= changes_view(changes@));
    out
}


/// The observer's notes on a file: unsupported formats, and supported
/// formats in which no change was recognised.
pub open spec fn observation_notes(path: Seq<char>, parser: Seq<char>, no_changes: bool) -> Seq<Seq<char>> {
    (if parser == "unsupported"@ {
        seq![
            "Unsupported migration/schema format for `"@ + path
                + "`; observation remains untrusted."@,
        ]
    } else {
        Seq::empty()
    }) + (if no_changes && parser != "unsupported"@ {
        seq!["No deterministic migration changes were detected in `"@ + path + "`."@]
    } else {
        Seq::empty()
    })
}

/// The tables the changes name.
pub open spec fn tables_of(changes: Seq<ChangeView>) -> Set<Seq<char>> {
    Set::new(|t: Seq<char>| exists|i: int| 0 <= i < changes.len() && (#[trigger] changes[i]).1 == Some(t))
}

fn collect_tables(changes: &Vec<MigrationChangeObservation>) -> (r: Vec<String>)
    ensures
        sorted_strict(strings_view(r@)),
        strings_view(r@).to_set() == tables_of(changes_view(changes@)),
{
    let mut out: Vec<String> = Vec::new();
    let mut i: usize = 0;
    assert(strings_view(out@).to_set() =~= tables_of(changes_view(changes@).take(0)));
    while i < changes.len()
        invariant
            i <= changes@.len(),
            sorted_strict(strings_view(out@)),
            strings_view(out@).to_set() == tables_of(changes_view(changes@).take(i as int)),
        decreases changes@.len() - i,
    {
        let ghost prev = tables_of(changes_view(changes@).take(i as int));
        let ghost next = tables_of(changes_view(changes@).take(i + 1));
        assert(changes_view(changes@).take(i + 1)[i as int] == change_view(changes@[i as int]));
        match &changes[i].table {
            Some(t) => {
                sorted_insert(&mut out, t.clone());
                assert forall|x: Seq<char>| next.contains(x) == prev.insert(t@).contains(x) by {
                    if next.contains(x) {
                        let k = choose|k: int|
                            0 <= k < i + 1 && (#[trigger] changes_view(changes@).take(i + 1)[k]).1
                                == Some(x);
                        if k < i {
                            assert(changes_view(changes@).take(i as int)[k] == changes_view(
                                changes@,
                            ).take(i + 1)[k]);
                        }
                    }
                    if prev.contains(x) {
                        let k = choose|k: int|
                            0 <= k < i && (#[trigger] changes_view(changes@).take(i as int)[k]).1
                                == Some(x);
                        assert(changes_view(changes@).take(i + 1)[k] == changes_view(changes@).take(
                            i as int,
                        )[k]);
                    }
                }
                assert(next =~= prev.insert(t@));
            },
            None => {
                assert forall|x: Seq<char>| next.contains(x) == prev.contains(x) by {
                    if next.contains(x) {
                        let k = choose|k: int|
                            0 <= k < i + 1 && (#[trigger] changes_view(changes@).take(i + 1)[k]).1
                                == Some(x);
                        assert(changes_view(changes@).take(i as int)[k] == changes_view(changes@).take(
                            i + 1,
                        )[k]);
                    }
                    if prev.contains(x) {
                        let k = choose|k: int|
                            0 <= k < i && (#[trigger] changes_view(changes@).take(i as int)[k]).1
                                == Some(x);
                        assert(changes_view(changes@).take(i + 1)[k] == changes_view(changes@).take(
                            i as int,
                        )[k]);
                    }
                }
                assert(next =~= prev);
            },
        }
        i = i + 1;
    }
    assert(changes_view(changes@).take(i as int) =~= changes_view(changes@));
    out
}

/// A SQL migration line that, once its comment, trailing `;` and quotes are
/// dropped, reads `ALTER TABLE <table> ... DROP COLUMN ...` (case-insensitive).
pub open spec fn sql_drop_column_line(line: Seq<char>) -> bool {
    let n = normalized_sql(line);
    &&& starts_with(lower(n), "alter table"@)
    &&& word_after(n, "alter table"@) is Some
    &&& contains(lower(n), " drop column "@)
}

/// An `ALTER TABLE t DROP COLUMN c` line is observed as a destructive change
/// of kind `dropColumn` on the table `t`.
pub proof fn sql_drop_column_line_is_destructive(line: Seq<char>)
    requires
        sql_drop_column_line(line),
    ensures
        sql_line_change(line) matches Some(c) && c.0 == "dropColumn"@ && c.4 && c.1 == Some(
            clean_table(word_after(normalized_sql(line), "alter table"@)->0),
        ),
{
    reveal_strlit("alter table");
    reveal_strlit("create table");
    reveal_strlit("drop table");
    let l = lower(normalized_sql(line));
    assert("alter table"@[0] == 'a' && "create table"@[0] == 'c' && "drop table"@[0] == 'd');
    assert(l.take(11)[0] == l[0]);
    assert(l[0] == 'a');
    if starts_with(l, "create table"@) {
        assert(l.take(12)[0] == l[0]);
    }
    if starts_with(l, "drop table"@) {
        assert(l.take(10)[0] == l[0]);
    }
}

/// A `DROP TABLE t` line is observed as a destructive `dropTable` change of
/// `t`, and a `CREATE TABLE t` line as an additive, non-destructive
/// `createTable` change of `t`.
pub proof fn sql_table_lines_are_classified(line: Seq<char>)
    ensures
        (starts_with(lower(normalized_sql(line)), "drop table"@) && word_after(normalized_sql(line), "drop table"@)
            is Some) ==> (sql_line_change(line) matches Some(c) && c.0 == "dropTable"@ && c.4 && c.1 == Some(
            clean_table(word_after(normalized_sql(line), "drop table"@)->0),
        )),
        (starts_with(lower(normalized_sql(line)), "create table"@) && word_after(
            normalized_sql(line),
            "create table"@,
        ) is Some) ==> (sql_line_change(line) matches Some(c) && c.0 == "createTable"@ && !c.4 && c.1 == Some(
            clean_table(word_after(normalized_sql(line), "create table"@)->0),
        )),
{
    reveal_strlit("create table");
    reveal_strlit("drop table");
    let l = lower(normalized_sql(line));
    assert("create table"@[0] == 'c' && "drop table"@[0] == 'd');
    if starts_with(l, "drop table"@) {
        assert(l.take(10)[0] == l[0]);
        if starts_with(l, "create table"@) {
            assert(l.take(12)[0] == l[0]);
        }
    }
}

/// Only destructive changes make a migration destructive: the risk class is
/// `destructive` exactly when some change is a table or column drop or
/// rename (or raw destructive SQL), and `additive` when every change adds
/// (a table, column, index or constraint) and the observer noted nothing.
pub proof fn risk_class_follows_change_kinds(kinds: Seq<Seq<char>>, notes: bool)
    ensures
        (risk_of(kinds, notes) == "destructive"@) <==> exists|i: int|
            0 <= i < kinds.len() && ((#[trigger] kinds[i]) == "dropTable"@ || kinds[i] == "dropColumn"@ || kinds[i]
                == "renameTable"@ || kinds[i] == "renameColumn"@ || kinds[i] == "rawDestructiveSql"@),
        (!notes && forall|i: int|
            0 <= i < kinds.len() ==> ((#[trigger] kinds[i]) == "createTable"@ || kinds[i] == "addColumn"@ || kinds[i]
                == "createIndex"@ || kinds[i] == "addConstraint"@)) ==> risk_of(kinds, notes) == "additive"@,
{
    reveal_strlit("destructive");
    reveal_strlit("rollback-required");
    reveal_strlit("unknown");
    reveal_strlit("additive");
    reveal_strlit("compatible");
    reveal_strlit("createTable");
    reveal_strlit("addColumn");
    reveal_strlit("createIndex");
    reveal_strlit("addConstraint");
    reveal_strlit("dropTable");
    reveal_strlit("dropColumn");
    reveal_strlit("renameTable");
    reveal_strlit("renameColumn");
    reveal_strlit("rawDestructiveSql");
    reveal_strlit("alterColumn");
    reveal_strlit("rawSql");
    assert("destructive"@.len() == 11 && "rollback-required"@.len() == 17 && "unknown"@.len() == 7);
    assert("additive"@.len() == 8 && "compatible"@.len() == 10);
    assert("createTable"@[0] == 'c' && "createIndex"@[6] == 'I' && "createTable"@[6] == 'T');
    assert("addColumn"@.len() == 9 && "addConstraint"@.len() == 13 && "createTable"@.len() == 11);
    assert("createIndex"@.len() == 11 && "dropTable"@.len() == 9 && "dropColumn"@.len() == 10);
    assert("renameTable"@.len() == 11 && "renameColumn"@.len() == 12 && "rawDestructiveSql"@.len() == 17);
    assert("alterColumn"@.len() == 11 && "rawSql"@.len() == 6);
    assert("addColumn"@[0] == 'a' && "dropTable"@[0] == 'd' && "renameTable"@[0] == 'r' && "alterColumn"@[0] == 'a');
    assert("addConstraint"@[0] == 'a' && "renameColumn"@[0] == 'r');
    assert("alterColumn"@[1] == 'l' && "addColumn"@[1] == 'd');
    if forall|i: int|
        0 <= i < kinds.len() ==> ((#[trigger] kinds[i]) == "createTable"@ || kinds[i] == "addColumn"@ || kinds[i]
            == "createIndex"@ || kinds[i] == "addConstraint"@) {
        assert forall|i: int| 0 <= i < kinds.len() implies !destructive_kind(#[trigger] kinds[i]) && !rollback_kind(kinds[i])
            && additive_kind(kinds[i]) by {
            assert(kinds[i] == "createTable"@ || kinds[i] == "addColumn"@ || kinds[i] == "createIndex"@ || kinds[i]
                == "addConstraint"@);
        }
    }
}

proof fn lemma_parsed_changes_hold(format: Seq<char>, ls: Seq<Seq<char>>, k: int)
    requires
        0 <= k < ls.len(),
        line_change(format, ls[k]) is Some,
    ensures
        parsed_changes(format, ls).contains(line_change(format, ls[k])->0),
    decreases ls.len(),
{
    let c = line_change(format, ls[k])->0;
    let prev = parsed_changes(format, ls.drop_last());
    let tail = match line_change(format, ls.last()) {
        Some(x) => seq![x],
        None => Seq::<ChangeView>::empty(),
    };
    assert(parsed_changes(format, ls) == prev + tail);
    if k < ls.len() - 1 {
        assert(ls.drop_last()[k] == ls[k]);
        lemma_parsed_changes_hold(format, ls.drop_last(), k);
        let i = choose|i: int| 0 <= i < prev.len() && prev[i] == c;
        assert((prev + tail)[i] == c);
    } else {
        assert(ls.last() == ls[k]);
        assert((prev + tail)[prev.len() as int] == c);
    }
}

/// A `.sql` migration holding an `ALTER TABLE t DROP COLUMN c` line has a
/// destructive `dropColumn` change among its observed changes, and is
/// classified `destructive`, whatever notes the observer adds.
pub proof fn sql_migration_with_drop_column_is_destructive(path: Seq<char>, source: Seq<char>, k: int)
    requires
        ends_with(lower(path), ".sql"@),
        0 <= k < lines(source).len(),
        sql_drop_column_line(lines(source)[k]),
    ensures
        parser_of(path, source) == "sql"@,
        exists|i: int|
            0 <= i < parsed_changes(parser_of(path, source), lines(source)).len() && (#[trigger] parsed_changes(
                parser_of(path, source),
                lines(source),
            )[i]).0 == "dropColumn"@ && parsed_changes(parser_of(path, source), lines(source))[i].4,
        risk_of(parsed_changes(parser_of(path, source), lines(source)).map_values(|c: ChangeView| c.0), true)
            == "destructive"@,
        risk_of(parsed_changes(parser_of(path, source), lines(source)).map_values(|c: ChangeView| c.0), false)
            == "destructive"@,
{
    let ls = lines(source);
    sql_drop_column_line_is_destructive(ls[k]);
    reveal_strlit("sql");
    assert(line_change("sql"@, ls[k]) == sql_line_change(ls[k]));
    lemma_parsed_changes_hold("sql"@, ls, k);
    assert(parser_of(path, source) == "sql"@);
    let found = parsed_changes(parser_of(path, source), ls);
    let c = sql_line_change(ls[k])->0;
    let i = choose|i: int| 0 <= i < found.len() && found[i] == c;
    assert(found[i].0 == "dropColumn"@ && found[i].4);
    let kinds = found.map_values(|x: ChangeView| x.0);
    assert(kinds[i] == "dropColumn"@);
    assert(destructive_kind(kinds[i])) by {
        reveal_strlit("dropColumn");
    }
}

/// Observe one migration or schema file.
pub fn observe_migration_file(path: &str, source: &str) -> (o: MigrationObservation)
    ensures
        o.id@ == path@,
        o.file@ == path@,
        o.parser@ == parser_of(path@, source@),
        ({
            let found = parsed_changes(parser_of(path@, source@), lines(source@));
            &&& strings_view(o.findings@) == observation_notes(
                path@,
                parser_of(path@, source@),
                found.len() == 0,
            )
            &&& o.risk_classification@ == risk_of(
                found.map_values(|c: ChangeView| c.0),
                observation_notes(path@, parser_of(path@, source@), found.len() == 0).len() > 0,
            )
            &&& o.destructive == exists|i: int| 0 <= i < found.len() && (#[trigger] found[i]).4
            &&& o.production_sensitive == (o.destructive || o.risk_classification@ == "production-sensitive"@)
            &&& sorted_strict(strings_view(o.affected_tables@))
            &&& strings_view(o.affected_tables@).to_set() == tables_of(found)
            &&& changes_sorted(changes_view(o.changes@))
            &&& changes_view(o.changes@).to_multiset() == found.to_multiset()
        }),
        (ends_with(lower(path@), ".sql"@) && exists|k: int|
            0 <= k < lines(source@).len() && sql_drop_column_line(#[trigger] lines(source@)[k])) ==> (
        o.risk_classification@ == "destructive"@ && o.destructive && o.production_sensitive && exists|i: int|
            0 <= i < o.changes@.len() && (#[trigger] o.changes@[i]).kind@ == "dropColumn"@ && o.changes@[i].destructive),
{
    let p = chars_of(path);
    let src = chars_of(source);
    let parser = parser_for_path(&p, &src);
    let parser_chars = string_chars(&parser);
    let changes = if eq_str(&parser_chars, "sql") {
        parse_sql_migration(&src)
    } else if eq_str(&parser_chars, "prisma") {
        parse_prisma_schema(&src)
    } else if eq_str(&parser_chars, "knex") {
        parse_knex_migration(&src)
    } else if eq_str(&parser_chars, "typeorm") {
        parse_typeorm_migration(&src)
    } else {
        let v: Vec<MigrationChangeObservation> = Vec::new();
        assert(lines(src@).len() >= 0);
        proof {
            lemma_no_changes_when_unsupported(parser@, lines(src@));
        }
        assert(changes_view(v@) =~= Seq::<ChangeView>::empty());
        v
    };
    let ghost found = parsed_changes(parser@, lines(source@));
    assert(changes_view(changes@) == found);
    let mut findings: Vec<String> = Vec::new();
    let unsupported = eq_str(&parser_chars, "unsupported");
    if unsupported {
        findings.push(
            msg3(
                "Unsupported migration/schema format for `",
                &p,
                "`; observation remains untrusted.",
            ),
        );
    }
    if changes.len() == 0 && !unsupported {
        findings.push(msg3("No deterministic migration changes were detected in `", &p, "`."));
    }
    assert(strings_view(findings@) =~= observation_notes(path@, parser@, found.len() == 0));
    let affected_tables = collect_tables(&changes);
    let risk_classification = classify_migration_risk(&changes, &findings);
    assert(change_kinds(changes@) =~= found.map_values(|c: ChangeView| c.0));
    let mut any_destructive = false;
    let mut i: usize = 0;
    while i < changes.len()
        invariant
            i <= changes@.len(),
            changes_view(changes@) == found,
            any_destructive == exists|k: int| 0 <= k < i && (#[trigger] found[k]).4,
        decreases changes@.len() - i,
    {
        assert(found[i as int] == change_view(changes@[i as int]));
        if changes[i].destructive {
            any_destructive = true;
        }
        i = i + 1;
    }
    let production_sensitive = any_destructive || eq_str(
        &string_chars(&risk_classification),
        "production-sensitive",
    );
    let ghost unsorted = changes@;
    let sorted = sort_changes(changes);
    proof {
        if ends_with(lower(path@), ".sql"@) && exists|k: int|
            0 <= k < lines(source@).len() && sql_drop_column_line(#[trigger] lines(source@)[k]) {
            let k = choose|k: int| 0 <= k < lines(source@).len() && sql_drop_column_line(#[trigger] lines(source@)[k]);
            sql_migration_with_drop_column_is_destructive(path@, source@, k);
            let i = choose|i: int| 0 <= i < found.len() && (#[trigger] found[i]).0 == "dropColumn"@ && found[i].4;
            assert(change_kinds(unsorted)[i] == found[i].0);
            assert(destructive_kind(change_kinds(unsorted)[i])) by {
                reveal_strlit("dropColumn");
            }
            assert(any_destructive);
            broadcast use vstd::seq_lib::group_to_multiset_ensures;
            assert(found.contains(found[i]));
            assert(changes_view(sorted@).to_multiset().count(found[i]) > 0);
            assert(changes_view(sorted@).contains(found[i]));
            let j = choose|j: int| 0 <= j < changes_view(sorted@).len() && changes_view(sorted@)[j] == found[i];
            assert(change_view(sorted@[j]) == found[i]);
            assert(sorted@[j].kind@ == "dropColumn"@ && sorted@[j].destructive);
            assert(risk_classification@ == "destructive"@);
            assert(production_sensitive);
            assert(exists|i: int|
                0 <= i < sorted@.len() && (#[trigger] sorted@[i]).kind@ == "dropColumn"@ && sorted@[i].destructive);
        }
    }
    assert((ends_with(lower(path@), ".sql"@) && exists|k: int|
        0 <= k < lines(source@).len() && sql_drop_column_line(#[trigger] lines(source@)[k])) ==> (
    risk_classification@ == "destructive"@ && any_destructive && production_sensitive && exists|i: int|
        0 <= i < sorted@.len() && (#[trigger] sorted@[i]).kind@ == "dropColumn"@ && sorted@[i].destructive));
    let ghost rv = risk_classification@;
    let ghost sv = sorted@;
    let o = MigrationObservation {
        id: String::from_str(path),
        file: String::from_str(path),
        parser,
        risk_classification,
        destructive: any_destructive,
        production_sensitive,
        affected_tables,
        changes: sorted,
        findings,
    };
    assert(o.changes@ == sv);
    assert(o.risk_classification@ == rv);
    o
}

proof fn lemma_no_changes_when_unsupported(format: Seq<char>, ls: Seq<Seq<char>>)
    requires
        format != "sql"@,
        format != "prisma"@,
        format != "knex"@,
        format != "typeorm"@,
    ensures
        parsed_changes(format, ls) == Seq::<ChangeView>::empty(),
    decreases ls.len(),
{
    if ls.len() > 0 {
        lemma_no_changes_when_unsupported(format, ls.drop_last());
        assert(parsed_changes(format, ls) =~= Seq::<ChangeView>::empty());
    }
}

// ------------------------------------------------------------ graph records

#[derive(Debug, Clone, PartialEq, Eq)]
pub struct RollbackPlan {
    pub strategy: String,
    pub command: String,
}

#[derive(Debug, Clone, PartialEq, Eq)]
pub struct MigrationTestEvidence {
    pub name: String,
    pub status: String,
}

#[derive(Debug, Clone, PartialEq, Eq)]
pub struct MigrationPlan {
    pub id: String,
    pub owner_module: String,
    pub affected_tables: Vec<String>,
    pub rollback: RollbackPlan,
    pub tests: Vec<MigrationTestEvidence>,
    pub approval_id: String,
}

pub open spec fn sid(kind: Seq<char>, value: Seq<char>) -> Seq<char> {
    "node"@ + "_"@ + stable_view(kind) + "_"@ + stable_view(value)
}

/// `node_migration_{stable(id)}`.
pub fn migration_node_id(id: &str) -> (r: String)
    ensures
        r@ == sid("migration"@, id@),
{
    stable_node_id("migration", id)
}

/// `node_rollback-plan_{stable(id)}`.
pub fn rollback_plan_node_id(id: &str) -> (r: String)
    ensures
        r@ == sid("rollback_plan"@, id@),
{
    stable_node_id("rollback_plan", id)
}

/// `node_migration_test_{stable(migration)}_{stable(name)}`.
pub fn migration_test_node_id(migration_id: &str, name: &str) -> (r: String)
    ensures
        r@ == "node_migration_test"@ + "_"@ + stable_view(migration_id@) + "_"@ + stable_view(name@),
{
    stable_id2("node_migration_test", migration_id, name)
}

/// `node_approval_{stable(id)}`.
pub fn approval_node_id(id: &str) -> (r: String)
    ensures
        r@ == sid("approval"@, id@),
{
    stable_node_id("approval", id)
}

pub open spec fn plan_nodes(p: MigrationPlan) -> Seq<NodeV> {
    seq![
        NodeV {
            id: sid("migration"@, p.id@),
            stable_key: "migration:"@ + stable_view(p.id@),
            node_type: "Migration"@,
            attributes: seq![
                ("migrationId"@, JsonV::Text(p.id@)),
                ("ownerModule"@, JsonV::Text(p.owner_module@)),
                ("state"@, JsonV::Text("Planned"@)),
            ],
        },
        NodeV {
            id: sid("rollback_plan"@, p.id@),
            stable_key: "rollback-plan:"@ + stable_view(p.id@),
            node_type: "RollbackPlan"@,
            attributes: seq![
                ("command"@, JsonV::Text(p.rollback.command@)),
                ("strategy"@, JsonV::Text(p.rollback.strategy@)),
            ],
        },
    ] + test_nodes(p.id@, p.tests@)
}

pub open spec fn test_nodes(id: Seq<char>, ts: Seq<MigrationTestEvidence>) -> Seq<NodeV>
    decreases ts.len(),
{
    if ts.len() == 0 {
        Seq::empty()
    } else {
        let t = ts.last();
        test_nodes(id, ts.drop_last()).push(
            NodeV {
                id: "node_migration_test"@ + "_"@ + stable_view(id) + "_"@ + stable_view(t.name@),
                stable_key: "migration-test:"@ + stable_view(id) + "/"@ + stable_view(t.name@),
                node_type: "MigrationTestEvidence"@,
                attributes: seq![("name"@, JsonV::Text(t.name@)), ("status"@, JsonV::Text(t.status@))],
            },
        )
    }
}

pub open spec fn table_edges(mid: Seq<char>, tables: Seq<Seq<char>>) -> Seq<EdgeV>
    decreases tables.len(),
{
    if tables.len() == 0 {
        Seq::empty()
    } else {
        table_edges(mid, tables.drop_last()).push(edge_of(mid, "AFFECTS_TABLE"@, sid("table"@, tables.last())))
    }
}

pub open spec fn test_edges(id: Seq<char>, ts: Seq<MigrationTestEvidence>) -> Seq<EdgeV>
    decreases ts.len(),
{
    if ts.len() == 0 {
        Seq::empty()
    } else {
        test_edges(id, ts.drop_last()).push(
            edge_of(
                sid("migration"@, id),
                "HAS_MIGRATION_TEST"@,
                "node_migration_test"@ + "_"@ + stable_view(id) + "_"@ + stable_view(ts.last().name@),
            ),
        )
    }
}

pub open spec fn plan_edges(p: MigrationPlan) -> Seq<EdgeV> {
    let mid = sid("migration"@, p.id@);
    seq![
        edge_of(mid, "OWNED_BY_MODULE"@, sid("module"@, p.owner_module@)),
        edge_of(mid, "HAS_ROLLBACK_PLAN"@, sid("rollback_plan"@, p.id@)),
        edge_of(mid, "HAS_MIGRATION_APPROVAL"@, sid("approval"@, p.approval_id@)),
    ] + table_edges(mid, strings_view(p.affected_tables@)) + test_edges(p.id@, p.tests@)
}

impl MigrationPlan {
    /// The plan's migration, rollback and test evidence nodes, and the edges
    /// to its owner, rollback, approval, tables and tests, in that order.
    pub fn to_delta(&self) -> (d: GraphDelta)
        ensures
            crate::keyed::views(d.create_nodes@) == plan_nodes(*self),
            crate::keyed::views(d.create_edges@) == plan_edges(*self),
            d.update_nodes@.len() == 0,
            d.delete_nodes@.len() == 0,
            d.update_edges@.len() == 0,
            d.delete_edges@.len() == 0,
    {
        let id = self.id.as_str();
        let mid = migration_node_id(id);
        let rid = rollback_plan_node_id(id);
        let mut d = GraphDelta::empty();
        let mut a: Vec<(String, JsonValue)> = Vec::new();
        assert(json_fields_view(a@) =~= Seq::empty());
        push_text(&mut a, "migrationId", id);
        push_text(&mut a, "ownerModule", self.owner_module.as_str());
        push_text(&mut a, "state", "Planned");
        let mut key = chars_of("migration:");
        append(&mut key, &string_chars(&crate::ids::stable(id)));
        assert(json_fields_view(a@) =~= plan_nodes(*self)[0].attributes);
        d.create_nodes.push(make_node(migration_node_id(id), string_of(&key), "Migration", a));
        let mut b: Vec<(String, JsonValue)> = Vec::new();
        assert(json_fields_view(b@) =~= Seq::empty());
        push_text(&mut b, "command", self.rollback.command.as_str());
        push_text(&mut b, "strategy", self.rollback.strategy.as_str());
        let mut key2 = chars_of("rollback-plan:");
        append(&mut key2, &string_chars(&crate::ids::stable(id)));
        assert(json_fields_view(b@) =~= plan_nodes(*self)[1].attributes);
        d.create_nodes.push(make_node(rollback_plan_node_id(id), string_of(&key2), "RollbackPlan", b));
        d.create_edges.push(make_edge(mid.as_str(), "OWNED_BY_MODULE", crate::data_graph::module_node_id(self.owner_module.as_str()).as_str()));
        d.create_edges.push(make_edge(mid.as_str(), "HAS_ROLLBACK_PLAN", rid.as_str()));
        d.create_edges.push(make_edge(mid.as_str(), "HAS_MIGRATION_APPROVAL", approval_node_id(self.approval_id.as_str()).as_str()));
        let ghost n0 = crate::keyed::views(d.create_nodes@);
        let ghost e0 = crate::keyed::views(d.create_edges@);
        let ghost tv = strings_view(self.affected_tables@);
        let mut i: usize = 0;
        while i < self.affected_tables.len()
            invariant
                i <= tv.len(),
                tv == strings_view(self.affected_tables@),
                mid@ == sid("migration"@, self.id@),
                crate::keyed::views(d.create_nodes@) == n0,
                crate::keyed::views(d.create_edges@) == e0 + table_edges(mid@, tv.take(i as int)),
                d.update_nodes@.len() == 0,
                d.delete_nodes@.len() == 0,
                d.update_edges@.len() == 0,
                d.delete_edges@.len() == 0,
            decreases tv.len() - i,
        {
            let ghost b0 = crate::keyed::views(d.create_edges@);
            d.create_edges.push(make_edge(mid.as_str(), "AFFECTS_TABLE", crate::data_graph::table_node_id(self.affected_tables[i].as_str()).as_str()));
            assert(tv.take(i + 1).drop_last() =~= tv.take(i as int));
            assert(tv[i as int] == self.affected_tables@[i as int]@);
            assert(crate::keyed::views(d.create_edges@) =~= b0.push(edge_of(mid@, "AFFECTS_TABLE"@, sid("table"@, tv[i as int]))));
            i = i + 1;
        }
        assert(tv.take(tv.len() as int) =~= tv);
        let ghost e1 = crate::keyed::views(d.create_edges@);
        let ghost ts = self.tests@;
        let mut i: usize = 0;
        while i < self.tests.len()
            invariant
                i <= ts.len(),
                ts == self.tests@,
                id@ == self.id@,
                mid@ == sid("migration"@, self.id@),
                crate::keyed::views(d.create_nodes@) == n0 + test_nodes(self.id@, ts.take(i as int)),
                crate::keyed::views(d.create_edges@) == e1 + test_edges(self.id@, ts.take(i as int)),
                d.update_nodes@.len() == 0,
                d.delete_nodes@.len() == 0,
                d.update_edges@.len() == 0,
                d.delete_edges@.len() == 0,
            decreases ts.len() - i,
        {
            let t = &self.tests[i];
            let tid = migration_test_node_id(id, t.name.as_str());
            let mut c: Vec<(String, JsonValue)> = Vec::new();
            assert(json_fields_view(c@) =~= Seq::empty());
            push_text(&mut c, "name", t.name.as_str());
            push_text(&mut c, "status", t.status.as_str());
            let mut key3 = chars_of("migration-test:");
            append(&mut key3, &string_chars(&crate::ids::stable(id)));
            append_str(&mut key3, "/");
            append(&mut key3, &string_chars(&crate::ids::stable(t.name.as_str())));
            let ghost bn = crate::keyed::views(d.create_nodes@);
            let ghost be = crate::keyed::views(d.create_edges@);
            assert(ts.take(i + 1).last() == *t);
            assert(json_fields_view(c@) =~= seq![("name"@, JsonV::Text(t.name@)), ("status"@, JsonV::Text(t.status@))]);
            assert(key3@ =~= "migration-test:"@ + stable_view(self.id@) + "/"@ + stable_view(t.name@));
            d.create_nodes.push(make_node(migration_test_node_id(id, t.name.as_str()), string_of(&key3), "MigrationTestEvidence", c));
            d.create_edges.push(make_edge(mid.as_str(), "HAS_MIGRATION_TEST", tid.as_str()));
            assert(ts.take(i + 1).drop_last() =~= ts.take(i as int));
            assert(crate::keyed::views(d.create_nodes@) =~= bn.push(test_nodes(self.id@, ts.take(i + 1)).last()));
            assert(crate::keyed::views(d.create_edges@) =~= be.push(test_edges(self.id@, ts.take(i + 1)).last()));
            i = i + 1;
        }
        assert(ts.take(ts.len() as int) =~= ts);
        assert(crate::keyed::views(d.create_nodes@) =~= plan_nodes(*self));
        assert(crate::keyed::views(d.create_edges@) =~= plan_edges(*self));
        d
    }
}

pub open spec fn opt_json(o: Option<Seq<char>>) -> JsonV {
    match o {
        Some(t) => JsonV::Text(t),
        None => JsonV::Null,
    }
}

/// A change as a JSON object, keys in order.
pub open spec fn change_json(c: ChangeView) -> JsonV {
    JsonV::Object(
        seq![
            ("column"@, opt_json(c.2)),
            ("destructive"@, JsonV::Bool(c.4)),
            ("detail"@, opt_json(c.3)),
            ("kind"@, JsonV::Text(c.0)),
            ("table"@, opt_json(c.1)),
        ],
    )
}

fn change_to_json(c: &MigrationChangeObservation) -> (r: JsonValue)
    ensures
        crate::model::json_view(r) == change_json(change_view(*c)),
{
    let mut f: Vec<(String, JsonValue)> = Vec::new();
    assert(json_fields_view(f@) =~= Seq::empty());
    crate::model::push_opt(&mut f, "column", &c.column);
    crate::model::push_attr(&mut f, "destructive", JsonValue::Bool(c.destructive));
    crate::model::push_opt(&mut f, "detail", &c.detail);
    push_text(&mut f, "kind", c.kind.as_str());
    crate::model::push_opt(&mut f, "table", &c.table);
    assert(json_fields_view(f@) =~= seq![
        ("column"@, opt_json(change_view(*c).2)),
        ("destructive"@, JsonV::Bool(change_view(*c).4)),
        ("detail"@, opt_json(change_view(*c).3)),
        ("kind"@, JsonV::Text(change_view(*c).0)),
        ("table"@, opt_json(change_view(*c).1)),
    ]);
    JsonValue::Object(f)
}

/// The node an observation records for its migration.
pub open spec fn observed_migration_node(o: MigrationObservation) -> NodeV {
    NodeV {
        id: sid("migration"@, o.id@),
        stable_key: "migration:"@ + stable_view(o.id@),
        node_type: "Migration"@,
        attributes: seq![
            ("changes"@, JsonV::Array(changes_view(o.changes@).map_values(|c: ChangeView| change_json(c)))),
            ("destructive"@, JsonV::Bool(o.destructive)),
            ("file"@, JsonV::Text(o.file@)),
            ("findings"@, JsonV::Array(crate::model::texts(strings_view(o.findings@)))),
            ("migrationId"@, JsonV::Text(o.id@)),
            ("observedBy"@, JsonV::Text(MIGRATION_OBSERVER_ID@)),
            ("parser"@, JsonV::Text(o.parser@)),
            ("productionSensitive"@, JsonV::Bool(o.production_sensitive)),
            ("riskClassification"@, JsonV::Text(o.risk_classification@)),
            ("sourceTrust"@, JsonV::Text("Observation"@)),
            ("trustState"@, JsonV::Text("Observed"@)),
        ],
    }
}

/// The table node an observation records for an affected table.
pub open spec fn observed_table_node(table: Seq<char>) -> NodeV {
    NodeV {
        id: sid("table"@, table),
        stable_key: "table:"@ + stable_view(table),
        node_type: "Table"@,
        attributes: seq![
            ("name"@, JsonV::Text(table)),
            ("observedBy"@, JsonV::Text(MIGRATION_OBSERVER_ID@)),
            ("sourceTrust"@, JsonV::Text("Observation"@)),
            ("trustState"@, JsonV::Text("Observed"@)),
        ],
    }
}

pub open spec fn tables_nodes(ts: Seq<Seq<char>>) -> Seq<NodeV>
    decreases ts.len(),
{
    if ts.len() == 0 {
        Seq::empty()
    } else {
        tables_nodes(ts.drop_last()).push(observed_table_node(ts.last()))
    }
}

pub open spec fn observations_nodes(os: Seq<MigrationObservation>) -> Seq<NodeV>
    decreases os.len(),
{
    if os.len() == 0 {
        Seq::empty()
    } else {
        let o = os.last();
        observations_nodes(os.drop_last()) + seq![observed_migration_node(o)] + tables_nodes(strings_view(o.affected_tables@))
    }
}

pub open spec fn observations_edges(os: Seq<MigrationObservation>) -> Seq<EdgeV>
    decreases os.len(),
{
    if os.len() == 0 {
        Seq::empty()
    } else {
        let o = os.last();
        observations_edges(os.drop_last()) + table_edges(sid("migration"@, o.id@), strings_view(o.affected_tables@))
    }
}

fn observed_node(o: &MigrationObservation) -> (n: crate::model::Node)
    ensures
        n@ == observed_migration_node(*o),
{
    let ghost cv = changes_view(o.changes@);
    let mut items: Vec<JsonValue> = Vec::new();
    let mut i: usize = 0;
    while i < o.changes.len()
        invariant
            i <= o.changes@.len(),
            cv == changes_view(o.changes@),
            crate::model::json_seq_view(items@) == cv.take(i as int).map_values(|c: ChangeView| change_json(c)),
        decreases o.changes@.len() - i,
    {
        let x = change_to_json(&o.changes[i]);
        proof {
            crate::model::lemma_json_seq_push(items@, x);
        }
        items.push(x);
        assert(cv[i as int] == change_view(o.changes@[i as int]));
        assert(cv.take(i + 1).map_values(|c: ChangeView| change_json(c)) =~= cv.take(i as int).map_values(
            |c: ChangeView| change_json(c),
        ).push(change_json(cv[i as int])));
        i = i + 1;
    }
    assert(cv.take(cv.len() as int) =~= cv);
    let mut a: Vec<(String, JsonValue)> = Vec::new();
    assert(json_fields_view(a@) =~= Seq::empty());
    crate::model::push_attr(&mut a, "changes", JsonValue::Array(items));
    crate::model::push_attr(&mut a, "destructive", JsonValue::Bool(o.destructive));
    push_text(&mut a, "file", o.file.as_str());
    crate::model::push_attr(&mut a, "findings", crate::model::text_array(&o.findings));
    push_text(&mut a, "migrationId", o.id.as_str());
    push_text(&mut a, "observedBy", MIGRATION_OBSERVER_ID);
    push_text(&mut a, "parser", o.parser.as_str());
    crate::model::push_attr(&mut a, "productionSensitive", JsonValue::Bool(o.production_sensitive));
    push_text(&mut a, "riskClassification", o.risk_classification.as_str());
    push_text(&mut a, "sourceTrust", "Observation");
    push_text(&mut a, "trustState", "Observed");
    let mut key = chars_of("migration:");
    append(&mut key, &string_chars(&crate::ids::stable(o.id.as_str())));
    assert(json_fields_view(a@) =~= observed_migration_node(*o).attributes);
    make_node(migration_node_id(o.id.as_str()), string_of(&key), "Migration", a)
}

fn table_node(table: &str) -> (n: crate::model::Node)
    ensures
        n@ == observed_table_node(table@),
{
    let mut a: Vec<(String, JsonValue)> = Vec::new();
    assert(json_fields_view(a@) =~= Seq::empty());
    push_text(&mut a, "name", table);
    push_text(&mut a, "observedBy", MIGRATION_OBSERVER_ID);
    push_text(&mut a, "sourceTrust", "Observation");
    push_text(&mut a, "trustState", "Observed");
    let mut key = chars_of("table:");
    append(&mut key, &string_chars(&crate::ids::stable(table)));
    assert(json_fields_view(a@) =~= observed_table_node(table@).attributes);
    make_node(crate::data_graph::table_node_id(table), string_of(&key), "Table", a)
}

fn add_observation(b: &mut crate::model::DeltaBuilder, o: &MigrationObservation)
    ensures
        final(b).node_log() == old(b).node_log() + observations_nodes(seq![*o]),
        final(b).edge_log() == old(b).edge_log() + observations_edges(seq![*o]),
{
    let ghost n0 = b.node_log();
    let ghost e0 = b.edge_log();
    let mid = migration_node_id(o.id.as_str());
    b.add_node(observed_node(o));
    let ghost n1 = b.node_log();
    let ghost tv = strings_view(o.affected_tables@);
    let mut k: usize = 0;
    while k < o.affected_tables.len()
        invariant
            k <= tv.len(),
            tv == strings_view(o.affected_tables@),
            mid@ == sid("migration"@, o.id@),
            b.node_log() == n1 + tables_nodes(tv.take(k as int)),
            b.edge_log() == e0 + table_edges(mid@, tv.take(k as int)),
        decreases tv.len() - k,
    {
        let t = o.affected_tables[k].as_str();
        b.add_node(table_node(t));
        b.add_edge(make_edge(mid.as_str(), "AFFECTS_TABLE", crate::data_graph::table_node_id(t).as_str()));
        assert(tv[k as int] == t@);
        assert(tv.take(k + 1).drop_last() =~= tv.take(k as int));
        assert(b.node_log() =~= n1 + tables_nodes(tv.take(k + 1)));
        assert(b.edge_log() =~= e0 + table_edges(mid@, tv.take(k + 1)));
        k = k + 1;
    }
    assert(tv.take(tv.len() as int) =~= tv);
    let ghost one = seq![*o];
    assert(one.drop_last() =~= Seq::<MigrationObservation>::empty());
    assert(one.last() == *o);
    assert(observations_nodes(one) == observations_nodes(one.drop_last()) + seq![observed_migration_node(*o)]
        + tables_nodes(tv));
    assert(observations_edges(one) == observations_edges(one.drop_last()) + table_edges(mid@, tv));
    assert(observations_nodes(one) =~= seq![observed_migration_node(*o)] + tables_nodes(tv));
    assert(observations_edges(one) =~= table_edges(mid@, tv));
    assert(b.node_log() =~= n0 + observations_nodes(one));
    assert(b.edge_log() =~= e0 + observations_edges(one));
}

/// The observations' migration and table nodes and table edges, each id
/// once (the first emitted wins), in id order.
pub fn migration_observations_to_delta(observations: &[MigrationObservation]) -> (d: GraphDelta)
    ensures
        crate::keyed::keyed_sorted::<crate::model::Node>(crate::keyed::views(d.create_nodes@)),
        crate::keyed::keyed_sorted::<crate::model::Edge>(crate::keyed::views(d.create_edges@)),
        crate::keyed::keyed_map::<crate::model::Node>(crate::keyed::views(d.create_nodes@))
            == crate::keyed::first_wins::<crate::model::Node>(Map::empty(), observations_nodes(observations@)),
        crate::keyed::keyed_map::<crate::model::Edge>(crate::keyed::views(d.create_edges@))
            == crate::keyed::first_wins::<crate::model::Edge>(Map::empty(), observations_edges(observations@)),
        d.update_nodes@.len() == 0,
        d.delete_nodes@.len() == 0,
        d.update_edges@.len() == 0,
        d.delete_edges@.len() == 0,
{
    let mut b = crate::model::DeltaBuilder::new();
    let ghost os = observations@;
    let mut i: usize = 0;
    while i < observations.len()
        invariant
            i <= os.len(),
            os == observations@,
            b.node_log() == observations_nodes(os.take(i as int)),
            b.edge_log() == observations_edges(os.take(i as int)),
        decreases os.len() - i,
    {
        let o = &observations[i];
        let ghost n0 = b.node_log();
        let ghost e0 = b.edge_log();
        add_observation(&mut b, o);
        proof {
            let ghost one = seq![*o];
            let ghost t = os.take(i + 1);
            assert(one.drop_last() =~= Seq::<MigrationObservation>::empty());
            assert(t.drop_last() =~= os.take(i as int));
            assert(t.last() == *o);
            assert(observations_nodes(one) == observations_nodes(one.drop_last()) + seq![observed_migration_node(*o)]
                + tables_nodes(strings_view(o.affected_tables@)));
            assert(observations_nodes(t) == observations_nodes(t.drop_last()) + seq![observed_migration_node(*o)]
                + tables_nodes(strings_view(o.affected_tables@)));
            assert(observations_edges(one) == observations_edges(one.drop_last())
                + table_edges(sid("migration"@, o.id@), strings_view(o.affected_tables@)));
            assert(observations_edges(t) == observations_edges(t.drop_last())
                + table_edges(sid("migration"@, o.id@), strings_view(o.affected_tables@)));
        }
        assert(b.node_log() =~= observations_nodes(os.take(i + 1)));
        assert(b.edge_log() =~= observations_edges(os.take(i + 1)));
        i = i + 1;
    }
    assert(os.take(os.len() as int) =~= os);
    b.finish()
}

impl MigrationObservation {
    /// This observation alone as a delta.
    pub fn to_delta(&self) -> (d: GraphDelta)
        ensures
            crate::keyed::keyed_sorted::<crate::model::Node>(crate::keyed::views(d.create_nodes@)),
            crate::keyed::keyed_sorted::<crate::model::Edge>(crate::keyed::views(d.create_edges@)),
            crate::keyed::keyed_map::<crate::model::Node>(crate::keyed::views(d.create_nodes@))
                == crate::keyed::first_wins::<crate::model::Node>(Map::empty(), observations_nodes(seq![*self])),
            crate::keyed::keyed_map::<crate::model::Edge>(crate::keyed::views(d.create_edges@))
                == crate::keyed::first_wins::<crate::model::Edge>(Map::empty(), observations_edges(seq![*self])),
            d.update_nodes@.len() == 0,
            d.delete_nodes@.len() == 0,
            d.update_edges@.len() == 0,
            d.delete_edges@.len() == 0,
    {
        let mut b = crate::model::DeltaBuilder::new();
        add_observation(&mut b, self);
        assert(b.node_log() =~= observations_nodes(seq![*self]));
        assert(b.edge_log() =~= observations_edges(seq![*self]));
        b.finish()
    }
}


/// Risk that calls for policy evidence before a migration runs: a
/// destructive or production-sensitive flag, or a risk class that is absent,
/// destructive, data-loss, production-sensitive or unknown.
pub open spec fn requires_policy_evidence(a: Seq<(Seq<char>, JsonV)>) -> bool {
    attr_bool(a, "destructive"@) || attr_bool(a, "productionSensitive"@) || match attr_text(
        a,
        "riskClassification"@,
    ) {
        None => true,
        Some(r) => r == "destructive"@ || r == "data-loss-risk"@ || r == "production-sensitive"@ || r
            == "unknown"@,
    }
}

/// A migration node that the runtime holds to evidence: not an observation,
/// and risky enough to need policy evidence.
pub open spec fn migration_needs_evidence(n: NodeV) -> bool {
    &&& n.node_type == "Migration"@
    &&& attr_text(n.attributes, "sourceTrust"@) != Some("Observation"@)
    &&& requires_policy_evidence(n.attributes)
}

pub open spec fn evidence_findings(es: Seq<EdgeV>, id: Seq<char>, et: Seq<char>) -> Seq<FullFinding> {
    if outgoing(es, id, et) {
        Seq::empty()
    } else {
        seq![
            (
                "migration_runtime.evidence_required"@,
                FindingSeverity::Error,
                "Migration `"@ + id + "` requires `"@ + et
                    + "` evidence. Remediation: add the required graph evidence before execution."@,
                seq![id],
                Seq::<Seq<char>>::empty(),
            ),
        ]
    }
}

pub open spec fn has_revalidation_evidence(n: NodeV, es: Seq<EdgeV>) -> bool {
    ||| attr_text(n.attributes, "impactRevalidation"@) is Some
    ||| attr_text(n.attributes, "revalidationQueue"@) is Some
    ||| outgoing(es, n.id, "HAS_IMPACT_ANALYSIS"@)
    ||| outgoing(es, n.id, "INVALIDATES_ACTION"@)
    ||| outgoing(es, n.id, "REQUIRES_REVALIDATION"@)
}

pub open spec fn revalidation_findings(n: NodeV, es: Seq<EdgeV>) -> Seq<FullFinding> {
    if has_revalidation_evidence(n, es) {
        Seq::empty()
    } else {
        seq![
            (
                "migration_runtime.impact_revalidation_required"@,
                FindingSeverity::Error,
                "Migration `"@ + n.id
                    + "` requires impacted action revalidation evidence. Remediation: attach an impact analysis or revalidation queue before execution."@,
                seq![n.id],
                Seq::<Seq<char>>::empty(),
            ),
        ]
    }
}

/// What one node is reported for: each of the five kinds of evidence edge it
/// lacks, then missing revalidation evidence.
pub open spec fn migration_findings(n: NodeV, es: Seq<EdgeV>) -> Seq<FullFinding> {
    if !migration_needs_evidence(n) {
        Seq::empty()
    } else {
        evidence_findings(es, n.id, "OWNED_BY_MODULE"@) + evidence_findings(es, n.id, "HAS_ROLLBACK_PLAN"@)
            + evidence_findings(es, n.id, "HAS_MIGRATION_APPROVAL"@) + evidence_findings(
            es,
            n.id,
            "HAS_MIGRATION_TEST"@,
        ) + evidence_findings(es, n.id, "AFFECTS_TABLE"@) + revalidation_findings(n, es)
    }
}

pub open spec fn migrations_findings(ns: Seq<NodeV>, es: Seq<EdgeV>) -> Seq<FullFinding>
    decreases ns.len(),
{
    if ns.len() == 0 {
        Seq::empty()
    } else {
        migrations_findings(ns.drop_last(), es) + migration_findings(ns.last(), es)
    }
}

fn require_edge(findings: &mut Vec<Finding>, edges: &Vec<Edge>, id: &String, et: &str)
    ensures
        findings_full(final(findings)@) == findings_full(old(findings)@) + evidence_findings(
            crate::keyed::views(edges@),
            id@,
            et@,
        ),
{
    if !has_outgoing(edges, id, et) {
        let ghost f0 = findings_full(findings@);
        let idc = string_chars(id);
        let etc = chars_of(et);
        push_related_finding(
            findings,
            "migration_runtime.evidence_required",
            msg5(
                "Migration `",
                &idc,
                "` requires `",
                &etc,
                "` evidence. Remediation: add the required graph evidence before execution.",
            ),
            one_id(id),
            no_ids(),
        );
        assert(findings_full(findings@) =~= f0 + evidence_findings(crate::keyed::views(edges@), id@, et@));
    } else {
        assert(findings_full(findings@) =~= findings_full(findings@) + Seq::<FullFinding>::empty());
    }
}

fn require_revalidation(findings: &mut Vec<Finding>, edges: &Vec<Edge>, n: &Node)
    ensures
        findings_full(final(findings)@) == findings_full(old(findings)@) + revalidation_findings(
            n@,
            crate::keyed::views(edges@),
        ),
{
    let has_attr = fields_text(&n.attributes, "impactRevalidation").is_some() || fields_text(
        &n.attributes,
        "revalidationQueue",
    ).is_some();
    let has_edge = has_outgoing(edges, &n.id, "HAS_IMPACT_ANALYSIS") || has_outgoing(
        edges,
        &n.id,
        "INVALIDATES_ACTION",
    ) || has_outgoing(edges, &n.id, "REQUIRES_REVALIDATION");
    if !has_attr && !has_edge {
        let ghost f0 = findings_full(findings@);
        let idc = string_chars(&n.id);
        push_related_finding(
            findings,
            "migration_runtime.impact_revalidation_required",
            msg3(
                "Migration `",
                &idc,
                "` requires impacted action revalidation evidence. Remediation: attach an impact analysis or revalidation queue before execution.",
            ),
            one_id(&n.id),
            no_ids(),
        );
        assert(findings_full(findings@) =~= f0 + revalidation_findings(n@, crate::keyed::views(edges@)));
    } else {
        assert(findings_full(findings@) =~= findings_full(findings@) + Seq::<FullFinding>::empty());
    }
}

fn needs_evidence(n: &Node) -> (r: bool)
    ensures
        r == migration_needs_evidence(n@),
{
    if !eq_str(&string_chars(&n.node_type), "Migration") {
        return false;
    }
    let observed = match fields_text(&n.attributes, "sourceTrust") {
        Some(t) => eq_str(&string_chars(&t), "Observation"),
        None => false,
    };
    if observed {
        return false;
    }
    if fields_bool(&n.attributes, "destructive") || fields_bool(&n.attributes, "productionSensitive") {
        return true;
    }
    match fields_text(&n.attributes, "riskClassification") {
        None => true,
        Some(r) => {
            let rc = string_chars(&r);
            eq_str(&rc, "destructive") || eq_str(&rc, "data-loss-risk") || eq_str(&rc, "production-sensitive")
                || eq_str(&rc, "unknown")
        },
    }
}

/// Risky migrations that are not mere observations must carry their owner,
/// rollback plan, approval, test, affected-table and revalidation evidence.
pub fn validate_migration_runtime(graph: &Graph) -> (r: Vec<Finding>)
    ensures
        findings_full(r@) == migrations_findings(graph.node_seq(), graph.edge_seq()),
{
    let nodes = graph.nodes();
    let edges = graph.edges();
    let ghost ns = crate::keyed::views(nodes@);
    let ghost es = crate::keyed::views(edges@);
    let mut findings: Vec<Finding> = Vec::new();
    assert(findings_full(findings@) =~= Seq::empty());
    let mut i: usize = 0;
    while i < nodes.len()
        invariant
            i <= nodes@.len(),
            ns == crate::keyed::views(nodes@),
            es == crate::keyed::views(edges@),
            ns == graph.node_seq(),
            es == graph.edge_seq(),
            findings_full(findings@) == migrations_findings(ns.take(i as int), es),
        decreases nodes@.len() - i,
    {
        let n = &nodes[i];
        assert(ns[i as int] == n@);
        let ghost f0 = findings_full(findings@);
        if needs_evidence(n) {
            require_edge(&mut findings, edges, &n.id, "OWNED_BY_MODULE");
            require_edge(&mut findings, edges, &n.id, "HAS_ROLLBACK_PLAN");
            require_edge(&mut findings, edges, &n.id, "HAS_MIGRATION_APPROVAL");
            require_edge(&mut findings, edges, &n.id, "HAS_MIGRATION_TEST");
            require_edge(&mut findings, edges, &n.id, "AFFECTS_TABLE");
            require_revalidation(&mut findings, edges, n);
        }
        assert(findings_full(findings@) =~= f0 + migration_findings(ns[i as int], es));
        assert(ns.take(i + 1).drop_last() =~= ns.take(i as int));
        i = i + 1;
    }
    assert(ns.take(ns.len() as int) =~= ns);
    findings
}

} // verus!
