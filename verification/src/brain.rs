//! Brain vault notes: markdown files with a small YAML-ish frontmatter,
//! `[[wikilinks]]` and a region owned by Noted. Parsing a file yields its
//! entity slug, type, display name, tags, aliases, links and managed text.
use vstd::prelude::*;
use crate::digest::{hex_lower, sha256, sha256_spec, to_hex_lower};
use crate::record_crypto::utf8;
use crate::text::{
    append_chars, before_char, before_char_exec, char_seqs, chars_eq, chars_of, copy_chars,
    find_char, find_char_exec, find_from, lemma_find_char, lowercase_chars, lowercase_spec,
    occurs_at, slice_range, split_char, split_chars, starts_with, starts_with_chars, str_eq,
    string_from_chars, to_lowercase, to_uppercase_char, trim, trim_bounds, trim_chars, trim_end,
    trim_end_chars, trim_start, trim_start_chars, uppercase_char_spec, string_seqs,
};

verus! {

/// Markers delimiting the region Noted owns inside a brain note.
pub const MANAGED_BEGIN: &'static str = "<!-- noted:begin -->";
pub const MANAGED_END: &'static str = "<!-- noted:end -->";

/// A brain note parsed into the pieces Noted needs.
#[derive(Debug, Clone, PartialEq)]
pub struct ParsedNote {
    pub vault: String,
    pub rel_path: String,
    pub slug: String,
    pub display_name: String,
    pub etype: String,
    pub status: Option<String>,
    pub event_date: Option<String>,
    pub tags: Vec<String>,
    pub aliases: Vec<String>,
    pub wikilinks: Vec<String>,
    pub managed: Option<String>,
    pub hash: String,
}

fn lit(s: &str) -> (r: Vec<char>)
    ensures
        r@ == s@,
{
    chars_of(s)
}

fn eq_lit(v: &[char], s: &str) -> (r: bool)
    ensures
        r == (v@ == s@),
{
    let l = chars_of(s);
    chars_eq(v, &l)
}

// ---------------------------------------------------------------------------
// Entity types
// ---------------------------------------------------------------------------

/// Entity type of a top-level vault folder; anything else is a `doc`.
pub open spec fn type_for_folder(first: Seq<char>) -> Seq<char> {
    if first == "people"@ {
        "person"@
    } else if first == "projects"@ {
        "project"@
    } else if first == "decisions"@ {
        "decision"@
    } else if first == "references"@ {
        "reference"@
    } else {
        "doc"@
    }
}

/// The entity type of a vault-relative path: that of its first segment.
pub open spec fn folder_type(rel_path: Seq<char>) -> Seq<char> {
    type_for_folder(before_char(rel_path, '/'))
}

/// First path segment -> entity type.
pub fn folder_to_type(rel_path: &str) -> (r: &'static str)
    ensures
        r@ == folder_type(rel_path@),
{
    let p = chars_of(rel_path);
    let first = before_char_exec(&p, '/');
    if eq_lit(&first, "people") {
        "person"
    } else if eq_lit(&first, "projects") {
        "project"
    } else if eq_lit(&first, "decisions") {
        "decision"
    } else if eq_lit(&first, "references") {
        "reference"
    } else {
        "doc"
    }
}

/// The taxonomy type a frontmatter `type` value names, if any; `note` is a
/// `doc`.
pub open spec fn frontmatter_type(t: Seq<char>) -> Option<Seq<char>> {
    let n = lowercase_spec(trim(t));
    if n == "person"@ {
        Some("person"@)
    } else if n == "project"@ {
        Some("project"@)
    } else if n == "decision"@ {
        Some("decision"@)
    } else if n == "reference"@ {
        Some("reference"@)
    } else if n == "note"@ || n == "doc"@ {
        Some("doc"@)
    } else {
        None
    }
}

fn type_from_frontmatter(t: &[char]) -> (r: Option<&'static str>)
    ensures
        match (r, frontmatter_type(t@)) {
            (Some(a), Some(b)) => a@ == b,
            (None, None) => true,
            _ => false,
        },
{
    let n = lowercase_chars(&trim_chars(t));
    if eq_lit(&n, "person") {
        Some("person")
    } else if eq_lit(&n, "project") {
        Some("project")
    } else if eq_lit(&n, "decision") {
        Some("decision")
    } else if eq_lit(&n, "reference") {
        Some("reference")
    } else if eq_lit(&n, "note") || eq_lit(&n, "doc") {
        Some("doc")
    } else {
        None
    }
}

/// The normalized form of an entity name: lowercased and trimmed.
pub open spec fn entity_norm(name: Seq<char>) -> Seq<char> {
    trim(lowercase_spec(name))
}

/// Normalizes an entity name for deduplication.
pub fn normalize_entity_name(name: &str) -> (r: Vec<char>)
    ensures
        r@ == entity_norm(name@),
{
    let l = to_lowercase(name);
    let c = chars_of(l.as_str());
    trim_chars(&c)
}

/// Dedup key of a brain entity: people unify across vaults, every other
/// type is scoped to its vault (`vault:name`).
pub open spec fn vault_norm_spec(vault: Seq<char>, etype: Seq<char>, name: Seq<char>) -> Seq<char> {
    if etype == "person"@ {
        entity_norm(name)
    } else {
        vault + ":"@ + entity_norm(name)
    }
}

pub fn vault_norm(vault: &str, etype: &str, name: &str) -> (r: String)
    ensures
        r@ == vault_norm_spec(vault@, etype@, name@),
{
    let n = normalize_entity_name(name);
    if str_eq(etype, "person") {
        string_from_chars(&n)
    } else {
        let mut out = chars_of(vault);
        out.push(':');
        append_chars(&mut out, &n);
        proof {
            assert(":"@ =~= seq![':']) by {
                reveal_strlit(":");
            }
        }
        assert(out@ =~= vault@ + ":"@ + entity_norm(name@));
        string_from_chars(&out)
    }
}

// ---------------------------------------------------------------------------
// Display names
// ---------------------------------------------------------------------------

/// `s` with every `from` replaced by `to`.
pub open spec fn replace_char(s: Seq<char>, from: char, to: char) -> Seq<char> {
    Seq::new(s.len(), |i: int| if s[i] == from { to } else { s[i] })
}

/// A word with its first character uppercased.
pub open spec fn capitalize(w: Seq<char>) -> Seq<char> {
    uppercase_char_spec(w[0]) + w.drop_first()
}

/// The non-empty pieces, each capitalized, in order.
pub open spec fn capitalized_words(ps: Seq<Seq<char>>) -> Seq<Seq<char>>
    decreases ps.len(),
{
    if ps.len() == 0 {
        seq![]
    } else {
        let r = capitalized_words(ps.drop_last());
        if ps.last().len() == 0 {
            r
        } else {
            r.push(capitalize(ps.last()))
        }
    }
}

/// Words joined by a separator.
pub open spec fn join(ws: Seq<Seq<char>>, sep: Seq<char>) -> Seq<char>
    decreases ws.len(),
{
    if ws.len() == 0 {
        seq![]
    } else if ws.len() == 1 {
        ws[0]
    } else {
        join(ws.drop_last(), sep) + sep + ws.last()
    }
}

/// Title case of a kebab or snake slug ("brian-cho" -> "Brian Cho").
pub open spec fn humanize_spec(slug: Seq<char>) -> Seq<char> {
    join(capitalized_words(split_char(replace_char(slug, '_', '-'), '-')), " "@)
}

/// Joins words with a separator.
pub fn join_words(ws: &Vec<Vec<char>>, sep: &[char]) -> (r: Vec<char>)
    ensures
        r@ == join(char_seqs(ws@), sep@),
{
    let mut out: Vec<char> = Vec::new();
    let mut i: usize = 0;
    while i < ws.len()
        invariant
            i <= ws@.len(),
            out@ == join(char_seqs(ws@).take(i as int), sep@),
        decreases ws@.len() - i,
    {
        let ghost prev = char_seqs(ws@).take(i as int);
        assert(char_seqs(ws@).take(i + 1).drop_last() =~= prev);
        if i > 0 {
            append_chars(&mut out, sep);
        }
        append_chars(&mut out, &ws[i]);
        proof {
            let cur = char_seqs(ws@).take(i + 1);
            if i == 0 {
                assert(out@ =~= cur[0]);
            } else {
                assert(out@ =~= join(prev, sep@) + sep@ + cur.last());
            }
        }
        i = i + 1;
    }
    assert(char_seqs(ws@).take(ws@.len() as int) =~= char_seqs(ws@));
    out
}

fn humanize(slug: &[char]) -> (r: Vec<char>)
    ensures
        r@ == humanize_spec(slug@),
{
    let mut replaced: Vec<char> = Vec::new();
    let mut i: usize = 0;
    while i < slug.len()
        invariant
            i <= slug@.len(),
            replaced@ =~= replace_char(slug@.take(i as int), '_', '-'),
        decreases slug@.len() - i,
    {
        if slug[i] == '_' {
            replaced.push('-');
        } else {
            replaced.push(slug[i]);
        }
        i = i + 1;
    }
    assert(slug@.take(slug@.len() as int) =~= slug@);
    let pieces = split_chars(&replaced, '-');
    let mut words: Vec<Vec<char>> = Vec::new();
    let mut k: usize = 0;
    while k < pieces.len()
        invariant
            k <= pieces@.len(),
            char_seqs(words@) == capitalized_words(char_seqs(pieces@).take(k as int)),
        decreases pieces@.len() - k,
    {
        let ghost prev = char_seqs(pieces@).take(k as int);
        assert(char_seqs(pieces@).take(k + 1).drop_last() =~= prev);
        let w = &pieces[k];
        if w.len() > 0 {
            let mut cap = to_uppercase_char(w[0]);
            let rest = slice_range(w, 1, w.len());
            append_chars(&mut cap, &rest);
            assert(cap@ =~= capitalize(w@));
            let ghost before = char_seqs(words@);
            words.push(cap);
            assert(char_seqs(words@) =~= before.push(capitalize(w@)));
        }
        k = k + 1;
    }
    assert(char_seqs(pieces@).take(pieces@.len() as int) =~= char_seqs(pieces@));
    let sep = lit(" ");
    join_words(&words, &sep)
}

/// The first position at or after `k` where `needle` occurs, if any.
pub open spec fn find_seq(hay: Seq<char>, needle: Seq<char>, k: int) -> Option<int>
    decreases hay.len() + 1 - k,
{
    if k < 0 || k > hay.len() {
        None
    } else if occurs_at(hay, needle, k) {
        Some(k)
    } else {
        find_seq(hay, needle, k + 1)
    }
}

proof fn lemma_find_seq_found(hay: Seq<char>, needle: Seq<char>, k: int, at: int)
    requires
        0 <= k <= at,
        occurs_at(hay, needle, at),
        forall|j: int| k <= j < at ==> !occurs_at(hay, needle, j),
    ensures
        find_seq(hay, needle, k) == Some(at),
    decreases at - k,
{
    if k < at {
        lemma_find_seq_found(hay, needle, k + 1, at);
    }
}

proof fn lemma_find_seq_none(hay: Seq<char>, needle: Seq<char>, k: int)
    requires
        0 <= k,
        forall|j: int| k <= j ==> !occurs_at(hay, needle, j),
    ensures
        find_seq(hay, needle, k) is None,
    decreases hay.len() + 1 - k,
{
    if k <= hay.len() {
        lemma_find_seq_none(hay, needle, k + 1);
    }
}

/// First position of `needle` in `hay` at or after `from`.
pub fn find_seq_exec(hay: &[char], needle: &[char], from: usize) -> (r: Option<usize>)
    requires
        from <= hay@.len(),
    ensures
        match (r, find_seq(hay@, needle@, from as int)) {
            (Some(a), Some(b)) => a as int == b,
            (None, None) => true,
            _ => false,
        },
        r matches Some(a) ==> from <= a && occurs_at(hay@, needle@, a as int),
{
    let r = find_from(hay, needle, from);
    proof {
        match r {
            Some(at) => lemma_find_seq_found(hay@, needle@, from as int, at as int),
            None => lemma_find_seq_none(hay@, needle@, from as int),
        }
    }
    r
}

/// Title separators, in the order they are tried.
pub open spec fn title_separators() -> Seq<Seq<char>> {
    seq![" — "@, " – "@, " - "@, ": "@]
}

/// The part of a title before the first separator (trying each separator in
/// turn) whose trimmed head is non-empty; the whole title when none is.
pub open spec fn title_head(t: Seq<char>, seps: Seq<Seq<char>>) -> Seq<char>
    decreases seps.len(),
{
    if seps.len() == 0 {
        t
    } else {
        match find_seq(t, seps[0], 0) {
            Some(k) => if trim(t.take(k)).len() > 0 {
                trim(t.take(k))
            } else {
                title_head(t, seps.drop_first())
            },
            None => title_head(t, seps.drop_first()),
        }
    }
}

/// A concise display name from the frontmatter title, else the humanized slug.
pub open spec fn display_name_spec(title: Option<Seq<char>>, slug: Seq<char>) -> Seq<char> {
    match title {
        Some(t) => if trim(t).len() > 0 {
            title_head(trim(t), title_separators())
        } else {
            humanize_spec(slug)
        },
        None => humanize_spec(slug),
    }
}

fn display_name(title: Option<&Vec<char>>, slug: &[char]) -> (r: Vec<char>)
    ensures
        r@ == display_name_spec(
            match title {
                Some(t) => Some(t@),
                None => None,
            },
            slug@,
        ),
{
    match title {
        Some(raw) => {
            let t = trim_chars(raw);
            if t.len() == 0 {
                return humanize(slug);
            }
            let seps: [&str; 4] = [" — ", " – ", " - ", ": "];
            let ghost all = title_separators();
            assert(forall|j: int| 0 <= j < 4 ==> (#[trigger] seps@[j])@ == all[j]);
            let mut i: usize = 0;
            assert(all.skip(0) =~= all);
            while i < 4
                invariant
                    i <= 4,
                    forall|j: int| 0 <= j < 4 ==> (#[trigger] seps@[j])@ == all[j],
                    all.len() == 4,
                    all == title_separators(),
                    t@ == trim(raw@),
                    t@.len() > 0,
                    title == Some(raw),
                    title_head(t@, all) == title_head(t@, all.skip(i as int)),
                decreases 4 - i,
            {
                let sep = chars_of(seps[i]);
                assert(all.skip(i as int)[0] == all[i as int]);
                assert(all.skip(i as int).drop_first() =~= all.skip(i + 1));
                match find_seq_exec(&t, &sep, 0) {
                    Some(k) => {
                        let head = trim_chars(&slice_range(&t, 0, k));
                        assert(t@.subrange(0, k as int) =~= t@.take(k as int));
                        if head.len() > 0 {
                            assert(title_head(t@, all.skip(i as int)) == head@);
                            return head;
                        }
                    },
                    None => {},
                }
                i = i + 1;
            }
            assert(all.skip(4) =~= Seq::<Seq<char>>::empty());
            t
        },
        None => humanize(slug),
    }
}

// ---------------------------------------------------------------------------
// Frontmatter
// ---------------------------------------------------------------------------

/// `s` without a leading byte-order mark.
pub open spec fn strip_bom(s: Seq<char>) -> Seq<char> {
    if s.len() > 0 && s[0] == '\u{feff}' {
        s.drop_first()
    } else {
        s
    }
}

/// What follows an opening `---` fence line, if the text starts with one.
pub open spec fn after_open_fence(t: Seq<char>) -> Option<Seq<char>> {
    if starts_with(t, "---\n"@) {
        Some(t.skip(4))
    } else if starts_with(t, "---\r\n"@) {
        Some(t.skip(5))
    } else {
        None
    }
}

/// End (exclusive, including its `\n`) of the line starting at `start`.
pub open spec fn line_end(s: Seq<char>, start: int) -> int {
    let f = find_char(s.skip(start), '\n');
    if start + f < s.len() {
        start + f + 1
    } else {
        s.len() as int
    }
}

/// A line without its trailing `\r`/`\n` characters.
pub open spec fn strip_line_end(l: Seq<char>) -> Seq<char>
    decreases l.len(),
{
    if l.len() > 0 && (l.last() == '\r' || l.last() == '\n') {
        strip_line_end(l.drop_last())
    } else {
        l
    }
}

/// Start of the first line at or after `start` that is exactly `---`.
pub open spec fn closing_fence(s: Seq<char>, start: int) -> Option<int>
    decreases s.len() - start,
{
    if start < 0 || start >= s.len() {
        None
    } else {
        let e = line_end(s, start);
        if strip_line_end(s.subrange(start, e)) == "---"@ {
            Some(start)
        } else if e <= start {
            None
        } else {
            closing_fence(s, e)
        }
    }
}

/// The raw frontmatter lines and the body: the text between an opening
/// `---` line and the next `---` line, and what follows; an empty
/// frontmatter and the whole input when there is no complete fence.
pub open spec fn split_frontmatter_spec(raw: Seq<char>) -> (Seq<char>, Seq<char>) {
    match after_open_fence(strip_bom(raw)) {
        Some(rest) => match closing_fence(rest, 0) {
            Some(idx) => (rest.take(idx), rest.skip(line_end(rest, idx))),
            None => (seq![], raw),
        },
        None => (seq![], raw),
    }
}

proof fn lemma_line_end(s: Seq<char>, start: int)
    requires
        0 <= start < s.len(),
    ensures
        start < line_end(s, start) <= s.len(),
{
    lemma_find_char(s.skip(start), '\n');
}

fn line_end_exec(s: &[char], start: usize) -> (r: usize)
    requires
        start < s@.len(),
    ensures
        r as int == line_end(s@, start as int),
        start < r <= s@.len(),
{
    proof {
        lemma_line_end(s@, start as int);
    }
    let rest = slice_range(s, start, s.len());
    assert(rest@ =~= s@.skip(start as int));
    let f = find_char_exec(&rest, '\n');
    proof {
        lemma_find_char(rest@, '\n');
    }
    if start + f < s.len() {
        start + f + 1
    } else {
        s.len()
    }
}

fn strip_line_end_exec(l: &[char]) -> (r: Vec<char>)
    ensures
        r@ == strip_line_end(l@),
{
    let mut e = l.len();
    assert(l@.take(l@.len() as int) =~= l@);
    while e > 0 && (l[e - 1] == '\r' || l[e - 1] == '\n')
        invariant
            e <= l@.len(),
            strip_line_end(l@) == strip_line_end(l@.take(e as int)),
        decreases e,
    {
        assert(l@.take(e as int).drop_last() =~= l@.take(e - 1));
        e = e - 1;
    }
    assert(l@.take(l@.len() as int) =~= l@);
    slice_range(l, 0, e)
}

fn split_frontmatter(raw: &[char]) -> (r: (Vec<char>, Vec<char>))
    ensures
        (r.0@, r.1@) == split_frontmatter_spec(raw@),
{
    let trimmed = if raw.len() > 0 && raw[0] == '\u{feff}' {
        slice_range(raw, 1, raw.len())
    } else {
        copy_chars(raw)
    };
    assert(trimmed@ =~= strip_bom(raw@));
    let rest = if starts_with_chars(&trimmed, &lit("---\n")) {
        proof {
            reveal_strlit("---\n");
        }
        slice_range(&trimmed, 4, trimmed.len())
    } else if starts_with_chars(&trimmed, &lit("---\r\n")) {
        proof {
            reveal_strlit("---\r\n");
        }
        slice_range(&trimmed, 5, trimmed.len())
    } else {
        return (Vec::new(), copy_chars(raw));
    };
    assert(Some(rest@) == after_open_fence(strip_bom(raw@)));
    let fence = lit("---");
    let mut idx: usize = 0;
    while idx < rest.len()
        invariant
            idx <= rest@.len(),
            fence@ == "---"@,
            Some(rest@) == after_open_fence(strip_bom(raw@)),
            closing_fence(rest@, 0) == closing_fence(rest@, idx as int),
        decreases rest@.len() - idx,
    {
        let e = line_end_exec(&rest, idx);
        let line = strip_line_end_exec(&slice_range(&rest, idx, e));
        if chars_eq(&line, &fence) {
            assert(rest@.subrange(0, idx as int) =~= rest@.take(idx as int));
            assert(rest@.subrange(e as int, rest@.len() as int) =~= rest@.skip(e as int));
            assert(closing_fence(rest@, idx as int) == Some(idx as int));
            return (slice_range(&rest, 0, idx), slice_range(&rest, e, rest.len()));
        }
        idx = e;
    }
    (Vec::new(), copy_chars(raw))
}

/// A frontmatter value: a scalar text or an inline `[a, b]` list.
pub enum FmValueSpec {
    Text(Seq<char>),
    List(Seq<Seq<char>>),
}

/// A parsed frontmatter value.
#[derive(Debug, Clone)]
pub enum FrontmatterValue {
    Text(Vec<char>),
    List(Vec<Vec<char>>),
}

impl View for FrontmatterValue {
    type V = FmValueSpec;

    open spec fn view(&self) -> FmValueSpec {
        match self {
            FrontmatterValue::Text(t) => FmValueSpec::Text(t@),
            FrontmatterValue::List(l) => FmValueSpec::List(char_seqs(l@)),
        }
    }
}

/// A scalar without surrounding white space and one pair of matching double,
/// then single, quotes.
pub open spec fn unquote_spec(s: Seq<char>) -> Seq<char> {
    let a = trim(s);
    let b = if a.len() >= 2 && a[0] == '"' && a.last() == '"' {
        a.subrange(1, a.len() - 1)
    } else {
        a
    };
    let c = if b.len() >= 2 && b[0] == '\'' && b.last() == '\'' {
        b.subrange(1, b.len() - 1)
    } else {
        b
    };
    trim(c)
}

fn unquote(s: &[char]) -> (r: Vec<char>)
    ensures
        r@ == unquote_spec(s@),
{
    let a = trim_chars(s);
    let b = if a.len() >= 2 && a[0] == '"' && a[a.len() - 1] == '"' {
        slice_range(&a, 1, a.len() - 1)
    } else {
        a
    };
    let c = if b.len() >= 2 && b[0] == '\'' && b[b.len() - 1] == '\'' {
        slice_range(&b, 1, b.len() - 1)
    } else {
        b
    };
    trim_chars(&c)
}

/// The unquoted, non-empty items of an inline list body.
pub open spec fn list_items(ps: Seq<Seq<char>>) -> Seq<Seq<char>>
    decreases ps.len(),
{
    if ps.len() == 0 {
        seq![]
    } else {
        let r = list_items(ps.drop_last());
        let u = unquote_spec(ps.last());
        if u.len() == 0 {
            r
        } else {
            r.push(u)
        }
    }
}

/// The `key: value` entry one frontmatter line holds, if any: blank lines,
/// comments, lines without a colon and empty values hold none.
pub open spec fn fm_line_entry(line: Seq<char>) -> Option<(Seq<char>, FmValueSpec)> {
    let l = trim_end(line);
    let k = find_char(l, ':');
    if trim(l).len() == 0 || starts_with(trim_start(l), "#"@) || k == l.len() {
        None
    } else {
        let key = lowercase_spec(trim(l.take(k)));
        let val = trim(l.skip(k + 1));
        if val.len() == 0 {
            None
        } else if val.len() >= 2 && val[0] == '[' && val.last() == ']' {
            Some(
                (
                    key,
                    FmValueSpec::List(list_items(split_char(val.subrange(1, val.len() - 1), ','))),
                ),
            )
        } else {
            Some((key, FmValueSpec::Text(unquote_spec(val))))
        }
    }
}

/// The entries of the frontmatter lines, in order.
pub open spec fn fm_entries_of(lines: Seq<Seq<char>>) -> Seq<(Seq<char>, FmValueSpec)>
    decreases lines.len(),
{
    if lines.len() == 0 {
        seq![]
    } else {
        let r = fm_entries_of(lines.drop_last());
        match fm_line_entry(lines.last()) {
            Some(e) => r.push(e),
            None => r,
        }
    }
}

/// The entries of a raw frontmatter block.
pub open spec fn fm_entries(fm: Seq<char>) -> Seq<(Seq<char>, FmValueSpec)> {
    fm_entries_of(split_char(fm, '\n'))
}

/// The value a key has: that of its last entry (later lines override).
pub open spec fn fm_lookup(entries: Seq<(Seq<char>, FmValueSpec)>, key: Seq<char>) -> Option<
    FmValueSpec,
>
    decreases entries.len(),
{
    if entries.len() == 0 {
        None
    } else if entries.last().0 == key {
        Some(entries.last().1)
    } else {
        fm_lookup(entries.drop_last(), key)
    }
}

/// A non-empty scalar value of a key.
pub open spec fn fm_string_spec(entries: Seq<(Seq<char>, FmValueSpec)>, key: Seq<char>) -> Option<
    Seq<char>,
> {
    match fm_lookup(entries, key) {
        Some(FmValueSpec::Text(s)) => if s.len() > 0 {
            Some(s)
        } else {
            None
        },
        _ => None,
    }
}

/// The list value of a key; a non-empty scalar counts as a one-item list.
pub open spec fn fm_array_spec(entries: Seq<(Seq<char>, FmValueSpec)>, key: Seq<char>) -> Seq<
    Seq<char>,
> {
    match fm_lookup(entries, key) {
        Some(FmValueSpec::List(a)) => a,
        Some(FmValueSpec::Text(s)) => if s.len() > 0 {
            seq![s]
        } else {
            seq![]
        },
        None => seq![],
    }
}

/// The views of parsed entries.
pub open spec fn entries_view(v: Seq<(Vec<char>, FrontmatterValue)>) -> Seq<
    (Seq<char>, FmValueSpec),
> {
    Seq::new(v.len(), |i: int| (v[i].0@, v[i].1@))
}

fn fm_line(line: &[char]) -> (r: Option<(Vec<char>, FrontmatterValue)>)
    ensures
        match (r, fm_line_entry(line@)) {
            (Some(a), Some(b)) => a.0@ == b.0 && a.1@ == b.1,
            (None, None) => true,
            _ => false,
        },
{
    let l = trim_end_chars(line);
    let k = find_char_exec(&l, ':');
    let tl = trim_chars(&l);
    let ts = trim_start_chars(&l);
    let hash = lit("#");
    if tl.len() == 0 || starts_with_chars(&ts, &hash) || k == l.len() {
        return None;
    }
    proof {
        lemma_find_char(l@, ':');
    }
    let key = lowercase_chars(&trim_chars(&slice_range(&l, 0, k)));
    let val = trim_chars(&slice_range(&l, k + 1, l.len()));
    if val.len() == 0 {
        return None;
    }
    if val.len() >= 2 && val[0] == '[' && val[val.len() - 1] == ']' {
        let inner = slice_range(&val, 1, val.len() - 1);
        let parts = split_chars(&inner, ',');
        let mut items: Vec<Vec<char>> = Vec::new();
        let mut i: usize = 0;
        while i < parts.len()
            invariant
                i <= parts@.len(),
                char_seqs(items@) == list_items(char_seqs(parts@).take(i as int)),
            decreases parts@.len() - i,
        {
            assert(char_seqs(parts@).take(i + 1).drop_last() =~= char_seqs(parts@).take(i as int));
            let u = unquote(&parts[i]);
            if u.len() > 0 {
                let ghost before = char_seqs(items@);
                items.push(u);
                assert(char_seqs(items@) =~= before.push(unquote_spec(parts@[i as int]@)));
            }
            i = i + 1;
        }
        assert(char_seqs(parts@).take(parts@.len() as int) =~= char_seqs(parts@));
        Some((key, FrontmatterValue::List(items)))
    } else {
        Some((key, FrontmatterValue::Text(unquote(&val))))
    }
}

fn parse_frontmatter(fm: &[char]) -> (r: Vec<(Vec<char>, FrontmatterValue)>)
    ensures
        entries_view(r@) == fm_entries(fm@),
{
    let lines = split_chars(fm, '\n');
    let mut out: Vec<(Vec<char>, FrontmatterValue)> = Vec::new();
    let mut i: usize = 0;
    while i < lines.len()
        invariant
            i <= lines@.len(),
            entries_view(out@) == fm_entries_of(char_seqs(lines@).take(i as int)),
        decreases lines@.len() - i,
    {
        assert(char_seqs(lines@).take(i + 1).drop_last() =~= char_seqs(lines@).take(i as int));
        assert(char_seqs(lines@).take(i + 1).last() == lines@[i as int]@);
        match fm_line(&lines[i]) {
            Some(e) => {
                let ghost before = entries_view(out@);
                let ghost ev = (e.0@, e.1@);
                out.push(e);
                assert(entries_view(out@) =~= before.push(ev));
            },
            None => {},
        }
        i = i + 1;
    }
    assert(char_seqs(lines@).take(lines@.len() as int) =~= char_seqs(lines@));
    out
}

/// Index of the last entry with `key`.
fn fm_find(entries: &Vec<(Vec<char>, FrontmatterValue)>, key: &str) -> (r: Option<usize>)
    ensures
        match r {
            Some(j) => j < entries@.len() && fm_lookup(entries_view(entries@), key@) == Some(
                entries@[j as int].1@,
            ),
            None => fm_lookup(entries_view(entries@), key@) is None,
        },
{
    let k = lit(key);
    let mut j = entries.len();
    assert(entries_view(entries@).take(j as int) =~= entries_view(entries@));
    while j > 0
        invariant
            j <= entries@.len(),
            k@ == key@,
            fm_lookup(entries_view(entries@), key@) == fm_lookup(
                entries_view(entries@).take(j as int),
                key@,
            ),
        decreases j,
    {
        let ghost t = entries_view(entries@).take(j as int);
        assert(t.drop_last() =~= entries_view(entries@).take(j - 1));
        assert(t.last() == (entries@[j - 1].0@, entries@[j - 1].1@));
        if chars_eq(&entries[j - 1].0, &k) {
            return Some(j - 1);
        }
        j = j - 1;
    }
    None
}

/// A copy of a list of character vectors.
fn copy_list(v: &Vec<Vec<char>>) -> (r: Vec<Vec<char>>)
    ensures
        char_seqs(r@) == char_seqs(v@),
{
    let mut out: Vec<Vec<char>> = Vec::new();
    let mut i: usize = 0;
    while i < v.len()
        invariant
            i <= v@.len(),
            char_seqs(out@) == char_seqs(v@).take(i as int),
        decreases v@.len() - i,
    {
        let c = copy_chars(&v[i]);
        let ghost before = char_seqs(out@);
        out.push(c);
        assert(char_seqs(out@) =~= before.push(v@[i as int]@));
        assert(char_seqs(v@).take(i + 1) =~= char_seqs(v@).take(i as int).push(v@[i as int]@));
        i = i + 1;
    }
    assert(char_seqs(v@).take(v@.len() as int) =~= char_seqs(v@));
    out
}

fn fm_string(entries: &Vec<(Vec<char>, FrontmatterValue)>, key: &str) -> (r: Option<Vec<char>>)
    ensures
        chars_opt(r) == fm_string_spec(entries_view(entries@), key@),
{
    match fm_find(entries, key) {
        Some(j) => match &entries[j].1 {
            FrontmatterValue::Text(t) => if t.len() > 0 {
                Some(copy_chars(t))
            } else {
                None
            },
            FrontmatterValue::List(_) => None,
        },
        None => None,
    }
}

fn fm_array(entries: &Vec<(Vec<char>, FrontmatterValue)>, key: &str) -> (r: Vec<Vec<char>>)
    ensures
        char_seqs(r@) == fm_array_spec(entries_view(entries@), key@),
{
    match fm_find(entries, key) {
        Some(j) => match &entries[j].1 {
            FrontmatterValue::Text(t) => if t.len() > 0 {
                let mut out: Vec<Vec<char>> = Vec::new();
                out.push(copy_chars(t));
                assert(char_seqs(out@) =~= seq![t@]);
                out
            } else {
                let out: Vec<Vec<char>> = Vec::new();
                assert(char_seqs(out@) =~= Seq::<Seq<char>>::empty());
                out
            },
            FrontmatterValue::List(l) => copy_list(l),
        },
        None => {
            let out: Vec<Vec<char>> = Vec::new();
            assert(char_seqs(out@) =~= Seq::<Seq<char>>::empty());
            out
        },
    }
}

/// The view of an optional character vector.
pub open spec fn chars_opt(o: Option<Vec<char>>) -> Option<Seq<char>> {
    match o {
        Some(v) => Some(v@),
        None => None,
    }
}

/// The view of an optional string.
pub open spec fn string_opt(o: Option<String>) -> Option<Seq<char>> {
    match o {
        Some(v) => Some(v@),
        None => None,
    }
}

// ---------------------------------------------------------------------------
// Links, managed region, slug, hash
// ---------------------------------------------------------------------------

pub proof fn lemma_find_seq_bounds(hay: Seq<char>, needle: Seq<char>, k: int)
    ensures
        find_seq(hay, needle, k) matches Some(at) ==> k <= at && at + needle.len() <= hay.len(),
    decreases hay.len() + 1 - k,
{
    if 0 <= k <= hay.len() && !occurs_at(hay, needle, k) {
        lemma_find_seq_bounds(hay, needle, k + 1);
    }
}

/// The inner texts of the `[[...]]` links of a body, in order: each opening
/// `[[` is closed by the next `]]`, and scanning resumes after it.
pub open spec fn link_inners(s: Seq<char>) -> Seq<Seq<char>>
    decreases s.len(),
{
    match find_seq(s, "[["@, 0) {
        None => seq![],
        Some(k) => {
            proof {
                reveal_strlit("[[");
                lemma_find_seq_bounds(s, "[["@, 0);
            }
            let after = s.skip(k + 2);
            match find_seq(after, "]]"@, 0) {
                None => seq![],
                Some(m) => {
                    proof {
                        reveal_strlit("]]");
                        lemma_find_seq_bounds(after, "]]"@, 0);
                    }
                    seq![after.take(m)] + link_inners(after.skip(m + 2))
                },
            }
        },
    }
}

/// The slug a link target names: before any `|label` and `#heading`,
/// trimmed and lowercased.
pub open spec fn link_slug(inner: Seq<char>) -> Seq<char> {
    lowercase_spec(trim(before_char(before_char(inner, '|'), '#')))
}

/// Non-empty slugs of the links, first occurrence only, in order.
pub open spec fn dedup_slugs(inners: Seq<Seq<char>>) -> Seq<Seq<char>>
    decreases inners.len(),
{
    if inners.len() == 0 {
        seq![]
    } else {
        let r = dedup_slugs(inners.drop_last());
        let s = link_slug(inners.last());
        if s.len() == 0 || r.contains(s) {
            r
        } else {
            r.push(s)
        }
    }
}

/// All `[[wikilink]]` target slugs of a body, deduplicated, in order.
pub open spec fn wikilinks_spec(body: Seq<char>) -> Seq<Seq<char>> {
    dedup_slugs(link_inners(body))
}

fn link_inners_exec(s: &[char]) -> (r: Vec<Vec<char>>)
    ensures
        char_seqs(r@) == link_inners(s@),
{
    let open = lit("[[");
    let close = lit("]]");
    proof {
        reveal_strlit("[[");
        reveal_strlit("]]");
    }
    let mut out: Vec<Vec<char>> = Vec::new();
    let mut rest = copy_chars(s);
    assert(char_seqs(out@) + link_inners(rest@) =~= link_inners(s@));
    loop
        invariant
            open@ == "[["@,
            close@ == "]]"@,
            open@.len() == 2,
            close@.len() == 2,
            char_seqs(out@) + link_inners(rest@) == link_inners(s@),
        decreases rest@.len(),
    {
        let k = match find_seq_exec(&rest, &open, 0) {
            Some(k) => k,
            None => {
                assert(char_seqs(out@) =~= link_inners(s@));
                return out;
            },
        };
        assert(occurs_at(rest@, open@, k as int));
        assert(k + 2 <= rest@.len());
        let rest_len = rest.len();
        assert(k + 2 <= rest_len);
        let after = slice_range(&rest, k + 2, rest.len());
        assert(after@ =~= rest@.skip(k + 2));
        let m = match find_seq_exec(&after, &close, 0) {
            Some(m) => m,
            None => {
                assert(char_seqs(out@) =~= link_inners(s@));
                return out;
            },
        };
        let inner = slice_range(&after, 0, m);
        let next = slice_range(&after, m + 2, after.len());
        proof {
            assert(inner@ =~= after@.take(m as int));
            assert(next@ =~= after@.skip(m + 2));
            assert(link_inners(rest@) == seq![inner@] + link_inners(next@));
        }
        let ghost before = char_seqs(out@);
        out.push(inner);
        assert(char_seqs(out@) =~= before.push(inner@));
        assert(char_seqs(out@) + link_inners(next@) =~= before + (seq![inner@] + link_inners(
            next@,
        )));
        rest = next;
    }
}

fn contains_chars_seq(v: &Vec<Vec<char>>, x: &[char]) -> (r: bool)
    ensures
        r == char_seqs(v@).contains(x@),
{
    let mut i: usize = 0;
    while i < v.len()
        invariant
            i <= v@.len(),
            forall|j: int| 0 <= j < i ==> char_seqs(v@)[j] != x@,
        decreases v@.len() - i,
    {
        if chars_eq(&v[i], x) {
            assert(char_seqs(v@)[i as int] == x@);
            return true;
        }
        i = i + 1;
    }
    false
}

/// All `[[wikilink]]` targets in a body, normalized to their slug:
/// `[[a|label]]` and `[[a#heading]]` name `a`. Lowercased, trimmed,
/// deduplicated, order-preserving.
pub fn extract_wikilinks(body: &str) -> (r: Vec<String>)
    ensures
        string_seqs(r@) == wikilinks_spec(body@),
{
    let b = chars_of(body);
    let v = extract_wikilinks_chars(&b);
    to_strings(&v)
}

fn to_strings(v: &Vec<Vec<char>>) -> (r: Vec<String>)
    ensures
        string_seqs(r@) == char_seqs(v@),
{
    let mut out: Vec<String> = Vec::new();
    let mut i: usize = 0;
    while i < v.len()
        invariant
            i <= v@.len(),
            string_seqs(out@) == char_seqs(v@).take(i as int),
        decreases v@.len() - i,
    {
        let c = string_from_chars(&v[i]);
        let ghost before = string_seqs(out@);
        out.push(c);
        assert(string_seqs(out@) =~= before.push(v@[i as int]@));
        assert(char_seqs(v@).take(i + 1) =~= char_seqs(v@).take(i as int).push(v@[i as int]@));
        i = i + 1;
    }
    assert(char_seqs(v@).take(v@.len() as int) =~= char_seqs(v@));
    out
}

fn extract_wikilinks_chars(b: &[char]) -> (r: Vec<Vec<char>>)
    ensures
        char_seqs(r@) == wikilinks_spec(b@),
{
    let inners = link_inners_exec(b);
    let mut out: Vec<Vec<char>> = Vec::new();
    let mut i: usize = 0;
    while i < inners.len()
        invariant
            i <= inners@.len(),
            char_seqs(out@) == dedup_slugs(char_seqs(inners@).take(i as int)),
        decreases inners@.len() - i,
    {
        assert(char_seqs(inners@).take(i + 1).drop_last() =~= char_seqs(inners@).take(i as int));
        assert(char_seqs(inners@).take(i + 1).last() == inners@[i as int]@);
        let a = before_char_exec(&inners[i], '|');
        let h = before_char_exec(&a, '#');
        let slug = lowercase_chars(&trim_chars(&h));
        if slug.len() > 0 && !contains_chars_seq(&out, &slug) {
            let ghost before = char_seqs(out@);
            out.push(slug);
            assert(char_seqs(out@) =~= before.push(link_slug(inners@[i as int]@)));
        }
        i = i + 1;
    }
    assert(char_seqs(inners@).take(inners@.len() as int) =~= char_seqs(inners@));
    out
}

/// The trimmed content between the managed-region markers, if present.
pub open spec fn managed_spec(body: Seq<char>) -> Option<Seq<char>> {
    match find_seq(body, MANAGED_BEGIN@, 0) {
        None => None,
        Some(a) => {
            let start = a + MANAGED_BEGIN@.len();
            match find_seq(body.skip(start), MANAGED_END@, 0) {
                None => None,
                Some(m) => Some(trim(body.subrange(start, start + m))),
            }
        },
    }
}

fn extract_managed_chars(body: &[char]) -> (r: Option<Vec<char>>)
    ensures
        chars_opt(r) == managed_spec(body@),
{
    let begin = lit(MANAGED_BEGIN);
    let end = lit(MANAGED_END);
    let a = match find_seq_exec(body, &begin, 0) {
        Some(a) => a,
        None => return None,
    };
    assert(occurs_at(body@, begin@, a as int));
    assert(a + begin@.len() <= body@.len());
    let body_len = body.len();
    let begin_len = begin.len();
    assert(a + begin_len <= body_len);
    let start = a + begin.len();
    let rest = slice_range(body, start, body.len());
    assert(rest@ =~= body@.skip(start as int));
    let m = match find_seq_exec(&rest, &end, 0) {
        Some(m) => m,
        None => return None,
    };
    Some(trim_chars(&slice_range(body, start, start + m)))
}

/// Extract the content currently inside the noted-managed region, if present.
pub fn extract_managed(body: &str) -> (r: Option<String>)
    ensures
        string_opt(r) == managed_spec(body@),
{
    let b = chars_of(body);
    match extract_managed_chars(&b) {
        Some(v) => Some(string_from_chars(&v)),
        None => None,
    }
}

/// The position of the last `.` of `s`, or -1 where there is none.
pub open spec fn last_dot(s: Seq<char>) -> int
    decreases s.len(),
{
    if s.len() == 0 {
        -1
    } else if s.last() == '.' {
        s.len() - 1
    } else {
        last_dot(s.drop_last())
    }
}

/// The stem of a file name: the name before its last `.`, where that dot is
/// not the first character; otherwise the whole name.
pub open spec fn file_stem(name: Seq<char>) -> Seq<char> {
    if last_dot(name) > 0 {
        name.take(last_dot(name))
    } else {
        name
    }
}

/// Filename stem of a vault-relative path, lowercased: the stem of its last
/// path segment (so "people/brian-cho.md" gives "brian-cho").
pub open spec fn slug_from_path_spec(rel_path: Seq<char>) -> Seq<char> {
    lowercase_spec(file_stem(split_char(rel_path, '/').last()))
}

proof fn lemma_last_dot_bound(s: Seq<char>)
    ensures
        -1 <= last_dot(s) < s.len(),
        last_dot(s) >= 0 ==> s[last_dot(s)] == '.',
        forall|k: int| last_dot(s) < k < s.len() ==> s[k] != '.',
    decreases s.len(),
{
    if s.len() > 0 && s.last() != '.' {
        lemma_last_dot_bound(s.drop_last());
        assert forall|k: int| last_dot(s) < k < s.len() implies s[k] != '.' by {
            if k < s.len() - 1 {
                assert(s[k] == s.drop_last()[k]);
            }
        }
        if last_dot(s) >= 0 {
            assert(s[last_dot(s)] == s.drop_last()[last_dot(s)]);
        }
    }
}

fn file_stem_chars(name: &[char]) -> (r: Vec<char>)
    ensures
        r@ == file_stem(name@),
{
    proof {
        lemma_last_dot_bound(name@);
    }
    let mut i: usize = name.len();
    while i > 0 && name[i - 1] != '.'
        invariant
            i <= name@.len(),
            forall|k: int| i <= k < name@.len() ==> name@[k] != '.',
            last_dot(name@) < name@.len(),
        decreases i,
    {
        i = i - 1;
    }
    proof {
        lemma_last_dot_from_scan(name@, i as int);
    }
    if i > 1 {
        slice_range(name, 0, i - 1)
    } else {
        crate::text::copy_chars(name)
    }
}

/// Scanning back from the end to just past a dot (or to the start) finds
/// the last dot.
proof fn lemma_last_dot_from_scan(s: Seq<char>, i: int)
    requires
        0 <= i <= s.len(),
        forall|k: int| i <= k < s.len() ==> s[k] != '.',
        i > 0 ==> s[i - 1] == '.',
    ensures
        last_dot(s) == i - 1,
    decreases s.len(),
{
    if s.len() > 0 && i < s.len() {
        assert(s.last() == s[s.len() - 1]);
        let d = s.drop_last();
        assert forall|k: int| i <= k < d.len() implies d[k] != '.' by {
            assert(d[k] == s[k]);
        }
        if i > 0 {
            assert(d[i - 1] == s[i - 1]);
        }
        lemma_last_dot_from_scan(d, i);
    } else if s.len() > 0 {
        assert(s.last() == s[s.len() - 1]);
    }
}

/// The slug of a path whose last segment is `<name>.md` (with `<name>`
/// not empty) is `<name>`, lowercased.
pub proof fn lemma_slug_of_md_path(rel_path: Seq<char>)
    requires
        crate::text::ends_with(split_char(rel_path, '/').last(), ".md"@),
        split_char(rel_path, '/').last().len() > 3,
    ensures
        slug_from_path_spec(rel_path) == lowercase_spec(
            split_char(rel_path, '/').last().take(split_char(rel_path, '/').last().len() - 3),
        ),
{
    let last = split_char(rel_path, '/').last();
    reveal_strlit(".md");
    let n = last.len();
    assert(last.subrange(n - 3, n as int) == ".md"@);
    assert(last[n - 3] == '.') by {
        assert(last.subrange(n - 3, n as int)[0] == last[n - 3]);
    }
    assert(last[n - 2] != '.') by {
        assert(last.subrange(n - 3, n as int)[1] == last[n - 2]);
    }
    assert(last[n - 1] != '.') by {
        assert(last.subrange(n - 3, n as int)[2] == last[n - 1]);
    }
    lemma_last_dot_from_scan(last, n - 2);
}

proof fn lemma_split_last_after_separator(p: Seq<char>, t: Seq<char>, c: char)
    requires
        p.len() == 0 || p.last() == c,
        forall|k: int| 0 <= k < t.len() ==> t[k] != c,
    ensures
        split_char(p + t, c).last() == t,
    decreases t.len(),
{
    crate::text::lemma_split_char_nonempty(p + t, c);
    if t.len() == 0 {
        assert(p + t =~= p);
        if p.len() > 0 {
            crate::text::lemma_split_char_nonempty(p.drop_last(), c);
        }
    } else {
        lemma_split_last_after_separator(p, t.drop_last(), c);
        assert((p + t).drop_last() =~= p + t.drop_last());
        assert((p + t).last() == t.last());
        crate::text::lemma_split_char_nonempty(p + t.drop_last(), c);
        assert(t.drop_last().push(t.last()) =~= t);
    }
}

/// The slug of `<folders>/<name>.md`, where the folders part is empty or
/// ends with `/` and the non-empty `<name>` holds no `/`, is `<name>`
/// lowercased: "people/brian-cho.md" gives "brian-cho".
pub proof fn lemma_slug_of_note_path(folders: Seq<char>, name: Seq<char>)
    requires
        folders.len() == 0 || folders.last() == '/',
        name.len() > 0,
        forall|k: int| 0 <= k < name.len() ==> name[k] != '/',
    ensures
        slug_from_path_spec(folders + name + ".md"@) == lowercase_spec(name),
{
    reveal_strlit(".md");
    let t = name + ".md"@;
    assert(folders + name + ".md"@ =~= folders + t);
    assert forall|k: int| 0 <= k < t.len() implies t[k] != '/' by {
        if k >= name.len() {
            assert(t[k] == ".md"@[k - name.len()]);
        }
    }
    lemma_split_last_after_separator(folders, t, '/');
    assert(crate::text::ends_with(t, ".md"@)) by {
        assert(t.subrange(t.len() - 3, t.len() as int) =~= ".md"@);
    }
    lemma_slug_of_md_path(folders + t);
    assert(t.take(t.len() - 3) =~= name);
}

fn slug_from_path_chars(rel: &[char]) -> (r: Vec<char>)
    ensures
        r@ == slug_from_path_spec(rel@),
{
    let pieces = split_chars(rel, '/');
    proof {
        crate::text::lemma_split_char_nonempty(rel@, '/');
    }
    let last = &pieces[pieces.len() - 1];
    assert(last@ == split_char(rel@, '/').last());
    let stem = file_stem_chars(last);
    lowercase_chars(&stem)
}

/// Filename stem of a vault-relative path ("people/brian-cho.md" -> "brian-cho").
pub fn slug_from_path(rel_path: &str) -> (r: String)
    ensures
        r@ == slug_from_path_spec(rel_path@),
{
    let p = chars_of(rel_path);
    string_from_chars(&slug_from_path_chars(&p))
}

/// Hex SHA-256 of a text's UTF-8 bytes.
pub open spec fn content_hash_spec(raw: Seq<char>) -> Seq<char> {
    hex_lower(sha256_spec(utf8(raw)))
}

/// Hex sha256 of arbitrary content: the change-detection key.
pub fn content_hash(raw: &str) -> (r: String)
    ensures
        r@ == content_hash_spec(raw@),
{
    let d = sha256(raw.as_bytes());
    string_from_chars(&to_hex_lower(&d))
}

// ---------------------------------------------------------------------------
// Whole notes
// ---------------------------------------------------------------------------

/// `ws` without every occurrence of `x`.
pub open spec fn remove_all(ws: Seq<Seq<char>>, x: Seq<char>) -> Seq<Seq<char>>
    decreases ws.len(),
{
    if ws.len() == 0 {
        seq![]
    } else {
        let r = remove_all(ws.drop_last(), x);
        if ws.last() == x {
            r
        } else {
            r.push(ws.last())
        }
    }
}

pub open spec fn note_fm(raw: Seq<char>) -> Seq<(Seq<char>, FmValueSpec)> {
    fm_entries(split_frontmatter_spec(raw).0)
}

pub open spec fn note_body(raw: Seq<char>) -> Seq<char> {
    split_frontmatter_spec(raw).1
}

/// Frontmatter `name` (lowercased), else the file stem.
pub open spec fn note_slug(rel_path: Seq<char>, raw: Seq<char>) -> Seq<char> {
    match fm_string_spec(note_fm(raw), "name"@) {
        Some(n) => lowercase_spec(n),
        None => slug_from_path_spec(rel_path),
    }
}

pub open spec fn note_title(raw: Seq<char>) -> Option<Seq<char>> {
    fm_string_spec(note_fm(raw), "title"@)
}

/// A recognized frontmatter `type`, else the folder's type.
pub open spec fn note_type(rel_path: Seq<char>, raw: Seq<char>) -> Seq<char> {
    match fm_string_spec(note_fm(raw), "type"@) {
        Some(t) => match frontmatter_type(t) {
            Some(x) => x,
            None => folder_type(rel_path),
        },
        None => folder_type(rel_path),
    }
}

pub open spec fn note_display_name(rel_path: Seq<char>, raw: Seq<char>) -> Seq<char> {
    display_name_spec(note_title(raw), note_slug(rel_path, raw))
}

/// Frontmatter aliases, plus the full title when it differs from the display
/// name and is not already an alias.
pub open spec fn note_aliases(rel_path: Seq<char>, raw: Seq<char>) -> Seq<Seq<char>> {
    let a = fm_array_spec(note_fm(raw), "aliases"@);
    match note_title(raw) {
        Some(t) => if t != note_display_name(rel_path, raw) && !a.contains(t) {
            a.push(t)
        } else {
            a
        },
        None => a,
    }
}

/// The body's link slugs without the note's own slug: a note never
/// co-mentions itself.
pub open spec fn note_links(rel_path: Seq<char>, raw: Seq<char>) -> Seq<Seq<char>> {
    remove_all(wikilinks_spec(note_body(raw)), note_slug(rel_path, raw))
}

/// One of the five entity types of the taxonomy.
pub open spec fn is_entity_type(t: Seq<char>) -> bool {
    t == "person"@ || t == "project"@ || t == "decision"@ || t == "reference"@ || t == "doc"@
}

/// Every note is typed as one of the five entity types, whatever its path
/// and frontmatter.
pub proof fn lemma_note_type_is_an_entity_type(rel_path: Seq<char>, raw: Seq<char>)
    ensures
        is_entity_type(note_type(rel_path, raw)),
{
}

/// The links of a body are distinct, non-empty slugs, each the trimmed,
/// lowercased target of one of the body's `[[...]]` links.
pub proof fn lemma_wikilinks_are_distinct_slugs(inners: Seq<Seq<char>>)
    ensures
        forall|i: int, j: int|
            0 <= i < j < dedup_slugs(inners).len() ==> dedup_slugs(inners)[i] != dedup_slugs(
                inners,
            )[j],
        forall|i: int|
            0 <= i < dedup_slugs(inners).len() ==> (#[trigger] dedup_slugs(inners)[i]).len() > 0
                && exists|k: int|
                0 <= k < inners.len() && dedup_slugs(inners)[i] == link_slug(inners[k]),
    decreases inners.len(),
{
    if inners.len() > 0 {
        let prev = inners.drop_last();
        lemma_wikilinks_are_distinct_slugs(prev);
        let r = dedup_slugs(prev);
        let s = link_slug(inners.last());
        assert forall|i: int| 0 <= i < r.len() implies exists|k: int|
            0 <= k < inners.len() && #[trigger] r[i] == link_slug(inners[k]) by {
            let k = choose|k: int| 0 <= k < prev.len() && r[i] == link_slug(prev[k]);
            assert(inners[k] == prev[k]);
        }
        if !(s.len() == 0 || r.contains(s)) {
            let out = r.push(s);
            assert(out[r.len() as int] == link_slug(inners[inners.len() - 1]));
            assert forall|i: int, j: int| 0 <= i < j < out.len() implies out[i] != out[j] by {
                if j == r.len() {
                    assert(out[i] == r[i]);
                    if r[i] == s {
                        assert(r.contains(s));
                    }
                }
            }
        }
    }
}

/// `updated`, else `created`.
pub open spec fn note_event_date(raw: Seq<char>) -> Option<Seq<char>> {
    match fm_string_spec(note_fm(raw), "updated"@) {
        Some(d) => Some(d),
        None => fm_string_spec(note_fm(raw), "created"@),
    }
}

/// Every field of a parsed note as the specification functions give it.
pub open spec fn parsed_note_matches(
    n: ParsedNote,
    vault: Seq<char>,
    rel_path: Seq<char>,
    raw: Seq<char>,
) -> bool {
    &&& n.vault@ == vault
    &&& n.rel_path@ == rel_path
    &&& n.slug@ == note_slug(rel_path, raw)
    &&& n.display_name@ == note_display_name(rel_path, raw)
    &&& n.etype@ == note_type(rel_path, raw)
    &&& string_opt(n.status) == fm_string_spec(note_fm(raw), "status"@)
    &&& string_opt(n.event_date) == note_event_date(raw)
    &&& string_seqs(n.tags@) == fm_array_spec(note_fm(raw), "tags"@)
    &&& string_seqs(n.aliases@) == note_aliases(rel_path, raw)
    &&& string_seqs(n.wikilinks@) == note_links(rel_path, raw)
    &&& string_opt(n.managed) == managed_spec(note_body(raw))
    &&& n.hash@ == content_hash_spec(raw)
}

proof fn lemma_remove_all_drops(ws: Seq<Seq<char>>, x: Seq<char>)
    ensures
        !remove_all(ws, x).contains(x),
    decreases ws.len(),
{
    if ws.len() > 0 {
        lemma_remove_all_drops(ws.drop_last(), x);
        let r = remove_all(ws.drop_last(), x);
        if ws.last() != x {
            assert forall|k: int| 0 <= k < r.push(ws.last()).len() implies r.push(ws.last())[k]
                != x by {
                if k < r.len() {
                    assert(r.push(ws.last())[k] == r[k]);
                }
            }
        }
    }
}

/// What parsing a note gives: the vault, path and content hash it was given
/// and computed, one of the five entity types, and the body's distinct links
/// in order with the note's own slug taken out, so that a note never links
/// to itself; its managed block is the body's.
pub proof fn lemma_parsed_note_law(n: ParsedNote, vault: Seq<char>, rel_path: Seq<char>, raw: Seq<char>)
    requires
        parsed_note_matches(n, vault, rel_path, raw),
    ensures
        n.vault@ == vault,
        n.rel_path@ == rel_path,
        n.hash@ == content_hash_spec(raw),
        is_entity_type(n.etype@),
        string_seqs(n.wikilinks@) == remove_all(wikilinks_spec(note_body(raw)), n.slug@),
        !string_seqs(n.wikilinks@).contains(n.slug@),
        string_opt(n.managed) == managed_spec(note_body(raw)),
{
    lemma_note_type_is_an_entity_type(rel_path, raw);
    lemma_remove_all_drops(wikilinks_spec(note_body(raw)), n.slug@);
}

/// A parsed note's event date is its frontmatter's `updated` string where it
/// has one; only a note without one falls back to `created`.
pub proof fn lemma_event_date_prefers_updated(
    n: ParsedNote,
    vault: Seq<char>,
    rel_path: Seq<char>,
    raw: Seq<char>,
)
    requires
        parsed_note_matches(n, vault, rel_path, raw),
    ensures
        fm_string_spec(note_fm(raw), "updated"@) is Some ==> string_opt(n.event_date)
            == fm_string_spec(note_fm(raw), "updated"@),
        fm_string_spec(note_fm(raw), "updated"@) is None ==> string_opt(n.event_date)
            == fm_string_spec(note_fm(raw), "created"@),
{
}

/// The frontmatter decides a parsed note's identity: a `name` gives its slug
/// (lowercased) and only a note without one takes the file's slug; a
/// recognised `type` wins over the folder's; the display name comes from the
/// `title` and the slug; the aliases start with the frontmatter's, and a
/// title that differs from the display name is always among them.
pub proof fn lemma_frontmatter_decides_identity(
    n: ParsedNote,
    vault: Seq<char>,
    rel_path: Seq<char>,
    raw: Seq<char>,
)
    requires
        parsed_note_matches(n, vault, rel_path, raw),
    ensures
        fm_string_spec(note_fm(raw), "name"@) is Some ==> n.slug@ == lowercase_spec(
            fm_string_spec(note_fm(raw), "name"@)->0,
        ),
        fm_string_spec(note_fm(raw), "name"@) is None ==> n.slug@ == slug_from_path_spec(rel_path),
        (fm_string_spec(note_fm(raw), "type"@) matches Some(t) && frontmatter_type(t) is Some)
            ==> n.etype@ == frontmatter_type(fm_string_spec(note_fm(raw), "type"@)->0)->0,
        !(fm_string_spec(note_fm(raw), "type"@) matches Some(t) && frontmatter_type(t) is Some)
            ==> n.etype@ == folder_type(rel_path),
        n.display_name@ == display_name_spec(fm_string_spec(note_fm(raw), "title"@), n.slug@),
        fm_array_spec(note_fm(raw), "aliases"@).is_prefix_of(string_seqs(n.aliases@)),
        fm_string_spec(note_fm(raw), "title"@) is Some && fm_string_spec(note_fm(raw), "title"@)->0
            != n.display_name@ ==> string_seqs(n.aliases@).contains(
            fm_string_spec(note_fm(raw), "title"@)->0,
        ),
{
    let a = fm_array_spec(note_fm(raw), "aliases"@);
    assert(a.is_prefix_of(a));
    if let Some(t) = note_title(raw) {
        if t != note_display_name(rel_path, raw) && !a.contains(t) {
            assert(a.is_prefix_of(a.push(t)));
            assert(a.push(t)[a.len() as int] == t);
        }
    }
}

fn opt_string(o: Option<Vec<char>>) -> (r: Option<String>)
    ensures
        string_opt(r) == chars_opt(o),
{
    match o {
        Some(v) => Some(string_from_chars(&v)),
        None => None,
    }
}

/// Parse one brain file into a `ParsedNote`. `rel_path` is vault-relative.
pub fn parse_note(vault: &str, rel_path: &str, raw: &str) -> (r: ParsedNote)
    ensures
        parsed_note_matches(r, vault@, rel_path@, raw@),
{
    let raw_c = chars_of(raw);
    let rel = chars_of(rel_path);
    let (fm_raw, body) = split_frontmatter(&raw_c);
    let fm = parse_frontmatter(&fm_raw);
    let slug = match fm_string(&fm, "name") {
        Some(n) => lowercase_chars(&n),
        None => slug_from_path_chars(&rel),
    };
    let title = fm_string(&fm, "title");
    let etype: &str = match fm_string(&fm, "type") {
        Some(t) => match type_from_frontmatter(&t) {
            Some(x) => x,
            None => folder_to_type(rel_path),
        },
        None => folder_to_type(rel_path),
    };
    let links = extract_wikilinks_chars(&body);
    let mut wikilinks: Vec<Vec<char>> = Vec::new();
    let mut i: usize = 0;
    while i < links.len()
        invariant
            i <= links@.len(),
            char_seqs(wikilinks@) == remove_all(char_seqs(links@).take(i as int), slug@),
        decreases links@.len() - i,
    {
        assert(char_seqs(links@).take(i + 1).drop_last() =~= char_seqs(links@).take(i as int));
        assert(char_seqs(links@).take(i + 1).last() == links@[i as int]@);
        if !chars_eq(&links[i], &slug) {
            let c = copy_chars(&links[i]);
            let ghost before = char_seqs(wikilinks@);
            wikilinks.push(c);
            assert(char_seqs(wikilinks@) =~= before.push(links@[i as int]@));
        }
        i = i + 1;
    }
    assert(char_seqs(links@).take(links@.len() as int) =~= char_seqs(links@));
    let mut aliases = fm_array(&fm, "aliases");
    let title_ref = title.as_ref();
    let dn = display_name(title_ref, &slug);
    assert(chars_opt(title) == match title_ref {
        Some(t) => Some(t@),
        None => None,
    });
    match &title {
        Some(t) => {
            if !chars_eq(t, &dn) && !contains_chars_seq(&aliases, t) {
                let c = copy_chars(t);
                let ghost before = char_seqs(aliases@);
                aliases.push(c);
                assert(char_seqs(aliases@) =~= before.push(t@));
            }
        },
        None => {},
    }
    let status = fm_string(&fm, "status");
    let event_date = match fm_string(&fm, "updated") {
        Some(d) => Some(d),
        None => fm_string(&fm, "created"),
    };
    let tags = fm_array(&fm, "tags");
    let managed = extract_managed_chars(&body);
    ParsedNote {
        vault: vault.to_owned(),
        rel_path: rel_path.to_owned(),
        slug: string_from_chars(&slug),
        display_name: string_from_chars(&dn),
        etype: etype.to_owned(),
        status: opt_string(status),
        event_date: opt_string(event_date),
        tags: to_strings(&tags),
        aliases: to_strings(&aliases),
        wikilinks: to_strings(&wikilinks),
        managed: opt_string(managed),
        hash: content_hash(raw),
    }
}

} // verus!
