//! The rows the note store hands to the app, and the rules it applies while
//! filing notes: which folder names imply a semantic rule, which notes are a
//! daily standup, which filing contexts exist, and how moving a folder
//! reorders its siblings.
use vstd::prelude::*;
use crate::text::{
    char_seqs, chars_of, contains_chars, contains_seq, lowercase_chars, lowercase_spec, str_eq,
    string_from_chars, string_seqs, trim, trim_chars,
};

use crate::brain::{join, join_words};
use crate::context_pass::os_random_bytes;
use crate::digest::{hex_digit, hex_lower, to_hex_lower};
use crate::models::{is_dash_position, is_lower_hex, is_uuid_v7};

verus! {

#[derive(Debug, Clone)]
pub struct DeletedNote {
    pub image_path: Option<String>,
}

#[derive(Debug, Clone, PartialEq, Eq)]
pub struct NoteFolderItemInfo {
    pub note_id: i64,
    pub filing_context: Option<String>,
    pub source: String,
    pub reason: String,
    pub event_id: Option<i64>,
}

#[derive(Debug, Clone)]
pub struct NoteFolderInfo {
    pub id: i64,
    pub parent_id: Option<i64>,
    pub name: String,
    pub kind: String,
    pub auto_rule: String,
    pub note_ids: Vec<i64>,
    pub explicit_filings: Vec<NoteFolderItemInfo>,
}

#[derive(Debug, Clone, PartialEq, Eq)]
pub struct NoteFilingReceipt {
    pub event_id: i64,
    pub note_id: i64,
    pub folder_id: Option<i64>,
    pub previous_folder_id: Option<i64>,
    pub filing_context: Option<String>,
    pub previous_context: Option<String>,
    pub source: String,
    pub reason: String,
}

#[derive(Debug, Clone)]
pub struct RecapRow {
    pub id: i64,
    pub period: String,
    pub period_start: String,
    pub period_end: String,
    pub content: String,
    pub entry_count: i64,
    pub created_at: String,
}

#[derive(Debug, Clone)]
pub struct PendingCapture {
    pub id: i64,
    pub raw_text: String,
    pub source: String,
    pub image_path: Option<String>,
    pub event_date: Option<String>,
    pub filing_context: Option<String>,
}

/// An entity of the knowledge graph; `entity_type` is its type label.
#[derive(Debug, Clone)]
pub struct EntityRow {
    pub id: i64,
    pub name: String,
    pub entity_type: String,
    pub mention_count: i64,
    pub last_seen: Option<String>,
    pub suggested_name: Option<String>,
}

#[derive(Debug, Clone, Copy, PartialEq, Eq, Structural)]
pub struct GraphEdge {
    pub source: i64,
    pub target: i64,
    pub weight: i64,
}

#[derive(Debug, Clone)]
pub struct EntityMentionRow {
    pub note_id: i64,
    pub event_date: String,
    pub snippet: String,
}

#[derive(Debug, Clone)]
pub struct PersonMention {
    pub date: String,
    pub text: String,
    pub note_id: i64,
}

#[derive(Debug, Clone)]
pub struct PersonProfile {
    pub id: i64,
    pub name: String,
    pub relationship: Option<String>,
    pub mention_count: i64,
    pub first_seen: Option<String>,
    pub last_seen: Option<String>,
    pub aliases: Vec<String>,
    pub suggested_name: Option<String>,
    pub mentions: Vec<PersonMention>,
}

#[derive(Debug, Clone)]
pub struct EntityProfile {
    pub id: i64,
    pub name: String,
    pub entity_type: String,
    pub relationship: Option<String>,
    pub mention_count: i64,
    pub first_seen: Option<String>,
    pub last_seen: Option<String>,
    pub aliases: Vec<String>,
    pub mentions: Vec<PersonMention>,
}

#[derive(Debug, Clone)]
pub struct BrainVaultStatus {
    pub vault: String,
    pub root_path: String,
    pub direction: String,
    pub last_git_sha: Option<String>,
    pub last_synced_at: Option<String>,
    pub enabled: bool,
    /// Brain notes mirrored from this vault.
    pub note_count: i64,
    /// Distinct entities mentioned by this vault's notes.
    pub entity_count: i64,
}

/// An entity of the work graph with the vault that defines it ("" when the
/// entity has no brain home).
#[derive(Debug, Clone)]
pub struct WorkNode {
    pub id: i64,
    pub name: String,
    pub entity_type: String,
    pub mention_count: i64,
    pub vault: String,
}

/// A brain note that write-back would touch: its defining entity has at
/// least one capture mention, mirrored into the note's managed region.
#[derive(Debug, Clone)]
pub struct WriteTarget {
    pub entity_id: i64,
    pub entity_name: String,
    pub home_note_id: i64,
    /// Vault-relative path of the home note.
    pub source_path: String,
    /// "brain:<vault>".
    pub origin: String,
    /// (event_date, fact or snippet), newest first.
    pub captures: Vec<(String, String)>,
}

/// A capture-derived person to export into the personal vault.
#[derive(Debug, Clone)]
pub struct PersonExport {
    pub id: i64,
    pub name: String,
    pub relationship: Option<String>,
    /// (event_date, fact or snippet), newest first.
    pub mentions: Vec<(String, String)>,
}

// ---------------------------------------------------------------------------
// Folder rules
// ---------------------------------------------------------------------------

pub open spec fn dashes_to_spaces(s: Seq<char>) -> Seq<char> {
    s.map_values(|c: char| if c == '-' || c == '_' { ' ' } else { c })
}

fn dashes_to_spaces_exec(s: &[char]) -> (r: Vec<char>)
    ensures
        r@ == dashes_to_spaces(s@),
{
    let mut out: Vec<char> = Vec::new();
    let mut i: usize = 0;
    while i < s.len()
        invariant
            i <= s@.len(),
            out@ == dashes_to_spaces(s@).take(i as int),
        decreases s@.len() - i,
    {
        let c = s[i];
        out.push(
            if c == '-' || c == '_' {
                ' '
            } else {
                c
            },
        );
        i = i + 1;
        assert(out@ =~= dashes_to_spaces(s@).take(i as int));
    }
    assert(dashes_to_spaces(s@).take(s@.len() as int) =~= dashes_to_spaces(s@));
    out
}

/// The semantic rule a folder name implies, "" when none.
pub open spec fn folder_rule_for(name: Seq<char>) -> Seq<char> {
    let n = dashes_to_spaces(lowercase_spec(trim(name)));
    if n == "one on ones"@ || n == "one on one"@ || n == "1:1s"@ || n == "1:1"@ {
        "one_on_one"@
    } else if n == "partner meetings"@ || n == "partner meeting"@ || n == "partners"@ {
        "external_partner"@
    } else {
        ""@
    }
}

fn chars_are(v: &[char], s: &str) -> (r: bool)
    ensures
        r == (v@ == s@),
{
    let c = chars_of(s);
    crate::text::chars_eq(v, &c)
}

/// Infers a folder's semantic rule from its name: one-on-one folders and
/// partner folders are recognised whatever their case, spacing or dashes.
pub fn inferred_folder_rule(name: &str) -> (r: &'static str)
    ensures
        r@ == folder_rule_for(name@),
{
    let c = chars_of(name);
    let t = trim_chars(&c);
    let lower = lowercase_chars(&t);
    let n = dashes_to_spaces_exec(&lower);
    if chars_are(&n, "one on ones") || chars_are(&n, "one on one") || chars_are(&n, "1:1s")
        || chars_are(&n, "1:1") {
        "one_on_one"
    } else if chars_are(&n, "partner meetings") || chars_are(&n, "partner meeting") || chars_are(
        &n,
        "partners",
    ) {
        "external_partner"
    } else {
        ""
    }
}

/// Whether one text mentions a standup.
pub open spec fn mentions_standup(v: Seq<char>) -> bool {
    let lower = lowercase_spec(v);
    let spaced = dashes_to_spaces(lower);
    contains_seq(lower, "standup"@) || contains_seq(lower, "stand-up"@) || contains_seq(
        spaced,
        "daily stand up"@,
    ) || contains_seq(spaced, "stand up meeting"@) || contains_seq(spaced, "daily scrum"@)
}

fn mentions_standup_exec(v: &str) -> (r: bool)
    ensures
        r == mentions_standup(v@),
{
    let c = chars_of(v);
    let lower = lowercase_chars(&c);
    let spaced = dashes_to_spaces_exec(&lower);
    contains_chars(&lower, &chars_of("standup")) || contains_chars(&lower, &chars_of("stand-up"))
        || contains_chars(&spaced, &chars_of("daily stand up")) || contains_chars(
        &spaced,
        &chars_of("stand up meeting"),
    ) || contains_chars(&spaced, &chars_of("daily scrum"))
}

/// The code point of a character with ASCII capitals lowered.
pub open spec fn ascii_lower(c: char) -> u32 {
    if 'A' <= c && c <= 'Z' {
        ((c as u32) + 32) as u32
    } else {
        c as u32
    }
}

/// ASCII case-insensitive equality (`str::eq_ignore_ascii_case`).
pub open spec fn eq_ignore_ascii_case(a: Seq<char>, b: Seq<char>) -> bool {
    a.len() == b.len() && forall|i: int| 0 <= i < a.len() ==> ascii_lower(a[i]) == ascii_lower(
        #[trigger] b[i],
    )
}

fn ascii_lower_exec(c: char) -> (r: u32)
    ensures
        r == ascii_lower(c),
{
    if 'A' <= c && c <= 'Z' {
        c as u32 + 32
    } else {
        c as u32
    }
}

fn eq_ignore_ascii_case_exec(a: &[char], b: &[char]) -> (r: bool)
    ensures
        r == eq_ignore_ascii_case(a@, b@),
{
    if a.len() != b.len() {
        return false;
    }
    let mut i: usize = 0;
    while i < a.len()
        invariant
            a@.len() == b@.len(),
            i <= a@.len(),
            forall|k: int| 0 <= k < i ==> ascii_lower(a@[k]) == ascii_lower(#[trigger] b@[k]),
        decreases a@.len() - i,
    {
        if ascii_lower_exec(a[i]) != ascii_lower_exec(b[i]) {
            return false;
        }
        i = i + 1;
    }
    true
}

pub open spec fn is_schedule_category(c: Seq<char>) -> bool {
    eq_ignore_ascii_case(trim(c), "schedule"@)
}

/// A daily standup note: never one filed under a schedule category, and
/// otherwise one whose text or any category mentions a standup.
pub open spec fn daily_standup(raw_text: Seq<char>, categories: Seq<Seq<char>>) -> bool {
    &&& !(exists|i: int| 0 <= i < categories.len() && is_schedule_category(#[trigger] categories[i]))
    &&& (mentions_standup(raw_text) || exists|i: int|
        0 <= i < categories.len() && mentions_standup(#[trigger] categories[i]))
}

/// Whether a note with this text and these entry categories is a daily
/// standup.
pub fn matches_daily_standup(raw_text: &str, categories: &[String]) -> (r: bool)
    ensures
        r == daily_standup(raw_text@, categories@.map_values(|s: String| s@)),
{
    let ghost cats = categories@.map_values(|s: String| s@);
    let schedule = chars_of("schedule");
    let mut i: usize = 0;
    while i < categories.len()
        invariant
            i <= categories@.len(),
            cats == categories@.map_values(|s: String| s@),
            schedule@ == "schedule"@,
            forall|k: int| 0 <= k < i ==> !is_schedule_category(#[trigger] cats[k]),
        decreases categories@.len() - i,
    {
        let c = chars_of(&categories[i]);
        let t = trim_chars(&c);
        if eq_ignore_ascii_case_exec(&t, &schedule) {
            assert(is_schedule_category(cats[i as int]));
            return false;
        }
        i = i + 1;
    }
    if mentions_standup_exec(raw_text) {
        return true;
    }
    let mut j: usize = 0;
    while j < categories.len()
        invariant
            j <= categories@.len(),
            cats == categories@.map_values(|s: String| s@),
            forall|k: int| 0 <= k < categories@.len() ==> !is_schedule_category(#[trigger] cats[k]),
            forall|k: int| 0 <= k < j ==> !mentions_standup(#[trigger] cats[k]),
        decreases categories@.len() - j,
    {
        if mentions_standup_exec(&categories[j]) {
            assert(mentions_standup(cats[j as int]));
            return true;
        }
        j = j + 1;
    }
    false
}

/// The filing contexts a note can be filed under.
pub open spec fn filing_context_of(value: Seq<char>) -> Option<Seq<char>> {
    let c = lowercase_spec(trim(value));
    if c == "work"@ || c == "personal"@ {
        Some(c)
    } else {
        None
    }
}

/// "work" or "personal", whatever the case and surrounding space.
pub fn normalized_filing_context(value: &str) -> (r: Result<String, String>)
    ensures
        match filing_context_of(value@) {
            Some(c) => r matches Ok(s) && s@ == c,
            None => r matches Err(e) && e@ == "filing context must be work or personal"@,
        },
{
    let c = chars_of(value);
    let t = trim_chars(&c);
    let lower = lowercase_chars(&t);
    if chars_are(&lower, "work") || chars_are(&lower, "personal") {
        Ok(string_from_chars(&lower))
    } else {
        let msg = chars_of("filing context must be work or personal");
        Err(string_from_chars(&msg))
    }
}

// ---------------------------------------------------------------------------
// Folder ordering
// ---------------------------------------------------------------------------

/// `ids` without `id`, the others in their order.
pub open spec fn without(ids: Seq<i64>, id: i64) -> Seq<i64> {
    ids.filter(|x: i64| x != id)
}

fn without_exec(ids: &[i64], id: i64) -> (r: Vec<i64>)
    ensures
        r@ == without(ids@, id),
{
    let mut out: Vec<i64> = Vec::new();
    let mut i: usize = 0;
    while i < ids.len()
        invariant
            i <= ids@.len(),
            out@ == without(ids@.take(i as int), id),
        decreases ids@.len() - i,
    {
        proof {
            reveal(Seq::filter);
            assert(ids@.take(i + 1).drop_last() =~= ids@.take(i as int));
        }
        if ids[i] != id {
            out.push(ids[i]);
        }
        i = i + 1;
    }
    assert(ids@.take(ids@.len() as int) =~= ids@);
    out
}

/// The new order of a folder's destination siblings: the moved folder is
/// taken out and put back just before `before_id`, or last. The other
/// siblings keep their order.
pub fn reorder_siblings(destination: &[i64], folder_id: i64, before_id: Option<i64>) -> (r: Result<
    Vec<i64>,
    String,
>)
    ensures
        match before_id {
            None => r matches Ok(v) && v@ == without(destination@, folder_id).push(folder_id),
            Some(b) => {
                &&& !without(destination@, folder_id).contains(b) ==> r is Err
                &&& without(destination@, folder_id).contains(b) ==> (r matches Ok(v) && exists|p: int|
                    0 <= p < without(destination@, folder_id).len() && without(
                        destination@,
                        folder_id,
                    )[p] == b && (forall|q: int| 0 <= q < p ==> #[trigger] without(destination@, folder_id)[q] != b)
                        && v@ == without(destination@, folder_id).take(p).push(folder_id) + without(
                        destination@,
                        folder_id,
                    ).skip(p))
            },
        },
{
    let rest = without_exec(destination, folder_id);
    let at = match before_id {
        None => rest.len(),
        Some(b) => {
            let mut p: usize = 0;
            while p < rest.len() && rest[p] != b
                invariant
                    p <= rest@.len(),
                    forall|q: int| 0 <= q < p ==> rest@[q] != b,
                decreases rest@.len() - p,
            {
                p = p + 1;
            }
            if p == rest.len() {
                let msg = chars_of("destination sibling not found");
                return Err(string_from_chars(&msg));
            }
            p
        },
    };
    let mut out: Vec<i64> = Vec::new();
    let mut i: usize = 0;
    while i < at
        invariant
            i <= at <= rest@.len(),
            out@ == rest@.take(i as int),
        decreases at - i,
    {
        out.push(rest[i]);
        i = i + 1;
        assert(out@ =~= rest@.take(i as int));
    }
    out.push(folder_id);
    let ghost head = out@;
    let mut j: usize = at;
    while j < rest.len()
        invariant
            at <= j <= rest@.len(),
            out@ == head + rest@.subrange(at as int, j as int),
        decreases rest@.len() - j,
    {
        out.push(rest[j]);
        j = j + 1;
        assert(out@ =~= head + rest@.subrange(at as int, j as int));
    }
    assert(rest@.subrange(at as int, rest@.len() as int) =~= rest@.skip(at as int));
    proof {
        if before_id is None {
            assert(rest@.take(rest@.len() as int) =~= rest@);
            assert(rest@.skip(rest@.len() as int) =~= Seq::<i64>::empty());
            assert(out@ =~= rest@.push(folder_id));
        }
    }
    Ok(out)
}

/// A sibling list after a folder moved out of it.
pub fn remove_sibling(source: &[i64], folder_id: i64) -> (r: Vec<i64>)
    ensures
        r@ == without(source@, folder_id),
{
    without_exec(source, folder_id)
}

// ---------------------------------------------------------------------------
// Moving folders
// ---------------------------------------------------------------------------

/// What the store reports while a folder move is checked: the moved row's
/// kind, whether the destination parent exists, whether it lies inside the
/// moved folder, the filing contexts of both ends, and the parent of the
/// sibling to insert before (`None` when there is no such folder).
#[derive(Debug, Clone)]
pub struct FolderMoveFacts {
    pub kind: String,
    pub parent_exists: bool,
    pub creates_cycle: bool,
    pub source_context: String,
    pub destination_context: String,
    pub before_parent: Option<Option<i64>>,
}

pub open spec fn opt_text(o: Option<String>) -> Option<Seq<char>> {
    match o {
        Some(s) => Some(s@),
        None => None,
    }
}

/// Why a folder move is refused, in the order the checks are made.
pub open spec fn folder_move_refusal(
    folder_id: i64,
    parent_id: Option<i64>,
    before_id: Option<i64>,
    f: FolderMoveFacts,
) -> Option<Seq<char>> {
    if f.kind@ != "folder"@ {
        Some("only folders can be moved"@)
    } else if parent_id is Some && !f.parent_exists {
        Some("destination folder not found"@)
    } else if parent_id is Some && f.creates_cycle {
        Some("a folder cannot be moved inside itself"@)
    } else if parent_id is None {
        Some("folders must remain inside the Work or Personal context"@)
    } else if f.source_context@ != f.destination_context@ {
        Some("folders cannot move between Work and Personal"@)
    } else {
        match before_id {
            None => None,
            Some(b) => if b == folder_id {
                Some("a folder cannot be placed before itself"@)
            } else {
                match f.before_parent {
                    None => Some("destination sibling not found"@),
                    Some(p) => if p != parent_id {
                        Some("destination sibling has a different parent"@)
                    } else {
                        None
                    },
                }
            },
        }
    }
}

fn opt_str_eq(a: &Option<String>, b: &Option<String>) -> (r: bool)
    ensures
        r == (opt_text(*a) == opt_text(*b)),
{
    match (a, b) {
        (Some(x), Some(y)) => str_eq(x, y),
        (None, None) => true,
        _ => false,
    }
}

fn message(s: &str) -> (r: String)
    ensures
        r@ == s@,
{
    string_from_chars(&chars_of(s))
}

/// Checks a folder move: only folders move, into an existing folder that is
/// not inside the moved one, within the same filing context, and before a
/// sibling of that destination. Returns the destination parent.
pub fn check_folder_move(
    folder_id: i64,
    parent_id: Option<i64>,
    before_id: Option<i64>,
    facts: &FolderMoveFacts,
) -> (r: Result<i64, String>)
    ensures
        match folder_move_refusal(folder_id, parent_id, before_id, *facts) {
            Some(reason) => r matches Err(e) && e@ == reason,
            None => r matches Ok(p) && parent_id == Some(p),
        },
{
    if !str_eq(&facts.kind, "folder") {
        return Err(message("only folders can be moved"));
    }
    if parent_id.is_some() {
        if !facts.parent_exists {
            return Err(message("destination folder not found"));
        }
        if facts.creates_cycle {
            return Err(message("a folder cannot be moved inside itself"));
        }
    }
    let destination = match parent_id {
        None => return Err(message("folders must remain inside the Work or Personal context")),
        Some(p) => p,
    };
    if !str_eq(&facts.source_context, &facts.destination_context) {
        return Err(message("folders cannot move between Work and Personal"));
    }
    if let Some(before) = before_id {
        if before == folder_id {
            return Err(message("a folder cannot be placed before itself"));
        }
        match facts.before_parent {
            None => return Err(message("destination sibling not found")),
            Some(p) => {
                if p != parent_id {
                    return Err(message("destination sibling has a different parent"));
                }
            },
        }
    }
    Ok(destination)
}

// ---------------------------------------------------------------------------
// Filing history
// ---------------------------------------------------------------------------

/// The sources a filing event may record.
pub open spec fn filing_source_ok(source: Seq<char>) -> bool {
    source == "context"@ || source == "rule"@ || source == "manual"@ || source == "undo"@
}

/// Whether `source` is one of the filing sources.
pub fn is_filing_source(source: &str) -> (r: bool)
    ensures
        r == filing_source_ok(source@),
{
    str_eq(source, "context") || str_eq(source, "rule") || str_eq(source, "manual") || str_eq(
        source,
        "undo",
    )
}

/// How a meeting linked to a note is routed after the note's filing
/// changes: by the source of the new filing, an undo being manual when it
/// restores a folder and waiting for filing when it does not.
pub open spec fn meeting_route_spec(source: Seq<char>, has_folder: bool) -> (Seq<char>, Seq<char>) {
    if source == "rule"@ {
        ("filing_rule"@, "matched"@)
    } else if source == "context"@ {
        ("context_inbox"@, "needs_filing"@)
    } else if source == "manual"@ {
        ("manual"@, "manual"@)
    } else if has_folder {
        ("undo"@, "manual"@)
    } else {
        ("undo"@, "needs_filing"@)
    }
}

/// The route (`route_via`, `route_status`) a linked meeting takes after its
/// note is filed from `source`.
pub fn meeting_route(source: &str, has_folder: bool) -> (r: (&'static str, &'static str))
    ensures
        (r.0@, r.1@) == meeting_route_spec(source@, has_folder),
{
    if str_eq(source, "rule") {
        ("filing_rule", "matched")
    } else if str_eq(source, "context") {
        ("context_inbox", "needs_filing")
    } else if str_eq(source, "manual") {
        ("manual", "manual")
    } else if has_folder {
        ("undo", "manual")
    } else {
        ("undo", "needs_filing")
    }
}

/// How filing routes a linked meeting: a filing rule marks it matched, a
/// filing by hand marks it manual, and only a context filing, or an undo to
/// no folder, leaves it needing filing.
pub proof fn lemma_meeting_route_law(source: Seq<char>, has_folder: bool)
    ensures
        source == "rule"@ ==> meeting_route_spec(source, has_folder) == ("filing_rule"@, "matched"@),
        source == "manual"@ ==> meeting_route_spec(source, has_folder) == ("manual"@, "manual"@),
        source == "context"@ ==> meeting_route_spec(source, has_folder) == (
            "context_inbox"@,
            "needs_filing"@,
        ),
        meeting_route_spec(source, has_folder).1 == "needs_filing"@ <==> (source == "context"@ || (
        source != "rule"@ && source != "manual"@ && !has_folder)),
        source != "rule"@ && source != "context"@ && source != "manual"@ ==> meeting_route_spec(
            source,
            has_folder,
        ) == (if has_folder {
            ("undo"@, "manual"@)
        } else {
            ("undo"@, "needs_filing"@)
        }),
{
    reveal_strlit("rule");
    reveal_strlit("context");
    reveal_strlit("manual");
    reveal_strlit("matched");
    reveal_strlit("needs_filing");
    assert("rule"@.len() == 4);
    assert("context"@.len() == 7);
    assert("manual"@.len() == 6);
    assert("matched"@.len() == 7);
    assert("needs_filing"@.len() == 12);
}

/// A recorded filing event, as read back for an undo.
#[derive(Debug, Clone)]
pub struct FilingEventFacts {
    pub note_id: i64,
    pub from_folder_id: Option<i64>,
    pub to_folder_id: Option<i64>,
    pub from_path: Option<String>,
    pub from_context: Option<String>,
    pub to_context: Option<String>,
    pub reason: String,
    pub from_event_id: Option<i64>,
}

/// Where a note is filed now.
#[derive(Debug, Clone)]
pub struct CurrentFiling {
    pub folder_id: Option<i64>,
    pub event_id: Option<i64>,
    pub path: Option<String>,
    pub context: Option<String>,
}

/// The filing an undo restores, with the reason it records.
#[derive(Debug, Clone)]
pub struct UndoPlan {
    pub folder_id: Option<i64>,
    pub reason: String,
    pub context: Option<String>,
}

/// Why undoing a filing event is refused.
pub open spec fn undo_refusal(
    event_id: i64,
    e: FilingEventFacts,
    note_is_trashed: bool,
    current: Option<CurrentFiling>,
    from_folder_exists: bool,
) -> Option<Seq<char>> {
    if note_is_trashed {
        Some("restore the note before changing its filing"@)
    } else if match current {
        None => true,
        Some(c) => c.event_id != Some(event_id) || c.folder_id != e.to_folder_id || opt_text(
            c.context,
        ) != opt_text(e.to_context),
    } {
        Some("filing changed since this action"@)
    } else if e.from_folder_id is None && e.from_path is Some {
        Some("the previous folder no longer exists"@)
    } else if e.from_folder_id is Some && !from_folder_exists {
        Some("the previous folder no longer exists"@)
    } else {
        None
    }
}

/// The reason an undo records.
pub open spec fn undo_reason(e: FilingEventFacts) -> Seq<char> {
    let label = match e.from_path {
        Some(p) => p@,
        None => "Unfiled"@,
    };
    "Restored "@ + label + " by undoing: "@ + e.reason@
}

/// Decides an undo: only the note's current filing can be undone, never on a
/// trashed note, and only while its previous folder still exists. The plan
/// files the note back where the event took it from.
pub fn decide_undo_filing(
    event_id: i64,
    event: &FilingEventFacts,
    note_is_trashed: bool,
    current: &Option<CurrentFiling>,
    from_folder_exists: bool,
) -> (r: Result<UndoPlan, String>)
    ensures
        match undo_refusal(event_id, *event, note_is_trashed, *current, from_folder_exists) {
            Some(reason) => r matches Err(e) && e@ == reason,
            None => r matches Ok(plan) && plan.folder_id == event.from_folder_id && plan.reason@
                == undo_reason(*event) && opt_text(plan.context) == opt_text(event.from_context),
        },
{
    if note_is_trashed {
        return Err(message("restore the note before changing its filing"));
    }
    let moved = match current {
        None => true,
        Some(c) => c.event_id != Some(event_id) || c.folder_id != event.to_folder_id
            || !opt_str_eq(&c.context, &event.to_context),
    };
    if moved {
        return Err(message("filing changed since this action"));
    }
    if event.from_folder_id.is_none() && event.from_path.is_some() {
        return Err(message("the previous folder no longer exists"));
    }
    if event.from_folder_id.is_some() && !from_folder_exists {
        return Err(message("the previous folder no longer exists"));
    }
    let mut reason = chars_of("Restored ");
    let label = match &event.from_path {
        Some(p) => chars_of(p),
        None => chars_of("Unfiled"),
    };
    crate::text::append_chars(&mut reason, &label);
    let mid = chars_of(" by undoing: ");
    crate::text::append_chars(&mut reason, &mid);
    let old = chars_of(&event.reason);
    crate::text::append_chars(&mut reason, &old);
    let context = match &event.from_context {
        Some(c) => Some(message(c)),
        None => None,
    };
    Ok(UndoPlan { folder_id: event.from_folder_id, reason: string_from_chars(&reason), context })
}

/// The source a restored filing is recorded under: that of the event it
/// returns to, else "manual" for a folder and "context" for a bare context.
pub fn restored_source(previous_source: Option<String>, from_folder_id: Option<i64>) -> (r: String)
    ensures
        match previous_source {
            Some(s) => r@ == s@,
            None => r@ == if from_folder_id is Some {
                "manual"@
            } else {
                "context"@
            },
        },
{
    match previous_source {
        Some(s) => s,
        None => if from_folder_id.is_some() {
            message("manual")
        } else {
            message("context")
        },
    }
}

// ---------------------------------------------------------------------------
// Public meeting identifiers
// ---------------------------------------------------------------------------

/// Byte `i` of a public identifier made at `timestamp_ms` from `random`:
/// the low 48 bits of the timestamp, most significant byte first, then the
/// random bytes with the version nibble set to 7 and the two variant bits
/// set to 10.
pub open spec fn public_id_byte(timestamp_ms: u64, random: Seq<u8>, i: int) -> u8 {
    if i < 6 {
        ((timestamp_ms >> ((40 - 8 * i) as u64)) & 0xff) as u8
    } else if i == 6 {
        (random[6] & 0x0f) | 0x70
    } else if i == 8 {
        (random[8] & 0x3f) | 0x80
    } else {
        random[i]
    }
}

/// The 16 bytes of a public identifier.
pub open spec fn public_id_bytes(timestamp_ms: u64, random: Seq<u8>) -> Seq<u8> {
    Seq::new(16, |i: int| public_id_byte(timestamp_ms, random, i))
}

/// The canonical 8-4-4-4-12 lowercase hex text of 16 bytes.
pub open spec fn uuid_text(b: Seq<u8>) -> Seq<char> {
    hex_lower(b.subrange(0, 4)) + seq!['-'] + hex_lower(b.subrange(4, 6)) + seq!['-']
        + hex_lower(b.subrange(6, 8)) + seq!['-'] + hex_lower(b.subrange(8, 10)) + seq!['-']
        + hex_lower(b.subrange(10, 16))
}

proof fn lemma_hex_lower_at(d: Seq<u8>, k: int)
    requires
        0 <= k < d.len(),
    ensures
        hex_lower(d).len() == 2 * d.len(),
        hex_lower(d)[2 * k] == hex_digit(d[k] / 16),
        hex_lower(d)[2 * k + 1] == hex_digit(d[k] % 16),
    decreases d.len(),
{
    lemma_hex_lower_len(d);
    if k < d.len() - 1 {
        lemma_hex_lower_at(d.drop_last(), k);
    }
}

proof fn lemma_hex_lower_len(d: Seq<u8>)
    ensures
        hex_lower(d).len() == 2 * d.len(),
    decreases d.len(),
{
    if d.len() > 0 {
        lemma_hex_lower_len(d.drop_last());
    }
}

proof fn lemma_hex_digit_is_lower_hex(v: u8)
    requires
        v < 16,
    ensures
        is_lower_hex(hex_digit(v)),
{
}

proof fn lemma_hex_lower_all_hex(d: Seq<u8>)
    ensures
        hex_lower(d).len() == 2 * d.len(),
        forall|j: int| 0 <= j < hex_lower(d).len() ==> is_lower_hex(#[trigger] hex_lower(d)[j]),
{
    lemma_hex_lower_len(d);
    assert forall|j: int| 0 <= j < hex_lower(d).len() implies is_lower_hex(
        #[trigger] hex_lower(d)[j],
    ) by {
        let k = j / 2;
        lemma_hex_lower_at(d, k);
        lemma_hex_digit_is_lower_hex(d[k] / 16);
        lemma_hex_digit_is_lower_hex(d[k] % 16);
        assert(j == 2 * k || j == 2 * k + 1);
    }
}

/// The text of 16 bytes whose version nibble is 7 and whose variant nibble
/// lies in 8..=11 is a UUIDv7.
proof fn lemma_uuid_text_is_v7(b: Seq<u8>)
    requires
        b.len() == 16,
        b[6] / 16 == 7,
        8 <= b[8] / 16 <= 11,
    ensures
        uuid_text(b).len() == 36,
        is_uuid_v7(uuid_text(b)),
{
    let g0 = hex_lower(b.subrange(0, 4));
    let g1 = hex_lower(b.subrange(4, 6));
    let g2 = hex_lower(b.subrange(6, 8));
    let g3 = hex_lower(b.subrange(8, 10));
    let g4 = hex_lower(b.subrange(10, 16));
    lemma_hex_lower_all_hex(b.subrange(0, 4));
    lemma_hex_lower_all_hex(b.subrange(4, 6));
    lemma_hex_lower_all_hex(b.subrange(6, 8));
    lemma_hex_lower_all_hex(b.subrange(8, 10));
    lemma_hex_lower_all_hex(b.subrange(10, 16));
    let t = uuid_text(b);
    assert(t =~= g0 + seq!['-'] + g1 + seq!['-'] + g2 + seq!['-'] + g3 + seq!['-'] + g4);
    assert forall|i: int| 0 <= i < 36 implies if is_dash_position(i) {
        t[i] == '-'
    } else {
        is_lower_hex(#[trigger] t[i])
    } by {
        if i < 8 {
            assert(t[i] == g0[i]);
        } else if i == 8 {
        } else if i < 13 {
            assert(t[i] == g1[i - 9]);
        } else if i == 13 {
        } else if i < 18 {
            assert(t[i] == g2[i - 14]);
        } else if i == 18 {
        } else if i < 23 {
            assert(t[i] == g3[i - 19]);
        } else if i == 23 {
        } else {
            assert(t[i] == g4[i - 24]);
        }
    }
    lemma_hex_lower_at(b.subrange(6, 8), 0);
    lemma_hex_lower_at(b.subrange(8, 10), 0);
    assert(t[14] == g2[0]);
    assert(t[19] == g3[0]);
    assert(hex_digit(7) == '7');
    assert(hex_digit(8) == '8');
    assert(hex_digit(9) == '9');
    assert(hex_digit(10) == 'a');
    assert(hex_digit(11) == 'b');
}

fn public_id_byte_exec(timestamp_ms: u64, random: &[u8; 16], i: usize) -> (r: u8)
    requires
        i < 16,
    ensures
        r == public_id_byte(timestamp_ms, random@, i as int),
{
    if i < 6 {
        ((timestamp_ms >> ((40 - 8 * i) as u64)) & 0xff) as u8
    } else if i == 6 {
        (random[6] & 0x0f) | 0x70
    } else if i == 8 {
        (random[8] & 0x3f) | 0x80
    } else {
        random[i]
    }
}

/// The text of the public identifier made at `timestamp_ms` (milliseconds
/// since the Unix epoch) from 16 random bytes: a UUIDv7 whose first 48 bits
/// are the timestamp, so that identifiers keep their creation order.
pub fn public_id_from(timestamp_ms: u64, random: [u8; 16]) -> (r: String)
    ensures
        r@ == uuid_text(public_id_bytes(timestamp_ms, random@)),
        is_uuid_v7(r@),
{
    let mut bytes: Vec<u8> = Vec::new();
    let mut i: usize = 0;
    while i < 16
        invariant
            i <= 16,
            bytes@ == public_id_bytes(timestamp_ms, random@).take(i as int),
        decreases 16 - i,
    {
        let b = public_id_byte_exec(timestamp_ms, &random, i);
        bytes.push(b);
        i = i + 1;
        assert(bytes@ =~= public_id_bytes(timestamp_ms, random@).take(i as int));
    }
    let ghost all = public_id_bytes(timestamp_ms, random@);
    assert(bytes@ =~= all);
    proof {
        let x6 = random@[6];
        let x8 = random@[8];
        assert(((x6 & 0x0f) | 0x70) / 16 == 7) by (bit_vector);
        assert(8 <= ((x8 & 0x3f) | 0x80) / 16 <= 11) by (bit_vector);
        assert(all[6] == (x6 & 0x0f) | 0x70);
        assert(all[8] == (x8 & 0x3f) | 0x80);
        lemma_uuid_text_is_v7(all);
    }
    let s = bytes.as_slice();
    let mut text = to_hex_lower(vstd::slice::slice_subrange(s, 0, 4));
    text.push('-');
    let mut g1 = to_hex_lower(vstd::slice::slice_subrange(s, 4, 6));
    text.append(&mut g1);
    text.push('-');
    let mut g2 = to_hex_lower(vstd::slice::slice_subrange(s, 6, 8));
    text.append(&mut g2);
    text.push('-');
    let mut g3 = to_hex_lower(vstd::slice::slice_subrange(s, 8, 10));
    text.append(&mut g3);
    text.push('-');
    let mut g4 = to_hex_lower(vstd::slice::slice_subrange(s, 10, 16));
    text.append(&mut g4);
    assert(text@ =~= uuid_text(all));
    string_from_chars(&text)
}

/// Reads the system clock (`std::time::SystemTime::now`) as milliseconds
/// since the Unix epoch; a clock set before the epoch reads as 0. Nothing is
/// promised of the value: it is the time.
#[verifier::external_body]
fn now_unix_ms() -> u64 {
    match std::time::SystemTime::now().duration_since(std::time::UNIX_EPOCH) {
        Ok(elapsed) => elapsed.as_millis() as u64,
        Err(_) => 0,
    }
}

fn array16(v: &[u8]) -> (a: [u8; 16])
    requires
        v@.len() == 16,
    ensures
        a@ == v@,
{
    let a = [
        v[0], v[1], v[2], v[3], v[4], v[5], v[6], v[7], v[8], v[9], v[10], v[11], v[12], v[13],
        v[14], v[15],
    ];
    assert(a@ =~= v@);
    a
}

/// A fresh UUIDv7 public identifier, from the clock and 16 bytes of the
/// operating system's generator; `None` where the generator fails.
pub fn new_public_id() -> (r: Option<String>)
    ensures
        r matches Some(s) ==> is_uuid_v7(s@),
        r matches Some(s) ==> exists|t: u64, b: Seq<u8>|
            b.len() == 16 && s@ == uuid_text(#[trigger] public_id_bytes(t, b)),
{
    let timestamp_ms = now_unix_ms();
    match os_random_bytes(16) {
        Some(v) => {
            let random = array16(&v);
            let s = public_id_from(timestamp_ms, random);
            assert(random@.len() == 16);
            Some(s)
        },
        None => None,
    }
}

/// The display path of a folder, given the names met walking up from it
/// (the folder's own name first, its root's last): root first, joined by
/// " / ".
pub open spec fn folder_path_spec(names_leaf_first: Seq<String>) -> Seq<char> {
    join(string_seqs(names_leaf_first).reverse(), " / "@)
}

pub fn folder_path_text(names_leaf_first: &[String]) -> (r: String)
    ensures
        r@ == folder_path_spec(names_leaf_first@),
{
    let ghost target = string_seqs(names_leaf_first@).reverse();
    let n = names_leaf_first.len();
    let mut ws: Vec<Vec<char>> = Vec::new();
    let mut i: usize = n;
    while i > 0
        invariant
            i <= n,
            n == names_leaf_first@.len(),
            target == string_seqs(names_leaf_first@).reverse(),
            target.len() == n,
            ws@.len() == n - i,
            char_seqs(ws@) =~= target.take((n - i) as int),
        decreases i,
    {
        i = i - 1;
        let ghost before = ws@;
        let c = chars_of(names_leaf_first[i].as_str());
        ws.push(c);
        assert(target[(n - 1 - i) as int] == names_leaf_first@[i as int]@);
        assert(ws@ == before.push(c));
        assert(c@ == names_leaf_first@[i as int]@);
        assert(before.len() == n - i - 1);
        assert forall|k: int| 0 <= k < ws@.len() implies #[trigger] char_seqs(ws@)[k] == target[k] by {
            assert(char_seqs(ws@)[k] == ws@[k]@);
            if k < before.len() {
                assert(ws@[k] == before[k]);
                assert(char_seqs(before)[k] == before[k]@);
                assert(char_seqs(before)[k] == target.take((n - i - 1) as int)[k]);
            } else {
                assert(k == n - 1 - i);
                assert(ws@[k] == c);
            }
        }
        assert(char_seqs(ws@) =~= target.take((n - i) as int));
    }
    assert(target.take(n as int) =~= target);
    let sep = chars_of(" / ");
    let joined = join_words(&ws, &sep);
    string_from_chars(&joined)
}

/// What one step of walking up from a folder to its space decides.
pub enum ContextWalk {
    /// Go on with this parent folder.
    Up(i64),
    /// The Work or Personal space the walk started in.
    Found(String),
    /// The walk cannot name a space, with the reason.
    Refused(String),
}

/// One step of finding the Work or Personal space that holds a folder:
/// `visited` are the folders already passed, `current` the folder now
/// reached and `row` its name, kind and parent, where it exists.
pub fn context_walk_step(
    visited: &[i64],
    current: i64,
    row: Option<(String, String, Option<i64>)>,
) -> (r: ContextWalk)
    ensures
        visited@.contains(current) ==> (r matches ContextWalk::Refused(e) && e@
            == "folder hierarchy contains a cycle"@),
        !visited@.contains(current) ==> match row {
            None => r matches ContextWalk::Refused(e) && e@ == "filing target not found"@,
            Some((name, kind, parent)) => match parent {
                Some(p) => r == ContextWalk::Up(p),
                None => if kind@ != "space"@ {
                    r matches ContextWalk::Refused(e) && e@ == "filing target is outside a context"@
                } else {
                    match filing_context_of(name@) {
                        Some(c) => r matches ContextWalk::Found(s) && s@ == c,
                        None => r matches ContextWalk::Refused(e) && e@
                            == "filing context must be work or personal"@,
                    }
                },
            },
        },
{
    let mut i: usize = 0;
    while i < visited.len()
        invariant
            i <= visited@.len(),
            forall|k: int| 0 <= k < i ==> visited@[k] != current,
        decreases visited@.len() - i,
    {
        if visited[i] == current {
            return ContextWalk::Refused(message("folder hierarchy contains a cycle"));
        }
        i = i + 1;
    }
    match row {
        None => ContextWalk::Refused(message("filing target not found")),
        Some((name, kind, parent)) => match parent {
            Some(p) => ContextWalk::Up(p),
            None => if !str_eq(kind.as_str(), "space") {
                ContextWalk::Refused(message("filing target is outside a context"))
            } else {
                match normalized_filing_context(name.as_str()) {
                    Ok(c) => ContextWalk::Found(c),
                    Err(e) => ContextWalk::Refused(e),
                }
            },
        },
    }
}

} // verus!
