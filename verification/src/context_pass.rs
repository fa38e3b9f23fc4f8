//! Permission-gated, read-only context handoff for local agent clients.
//!
//! Candidate and approved Context Pass plaintext lives only in this state and
//! is erased on denial, expiry, revocation, source change or completed
//! delivery. The durable receipts hold metadata and hashes only; every state
//! change that touches a receipt is returned to the caller as a
//! `ReceiptUpdate` to write.
use vstd::prelude::*;
use crate::brain::{join, join_words};
use crate::canonical::{decimal, push_decimal};
use crate::digest::{hex_lower, to_hex_lower};
use crate::text::{
    append_chars, bytes_eq, chars_of, char_seqs, lowercase_chars, lowercase_spec, slice_range,
    split_whitespace_chars, str_eq, string_from_chars, trim, trim_chars, words,
};

verus! {

pub const PENDING_TTL_MS: i64 = 900000;
pub const PASS_TTL_MS: i64 = 3600000;
pub const DEFAULT_PACKET_BYTES: usize = 500000;
pub const MIN_PACKET_BYTES: usize = 4000;
pub const MAX_PACKET_BYTES: usize = 1000000;
pub const READ_CHUNK_BYTES: usize = 12000;
pub const MAX_PENDING_PER_CLIENT: usize = 3;
pub const KEYCHAIN_SERVICE: &'static str = "com.noted.app";
pub const KEYCHAIN_PREFIX: &'static str = "agent_client:";
pub const SOCKET_FILE: &'static str = "agent-broker.sock";

/// A registered agent client. Its secret lives in the Keychain only.
#[derive(Debug, Clone)]
pub struct AgentClient {
    pub id: String,
    pub name: String,
    pub created_at: String,
    pub revoked_at: Option<String>,
    pub last_seen_at: Option<String>,
}

impl AgentClient {
    /// A client is active until it is revoked.
    pub fn active(&self) -> (r: bool)
        ensures
            r == (self.revoked_at is None),
    {
        self.revoked_at.is_none()
    }
}

/// The persisted Agent Access settings.
#[derive(Debug, Clone, Default)]
pub struct AgentConfig {
    pub enabled: bool,
    pub clients: Vec<AgentClient>,
}

#[derive(Debug, Clone)]
pub struct AgentAccessStatus {
    pub enabled: bool,
    pub clients: Vec<AgentClient>,
    pub pending_count: usize,
    pub helper_command: String,
}

#[derive(Debug, Clone)]
pub struct AgentClientSetup {
    pub client: AgentClient,
    pub config_json: String,
    pub command: String,
}

#[derive(Debug, Clone, Copy, PartialEq, Eq, Structural)]
pub struct ContextOptions {
    pub include_summary: bool,
    pub include_notes: bool,
    pub include_transcript: bool,
    pub max_bytes: Option<usize>,
}

impl ContextOptions {
    /// Every section, with the default packet limit.
    pub fn default_options() -> (r: Self)
        ensures
            r.include_summary && r.include_notes && r.include_transcript,
            r.max_bytes == Some(DEFAULT_PACKET_BYTES),
    {
        ContextOptions {
            include_summary: true,
            include_notes: true,
            include_transcript: true,
            max_bytes: Some(DEFAULT_PACKET_BYTES),
        }
    }

    /// At least one section must be selected; the packet limit defaults to
    /// 500 000 bytes and is clamped to 4 000..=1 000 000.
    pub fn normalized(self) -> (r: Result<Self, String>)
        ensures
            !(self.include_summary || self.include_notes || self.include_transcript) <==> r is Err,
            r matches Ok(o) ==> o.include_summary == self.include_summary && o.include_notes
                == self.include_notes && o.include_transcript == self.include_transcript
                && o.max_bytes == Some(
                clamp_packet(
                    match self.max_bytes {
                        Some(m) => m,
                        None => DEFAULT_PACKET_BYTES,
                    },
                ),
            ),
            r matches Err(e) ==> e@ == "select at least one meeting content section"@,
    {
        if !self.include_summary && !self.include_notes && !self.include_transcript {
            return Err(owned("select at least one meeting content section"));
        }
        let max = match self.max_bytes {
            Some(m) => m,
            None => DEFAULT_PACKET_BYTES,
        };
        let clamped = if max < MIN_PACKET_BYTES {
            MIN_PACKET_BYTES
        } else if max > MAX_PACKET_BYTES {
            MAX_PACKET_BYTES
        } else {
            max
        };
        Ok(ContextOptions { max_bytes: Some(clamped), ..self })
    }
}

pub open spec fn clamp_packet(m: usize) -> usize {
    if m < MIN_PACKET_BYTES {
        MIN_PACKET_BYTES
    } else if m > MAX_PACKET_BYTES {
        MAX_PACKET_BYTES
    } else {
        m
    }
}

#[derive(Debug, Clone)]
pub struct MeetingCandidate {
    pub meeting_id: i64,
    pub title: String,
    pub started_at: Option<String>,
    pub attendees: Vec<String>,
    pub segment_count: i64,
    pub summary_available: bool,
    pub notes_available: bool,
}

#[derive(Debug, Clone)]
pub struct PendingContextRequest {
    pub id: String,
    pub client_name: String,
    pub runtime_name: Option<String>,
    pub purpose: String,
    pub query: String,
    pub created_at: String,
    pub expires_at: String,
    pub requested: ContextOptions,
    pub candidates: Vec<MeetingCandidate>,
}

#[derive(Debug, Clone)]
pub struct ContextPreview {
    pub request_id: String,
    pub meeting_id: i64,
    pub title: String,
    pub resource_uri: String,
    pub source_revision: String,
    pub packet_hash: String,
    pub content: String,
    pub total_bytes: usize,
    pub estimated_tokens: usize,
    pub included: IncludedSections,
}

#[derive(Debug, Clone, Copy, Default, PartialEq, Eq, Structural)]
pub struct IncludedSections {
    pub summary: bool,
    pub notes: bool,
    pub transcript: bool,
}

#[derive(Debug, Clone)]
pub struct ResolveResult {
    pub status: String,
    pub request_id: String,
    pub pass_id: Option<String>,
}

#[derive(Debug, Clone)]
pub struct BrokerRequestStatus {
    pub status: String,
    pub request_id: Option<String>,
    pub pass_id: Option<String>,
    pub expires_at: Option<String>,
}

#[derive(Debug, Clone)]
pub struct PassChunk {
    pub pass_id: String,
    pub resource_uri: String,
    pub content: String,
    pub cursor: usize,
    pub next_cursor: Option<usize>,
    pub complete: bool,
    pub total_bytes: usize,
    pub packet_hash: String,
}

#[derive(Debug, Clone)]
pub struct ContextReceipt {
    pub id: String,
    pub client_name: String,
    pub runtime_name: Option<String>,
    pub purpose: String,
    pub resource_uri: Option<String>,
    pub resource_title: Option<String>,
    pub status: String,
    pub total_bytes: i64,
    pub delivered_bytes: i64,
    pub requested_at: String,
    pub decided_at: Option<String>,
    pub completed_at: Option<String>,
}

// ---------------------------------------------------------------------------
// Text helpers
// ---------------------------------------------------------------------------

/// An owned copy of a text.
pub fn owned(s: &str) -> (r: String)
    ensures
        r@ == s@,
{
    let c = chars_of(s);
    string_from_chars(&c)
}

/// The words of a text joined by single spaces.
pub open spec fn one_line_spec(s: Seq<char>) -> Seq<char> {
    join(words(s), " "@)
}

/// Collapses every run of white space to one space and trims the ends.
pub fn one_line(value: &str) -> (r: String)
    ensures
        r@ == one_line_spec(value@),
{
    let c = chars_of(value);
    let ws = split_whitespace_chars(&c);
    let sep = chars_of(" ");
    let joined = join_words(&ws, &sep);
    string_from_chars(&joined)
}

/// Trimmed text whose length in characters lies in `min..=max`.
pub fn validated_text(value: &str, label: &str, min: usize, max: usize) -> (r: Result<String, String>)
    ensures
        r is Ok <==> min <= trim(value@).len() <= max,
        r matches Ok(t) ==> t@ == trim(value@),
{
    let c = chars_of(value);
    let t = trim_chars(&c);
    if t.len() < min || t.len() > max {
        let mut m = chars_of(label);
        let rest = chars_of(" must be between ");
        append_chars(&mut m, &rest);
        push_decimal_usize(&mut m, min);
        let and = chars_of(" and ");
        append_chars(&mut m, &and);
        push_decimal_usize(&mut m, max);
        let tail = chars_of(" characters");
        append_chars(&mut m, &tail);
        return Err(string_from_chars(&m));
    }
    Ok(string_from_chars(&t))
}

/// Appends the decimal digits of `n`.
pub fn push_decimal_usize(out: &mut Vec<char>, n: usize)
    ensures
        final(out)@ == old(out)@ + decimal(n as nat),
    decreases n,
{
    if n >= 10 {
        push_decimal_usize(out, n / 10);
    }
    push_decimal(out, (n % 10) as u32);
    assert(decimal((n % 10) as nat) == decimal((n % 10) as u32 as nat));
}

/// A runtime name shown to the user: one line, at most 120 characters,
/// absent when blank.
pub fn clean_runtime_name(value: String) -> (r: Option<String>)
    ensures
        one_line_spec(value@).len() == 0 ==> r is None,
        one_line_spec(value@).len() > 0 ==> (r matches Some(n) && n@ == one_line_spec(value@).take(
            if one_line_spec(value@).len() < 120 {
                one_line_spec(value@).len() as int
            } else {
                120
            },
        )),
{
    let line = one_line(&value);
    let c = chars_of(&line);
    if c.len() == 0 {
        return None;
    }
    let n = if c.len() < 120 {
        c.len()
    } else {
        120
    };
    let taken = slice_range(&c, 0, n);
    assert(taken@ =~= c@.take(n as int));
    Some(string_from_chars(&taken))
}

pub open spec fn two_digit(n: int) -> Seq<char> {
    if n < 10 {
        seq!['0'] + decimal(n as nat)
    } else {
        decimal(n as nat)
    }
}

/// A transcript timestamp as "MM:SS" (minutes are not wrapped into hours).
pub open spec fn mmss_spec(ms: int) -> Seq<char> {
    let seconds = if ms < 0 {
        0
    } else {
        ms / 1000
    };
    two_digit(seconds / 60) + seq![':'] + two_digit(seconds % 60)
}

/// Appends the decimal digits of `n`.
pub fn push_decimal_u64(out: &mut Vec<char>, n: u64)
    ensures
        final(out)@ == old(out)@ + decimal(n as nat),
    decreases n,
{
    if n >= 10 {
        push_decimal_u64(out, n / 10);
    }
    push_decimal(out, (n % 10) as u32);
    assert(decimal((n % 10) as nat) == decimal((n % 10) as u32 as nat));
}

fn push_two_digit(out: &mut Vec<char>, n: u64)
    ensures
        final(out)@ == old(out)@ + two_digit(n as int),
{
    if n < 10 {
        out.push('0');
    }
    push_decimal_u64(out, n);
    assert(final(out)@ =~= old(out)@ + two_digit(n as int));
}

/// A transcript timestamp as "MM:SS"; negative offsets read as 00:00.
pub fn mmss(ms: i64) -> (r: String)
    ensures
        r@ == mmss_spec(ms as int),
{
    let seconds: i64 = if ms < 0 {
        0
    } else {
        ms / 1000
    };
    assert(seconds >= 0);
    assert(seconds as int == if ms < 0 {
        0
    } else {
        ms as int / 1000
    });
    let minutes = seconds / 60;
    let secs = seconds % 60;
    assert(minutes as int == seconds as int / 60);
    assert(secs as int == seconds as int % 60);
    let mut out: Vec<char> = Vec::new();
    push_two_digit(&mut out, minutes as u64);
    out.push(':');
    push_two_digit(&mut out, secs as u64);
    assert(out@ =~= mmss_spec(ms as int));
    string_from_chars(&out)
}

/// Draws `n` bytes from the operating system's generator through
/// `rand::rngs::OsRng` (`RngCore::try_fill_bytes`). `None` where the generator
/// reports a failure; otherwise exactly `n` bytes, of which nothing more is
/// promised: they are random.
#[verifier::external_body]
pub(crate) fn os_random_bytes(n: usize) -> (r: Option<Vec<u8>>)
    ensures
        r matches Some(v) ==> v@.len() == n,
{
    let mut bytes = vec![0u8; n];
    match rand::RngCore::try_fill_bytes(&mut rand::rngs::OsRng, &mut bytes) {
        Ok(()) => Some(bytes),
        Err(_) => None,
    }
}

/// An unguessable identifier: `bytes` random bytes in lowercase hex, or
/// `None` where the operating system's generator fails.
pub fn opaque_id(bytes: usize) -> (r: Option<String>)
    ensures
        r matches Some(s) ==> exists|b: Seq<u8>| b.len() == bytes && s@ == hex_lower(b),
        r matches Some(s) ==> s@.len() == 2 * bytes,
{
    match os_random_bytes(bytes) {
        Some(v) => {
            let hex = to_hex_lower(&v);
            Some(string_from_chars(&hex))
        },
        None => None,
    }
}

/// Byte-string equality that inspects every byte of equal-length inputs.
pub fn constant_time_eq(a: &[u8], b: &[u8]) -> (r: bool)
    ensures
        r == (a@ == b@),
{
    if a.len() != b.len() {
        return false;
    }
    let mut difference: u8 = 0;
    let mut i: usize = 0;
    while i < a.len()
        invariant
            a@.len() == b@.len(),
            i <= a@.len(),
            (difference == 0) <==> forall|k: int| 0 <= k < i ==> a@[k] == b@[k],
        decreases a@.len() - i,
    {
        let x = a[i];
        let y = b[i];
        let d = difference;
        assert((d | (x ^ y)) == 0 <==> (d == 0 && x == y)) by (bit_vector);
        difference = difference | (x ^ y);
        i = i + 1;
    }
    assert((difference == 0) ==> a@ =~= b@);
    difference == 0
}

/// The Keychain account that holds a client's secret.
pub fn keychain_account(client_id: &str) -> (r: String)
    ensures
        r@ == KEYCHAIN_PREFIX@ + client_id@,
{
    let mut c = chars_of(KEYCHAIN_PREFIX);
    let id = chars_of(client_id);
    append_chars(&mut c, &id);
    string_from_chars(&c)
}

pub open spec fn quote_body(s: Seq<char>) -> Seq<char>
    decreases s.len(),
{
    if s.len() == 0 {
        Seq::empty()
    } else if s.last() == '\'' {
        quote_body(s.drop_last()) + "'\\''"@
    } else {
        quote_body(s.drop_last()).push(s.last())
    }
}

/// A POSIX shell single-quoted word: every `'` becomes `'\''`.
pub fn shell_quote(value: &str) -> (r: String)
    ensures
        r@ == seq!['\''] + quote_body(value@) + seq!['\''],
{
    let c = chars_of(value);
    let mut out: Vec<char> = Vec::new();
    out.push('\'');
    let escaped = chars_of("'\\''");
    let mut i: usize = 0;
    while i < c.len()
        invariant
            c@ == value@,
            escaped@ == "'\\''"@,
            i <= c@.len(),
            out@ == seq!['\''] + quote_body(c@.take(i as int)),
        decreases c@.len() - i,
    {
        assert(c@.take(i + 1).drop_last() =~= c@.take(i as int));
        if c[i] == '\'' {
            append_chars(&mut out, &escaped);
        } else {
            out.push(c[i]);
        }
        i = i + 1;
        assert(out@ =~= seq!['\''] + quote_body(c@.take(i as int)));
    }
    assert(c@.take(c@.len() as int) =~= c@);
    out.push('\'');
    assert(out@ =~= seq!['\''] + quote_body(value@) + seq!['\'']);
    string_from_chars(&out)
}

/// What `char::is_alphanumeric` says of a character.
pub uninterp spec fn alphanumeric(c: char) -> bool;

/// Calls `char::is_alphanumeric` (Unicode Alphabetic or Numeric); the table
/// itself is not restated.
#[verifier::external_body]
fn is_alphanumeric(c: char) -> (r: bool)
    ensures
        r == alphanumeric(c),
{
    c.is_alphanumeric()
}

pub open spec fn blank_non_alphanumeric(s: Seq<char>) -> Seq<char> {
    s.map_values(|c: char| if alphanumeric(c) { c } else { ' ' })
}

/// Search text: lowercased, every non-alphanumeric character a space, words
/// joined by single spaces.
pub open spec fn normalize_search_spec(value: Seq<char>) -> Seq<char> {
    join(words(blank_non_alphanumeric(lowercase_spec(value))), " "@)
}

/// Lowercases a text, blanks every non-alphanumeric character and collapses
/// the white space.
pub fn normalize_search(value: &str) -> (r: String)
    ensures
        r@ == normalize_search_spec(value@),
{
    let c = chars_of(value);
    let lower = lowercase_chars(&c);
    let mut mapped: Vec<char> = Vec::new();
    let mut i: usize = 0;
    while i < lower.len()
        invariant
            i <= lower@.len(),
            mapped@ == blank_non_alphanumeric(lower@).take(i as int),
        decreases lower@.len() - i,
    {
        let ch = lower[i];
        mapped.push(
            if is_alphanumeric(ch) {
                ch
            } else {
                ' '
            },
        );
        i = i + 1;
        assert(mapped@ =~= blank_non_alphanumeric(lower@).take(i as int));
    }
    assert(blank_non_alphanumeric(lower@).take(lower@.len() as int) =~= blank_non_alphanumeric(
        lower@,
    ));
    let ws = split_whitespace_chars(&mapped);
    let sep = chars_of(" ");
    let joined = join_words(&ws, &sep);
    string_from_chars(&joined)
}

/// Words that never rank a meeting.
pub open spec fn stop_words() -> Seq<Seq<char>> {
    seq![
        "a"@,
        "about"@,
        "an"@,
        "and"@,
        "for"@,
        "from"@,
        "in"@,
        "meeting"@,
        "my"@,
        "of"@,
        "on"@,
        "the"@,
        "to"@,
        "with"@,
    ]
}

/// The UTF-8 byte length of one character (`char::len_utf8`).
pub open spec fn char_utf8_len(c: char) -> nat {
    if (c as u32) < 0x80 {
        1
    } else if (c as u32) < 0x800 {
        2
    } else if (c as u32) < 0x10000 {
        3
    } else {
        4
    }
}

/// The UTF-8 byte length of a character sequence.
pub open spec fn utf8_size(s: Seq<char>) -> nat
    decreases s.len(),
{
    if s.len() == 0 {
        0
    } else {
        utf8_size(s.drop_last()) + char_utf8_len(s.last())
    }
}

pub open spec fn search_token_ok(t: Seq<char>) -> bool {
    utf8_size(t) > 1 && !stop_words().contains(t)
}

pub open spec fn search_tokens_spec(ws: Seq<Seq<char>>) -> Seq<Seq<char>>
    decreases ws.len(),
{
    if ws.len() == 0 {
        Seq::empty()
    } else if search_token_ok(ws.last()) {
        search_tokens_spec(ws.drop_last()).push(ws.last())
    } else {
        search_tokens_spec(ws.drop_last())
    }
}

pub fn char_utf8_len_exec(c: char) -> (r: usize)
    ensures
        r == char_utf8_len(c),
{
    let v = c as u32;
    if v < 0x80 {
        1
    } else if v < 0x800 {
        2
    } else if v < 0x10000 {
        3
    } else {
        4
    }
}

/// Whether a text is longer than one UTF-8 byte.
fn longer_than_one_byte(t: &[char]) -> (r: bool)
    ensures
        r == (utf8_size(t@) > 1),
{
    if t.len() == 0 {
        return false;
    }
    if t.len() >= 2 {
        proof {
            lemma_utf8_size_at_least_len(t@);
        }
        return true;
    }
    assert(t@.drop_last() =~= Seq::<char>::empty());
    assert(utf8_size(t@.drop_last()) == 0);
    assert(utf8_size(t@) == char_utf8_len(t@[0]));
    char_utf8_len_exec(t[0]) > 1
}

proof fn lemma_utf8_size_at_least_len(s: Seq<char>)
    ensures
        utf8_size(s) >= s.len(),
    decreases s.len(),
{
    if s.len() > 0 {
        lemma_utf8_size_at_least_len(s.drop_last());
    }
}

fn is_stop_word(t: &[char]) -> (r: bool)
    ensures
        r == stop_words().contains(t@),
{
    let stops: [&str; 14] = [
        "a",
        "about",
        "an",
        "and",
        "for",
        "from",
        "in",
        "meeting",
        "my",
        "of",
        "on",
        "the",
        "to",
        "with",
    ];
    let mut i: usize = 0;
    while i < 14
        invariant
            i <= 14,
            stops@.len() == 14,
            forall|k: int| 0 <= k < 14 ==> (#[trigger] stops@[k])@ == stop_words()[k],
            forall|k: int| 0 <= k < i ==> stop_words()[k] != t@,
        decreases 14 - i,
    {
        let w = chars_of(stops[i]);
        if crate::text::chars_eq(&w, t) {
            assert(stop_words()[i as int] == t@);
            return true;
        }
        i = i + 1;
    }
    false
}

/// The words of a normalized search text that can rank a meeting: longer
/// than one byte and not a stop word.
pub fn search_tokens(value: &str) -> (r: Vec<String>)
    ensures
        r@.map_values(|s: String| s@) == search_tokens_spec(words(value@)),
{
    let c = chars_of(value);
    let ws = split_whitespace_chars(&c);
    let ghost all = char_seqs(ws@);
    let mut out: Vec<String> = Vec::new();
    let mut i: usize = 0;
    while i < ws.len()
        invariant
            i <= ws@.len(),
            all == char_seqs(ws@),
            all == words(value@),
            out@.map_values(|s: String| s@) == search_tokens_spec(all.take(i as int)),
        decreases ws@.len() - i,
    {
        assert(all.take(i + 1).drop_last() =~= all.take(i as int));
        assert(all.take(i + 1).last() == ws@[i as int]@);
        let ghost before = out@.map_values(|s: String| s@);
        if longer_than_one_byte(&ws[i]) && !is_stop_word(&ws[i]) {
            out.push(string_from_chars(&ws[i]));
            assert(out@.map_values(|s: String| s@) =~= before.push(ws@[i as int]@));
        }
        i = i + 1;
    }
    assert(all.take(all.len() as int) =~= all);
    out
}

// ---------------------------------------------------------------------------
// Requests and passes
// ---------------------------------------------------------------------------

#[derive(Debug, Clone, Copy, PartialEq, Eq, Structural)]
pub enum RequestState {
    Pending,
    Approved,
    Denied,
    Expired,
}

pub open spec fn request_state_name(s: RequestState) -> Seq<char> {
    match s {
        RequestState::Pending => "pending"@,
        RequestState::Approved => "approved"@,
        RequestState::Denied => "denied"@,
        RequestState::Expired => "expired"@,
    }
}

impl RequestState {
    pub fn as_str(self) -> (r: &'static str)
        ensures
            r@ == request_state_name(self),
    {
        match self {
            RequestState::Pending => "pending",
            RequestState::Approved => "approved",
            RequestState::Denied => "denied",
            RequestState::Expired => "expired",
        }
    }
}

/// A context request waiting for, or past, the user's decision.
#[derive(Debug, Clone)]
pub struct ContextRequestRecord {
    pub id: String,
    pub client_id: String,
    pub client_name: String,
    pub runtime_name: Option<String>,
    pub purpose: String,
    pub query: String,
    pub created_at_ms: i64,
    pub expires_at_ms: i64,
    pub requested: ContextOptions,
    pub candidates: Vec<MeetingCandidate>,
    pub state: RequestState,
    pub pass_id: Option<String>,
}

/// An approved packet, delivered once, in order, in chunks of at most
/// `READ_CHUNK_BYTES` UTF-8 bytes that never split a character.
#[derive(Debug, Clone)]
pub struct ContextPassRecord {
    id: String,
    request_id: String,
    receipt_id: String,
    client_id: String,
    meeting_id: i64,
    resource_uri: String,
    source_revision: String,
    packet_hash: String,
    content: Vec<char>,
    delivered_chars: usize,
    delivered_bytes: usize,
    total_bytes: usize,
    expires_at_ms: i64,
}

/// A durable receipt write that a state change asks for.
#[derive(Debug, Clone)]
pub struct ReceiptUpdate {
    pub receipt_id: String,
    pub status: &'static str,
    pub delivered_bytes: usize,
    pub complete: bool,
}

proof fn lemma_utf8_size_concat(a: Seq<char>, b: Seq<char>)
    ensures
        utf8_size(a + b) == utf8_size(a) + utf8_size(b),
    decreases b.len(),
{
    if b.len() > 0 {
        lemma_utf8_size_concat(a, b.drop_last());
        assert((a + b).drop_last() =~= a + b.drop_last());
    } else {
        assert(a + b =~= a);
    }
}

proof fn lemma_utf8_size_monotone(s: Seq<char>, a: int, j: int, k: int)
    requires
        0 <= a <= j <= k <= s.len(),
    ensures
        utf8_size(s.subrange(a, j)) <= utf8_size(s.subrange(a, k)),
    decreases k - j,
{
    if j < k {
        lemma_utf8_size_monotone(s, a, j, k - 1);
        assert(s.subrange(a, k).drop_last() =~= s.subrange(a, k - 1));
    }
}

/// Where a chunk that starts at character `from` ends: the most characters
/// whose UTF-8 size stays within `READ_CHUNK_BYTES`.
pub open spec fn is_chunk_end(s: Seq<char>, from: int, end: int) -> bool {
    &&& from <= end <= s.len()
    &&& utf8_size(s.subrange(from, end)) <= READ_CHUNK_BYTES
    &&& (end == s.len() || utf8_size(s.subrange(from, end + 1)) > READ_CHUNK_BYTES)
}

/// Why a read at the wrong cursor is refused: where the pass continues.
pub open spec fn cursor_error(delivered: nat) -> Seq<char> {
    "cursor must continue from byte "@ + decimal(delivered) + " for this one-way Context Pass"@
}

impl ContextPassRecord {
    /// Well-formed: the delivered prefix is a whole number of characters and
    /// the byte counts are those of the packet's UTF-8 encoding.
    pub closed spec fn wf(&self) -> bool {
        &&& self.delivered_chars <= self.content@.len()
        &&& self.delivered_bytes == utf8_size(self.content@.take(self.delivered_chars as int))
        &&& self.total_bytes == utf8_size(self.content@)
        &&& self.total_bytes <= MAX_PACKET_BYTES
    }

    pub closed spec fn packet(&self) -> Seq<char> {
        self.content@
    }

    pub closed spec fn delivered(&self) -> nat {
        self.delivered_bytes as nat
    }

    pub closed spec fn delivered_text(&self) -> Seq<char> {
        self.content@.take(self.delivered_chars as int)
    }

    pub closed spec fn owner(&self) -> Seq<char> {
        self.client_id@
    }

    pub closed spec fn pass_id(&self) -> Seq<char> {
        self.id@
    }

    pub closed spec fn expiry(&self) -> i64 {
        self.expires_at_ms
    }

    /// A fresh pass over an exact packet of at most `MAX_PACKET_BYTES` bytes;
    /// nothing of it is delivered yet.
    pub fn new(
        id: String,
        request_id: String,
        receipt_id: String,
        client_id: String,
        meeting_id: i64,
        resource_uri: String,
        source_revision: String,
        packet_hash: String,
        content: &str,
        expires_at_ms: i64,
    ) -> (r: Result<Self, String>)
        ensures
            r is Ok <==> utf8_size(content@) <= MAX_PACKET_BYTES,
            r matches Ok(p) ==> p.wf() && p.packet() == content@ && p.delivered() == 0
                && p.owner() == client_id@ && p.pass_id() == id@ && p.expiry() == expires_at_ms
                && p.receipt() == receipt_id@ && p.request() == request_id@ && p.meeting()
                == meeting_id && p.revision() == source_revision@,
    {
        let c = chars_of(content);
        let mut total: usize = 0;
        let mut i: usize = 0;
        while i < c.len()
            invariant
                c@ == content@,
                i <= c@.len(),
                total == utf8_size(c@.take(i as int)),
                total <= MAX_PACKET_BYTES,
            decreases c@.len() - i,
        {
            assert(c@.take(i + 1).drop_last() =~= c@.take(i as int));
            let n = char_utf8_len_exec(c[i]);
            if total + n > MAX_PACKET_BYTES {
                proof {
                    assert(c@.take(i + 1).last() == c@[i as int]);
                    assert(utf8_size(c@.take(i + 1)) == total + n);
                    lemma_utf8_size_concat(c@.take(i + 1), c@.subrange(i + 1, c@.len() as int));
                    assert(c@.take(i + 1) + c@.subrange(i + 1, c@.len() as int) =~= c@);
                }
                return Err(owned("the exact packet is above the byte limit"));
            }
            total = total + n;
            i = i + 1;
        }
        assert(c@.take(c@.len() as int) =~= c@);
        assert(c@.take(0) =~= Seq::<char>::empty());
        Ok(
            ContextPassRecord {
                id,
                request_id,
                receipt_id,
                client_id,
                meeting_id,
                resource_uri,
                source_revision,
                packet_hash,
                content: c,
                delivered_chars: 0,
                delivered_bytes: 0,
                total_bytes: total,
                expires_at_ms,
            },
        )
    }

    pub closed spec fn receipt(&self) -> Seq<char> {
        self.receipt_id@
    }

    pub closed spec fn request(&self) -> Seq<char> {
        self.request_id@
    }

    pub closed spec fn meeting(&self) -> i64 {
        self.meeting_id
    }

    pub closed spec fn revision(&self) -> Seq<char> {
        self.source_revision@
    }

    pub fn receipt_id(&self) -> (r: &String)
        ensures
            r@ == self.receipt(),
    {
        &self.receipt_id
    }

    pub fn request_id(&self) -> (r: &String)
        ensures
            r@ == self.request(),
    {
        &self.request_id
    }

    pub fn meeting_id(&self) -> (r: i64)
        ensures
            r == self.meeting(),
    {
        self.meeting_id
    }

    pub fn source_revision(&self) -> (r: &String)
        ensures
            r@ == self.revision(),
    {
        &self.source_revision
    }

    pub fn delivered_bytes(&self) -> (r: usize)
        ensures
            r == self.delivered(),
    {
        self.delivered_bytes
    }

    /// Delivers the next chunk of the packet. The cursor must continue
    /// exactly where the previous chunk ended; the chunk holds the most whole
    /// characters that fit in `READ_CHUNK_BYTES` bytes.
    pub fn next_chunk(&mut self, cursor: usize) -> (r: Result<PassChunk, String>)
        requires
            old(self).wf(),
        ensures
            final(self).wf(),
            final(self).receipt() == old(self).receipt(),
            final(self).request() == old(self).request(),
            final(self).owner() == old(self).owner(),
            final(self).pass_id() == old(self).pass_id(),
            final(self).expiry() == old(self).expiry(),
            final(self).meeting() == old(self).meeting(),
            final(self).revision() == old(self).revision(),
            cursor != old(self).delivered() ==> r is Err && *final(self) == *old(self),
            r matches Err(e) ==> e@ == cursor_error(old(self).delivered()),
            cursor == old(self).delivered() ==> r is Ok,
            r matches Ok(chunk) ==> {
                &&& chunk.cursor == cursor
                &&& is_chunk_end(
                    old(self).packet(),
                    old(self).delivered_text().len() as int,
                    final(self).delivered_text().len() as int,
                )
                &&& final(self).packet() == old(self).packet()
                &&& final(self).delivered_text() == old(self).delivered_text() + chunk.content@
                &&& final(self).delivered() == cursor + utf8_size(chunk.content@)
                &&& chunk.complete == (final(self).delivered_text() == old(self).packet())
                &&& chunk.next_cursor == if chunk.complete {
                    None
                } else {
                    Some(final(self).delivered() as usize)
                }
                &&& chunk.total_bytes == utf8_size(old(self).packet())
            },
    {
        if cursor != self.delivered_bytes {
            let mut m = chars_of("cursor must continue from byte ");
            push_decimal_usize(&mut m, self.delivered_bytes);
            let tail = chars_of(" for this one-way Context Pass");
            append_chars(&mut m, &tail);
            return Err(string_from_chars(&m));
        }
        let from = self.delivered_chars;
        let mut end = from;
        let mut size: usize = 0;
        while end < self.content.len() && size + char_utf8_len_exec(self.content[end])
            <= READ_CHUNK_BYTES
            invariant
                from <= end <= self.content@.len(),
                size == utf8_size(self.content@.subrange(from as int, end as int)),
                size <= READ_CHUNK_BYTES,
            decreases self.content@.len() - end,
        {
            assert(self.content@.subrange(from as int, end + 1).drop_last() =~= self.content@.subrange(
                from as int,
                end as int,
            ));
            size = size + char_utf8_len_exec(self.content[end]);
            end = end + 1;
        }
        if end < self.content.len() {
            assert(self.content@.subrange(from as int, end + 1).drop_last() =~= self.content@.subrange(
                from as int,
                end as int,
            ));
        }
        let piece = slice_range(&self.content, from, end);
        proof {
            assert(self.content@.take(end as int) =~= self.content@.take(from as int)
                + self.content@.subrange(from as int, end as int));
            lemma_utf8_size_concat(
                self.content@.take(from as int),
                self.content@.subrange(from as int, end as int),
            );
            lemma_utf8_size_concat(
                self.content@.take(end as int),
                self.content@.subrange(end as int, self.content@.len() as int),
            );
            assert(self.content@.take(end as int) + self.content@.subrange(
                end as int,
                self.content@.len() as int,
            ) =~= self.content@);
        }
        self.delivered_chars = end;
        self.delivered_bytes = self.delivered_bytes + size;
        let complete = end == self.content.len();
        proof {
            if complete {
                assert(self.content@.take(end as int) =~= self.content@);
            } else {
                assert(self.content@.take(end as int).len() < self.content@.len());
            }
        }
        Ok(
            PassChunk {
                pass_id: owned(&self.id),
                resource_uri: owned(&self.resource_uri),
                content: string_from_chars(&piece),
                cursor,
                next_cursor: if complete {
                    None
                } else {
                    Some(self.delivered_bytes)
                },
                complete,
                total_bytes: self.total_bytes,
                packet_hash: owned(&self.packet_hash),
            },
        )
    }
}

// ---------------------------------------------------------------------------
// Agent Access state
// ---------------------------------------------------------------------------

/// Agent Access: the persisted settings and the in-memory requests and
/// passes. Plaintext exists only in `passes`.
pub struct AgentAccess {
    dir: String,
    config: AgentConfig,
    requests: Vec<ContextRequestRecord>,
    passes: Vec<ContextPassRecord>,
}

pub open spec fn is_pending_for(r: ContextRequestRecord, client_id: Seq<char>) -> bool {
    r.client_id@ == client_id && r.state == RequestState::Pending
}

pub open spec fn count_pending(rs: Seq<ContextRequestRecord>) -> nat
    decreases rs.len(),
{
    if rs.len() == 0 {
        0
    } else {
        count_pending(rs.drop_last()) + if rs.last().state == RequestState::Pending {
            1nat
        } else {
            0nat
        }
    }
}

pub open spec fn count_pending_for(rs: Seq<ContextRequestRecord>, client_id: Seq<char>) -> nat
    decreases rs.len(),
{
    if rs.len() == 0 {
        0
    } else {
        count_pending_for(rs.drop_last(), client_id) + if is_pending_for(rs.last(), client_id) {
            1nat
        } else {
            0nat
        }
    }
}

/// `dir` joined with a relative file name, as `Path::join` joins them.
pub open spec fn path_join(dir: Seq<char>, file: Seq<char>) -> Seq<char> {
    if dir.len() == 0 {
        file
    } else if dir.last() == '/' {
        dir + file
    } else {
        dir + seq!['/'] + file
    }
}

pub open spec fn client_view(c: AgentClient) -> (Seq<char>, Seq<char>, Seq<char>, bool) {
    (c.id@, c.name@, c.created_at@, c.revoked_at is None)
}

/// The view of an optional string.
pub open spec fn opt_str_view(o: Option<String>) -> Option<Seq<char>> {
    match o {
        Some(t) => Some(t@),
        None => None,
    }
}

/// Every field of a client, as plain values.
pub open spec fn client_full_view(c: AgentClient) -> (
    Seq<char>,
    Seq<char>,
    Seq<char>,
    Option<Seq<char>>,
    Option<Seq<char>>,
) {
    (c.id@, c.name@, c.created_at@, opt_str_view(c.revoked_at), opt_str_view(c.last_seen_at))
}

/// Whether `i` is the first client named `id` that is not revoked.
pub open spec fn first_active_client(cs: Seq<AgentClient>, id: Seq<char>, i: int) -> bool {
    &&& 0 <= i < cs.len()
    &&& is_active_client(cs[i], id)
    &&& forall|k: int| 0 <= k < i ==> !is_active_client(#[trigger] cs[k], id)
}

/// Whether `i` is the first client named `id`, revoked or not.
pub open spec fn first_client_named(cs: Seq<AgentClient>, id: Seq<char>, i: int) -> bool {
    &&& 0 <= i < cs.len()
    &&& cs[i].id@ == id
    &&& forall|k: int| 0 <= k < i ==> (#[trigger] cs[k]).id@ != id
}

fn copy_option_string(o: &Option<String>) -> (r: Option<String>)
    ensures
        match (o, r) {
            (Some(a), Some(b)) => a@ == b@,
            (None, None) => true,
            _ => false,
        },
{
    match o {
        Some(s) => Some(owned(s)),
        None => None,
    }
}

fn copy_client(c: &AgentClient) -> (r: AgentClient)
    ensures
        client_view(r) == client_view(*c),
        client_full_view(r) == client_full_view(*c),
{
    AgentClient {
        id: owned(&c.id),
        name: owned(&c.name),
        created_at: owned(&c.created_at),
        revoked_at: copy_option_string(&c.revoked_at),
        last_seen_at: copy_option_string(&c.last_seen_at),
    }
}

/// The passes of `ps` that satisfy `keep`, in order.
pub open spec fn passes_where(ps: Seq<ContextPassRecord>, keep: spec_fn(ContextPassRecord) -> bool) -> Seq<
    ContextPassRecord,
>
    decreases ps.len(),
{
    if ps.len() == 0 {
        Seq::empty()
    } else if keep(ps.last()) {
        passes_where(ps.drop_last(), keep).push(ps.last())
    } else {
        passes_where(ps.drop_last(), keep)
    }
}

pub open spec fn not_owned_by(client_id: Seq<char>) -> spec_fn(ContextPassRecord) -> bool {
    |p: ContextPassRecord| p.owner() != client_id
}

pub open spec fn live_at(now_ms: i64) -> spec_fn(ContextPassRecord) -> bool {
    |p: ContextPassRecord| p.expiry() > now_ms
}

pub open spec fn due_at(now_ms: i64) -> spec_fn(ContextPassRecord) -> bool {
    |p: ContextPassRecord| p.expiry() <= now_ms
}

pub open spec fn owned_by(client_id: Seq<char>) -> spec_fn(ContextPassRecord) -> bool {
    |p: ContextPassRecord| p.owner() == client_id
}

/// Whether `updates` closes the receipts of `passes`, one for one and in
/// order, with `status`, recording how much each pass had delivered.
pub open spec fn closes_receipts(
    updates: Seq<ReceiptUpdate>,
    passes: Seq<ContextPassRecord>,
    status: Seq<char>,
) -> bool {
    &&& updates.len() == passes.len()
    &&& forall|k: int|
        0 <= k < updates.len() ==> (#[trigger] updates[k]).receipt_id@ == passes[k].receipt()
            && updates[k].status@ == status && updates[k].delivered_bytes as nat
            == passes[k].delivered() && updates[k].complete
}

pub open spec fn secret_matches(stored: Option<&str>, supplied: Seq<char>) -> bool {
    match stored {
        Some(s) => s@ == supplied,
        None => false,
    }
}

pub open spec fn is_active_client(c: AgentClient, id: Seq<char>) -> bool {
    c.id@ == id && c.revoked_at is None
}

/// The positions of the pending requests, in order.
pub open spec fn pending_positions(rs: Seq<ContextRequestRecord>) -> Seq<int>
    decreases rs.len(),
{
    if rs.len() == 0 {
        seq![]
    } else {
        let rest = pending_positions(rs.drop_last());
        if rs.last().state == RequestState::Pending {
            rest.push(rs.len() - 1)
        } else {
            rest
        }
    }
}

/// `x` placed after every position of `s` created no later than it.
pub open spec fn insert_by_creation(s: Seq<int>, x: int, rs: Seq<ContextRequestRecord>) -> Seq<int>
    decreases s.len(),
{
    if s.len() == 0 {
        seq![x]
    } else if rs[s.last()].created_at_ms <= rs[x].created_at_ms {
        s.push(x)
    } else {
        insert_by_creation(s.drop_last(), x, rs).push(s.last())
    }
}

/// The positions of `s`, oldest request first; requests created at the same
/// moment keep their order.
pub open spec fn by_creation(s: Seq<int>, rs: Seq<ContextRequestRecord>) -> Seq<int>
    decreases s.len(),
{
    if s.len() == 0 {
        seq![]
    } else {
        insert_by_creation(by_creation(s.drop_last(), rs), s.last(), rs)
    }
}

/// Whether the positions of `s` run from the oldest request to the newest.
pub open spec fn oldest_first(s: Seq<int>, rs: Seq<ContextRequestRecord>) -> bool {
    forall|a: int, b: int|
        0 <= a < b < s.len() ==> rs[#[trigger] s[a]].created_at_ms <= rs[#[trigger] s[b]].created_at_ms
}

proof fn lemma_insert_by_creation_members(s: Seq<int>, x: int, rs: Seq<ContextRequestRecord>)
    ensures
        insert_by_creation(s, x, rs).len() == s.len() + 1,
        forall|k: int|
            0 <= k < insert_by_creation(s, x, rs).len() ==> #[trigger] insert_by_creation(s, x, rs)[k]
                == x || s.contains(insert_by_creation(s, x, rs)[k]),
    decreases s.len(),
{
    if s.len() > 0 && rs[s.last()].created_at_ms > rs[x].created_at_ms {
        let d = s.drop_last();
        lemma_insert_by_creation_members(d, x, rs);
        let t = insert_by_creation(s, x, rs);
        assert forall|k: int| 0 <= k < t.len() implies #[trigger] t[k] == x || s.contains(t[k]) by {
            if k < t.len() - 1 {
                let e = insert_by_creation(d, x, rs)[k];
                assert(t[k] == e);
                if d.contains(e) {
                    let j = choose|j: int| 0 <= j < d.len() && d[j] == e;
                    assert(s[j] == e);
                }
            } else {
                assert(t[k] == s.last());
                assert(s[s.len() - 1] == s.last());
            }
        }
    } else if s.len() > 0 {
        let t = s.push(x);
        assert forall|k: int| 0 <= k < t.len() implies #[trigger] t[k] == x || s.contains(t[k]) by {
            if k < s.len() {
                assert(t[k] == s[k]);
            }
        }
    }
}

proof fn lemma_insert_by_creation_ordered(s: Seq<int>, x: int, rs: Seq<ContextRequestRecord>)
    requires
        oldest_first(s, rs),
    ensures
        oldest_first(insert_by_creation(s, x, rs), rs),
    decreases s.len(),
{
    if s.len() == 0 {
    } else if rs[s.last()].created_at_ms <= rs[x].created_at_ms {
        let t = s.push(x);
        assert forall|a: int, b: int| 0 <= a < b < t.len() implies rs[#[trigger] t[a]].created_at_ms
            <= rs[#[trigger] t[b]].created_at_ms by {
            if b == s.len() {
                if a < s.len() - 1 {
                    assert(rs[s[a]].created_at_ms <= rs[s[s.len() - 1]].created_at_ms);
                }
                assert(s[s.len() - 1] == s.last());
            }
        }
    } else {
        let d = s.drop_last();
        assert(oldest_first(d, rs)) by {
            assert forall|a: int, b: int| 0 <= a < b < d.len() implies rs[#[trigger] d[a]].created_at_ms
                <= rs[#[trigger] d[b]].created_at_ms by {
                assert(d[a] == s[a]);
                assert(d[b] == s[b]);
            }
        }
        lemma_insert_by_creation_ordered(d, x, rs);
        lemma_insert_by_creation_members(d, x, rs);
        let u = insert_by_creation(d, x, rs);
        let t = u.push(s.last());
        assert forall|a: int, b: int| 0 <= a < b < t.len() implies rs[#[trigger] t[a]].created_at_ms
            <= rs[#[trigger] t[b]].created_at_ms by {
            if b == u.len() {
                let e = u[a];
                assert(t[a] == e);
                assert(e == x || d.contains(e));
                if d.contains(e) {
                    let j = choose|j: int| 0 <= j < d.len() && d[j] == e;
                    assert(s[j] == e);
                    assert(rs[s[j]].created_at_ms <= rs[s[s.len() - 1]].created_at_ms);
                }
                assert(s[s.len() - 1] == s.last());
            } else {
                assert(t[a] == u[a]);
                assert(t[b] == u[b]);
            }
        }
    }
}

/// The pending requests are listed from the oldest to the newest.
pub proof fn lemma_pending_oldest_first(s: Seq<int>, rs: Seq<ContextRequestRecord>)
    ensures
        oldest_first(by_creation(s, rs), rs),
    decreases s.len(),
{
    if s.len() > 0 {
        lemma_pending_oldest_first(s.drop_last(), rs);
        lemma_insert_by_creation_ordered(by_creation(s.drop_last(), rs), s.last(), rs);
    }
}

/// Where `x` lands in `s` by [`insert_by_creation`]: after the last
/// position created no later than `x`, when the positions after `p` were
/// all created later.
proof fn lemma_insert_by_creation_at(s: Seq<int>, x: int, rs: Seq<ContextRequestRecord>, p: int)
    requires
        0 <= p <= s.len(),
        forall|j: int| p <= j < s.len() ==> rs[#[trigger] s[j]].created_at_ms > rs[x].created_at_ms,
        p > 0 ==> rs[s[p - 1]].created_at_ms <= rs[x].created_at_ms,
    ensures
        insert_by_creation(s, x, rs) == s.take(p).push(x) + s.skip(p),
    decreases s.len(),
{
    if s.len() == 0 {
        assert(s.take(p).push(x) + s.skip(p) =~= seq![x]);
    } else if p == s.len() {
        assert(s.take(p) =~= s);
        assert(s.skip(p) =~= Seq::<int>::empty());
        assert(s.take(p).push(x) + s.skip(p) =~= s.push(x));
    } else {
        assert(rs[s.last()].created_at_ms > rs[x].created_at_ms) by {
            assert(s.last() == s[s.len() - 1]);
        }
        let d = s.drop_last();
        assert forall|j: int| p <= j < d.len() implies rs[#[trigger] d[j]].created_at_ms
            > rs[x].created_at_ms by {
            assert(d[j] == s[j]);
        }
        if p > 0 {
            assert(d[p - 1] == s[p - 1]);
        }
        lemma_insert_by_creation_at(d, x, rs, p);
        assert(d.take(p) =~= s.take(p));
        assert(d.skip(p).push(s.last()) =~= s.skip(p));
        assert(insert_by_creation(d, x, rs).push(s.last()) =~= s.take(p).push(x) + s.skip(p));
    }
}

impl AgentAccess {
    pub closed spec fn wf(&self) -> bool {
        forall|i: int| 0 <= i < self.passes@.len() ==> (#[trigger] self.passes@[i]).wf()
    }

    pub closed spec fn directory(&self) -> Seq<char> {
        self.dir@
    }

    pub closed spec fn settings(&self) -> AgentConfig {
        self.config
    }

    pub closed spec fn request_records(&self) -> Seq<ContextRequestRecord> {
        self.requests@
    }

    pub closed spec fn pass_records(&self) -> Seq<ContextPassRecord> {
        self.passes@
    }

    /// Agent Access over the settings read from `dir`, with no request or
    /// pass in memory.
    pub fn new(dir: String, config: AgentConfig) -> (r: Self)
        ensures
            r.wf(),
            r.settings() == config,
            r.request_records().len() == 0,
            r.pass_records().len() == 0,
    {
        AgentAccess { dir, config, requests: Vec::new(), passes: Vec::new() }
    }

    /// The settings to persist.
    pub fn config(&self) -> (r: &AgentConfig)
        ensures
            *r == self.settings(),
    {
        &self.config
    }

    /// The broker's socket in the app data directory.
    pub fn socket_path(&self) -> (r: String)
        ensures
            r@ == path_join(self.directory(), SOCKET_FILE@),
    {
        let mut d = chars_of(&self.dir);
        let f = chars_of(SOCKET_FILE);
        if d.len() > 0 && d[d.len() - 1] != '/' {
            d.push('/');
        }
        let ghost before = d@;
        append_chars(&mut d, &f);
        string_from_chars(&d)
    }

    pub fn enabled(&self) -> (r: bool)
        ensures
            r == self.settings().enabled,
    {
        self.config.enabled
    }

    /// Whether Agent Access is on, its clients, and how many requests await
    /// the user.
    pub fn status(&self, helper_command: String) -> (r: AgentAccessStatus)
        ensures
            r.enabled == self.settings().enabled,
            r.pending_count == count_pending(self.request_records()),
            r.helper_command == helper_command,
            r.clients@.len() == self.settings().clients@.len(),
            forall|i: int|
                0 <= i < r.clients@.len() ==> client_view(#[trigger] r.clients@[i]) == client_view(
                    self.settings().clients@[i],
                ),
            forall|i: int|
                0 <= i < r.clients@.len() ==> client_full_view(#[trigger] r.clients@[i])
                    == client_full_view(self.settings().clients@[i]),
    {
        let mut clients: Vec<AgentClient> = Vec::new();
        let mut i: usize = 0;
        while i < self.config.clients.len()
            invariant
                i <= self.config.clients@.len(),
                clients@.len() == i,
                forall|k: int|
                    0 <= k < i ==> client_view(#[trigger] clients@[k]) == client_view(
                        self.config.clients@[k],
                    ),
                forall|k: int|
                    0 <= k < i ==> client_full_view(#[trigger] clients@[k]) == client_full_view(
                        self.config.clients@[k],
                    ),
            decreases self.config.clients@.len() - i,
        {
            clients.push(copy_client(&self.config.clients[i]));
            i = i + 1;
        }
        let mut pending: usize = 0;
        let mut j: usize = 0;
        while j < self.requests.len()
            invariant
                j <= self.requests@.len(),
                pending == count_pending(self.requests@.take(j as int)),
                pending <= j,
            decreases self.requests@.len() - j,
        {
            assert(self.requests@.take(j + 1).drop_last() =~= self.requests@.take(j as int));
            if self.requests[j].state == RequestState::Pending {
                pending = pending + 1;
            }
            j = j + 1;
        }
        assert(self.requests@.take(self.requests@.len() as int) =~= self.requests@);
        AgentAccessStatus {
            enabled: self.config.enabled,
            clients,
            pending_count: pending,
            helper_command,
        }
    }

    /// Authenticates a client by its Keychain secret (`stored_secret`, read
    /// by the caller): Agent Access must be on, the client registered and
    /// active, and the supplied secret byte-for-byte the stored one.
    pub fn authenticate(&self, client_id: &str, supplied_secret: &str, stored_secret: Option<&str>) -> (r:
        Result<AgentClient, String>)
        ensures
            r is Ok <==> self.settings().enabled && (exists|i: int|
                0 <= i < self.settings().clients@.len() && is_active_client(
                    #[trigger] self.settings().clients@[i],
                    client_id@,
                )) && secret_matches(stored_secret, supplied_secret@),
            r matches Ok(c) ==> c.id@ == client_id@ && c.revoked_at is None,
            r matches Ok(c) ==> exists|i: int|
                #[trigger] first_active_client(self.settings().clients@, client_id@, i)
                    && client_full_view(c) == client_full_view(self.settings().clients@[i]),
    {
        if !self.config.enabled {
            return Err(owned("Agent Access is disabled in Noted Settings"));
        }
        let mut i: usize = 0;
        let mut found: Option<usize> = None;
        while i < self.config.clients.len()
            invariant
                i <= self.config.clients@.len(),
                found is None ==> forall|k: int|
                    0 <= k < i ==> !is_active_client(#[trigger] self.config.clients@[k], client_id@),
                found matches Some(f) ==> f < self.config.clients@.len() && first_active_client(
                    self.config.clients@,
                    client_id@,
                    f as int,
                ),
            decreases self.config.clients@.len() - i,
        {
            if found.is_none() && str_eq(&self.config.clients[i].id, client_id)
                && self.config.clients[i].active() {
                found = Some(i);
            }
            i = i + 1;
        }
        let index = match found {
            None => return Err(owned("agent client is not registered or has been revoked")),
            Some(f) => f,
        };
        let stored = match stored_secret {
            None => return Err(owned("agent client credential is unavailable; reconnect it in Noted")),
            Some(s) => s,
        };
        let a = chars_of(stored);
        let b = chars_of(supplied_secret);
        if !crate::text::chars_eq(&a, &b) {
            return Err(owned("agent client authentication failed"));
        }
        proof {
            assert(is_active_client(self.settings().clients@[index as int], client_id@));
            assert(stored@ == supplied_secret@);
            assert(secret_matches(stored_secret, supplied_secret@));
        }
        let client = copy_client(&self.config.clients[index]);
        Ok(client)
    }

    /// Records that a client was seen now; `false` when no client has that id.
    pub fn mark_seen(&mut self, client_id: &str, now: String) -> (r: bool)
        requires
            old(self).wf(),
        ensures
            final(self).wf(),
            r == exists|i: int|
                0 <= i < old(self).settings().clients@.len()
                    && (#[trigger] old(self).settings().clients@[i]).id@ == client_id@,
            final(self).request_records() == old(self).request_records(),
            final(self).pass_records() == old(self).pass_records(),
            final(self).settings().enabled == old(self).settings().enabled,
            final(self).settings().clients@.len() == old(self).settings().clients@.len(),
            r ==> exists|i: int|
                0 <= i < final(self).settings().clients@.len() && (#[trigger] final(self).settings().clients@[i]).id@ == client_id@
                    && final(self).settings().clients@[i].last_seen_at == Some(now),
            forall|i: int|
                #![trigger final(self).settings().clients@[i]]
                0 <= i < old(self).settings().clients@.len() ==> if first_client_named(
                    old(self).settings().clients@,
                    client_id@,
                    i,
                ) {
                    client_full_view(final(self).settings().clients@[i]) == (
                        old(self).settings().clients@[i].id@,
                        old(self).settings().clients@[i].name@,
                        old(self).settings().clients@[i].created_at@,
                        opt_str_view(old(self).settings().clients@[i].revoked_at),
                        Some(now@),
                    )
                } else {
                    final(self).settings().clients@[i] == old(self).settings().clients@[i]
                },
    {
        let mut i: usize = 0;
        while i < self.config.clients.len()
            invariant
                i <= self.config.clients@.len(),
                self.config == old(self).config,
                self.requests == old(self).requests,
                self.passes == old(self).passes,
                forall|k: int| 0 <= k < self.passes@.len() ==> (#[trigger] self.passes@[k]).wf(),
                forall|k: int| 0 <= k < i ==> (#[trigger] self.config.clients@[k]).id@ != client_id@,
            decreases self.config.clients@.len() - i,
        {
            if str_eq(&self.config.clients[i].id, client_id) {
                let ghost before = self.config.clients@;
                let mut client = copy_client(&self.config.clients[i]);
                client.last_seen_at = Some(now);
                self.config.clients.set(i, client);
                assert(self.settings().clients@[i as int].id@ == client_id@);
                assert(first_client_named(before, client_id@, i as int));
                assert forall|j: int| #[trigger] first_client_named(before, client_id@, j) implies j == i by {
                    if j > i {
                        assert(before[i as int].id@ == client_id@);
                    }
                }
                return true;
            }
            i = i + 1;
        }
        false
    }

    /// Switches Agent Access on or off. Off denies every pending request and
    /// revokes every pass, erasing its plaintext.
    pub fn set_enabled(&mut self, enabled: bool) -> (r: Vec<ReceiptUpdate>)
        requires
            old(self).wf(),
        ensures
            final(self).wf(),
            final(self).settings().enabled == enabled,
            final(self).settings().clients == old(self).settings().clients,
            enabled ==> final(self).pass_records() == old(self).pass_records() && r@.len() == 0
                && final(self).request_records() == old(self).request_records(),
            !enabled ==> final(self).pass_records().len() == 0 && r@.len() == old(self).pass_records().len(),
            !enabled ==> closes_receipts(r@, old(self).pass_records(), "revoked"@),
            !enabled ==> forall|i: int|
                0 <= i < final(self).request_records().len() ==> (#[trigger] final(self).request_records()[i]).state != RequestState::Pending,
            final(self).request_records().len() == old(self).request_records().len(),
    {
        self.config.enabled = enabled;
        let mut updates: Vec<ReceiptUpdate> = Vec::new();
        if enabled {
            return updates;
        }
        let mut old_requests: Vec<ContextRequestRecord> = Vec::new();
        std::mem::swap(&mut old_requests, &mut self.requests);
        let ghost previous = old_requests@;
        for record in it: old_requests.into_iter()
            invariant
                it.seq() == previous,
                previous.len() == old(self).requests@.len(),
                self.requests@.len() == it.index(),
                self.config.enabled == enabled,
                self.config.clients == old(self).config.clients,
                self.passes == old(self).passes,
                forall|k: int| 0 <= k < self.passes@.len() ==> (#[trigger] self.passes@[k]).wf(),
                forall|k: int|
                    0 <= k < self.requests@.len() ==> (#[trigger] self.requests@[k]).state
                        != RequestState::Pending,
        {
            let mut record = record;
            if record.state == RequestState::Pending {
                record.state = RequestState::Denied;
            }
            self.requests.push(record);
        }
        let mut j: usize = 0;
        while j < self.passes.len()
            invariant
                j <= self.passes@.len(),
                updates@.len() == j,
                closes_receipts(updates@, self.passes@.take(j as int), "revoked"@),
                self.passes == old(self).passes,
                self.config.enabled == enabled,
                self.config.clients == old(self).config.clients,
                self.requests@.len() == old(self).requests@.len(),
                forall|k: int|
                    0 <= k < self.requests@.len() ==> (#[trigger] self.requests@[k]).state
                        != RequestState::Pending,
            decreases self.passes@.len() - j,
        {
            let p = &self.passes[j];
            updates.push(
                ReceiptUpdate {
                    receipt_id: owned(&p.receipt_id),
                    status: "revoked",
                    delivered_bytes: p.delivered_bytes,
                    complete: true,
                },
            );
            j = j + 1;
        }
        self.passes = Vec::new();
        updates
    }

    /// Marks an active client revoked at `now` in the settings.
    pub fn revoke_client_config(&mut self, client_id: &str, now: String) -> (r: Result<(), String>)
        requires
            old(self).wf(),
        ensures
            final(self).wf(),
            r is Ok <==> exists|i: int|
                0 <= i < old(self).settings().clients@.len() && is_active_client(
                    #[trigger] old(self).settings().clients@[i],
                    client_id@,
                ),
            r is Err ==> final(self).settings() == old(self).settings(),
            final(self).request_records() == old(self).request_records(),
            final(self).pass_records() == old(self).pass_records(),
            final(self).settings().clients@.len() == old(self).settings().clients@.len(),
            final(self).settings().enabled == old(self).settings().enabled,
            r is Ok ==> exists|i: int|
                0 <= i < final(self).settings().clients@.len() && (#[trigger] final(self).settings().clients@[i]).id@ == client_id@
                    && final(self).settings().clients@[i].revoked_at == Some(now),
    {
        let mut i: usize = 0;
        while i < self.config.clients.len()
            invariant
                i <= self.config.clients@.len(),
                self.config == old(self).config,
                self.requests == old(self).requests,
                self.passes == old(self).passes,
                forall|k: int| 0 <= k < self.passes@.len() ==> (#[trigger] self.passes@[k]).wf(),
                forall|k: int|
                    0 <= k < i ==> !is_active_client(#[trigger] self.config.clients@[k], client_id@),
            decreases self.config.clients@.len() - i,
        {
            if str_eq(&self.config.clients[i].id, client_id) && self.config.clients[i].active() {
                assert(is_active_client(old(self).settings().clients@[i as int], client_id@));
                let mut client = copy_client(&self.config.clients[i]);
                client.revoked_at = Some(now);
                self.config.clients.set(i, client);
                assert(self.settings().clients@[i as int].id@ == client_id@);
                return Ok(());
            }
            i = i + 1;
        }
        assert(forall|k: int|
            0 <= k < old(self).settings().clients@.len() ==> !is_active_client(
                #[trigger] old(self).settings().clients@[k],
                client_id@,
            ));
        Err(owned("active agent client not found"))
    }

    /// Denies a revoked client's pending requests and revokes its passes.
    pub fn revoke_client_runtime(&mut self, client_id: &str) -> (r: Vec<ReceiptUpdate>)
        requires
            old(self).wf(),
        ensures
            final(self).wf(),
            forall|i: int|
                0 <= i < final(self).request_records().len() ==> !is_pending_for(
                    #[trigger] final(self).request_records()[i],
                    client_id@,
                ),
            forall|i: int|
                0 <= i < final(self).pass_records().len() ==> (#[trigger] final(self).pass_records()[i]).owner() != client_id@,
            final(self).pass_records() == passes_where(old(self).pass_records(), not_owned_by(client_id@)),
            r@.len() + final(self).pass_records().len() == old(self).pass_records().len(),
            closes_receipts(r@, passes_where(old(self).pass_records(), owned_by(client_id@)), "revoked"@),
            final(self).settings() == old(self).settings(),
    {
        let mut old_requests: Vec<ContextRequestRecord> = Vec::new();
        std::mem::swap(&mut old_requests, &mut self.requests);
        let ghost previous = old_requests@;
        for record in it: old_requests.into_iter()
            invariant
                it.seq() == previous,
                self.passes == old(self).passes,
                self.config == old(self).config,
                forall|k: int|
                    0 <= k < self.requests@.len() ==> !is_pending_for(
                        #[trigger] self.requests@[k],
                        client_id@,
                    ),
        {
            let mut record = record;
            if record.state == RequestState::Pending && str_eq(&record.client_id, client_id) {
                record.state = RequestState::Denied;
            }
            self.requests.push(record);
        }
        let mut updates: Vec<ReceiptUpdate> = Vec::new();
        let mut old_passes: Vec<ContextPassRecord> = Vec::new();
        std::mem::swap(&mut old_passes, &mut self.passes);
        let ghost passes0 = old_passes@;
        for p in it: old_passes.into_iter()
            invariant
                it.seq() == passes0,
                passes0 == old(self).passes@,
                self.passes@ == passes_where(passes0.take(it.index() as int), not_owned_by(client_id@)),
                updates@.len() + self.passes@.len() == it.index(),
                closes_receipts(
                    updates@,
                    passes_where(passes0.take(it.index() as int), owned_by(client_id@)),
                    "revoked"@,
                ),
                forall|k: int| 0 <= k < passes0.len() ==> (#[trigger] passes0[k]).wf(),
                forall|k: int| 0 <= k < self.passes@.len() ==> (#[trigger] self.passes@[k]).wf(),
                forall|k: int|
                    0 <= k < self.passes@.len() ==> (#[trigger] self.passes@[k]).owner()
                        != client_id@,
                self.config == old(self).config,
                forall|k: int|
                    0 <= k < self.requests@.len() ==> !is_pending_for(
                        #[trigger] self.requests@[k],
                        client_id@,
                    ),
        {
            proof {
                let i = it.index() as int;
                assert(passes0.take(i + 1).drop_last() =~= passes0.take(i));
                assert(passes0.take(i + 1).last() == p);
            }
            if str_eq(&p.client_id, client_id) {
                updates.push(
                    ReceiptUpdate {
                        receipt_id: owned(&p.receipt_id),
                        status: "revoked",
                        delivered_bytes: p.delivered_bytes,
                        complete: true,
                    },
                );
            } else {
                self.passes.push(p);
            }
        }
        assert(passes0.take(passes0.len() as int) =~= passes0);
        updates
    }

    /// Marks the request a pass was approved for as settled: the first
    /// request with that id turns expired; every other request stays as it
    /// was.
    fn settle_request(&mut self, request_id: &str)
        ensures
            final(self).passes == old(self).passes,
            final(self).config == old(self).config,
            final(self).requests@.len() == old(self).requests@.len(),
            forall|k: int|
                0 <= k < final(self).requests@.len() ==> (#[trigger] final(self).requests@[k]).expires_at_ms
                    == old(self).requests@[k].expires_at_ms && (final(self).requests@[k].state
                    == old(self).requests@[k].state || final(self).requests@[k].state
                    == RequestState::Expired),
            forall|k: int|
                0 <= k < final(self).requests@.len() ==> #[trigger] final(self).requests@[k] == if first_with_id(
                    old(self).requests@,
                    request_id@,
                    k,
                ) {
                    expired_copy(old(self).requests@[k])
                } else {
                    old(self).requests@[k]
                },
    {
        let mut old_requests: Vec<ContextRequestRecord> = Vec::new();
        std::mem::swap(&mut old_requests, &mut self.requests);
        let ghost previous = old_requests@;
        let mut done = false;
        for record in it: old_requests.into_iter()
            invariant
                it.seq() == previous,
                previous == old(self).requests@,
                self.passes == old(self).passes,
                self.config == old(self).config,
                self.requests@.len() == it.index(),
                done <==> exists|j: int| 0 <= j < it.index() && (#[trigger] previous[j]).id@ == request_id@,
                forall|k: int|
                    0 <= k < self.requests@.len() ==> (#[trigger] self.requests@[k]).expires_at_ms
                        == previous[k].expires_at_ms && (self.requests@[k].state
                        == previous[k].state || self.requests@[k].state == RequestState::Expired),
                forall|k: int|
                    0 <= k < self.requests@.len() ==> #[trigger] self.requests@[k] == if first_with_id(
                        previous,
                        request_id@,
                        k,
                    ) {
                        expired_copy(previous[k])
                    } else {
                        previous[k]
                    },
        {
            let ghost k = it.index();
            assert(record == previous[k as int]);
            let mut record = record;
            let ghost before = self.requests@;
            if !done && str_eq(&record.id, request_id) {
                record.state = RequestState::Expired;
                done = true;
                assert(first_with_id(previous, request_id@, k as int));
                assert(record == expired_copy(previous[k as int]));
            } else {
                assert(!first_with_id(previous, request_id@, k as int));
            }
            self.requests.push(record);
            assert forall|q: int| 0 <= q < self.requests@.len() implies #[trigger] self.requests@[q]
                == if first_with_id(previous, request_id@, q) {
                expired_copy(previous[q])
            } else {
                previous[q]
            } by {
                if q < k {
                    assert(self.requests@[q] == before[q]);
                }
            }
            assert(done <==> exists|j: int| 0 <= j < k + 1 && (#[trigger] previous[j]).id@ == request_id@) by {
                if previous[k as int].id@ == request_id@ {
                    assert(exists|j: int| 0 <= j < k + 1 && (#[trigger] previous[j]).id@ == request_id@);
                }
            }
        }
    }

    /// Expires pending requests and passes whose time has come at `now_ms`,
    /// erasing expired plaintext, and forgets settled requests older than a
    /// pass lifetime.
    pub fn cleanup_expired(&mut self, now_ms: i64) -> (r: Vec<ReceiptUpdate>)
        requires
            old(self).wf(),
        ensures
            final(self).wf(),
            forall|i: int|
                0 <= i < final(self).pass_records().len() ==> (#[trigger] final(self).pass_records()[i]).expiry() > now_ms,
            final(self).pass_records() == passes_where(old(self).pass_records(), live_at(now_ms)),
            r@.len() + final(self).pass_records().len() == old(self).pass_records().len(),
            closes_receipts(r@, passes_where(old(self).pass_records(), due_at(now_ms)), "expired"@),
            forall|i: int|
                0 <= i < final(self).request_records().len() ==> !((#[trigger] final(self).request_records()[i]).state == RequestState::Pending && final(self).request_records()[i].expires_at_ms <= now_ms),
            final(self).settings() == old(self).settings(),
            forall|i: int|
                0 <= i < old(self).request_records().len() && ((
                #[trigger] old(self).request_records()[i]).state == RequestState::Approved || (old(
                    self,
                ).request_records()[i].state == RequestState::Pending && old(
                    self,
                ).request_records()[i].expires_at_ms > now_ms)) && !expired_pass_for(
                    old(self).pass_records(),
                    old(self).pass_records().len() as int,
                    now_ms,
                    old(self).request_records()[i].id@,
                ) ==> final(self).request_records().contains(old(self).request_records()[i]),
            forall|i: int|
                0 <= i < old(self).request_records().len() && now_ms - (
                #[trigger] old(self).request_records()[i]).expires_at_ms < PASS_TTL_MS
                    ==> final(self).request_records().contains(old(self).request_records()[i])
                    || final(self).request_records().contains(
                    expired_copy(old(self).request_records()[i]),
                ),
            forall|j: int|
                0 <= j < final(self).request_records().len() ==> ((
                #[trigger] final(self).request_records()[j]).state == RequestState::Pending
                    || final(self).request_records()[j].state == RequestState::Approved || now_ms
                    - final(self).request_records()[j].expires_at_ms < PASS_TTL_MS) && exists|i: int|
                    0 <= i < old(self).request_records().len() && (final(self).request_records()[j]
                        == #[trigger] old(self).request_records()[i]
                        || final(self).request_records()[j] == expired_copy(
                        old(self).request_records()[i],
                    )),
    {
        let mut old_requests: Vec<ContextRequestRecord> = Vec::new();
        std::mem::swap(&mut old_requests, &mut self.requests);
        let ghost previous = old_requests@;
        assert(previous == old(self).requests@);
        for record in it: old_requests.into_iter()
            invariant
                it.seq() == previous,
                self.passes == old(self).passes,
                self.config == old(self).config,
                self.requests@.len() == it.index(),
                forall|k: int|
                    0 <= k < it.index() ==> #[trigger] self.requests@[k] == after_expiry(
                        previous[k],
                        now_ms,
                    ),
                forall|k: int|
                    0 <= k < self.requests@.len() ==> !((#[trigger] self.requests@[k]).state
                        == RequestState::Pending && self.requests@[k].expires_at_ms <= now_ms),
        {
            let mut record = record;
            if record.state == RequestState::Pending && record.expires_at_ms <= now_ms {
                record.state = RequestState::Expired;
            }
            self.requests.push(record);
        }
        let ghost expired_due = self.requests@;
        let mut updates: Vec<ReceiptUpdate> = Vec::new();
        let mut old_passes: Vec<ContextPassRecord> = Vec::new();
        std::mem::swap(&mut old_passes, &mut self.passes);
        let ghost passes0 = old_passes@;
        for p in it: old_passes.into_iter()
            invariant
                it.seq() == passes0,
                self.requests@.len() == expired_due.len(),
                forall|k: int|
                    0 <= k < expired_due.len() && !expired_pass_for(
                        passes0,
                        it.index() as int,
                        now_ms,
                        (#[trigger] expired_due[k]).id@,
                    ) ==> self.requests@[k] == expired_due[k],
                forall|k: int|
                    0 <= k < expired_due.len() ==> #[trigger] self.requests@[k] == expired_due[k]
                        || self.requests@[k] == expired_copy(expired_due[k]),
                passes0 == old(self).passes@,
                self.passes@ == passes_where(passes0.take(it.index() as int), live_at(now_ms)),
                updates@.len() + self.passes@.len() == it.index(),
                closes_receipts(
                    updates@,
                    passes_where(passes0.take(it.index() as int), due_at(now_ms)),
                    "expired"@,
                ),
                forall|k: int| 0 <= k < passes0.len() ==> (#[trigger] passes0[k]).wf(),
                forall|k: int| 0 <= k < self.passes@.len() ==> (#[trigger] self.passes@[k]).wf(),
                forall|k: int|
                    0 <= k < self.passes@.len() ==> (#[trigger] self.passes@[k]).expiry() > now_ms,
                self.config == old(self).config,
                forall|k: int|
                    0 <= k < self.requests@.len() ==> !((#[trigger] self.requests@[k]).state
                        == RequestState::Pending && self.requests@[k].expires_at_ms <= now_ms),
        {
            proof {
                let i = it.index() as int;
                assert(passes0.take(i + 1).drop_last() =~= passes0.take(i));
                assert(passes0.take(i + 1).last() == p);
                assert(passes0[i] == p);
                assert forall|k: int|
                    0 <= k < expired_due.len() && !expired_pass_for(
                        passes0,
                        i + 1,
                        now_ms,
                        #[trigger] expired_due[k].id@,
                    ) implies !expired_pass_for(passes0, i, now_ms, expired_due[k].id@) && !(
                p.expiry() <= now_ms && p.request() == expired_due[k].id@) by {
                    if expired_pass_for(passes0, i, now_ms, expired_due[k].id@) {
                        let j = choose|j: int|
                            0 <= j < i && (#[trigger] passes0[j]).expiry() <= now_ms
                                && passes0[j].request() == expired_due[k].id@;
                        assert(0 <= j < i + 1 && passes0[j].expiry() <= now_ms);
                    }
                    if p.expiry() <= now_ms && p.request() == expired_due[k].id@ {
                        assert(passes0[i].expiry() <= now_ms);
                    }
                }
            }
            let ghost before_settle = self.requests@;
            if p.expires_at_ms <= now_ms {
                updates.push(
                    ReceiptUpdate {
                        receipt_id: owned(&p.receipt_id),
                        status: "expired",
                        delivered_bytes: p.delivered_bytes,
                        complete: true,
                    },
                );
                self.settle_request(&p.request_id);
            } else {
                self.passes.push(p);
            }
        }
        assert(passes0.take(passes0.len() as int) =~= passes0);
        let mut settled: Vec<ContextRequestRecord> = Vec::new();
        std::mem::swap(&mut settled, &mut self.requests);
        let ghost requests1 = settled@;
        proof {
            assert forall|i: int|
                0 <= i < old(self).requests@.len() && ((#[trigger] old(self).requests@[i]).state
                    == RequestState::Approved || (old(self).requests@[i].state
                    == RequestState::Pending && old(self).requests@[i].expires_at_ms > now_ms))
                    && !expired_pass_for(
                    passes0,
                    passes0.len() as int,
                    now_ms,
                    old(self).requests@[i].id@,
                ) implies requests1[i] == old(self).requests@[i] && kept_after_cleanup(
                requests1[i],
                now_ms,
            ) by {
                assert(expired_due[i] == after_expiry(previous[i], now_ms));
            }
            assert forall|i: int| 0 <= i < requests1.len() implies #[trigger] requests1[i]
                == old(self).requests@[i] || requests1[i] == expired_copy(old(self).requests@[i]) by {
                assert(expired_due[i] == after_expiry(previous[i], now_ms));
            }
        }
        for record in it: settled.into_iter()
            invariant
                it.seq() == requests1,
                requests1.len() == old(self).requests@.len(),
                forall|m: int|
                    0 <= m < requests1.len() ==> #[trigger] requests1[m] == old(self).requests@[m]
                        || requests1[m] == expired_copy(old(self).requests@[m]),
                forall|m: int|
                    0 <= m < it.index() && kept_after_cleanup(#[trigger] requests1[m], now_ms)
                        ==> self.requests@.contains(requests1[m]),
                forall|j: int|
                    0 <= j < self.requests@.len() ==> kept_after_cleanup(
                        #[trigger] self.requests@[j],
                        now_ms,
                    ) && requests1.contains(self.requests@[j]),
                passes0 == old(self).passes@,
                self.passes@ == passes_where(passes0, live_at(now_ms)),
                updates@.len() + self.passes@.len() == passes0.len(),
                closes_receipts(updates@, passes_where(passes0, due_at(now_ms)), "expired"@),
                forall|m: int|
                    0 <= m < requests1.len() ==> !((#[trigger] requests1[m]).state
                        == RequestState::Pending && requests1[m].expires_at_ms <= now_ms),
                forall|m: int|
                    0 <= m < self.requests@.len() ==> !((#[trigger] self.requests@[m]).state
                        == RequestState::Pending && self.requests@[m].expires_at_ms <= now_ms),
                forall|m: int| 0 <= m < self.passes@.len() ==> (#[trigger] self.passes@[m]).wf(),
                forall|m: int|
                    0 <= m < self.passes@.len() ==> (#[trigger] self.passes@[m]).expiry() > now_ms,
                self.config == old(self).config,
        {
            let ghost before_keep = self.requests@;
            let keep = record.state == RequestState::Pending || record.state
                == RequestState::Approved || settled_recently(now_ms, record.expires_at_ms);
            if keep {
                self.requests.push(record);
            }
            proof {
                let i = it.index() as int;
                assert(requests1[i] == record);
                assert forall|m: int|
                    0 <= m < i + 1 && kept_after_cleanup(#[trigger] requests1[m], now_ms)
                        implies self.requests@.contains(requests1[m]) by {
                    if m == i {
                        assert(keep);
                        assert(self.requests@[self.requests@.len() - 1] == record);
                    } else {
                        assert(before_keep.contains(requests1[m]));
                        let n = choose|n: int| 0 <= n < before_keep.len() && before_keep[n] == requests1[m];
                        assert(self.requests@[n] == before_keep[n]);
                    }
                }
            }
        }
        proof {
            assert forall|i: int|
                0 <= i < old(self).requests@.len() && now_ms - (
                #[trigger] old(self).requests@[i]).expires_at_ms < PASS_TTL_MS implies self.requests@.contains(
                old(self).requests@[i],
            ) || self.requests@.contains(expired_copy(old(self).requests@[i])) by {
                assert(requests1[i] == old(self).requests@[i] || requests1[i] == expired_copy(
                    old(self).requests@[i],
                ));
                assert(requests1[i].expires_at_ms == old(self).requests@[i].expires_at_ms);
                assert(kept_after_cleanup(requests1[i], now_ms));
            }
        }
        updates
    }
}

/// A decision the user took on a pending request, once checked.
#[derive(Debug, Clone, Copy, PartialEq, Eq, Structural)]
pub enum ResolveStep {
    Deny,
    Approve(i64),
}

/// Whether `i` is the first pending request named `request_id`.
pub open spec fn first_pending(rs: Seq<ContextRequestRecord>, request_id: Seq<char>, i: int) -> bool {
    &&& 0 <= i < rs.len()
    &&& rs[i].id@ == request_id
    &&& rs[i].state == RequestState::Pending
    &&& forall|k: int|
        0 <= k < i ==> !((#[trigger] rs[k]).id@ == request_id && rs[k].state == RequestState::Pending)
}

/// Whether `k` is the first request named `request_id`.
pub open spec fn first_with_id(rs: Seq<ContextRequestRecord>, request_id: Seq<char>, k: int) -> bool {
    &&& 0 <= k < rs.len()
    &&& rs[k].id@ == request_id
    &&& forall|j: int| 0 <= j < k ==> (#[trigger] rs[j]).id@ != request_id
}

/// A request as the first step of a clean-up leaves it: pending and due,
/// it expires; otherwise it is as it was.
pub open spec fn after_expiry(r: ContextRequestRecord, now_ms: i64) -> ContextRequestRecord {
    if r.state == RequestState::Pending && r.expires_at_ms <= now_ms {
        expired_copy(r)
    } else {
        r
    }
}

/// Whether one of the first `n` passes is due at `now_ms` and belongs to the
/// request named `request_id`.
pub open spec fn expired_pass_for(
    passes: Seq<ContextPassRecord>,
    n: int,
    now_ms: i64,
    request_id: Seq<char>,
) -> bool {
    exists|j: int|
        0 <= j < n && (#[trigger] passes[j]).expiry() <= now_ms && passes[j].request() == request_id
}

/// Whether a clean-up keeps a request in memory.
pub open spec fn kept_after_cleanup(r: ContextRequestRecord, now_ms: i64) -> bool {
    r.state == RequestState::Pending || r.state == RequestState::Approved || now_ms - r.expires_at_ms
        < PASS_TTL_MS
}

/// A request as it reads once settled.
pub open spec fn expired_copy(r: ContextRequestRecord) -> ContextRequestRecord {
    ContextRequestRecord { state: RequestState::Expired, ..r }
}

/// Whether some request named `request_id` is pending.
pub open spec fn any_pending(rs: Seq<ContextRequestRecord>, request_id: Seq<char>) -> bool {
    exists|i: int|
        0 <= i < rs.len() && (#[trigger] rs[i]).id@ == request_id && rs[i].state == RequestState::Pending
}

pub open spec fn has_candidate(r: ContextRequestRecord, meeting_id: i64) -> bool {
    exists|i: int| 0 <= i < r.candidates@.len() && (#[trigger] r.candidates@[i]).meeting_id == meeting_id
}

fn candidate_listed(r: &ContextRequestRecord, meeting_id: i64) -> (b: bool)
    ensures
        b == has_candidate(*r, meeting_id),
{
    let mut i: usize = 0;
    while i < r.candidates.len()
        invariant
            i <= r.candidates@.len(),
            forall|k: int| 0 <= k < i ==> (#[trigger] r.candidates@[k]).meeting_id != meeting_id,
        decreases r.candidates@.len() - i,
    {
        if r.candidates[i].meeting_id == meeting_id {
            return true;
        }
        i = i + 1;
    }
    false
}

pub open spec fn pass_for(p: ContextPassRecord, client_id: Seq<char>, pass_id: Seq<char>) -> bool {
    p.pass_id() == pass_id && p.owner() == client_id
}

/// Whether `chunk` is the next chunk of pass `p`: it starts at the pass's
/// delivered count and holds the packet's characters from there up to the
/// chunk end.
pub open spec fn next_chunk_of(p: ContextPassRecord, chunk: PassChunk) -> bool {
    let from = p.delivered_text().len() as int;
    let end = from + chunk.content@.len();
    &&& chunk.cursor == p.delivered()
    &&& is_chunk_end(p.packet(), from, end)
    &&& chunk.content@ == p.packet().subrange(from, end)
    &&& chunk.complete == (end == p.packet().len())
    &&& chunk.total_bytes == utf8_size(p.packet())
    &&& chunk.next_cursor == if chunk.complete {
        None
    } else {
        Some((p.delivered() + utf8_size(chunk.content@)) as usize)
    }
}

/// Whether `q` is pass `p` after delivering `chunk`.
pub open spec fn advanced_by(p: ContextPassRecord, q: ContextPassRecord, chunk: PassChunk) -> bool {
    &&& q.packet() == p.packet()
    &&& q.delivered_text() == p.delivered_text() + chunk.content@
    &&& q.delivered() == p.delivered() + utf8_size(chunk.content@)
    &&& q.pass_id() == p.pass_id()
    &&& q.owner() == p.owner()
    &&& q.receipt() == p.receipt()
    &&& q.request() == p.request()
    &&& q.expiry() == p.expiry()
}

/// Whether `i` is the first of the passes that is `pass_id` of `client_id`.
pub open spec fn first_pass_for(
    ps: Seq<ContextPassRecord>,
    client_id: Seq<char>,
    pass_id: Seq<char>,
    i: int,
) -> bool {
    &&& 0 <= i < ps.len()
    &&& pass_for(ps[i], client_id, pass_id)
    &&& forall|k: int| 0 <= k < i ==> !pass_for(#[trigger] ps[k], client_id, pass_id)
}

/// Reads of a pass are bound to its client and end with its last chunk: a
/// read of the pass by any other client finds no pass, and once the chunk
/// read at the pass's cursor completes it, the pass is erased so that no
/// later read finds it. With `read_pass`, which succeeds exactly when a pass
/// is found and the cursor is the delivered count, every such read fails.
pub proof fn lemma_pass_reads_are_bound_and_final(
    passes: Seq<ContextPassRecord>,
    client_id: Seq<char>,
    other_client: Seq<char>,
    pass_id: Seq<char>,
    i: int,
    chunk: PassChunk,
)
    requires
        first_pass_for(passes, client_id, pass_id, i),
        forall|k: int| 0 <= k < passes.len() && k != i ==> (#[trigger] passes[k]).pass_id() != pass_id,
        other_client != client_id,
    ensures
        !exists|j: int| #[trigger] first_pass_for(passes, other_client, pass_id, j),
        next_chunk_of(passes[i], chunk) && chunk.complete ==> !exists|j: int|
            #[trigger] first_pass_for(passes.remove(i), client_id, pass_id, j),
{
    assert forall|j: int| !#[trigger] first_pass_for(passes, other_client, pass_id, j) by {
        if first_pass_for(passes, other_client, pass_id, j) {
            if j != i {
                assert(passes[j].pass_id() != pass_id);
            }
        }
    }
    assert forall|j: int| !#[trigger] first_pass_for(passes.remove(i), client_id, pass_id, j) by {
        if first_pass_for(passes.remove(i), client_id, pass_id, j) {
            let k = if j < i { j } else { j + 1 };
            assert(passes.remove(i)[j] == passes[k]);
        }
    }
}

impl AgentAccess {
    fn find_request(&self, request_id: &str, pending_only: bool) -> (r: Option<usize>)
        ensures
            match r {
                Some(i) => i < self.requests@.len() && self.requests@[i as int].id@ == request_id@
                    && (pending_only ==> self.requests@[i as int].state == RequestState::Pending)
                    && forall|k: int|
                    0 <= k < i ==> !((#[trigger] self.requests@[k]).id@ == request_id@ && (
                    pending_only ==> self.requests@[k].state == RequestState::Pending)),
                None => forall|k: int|
                    0 <= k < self.requests@.len() ==> !((#[trigger] self.requests@[k]).id@
                        == request_id@ && (pending_only ==> self.requests@[k].state
                        == RequestState::Pending)),
            },
    {
        let mut i: usize = 0;
        while i < self.requests.len()
            invariant
                i <= self.requests@.len(),
                forall|k: int|
                    0 <= k < i ==> !((#[trigger] self.requests@[k]).id@ == request_id@ && (pending_only
                        ==> self.requests@[k].state == RequestState::Pending)),
            decreases self.requests@.len() - i,
        {
            if str_eq(&self.requests[i].id, request_id) && (!pending_only || self.requests[i].state
                == RequestState::Pending) {
                return Some(i);
            }
            i = i + 1;
        }
        None
    }

    /// Admission of a new context request from a client: an identical
    /// pending request is answered again (`Some` of its id and expiry), and a
    /// client may hold at most `MAX_PENDING_PER_CLIENT` pending requests.
    pub fn admit_request(&self, client_id: &str, purpose: &str, query: &str) -> (r: Result<
        Option<(String, i64)>,
        String,
    >)
        ensures
            r matches Ok(Some((id, expires))) ==> exists|i: int|
                0 <= i < self.request_records().len() && is_pending_for(
                    #[trigger] self.request_records()[i],
                    client_id@,
                ) && self.request_records()[i].purpose@ == purpose@
                    && self.request_records()[i].query@ == query@ && self.request_records()[i].id@
                    == id@ && self.request_records()[i].expires_at_ms == expires,
            r matches Ok(None) ==> count_pending_for(self.request_records(), client_id@)
                < MAX_PENDING_PER_CLIENT,
            r is Err ==> count_pending_for(self.request_records(), client_id@) >= MAX_PENDING_PER_CLIENT,
    {
        let mut count: usize = 0;
        let mut i: usize = 0;
        while i < self.requests.len()
            invariant
                i <= self.requests@.len(),
                count == count_pending_for(self.requests@.take(i as int), client_id@),
                count <= i,
            decreases self.requests@.len() - i,
        {
            assert(self.requests@.take(i + 1).drop_last() =~= self.requests@.take(i as int));
            let record = &self.requests[i];
            let pending = record.state == RequestState::Pending && str_eq(&record.client_id, client_id);
            if pending && str_eq(&record.purpose, purpose) && str_eq(&record.query, query) {
                assert(is_pending_for(self.request_records()[i as int], client_id@));
                return Ok(Some((owned(&record.id), record.expires_at_ms)));
            }
            if pending {
                count = count + 1;
            }
            i = i + 1;
        }
        assert(self.requests@.take(self.requests@.len() as int) =~= self.requests@);
        if count >= MAX_PENDING_PER_CLIENT {
            return Err(owned("this client already has too many pending Noted approvals"));
        }
        Ok(None)
    }

    /// Records a new pending request.
    pub fn insert_request(&mut self, record: ContextRequestRecord)
        requires
            old(self).wf(),
        ensures
            final(self).wf(),
            final(self).request_records() == old(self).request_records().push(record),
            final(self).pass_records() == old(self).pass_records(),
            final(self).settings() == old(self).settings(),
    {
        self.requests.push(record);
    }

    /// A client's view of one of its requests: its state, its pass once
    /// approved, and its expiry.
    /// The pending requests, oldest first (requests created at the same
    /// moment keep their order), as positions in the request records.
    pub fn pending_request_order(&self) -> (r: Vec<usize>)
        ensures
            r@.map_values(|i: usize| i as int) == by_creation(
                pending_positions(self.request_records()),
                self.request_records(),
            ),
    {
        let ghost rs = self.requests@;
        let mut sorted: Vec<usize> = Vec::new();
        let mut i: usize = 0;
        while i < self.requests.len()
            invariant
                i <= rs.len(),
                rs == self.requests@,
                sorted@.map_values(|k: usize| k as int) == by_creation(
                    pending_positions(rs.take(i as int)),
                    rs,
                ),
                forall|k: int| 0 <= k < sorted@.len() ==> (#[trigger] sorted@[k]) < i,
            decreases rs.len() - i,
        {
            assert(rs.take(i + 1).drop_last() =~= rs.take(i as int));
            assert(rs.take(i + 1).last() == rs[i as int]);
            assert(pending_positions(rs.take(i + 1)) == if rs[i as int].state == RequestState::Pending {
                pending_positions(rs.take(i as int)).push(i as int)
            } else {
                pending_positions(rs.take(i as int))
            });
            if self.requests[i].state == RequestState::Pending {
                let t = self.requests[i].created_at_ms;
                let mut p: usize = sorted.len();
                while p > 0 && self.requests[sorted[p - 1]].created_at_ms > t
                    invariant
                        p <= sorted@.len(),
                        rs == self.requests@,
                        i < rs.len(),
                        t == rs[i as int].created_at_ms,
                        forall|k: int| 0 <= k < sorted@.len() ==> (#[trigger] sorted@[k]) < i,
                        forall|j: int|
                            p <= j < sorted@.len() ==> rs[#[trigger] sorted@[j] as int].created_at_ms > t,
                    decreases p,
                {
                    p = p - 1;
                }
                let ghost before = sorted@.map_values(|k: usize| k as int);
                proof {
                    assert forall|j: int| p <= j < before.len() implies rs[#[trigger] before[j]].created_at_ms
                        > rs[i as int].created_at_ms by {
                        assert(before[j] == sorted@[j] as int);
                    }
                    if p > 0 {
                        assert(before[p - 1] == sorted@[p - 1] as int);
                    }
                    lemma_insert_by_creation_at(before, i as int, rs, p as int);
                }
                sorted.insert(p, i);
                assert(sorted@.map_values(|k: usize| k as int) =~= before.take(p as int).push(i as int)
                    + before.skip(p as int));
                proof {
                    let pp = pending_positions(rs.take(i as int));
                    assert(pp.push(i as int).drop_last() =~= pp);
                    assert(pp.push(i as int).last() == i as int);
                    assert(by_creation(pp.push(i as int), rs) == insert_by_creation(
                        by_creation(pp, rs),
                        i as int,
                        rs,
                    ));
                }
            }
            i = i + 1;
        }
        assert(rs.take(rs.len() as int) =~= rs);
        sorted
    }

    pub fn request_status(&self, client_id: &str, request_id: &str) -> (r: Result<
        (RequestState, Option<String>, i64),
        String,
    >)
        ensures
            r is Ok <==> exists|i: int|
                0 <= i < self.request_records().len() && (#[trigger] self.request_records()[i]).id@
                    == request_id@ && self.request_records()[i].client_id@ == client_id@,
            r matches Ok((state, pass, expires)) ==> exists|i: int|
                0 <= i < self.request_records().len() && (#[trigger] self.request_records()[i]).id@
                    == request_id@ && self.request_records()[i].client_id@ == client_id@
                    && state == self.request_records()[i].state && expires
                    == self.request_records()[i].expires_at_ms && match (
                    pass,
                    self.request_records()[i].pass_id,
                ) {
                    (Some(p), Some(q)) => state == RequestState::Approved && p@ == q@,
                    (None, Some(_)) => state != RequestState::Approved,
                    (None, None) => true,
                    (Some(_), None) => false,
                },
    {
        let mut i: usize = 0;
        while i < self.requests.len()
            invariant
                i <= self.requests@.len(),
                forall|k: int|
                    0 <= k < i ==> !((#[trigger] self.requests@[k]).id@ == request_id@
                        && self.requests@[k].client_id@ == client_id@),
            decreases self.requests@.len() - i,
        {
            let record = &self.requests[i];
            if str_eq(&record.id, request_id) && str_eq(&record.client_id, client_id) {
                assert(self.request_records()[i as int].id@ == request_id@);
                let pass = if record.state == RequestState::Approved {
                    copy_option_string(&record.pass_id)
                } else {
                    None
                };
                return Ok((record.state, pass, record.expires_at_ms));
            }
            i = i + 1;
        }
        Err(owned("context request not found for this client"))
    }

    /// The purpose of a pending request, once the meeting to preview is
    /// checked to be one of its candidates.
    pub fn preview_purpose(&self, request_id: &str, meeting_id: i64) -> (r: Result<String, String>)
        ensures
            !any_pending(self.request_records(), request_id@) ==> (r matches Err(e) && e@
                == "pending context request not found"@),
            forall|i: int| #[trigger]
                first_pending(self.request_records(), request_id@, i) ==> if has_candidate(
                    self.request_records()[i],
                    meeting_id,
                ) {
                    r matches Ok(p) && p@ == self.request_records()[i].purpose@
                } else {
                    r matches Err(e) && e@ == "meeting is not one of this request's approved candidates"@
                },
    {
        match self.find_request(request_id, true) {
            None => Err(owned("pending context request not found")),
            Some(i) => {
                let record = &self.requests[i];
                assert(self.request_records()[i as int].id@ == request_id@);
                proof {
                    self.lemma_first_pending_unique(request_id@, i as int);
                }
                if !candidate_listed(record, meeting_id) {
                    return Err(owned("meeting is not one of this request's approved candidates"));
                }
                Ok(owned(&record.purpose))
            },
        }
    }

    /// The first pending request named `request_id` is the only one that is
    /// first.
    proof fn lemma_first_pending_unique(&self, request_id: Seq<char>, i: int)
        requires
            first_pending(self.request_records(), request_id, i),
        ensures
            forall|j: int| #[trigger] first_pending(self.request_records(), request_id, j) ==> j == i,
    {
        assert forall|j: int| #[trigger] first_pending(self.request_records(), request_id, j) implies j
            == i by {
            if j < i {
                assert(self.request_records()[j].id@ == request_id);
            } else if j > i {
                assert(self.request_records()[i].id@ == request_id);
            }
        }
    }

    /// Checks the user's decision on a pending request.
    pub fn resolve_step(&self, request_id: &str, decision: &str, meeting_id: Option<i64>) -> (r: Result<
        ResolveStep,
        String,
    >)
        ensures
            r matches Ok(ResolveStep::Deny) ==> decision@ == "deny"@,
            r matches Ok(ResolveStep::Approve(m)) ==> decision@ == "approve"@ && meeting_id
                == Some(m) && exists|i: int|
                0 <= i < self.request_records().len() && (#[trigger] self.request_records()[i]).id@
                    == request_id@ && self.request_records()[i].state == RequestState::Pending
                    && has_candidate(self.request_records()[i], m),
            r is Ok ==> exists|i: int|
                0 <= i < self.request_records().len() && (#[trigger] self.request_records()[i]).id@
                    == request_id@ && self.request_records()[i].state == RequestState::Pending,
            !any_pending(self.request_records(), request_id@) ==> (r matches Err(e) && e@
                == "pending context request not found"@),
            forall|i: int| #[trigger]
                first_pending(self.request_records(), request_id@, i) ==> if decision@ == "deny"@ {
                    r == Ok::<ResolveStep, String>(ResolveStep::Deny)
                } else if decision@ != "approve"@ {
                    r matches Err(e) && e@ == "decision must be approve or deny"@
                } else {
                    match meeting_id {
                        None => r matches Err(e) && e@ == "select a meeting before approving"@,
                        Some(m) => if has_candidate(self.request_records()[i], m) {
                            r == Ok::<ResolveStep, String>(ResolveStep::Approve(m))
                        } else {
                            r matches Err(e) && e@ == "meeting is not one of this request's candidates"@
                        },
                    }
                },
    {
        let i = match self.find_request(request_id, true) {
            None => return Err(owned("pending context request not found")),
            Some(i) => i,
        };
        assert(self.request_records()[i as int].id@ == request_id@);
        proof {
            self.lemma_first_pending_unique(request_id@, i as int);
        }
        if str_eq(decision, "deny") {
            return Ok(ResolveStep::Deny);
        }
        if !str_eq(decision, "approve") {
            return Err(owned("decision must be approve or deny"));
        }
        let m = match meeting_id {
            None => return Err(owned("select a meeting before approving")),
            Some(m) => m,
        };
        if !candidate_listed(&self.requests[i], m) {
            return Err(owned("meeting is not one of this request's candidates"));
        }
        Ok(ResolveStep::Approve(m))
    }

    fn set_request(&mut self, index: usize, state: RequestState, pass: Option<(String, i64)>)
        requires
            old(self).wf(),
            index < old(self).requests@.len(),
        ensures
            final(self).wf(),
            final(self).passes == old(self).passes,
            final(self).config == old(self).config,
            final(self).requests@.len() == old(self).requests@.len(),
            final(self).requests@[index as int].state == state,
            final(self).requests@[index as int].id == old(self).requests@[index as int].id,
            final(self).requests@[index as int].client_id == old(self).requests@[index as int].client_id,
            match pass {
                Some((pass_id, expires)) => final(self).requests@[index as int].pass_id == Some(
                    pass_id,
                ) && final(self).requests@[index as int].expires_at_ms == expires,
                None => final(self).requests@[index as int].pass_id == old(self).requests@[index as int].pass_id
                    && final(self).requests@[index as int].expires_at_ms == old(self).requests@[index as int].expires_at_ms,
            },
            forall|k: int|
                0 <= k < final(self).requests@.len() && k != index ==> #[trigger] final(self).requests@[k] == old(self).requests@[k],
    {
        let mut old_requests: Vec<ContextRequestRecord> = Vec::new();
        std::mem::swap(&mut old_requests, &mut self.requests);
        let ghost previous = old_requests@;
        let ghost pass0 = pass;
        let mut pass = pass;
        for record in it: old_requests.into_iter()
            invariant
                it.seq() == previous,
                previous == old(self).requests@,
                index < previous.len(),
                self.passes == old(self).passes,
                self.config == old(self).config,
                self.requests@.len() == it.index(),
                forall|k: int|
                    0 <= k < self.requests@.len() && k != index ==> #[trigger] self.requests@[k]
                        == previous[k],
                index < self.requests@.len() ==> self.requests@[index as int].state == state
                    && self.requests@[index as int].id == previous[index as int].id
                    && self.requests@[index as int].client_id == previous[index as int].client_id
                    && match pass0 {
                    Some((pass_id, expires)) => self.requests@[index as int].pass_id == Some(pass_id)
                        && self.requests@[index as int].expires_at_ms == expires,
                    None => self.requests@[index as int].pass_id == previous[index as int].pass_id
                        && self.requests@[index as int].expires_at_ms
                        == previous[index as int].expires_at_ms,
                },
                index >= self.requests@.len() ==> pass == pass0,
        {
            let mut record = record;
            if self.requests.len() == index {
                record.state = state;
                if let Some((pass_id, expires)) = pass {
                    record.pass_id = Some(pass_id);
                    record.expires_at_ms = expires;
                    pass = None;
                }
            }
            self.requests.push(record);
        }
    }

    /// Records a denial of a pending request.
    pub fn deny_request(&mut self, request_id: &str) -> (r: Result<(), String>)
        requires
            old(self).wf(),
        ensures
            final(self).wf(),
            final(self).pass_records() == old(self).pass_records(),
            final(self).request_records().len() == old(self).request_records().len(),
            r is Ok <==> exists|i: int|
                0 <= i < old(self).request_records().len() && (#[trigger] old(self).request_records()[i]).id@ == request_id@ && old(self).request_records()[i].state
                    == RequestState::Pending,
            r is Ok ==> exists|i: int|
                0 <= i < old(self).request_records().len() && (#[trigger] old(self).request_records()[i]).id@ == request_id@
                    && final(self).request_records()[i].state == RequestState::Denied
                    && forall|k: int|
                    0 <= k < old(self).request_records().len() && k != i ==> final(self).request_records()[k]
                        == old(self).request_records()[k],
            r is Err ==> final(self).request_records() == old(self).request_records(),
    {
        match self.find_request(request_id, true) {
            None => Err(owned("pending context request not found")),
            Some(i) => {
                assert(old(self).request_records()[i as int].id@ == request_id@);
                self.set_request(i, RequestState::Denied, None);
                Ok(())
            },
        }
    }

    /// Approves a pending request with its exact pass; the request then
    /// expires with the pass.
    pub fn approve_request(&mut self, request_id: &str, pass: ContextPassRecord) -> (r: Result<
        (),
        String,
    >)
        requires
            old(self).wf(),
            pass.wf(),
        ensures
            final(self).wf(),
            r is Ok ==> final(self).pass_records() == old(self).pass_records().push(pass),
            r is Err ==> final(self).pass_records() == old(self).pass_records(),
            r is Ok ==> exists|i: int|
                0 <= i < old(self).request_records().len() && (#[trigger] old(self).request_records()[i]).id@ == request_id@
                    && old(self).request_records()[i].state == RequestState::Pending
                    && final(self).request_records()[i].state == RequestState::Approved
                    && final(self).request_records()[i].client_id == old(self).request_records()[i].client_id
                    && (final(self).request_records()[i].pass_id matches Some(q) && q@ == pass.pass_id())
                    && final(self).request_records()[i].expires_at_ms == pass.expiry(),
            final(self).request_records().len() == old(self).request_records().len(),
            r is Ok <==> exists|i: int|
                0 <= i < old(self).request_records().len() && (#[trigger] old(self).request_records()[i]).id@ == request_id@ && old(self).request_records()[i].state
                    == RequestState::Pending,
    {
        match self.find_request(request_id, true) {
            None => Err(owned("context request is no longer pending")),
            Some(i) => {
                assert(old(self).request_records()[i as int].id@ == request_id@);
                let pass_id = owned(&pass.id);
                let expires = pass.expires_at_ms;
                self.set_request(i, RequestState::Approved, Some((pass_id, expires)));
                self.passes.push(pass);
                Ok(())
            },
        }
    }

    fn find_pass(&self, client_id: Option<&str>, pass_id: &str) -> (r: Option<usize>)
        ensures
            match r {
                Some(i) => i < self.passes@.len() && self.passes@[i as int].id@ == pass_id@ && match client_id {
                    Some(c) => self.passes@[i as int].client_id@ == c@,
                    None => true,
                } && forall|k: int|
                    0 <= k < i ==> !((#[trigger] self.passes@[k]).id@ == pass_id@
                        && match client_id {
                        Some(c) => self.passes@[k].client_id@ == c@,
                        None => true,
                    }),
                None => forall|k: int|
                    0 <= k < self.passes@.len() ==> !((#[trigger] self.passes@[k]).id@ == pass_id@
                        && match client_id {
                        Some(c) => self.passes@[k].client_id@ == c@,
                        None => true,
                    }),
            },
    {
        let mut i: usize = 0;
        while i < self.passes.len()
            invariant
                i <= self.passes@.len(),
                forall|k: int|
                    0 <= k < i ==> !((#[trigger] self.passes@[k]).id@ == pass_id@ && match client_id {
                        Some(c) => self.passes@[k].client_id@ == c@,
                        None => true,
                    }),
            decreases self.passes@.len() - i,
        {
            let p = &self.passes[i];
            let owner_ok = match client_id {
                Some(c) => str_eq(&p.client_id, c),
                None => true,
            };
            if str_eq(&p.id, pass_id) && owner_ok {
                return Some(i);
            }
            i = i + 1;
        }
        None
    }

    /// The meeting, source revision and receipt of a client's pass, for the
    /// source check before a read.
    pub fn pass_source(&self, client_id: &str, pass_id: &str) -> (r: Result<(i64, String, String), String>)
        ensures
            r is Ok <==> exists|i: int|
                0 <= i < self.pass_records().len() && pass_for(
                    #[trigger] self.pass_records()[i],
                    client_id@,
                    pass_id@,
                ),
            r matches Ok((meeting, revision, receipt)) ==> exists|i: int|
                0 <= i < self.pass_records().len() && pass_for(
                    #[trigger] self.pass_records()[i],
                    client_id@,
                    pass_id@,
                ) && meeting == self.pass_records()[i].meeting() && revision@
                    == self.pass_records()[i].revision() && receipt@
                    == self.pass_records()[i].receipt(),
    {
        match self.find_pass(Some(client_id), pass_id) {
            None => Err(owned("approved Context Pass not found for this client")),
            Some(i) => {
                let p = &self.passes[i];
                assert(pass_for(self.pass_records()[i as int], client_id@, pass_id@));
                Ok((p.meeting_id, owned(&p.source_revision), owned(&p.receipt_id)))
            },
        }
    }

    /// Erases a pass whose source changed or disappeared.
    pub fn invalidate_pass(&mut self, pass_id: &str) -> (r: Option<ReceiptUpdate>)
        requires
            old(self).wf(),
        ensures
            final(self).wf(),
            r is Some <==> exists|i: int|
                0 <= i < old(self).pass_records().len() && (#[trigger] old(self).pass_records()[i]).pass_id() == pass_id@,
            r is None ==> final(self).pass_records() == old(self).pass_records(),
            r matches Some(update) ==> exists|i: int|
                0 <= i < old(self).pass_records().len() && (#[trigger] old(self).pass_records()[i]).pass_id() == pass_id@
                    && final(self).pass_records() == old(self).pass_records().remove(i)
                    && update.receipt_id@ == old(self).pass_records()[i].receipt()
                    && update.delivered_bytes == old(self).pass_records()[i].delivered()
                    && update.status@ == "invalidated"@ && update.complete,
            final(self).request_records() == old(self).request_records(),
    {
        match self.find_pass(None, pass_id) {
            None => None,
            Some(i) => {
                assert(old(self).pass_records()[i as int].pass_id() == pass_id@);
                let p = self.passes.remove(i);
                proof {
                    reveal_strlit("invalidated");
                }
                Some(
                    ReceiptUpdate {
                        receipt_id: p.receipt_id,
                        status: "invalidated",
                        delivered_bytes: p.delivered_bytes,
                        complete: true,
                    },
                )
            },
        }
    }

    /// Reads the next chunk of a client's pass. The cursor must continue
    /// where the last chunk ended; the last chunk erases the pass and settles
    /// its request.
    pub fn read_pass(&mut self, client_id: &str, pass_id: &str, cursor: usize) -> (r: Result<
        (PassChunk, ReceiptUpdate),
        String,
    >)
        requires
            old(self).wf(),
        ensures
            final(self).wf(),
            !(exists|i: int|
                0 <= i < old(self).pass_records().len() && pass_for(
                    #[trigger] old(self).pass_records()[i],
                    client_id@,
                    pass_id@,
                )) ==> r is Err,
            r is Ok <==> exists|i: int|
                #[trigger] first_pass_for(old(self).pass_records(), client_id@, pass_id@, i)
                    && old(self).pass_records()[i].delivered() == cursor,
            r matches Ok((chunk, update)) ==> forall|i: int|
                #[trigger] first_pass_for(old(self).pass_records(), client_id@, pass_id@, i)
                    ==> next_chunk_of(old(self).pass_records()[i], chunk) && if chunk.complete {
                    final(self).pass_records() == old(self).pass_records().remove(i)
                } else {
                    &&& final(self).pass_records().len() == old(self).pass_records().len()
                    &&& advanced_by(old(self).pass_records()[i], final(self).pass_records()[i], chunk)
                    &&& forall|k: int|
                        0 <= k < old(self).pass_records().len() && k != i
                            ==> (#[trigger] final(self).pass_records()[k]) == old(self).pass_records()[k]
                },
            r is Err ==> final(self).pass_records() == old(self).pass_records(),
            r matches Err(e) ==> e@ == if exists|i: int|
                #[trigger] first_pass_for(old(self).pass_records(), client_id@, pass_id@, i) {
                cursor_error(
                    old(self).pass_records()[choose|i: int|
                        #[trigger] first_pass_for(
                            old(self).pass_records(),
                            client_id@,
                            pass_id@,
                            i,
                        )].delivered(),
                )
            } else {
                "approved Context Pass not found for this client"@
            },
            r matches Ok((chunk, update)) ==> update.delivered_bytes == chunk.cursor + utf8_size(
                chunk.content@,
            ) && update.complete == chunk.complete && (chunk.complete ==> final(self).pass_records().len()
                + 1 == old(self).pass_records().len()),
            r matches Ok((chunk, update)) ==> exists|i: int|
                0 <= i < old(self).pass_records().len() && pass_for(
                    #[trigger] old(self).pass_records()[i],
                    client_id@,
                    pass_id@,
                ) && update.receipt_id@ == old(self).pass_records()[i].receipt() && update.status@ == (
                if chunk.complete {
                    "delivered"@
                } else {
                    "delivering"@
                }) && (chunk.complete ==> final(self).pass_records() == old(
                    self,
                ).pass_records().remove(i)) && chunk.cursor == old(self).pass_records()[i].delivered()
                    && chunk.total_bytes == utf8_size(old(self).pass_records()[i].packet()),
    {
        let i = match self.find_pass(Some(client_id), pass_id) {
            None => {
                return Err(owned("approved Context Pass not found for this client"));
            },
            Some(i) => i,
        };
        assert(pass_for(old(self).pass_records()[i as int], client_id@, pass_id@));
        assert(first_pass_for(old(self).pass_records(), client_id@, pass_id@, i as int)) by {
            assert forall|k: int| 0 <= k < i implies !pass_for(
                #[trigger] old(self).pass_records()[k],
                client_id@,
                pass_id@,
            ) by {
                assert(old(self).pass_records()[k] == self.passes@[k]);
            }
        }
        assert forall|j: int| #[trigger]
            first_pass_for(old(self).pass_records(), client_id@, pass_id@, j) implies j == i by {
            if j < i {
            } else if j > i {
                assert(!pass_for(old(self).pass_records()[i as int], client_id@, pass_id@));
            }
        }
        let ghost before = self.passes@;
        let mut p = self.passes.remove(i);
        assert(p.wf());
        let ghost p0 = p;
        assert(p0 == old(self).pass_records()[i as int]);
        match p.next_chunk(cursor) {
            Err(e) => {
                self.passes.insert(i, p);
                assert(self.passes@ =~= before);
                Err(e)
            },
            Ok(chunk) => {
                proof {
                    let from = p0.delivered_text().len() as int;
                    let end = from + chunk.content@.len();
                    assert(p.delivered_text() == p0.delivered_text() + chunk.content@);
                    assert(p.delivered_text() =~= p.packet().take(end));
                    assert(chunk.content@ =~= p0.packet().subrange(from, end)) by {
                        assert forall|k: int| 0 <= k < chunk.content@.len() implies chunk.content@[k]
                            == p0.packet()[from + k] by {
                            assert(p.delivered_text()[from + k] == chunk.content@[k]);
                        }
                    }
                    if end == p0.packet().len() {
                        assert(p.delivered_text() =~= p0.packet());
                    }
                    assert(next_chunk_of(p0, chunk));
                    assert(advanced_by(p0, p, chunk));
                }
                let ghost p1 = p;
                let update = ReceiptUpdate {
                    receipt_id: owned(&p.receipt_id),
                    status: if chunk.complete {
                        "delivered"
                    } else {
                        "delivering"
                    },
                    delivered_bytes: p.delivered_bytes,
                    complete: chunk.complete,
                };
                if chunk.complete {
                    self.settle_request(&p.request_id);
                } else {
                    self.passes.insert(i, p);
                }
                proof {
                    assert(update.receipt_id@ == p0.receipt());
                    assert(pass_for(old(self).pass_records()[i as int], client_id@, pass_id@));
                    if !chunk.complete {
                        assert(self.passes@ =~= before.update(i as int, p1));
                        assert(self.pass_records()[i as int] == p1);
                        assert forall|k: int|
                            0 <= k < old(self).pass_records().len() && k != i implies #[trigger] self.pass_records()[k]
                            == old(self).pass_records()[k] by {
                            assert(before[k] == old(self).pass_records()[k]);
                        }
                    }
                }
                Ok((chunk, update))
            },
        }
    }
}

/// Whether a settled request is younger than a pass lifetime at `now_ms`.
pub fn settled_recently(now_ms: i64, expires_at_ms: i64) -> (r: bool)
    ensures
        r == (now_ms - expires_at_ms < PASS_TTL_MS),
{
    (now_ms as i128) - (expires_at_ms as i128) < PASS_TTL_MS as i128
}

impl AgentAccess {
    /// The checked display name of a new client: Agent Access must be on and
    /// the trimmed name hold 1 to 80 characters.
    pub fn prepare_client(&self, name: &str) -> (r: Result<String, String>)
        ensures
            !self.settings().enabled ==> (r matches Err(e) && e@
                == "enable Agent Access before adding a client"@),
            self.settings().enabled ==> (r is Ok <==> 1 <= trim(name@).len() <= 80),
            r matches Ok(n) ==> n@ == trim(name@),
    {
        if !self.config.enabled {
            return Err(owned("enable Agent Access before adding a client"));
        }
        let c = chars_of(name);
        let t = trim_chars(&c);
        if t.len() == 0 || t.len() > 80 {
            return Err(owned("client name must be between 1 and 80 characters"));
        }
        Ok(string_from_chars(&t))
    }

    /// Registers a new client in the settings.
    pub fn add_client(&mut self, client: AgentClient)
        requires
            old(self).wf(),
        ensures
            final(self).wf(),
            final(self).settings().clients@ == old(self).settings().clients@.push(client),
            final(self).settings().enabled == old(self).settings().enabled,
            final(self).request_records() == old(self).request_records(),
            final(self).pass_records() == old(self).pass_records(),
    {
        self.config.clients.push(client);
    }
}

/// The shell command that starts the helper for a client, every argument
/// single-quoted for a POSIX shell.
pub fn client_command(helper_command: &str, client_id: &str) -> (r: String)
    ensures
        r@ == seq!['\''] + quote_body(helper_command@) + seq!['\''] + " --mcp --client "@ + seq![
            '\'',
        ] + quote_body(client_id@) + seq!['\''],
{
    let helper = shell_quote(helper_command);
    let id = shell_quote(client_id);
    let mut out = chars_of(&helper);
    let mid = chars_of(" --mcp --client ");
    append_chars(&mut out, &mid);
    let tail = chars_of(&id);
    append_chars(&mut out, &tail);
    string_from_chars(&out)
}

/// An approval must name the exact packet the user previewed: the hash of
/// the rebuilt packet is compared, in constant time, with the preview's.
pub fn check_preview(packet_hash: &str, preview_hash: Option<&str>) -> (r: Result<(), String>)
    ensures
        preview_hash is None ==> (r matches Err(e) && e@
            == "preview the exact packet before approving"@),
        preview_hash matches Some(p) ==> (r is Ok <==> p@ == packet_hash@),
        preview_hash matches Some(p) && p@ != packet_hash@ ==> (r matches Err(e) && e@
            == "the meeting changed after preview; review the refreshed packet before approving"@),
{
    let expected = match preview_hash {
        None => return Err(owned("preview the exact packet before approving")),
        Some(p) => p,
    };
    let actual_bytes = vstd::string::StrSliceExecFns::as_bytes_vec(packet_hash);
    let expected_bytes = vstd::string::StrSliceExecFns::as_bytes_vec(expected);
    proof {
        vstd::utf8::encode_utf8_decode_utf8(packet_hash@);
        vstd::utf8::encode_utf8_decode_utf8(expected@);
    }
    if !constant_time_eq(&actual_bytes, &expected_bytes) {
        return Err(
            owned("the meeting changed after preview; review the refreshed packet before approving"),
        );
    }
    Ok(())
}

pub open spec fn chosen_or(chosen: Option<ContextOptions>, requested: ContextOptions) -> ContextOptions {
    match chosen {
        Some(o) => o,
        None => requested,
    }
}

/// The sections an approval discloses: those the user chose, else those the
/// agent requested, normalized.
pub fn approval_options(chosen: Option<ContextOptions>, requested: ContextOptions) -> (r: Result<
    ContextOptions,
    String,
>)
    ensures
        !(chosen_or(chosen, requested).include_summary || chosen_or(chosen, requested).include_notes
            || chosen_or(chosen, requested).include_transcript) <==> r is Err,
        r matches Ok(o) ==> o.include_summary == chosen_or(chosen, requested).include_summary
            && o.include_notes == chosen_or(chosen, requested).include_notes && o.include_transcript
            == chosen_or(chosen, requested).include_transcript && o.max_bytes == Some(
            clamp_packet(
                match chosen_or(chosen, requested).max_bytes {
                    Some(m) => m,
                    None => DEFAULT_PACKET_BYTES,
                },
            ),
        ),
{
    let options = match chosen {
        Some(o) => o,
        None => requested,
    };
    options.normalized()
}

} // verus!
