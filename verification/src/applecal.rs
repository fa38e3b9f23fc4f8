//! Apple Calendar read-only integration: which calendars are shown, what the
//! operating system's authorization means, and how an event's fields become
//! the wall-clock strings, join links and attendee lists the app displays.
use vstd::prelude::*;
use crate::text::{
    chars_of, contains_chars, contains_seq, lowercase_chars, lowercase_spec, split_whitespace_chars,
    starts_with, starts_with_chars, str_eq, string_from_chars, words, char_seqs, slice_range,
    copy_chars,
};

verus! {

/// Apple events are reported under this account name so the Calendar view
/// groups them without special cases.
pub const ACCOUNT: &'static str = "Apple Calendar";

/// The calendars the user switched off. An empty configuration shows every
/// calendar, so a calendar added in Calendar.app appears without a visit to
/// Settings.
#[derive(Debug, Clone, Default)]
pub struct AppleCalCfg {
    pub hidden_calendars: Vec<String>,
}

pub open spec fn hidden_ids(cfg: AppleCalCfg) -> Seq<Seq<char>> {
    char_seqs_of_strings(cfg.hidden_calendars@)
}

pub open spec fn char_seqs_of_strings(v: Seq<String>) -> Seq<Seq<char>> {
    v.map_values(|s: String| s@)
}

pub open spec fn other_than(id: Seq<char>) -> spec_fn(Seq<char>) -> bool {
    |h: Seq<char>| h != id
}

/// The configuration after showing (`enabled`) or hiding one calendar: every
/// entry for that calendar is removed, the others keep their order, and a
/// hidden calendar is appended once.
pub open spec fn with_calendar(hidden: Seq<Seq<char>>, id: Seq<char>, enabled: bool) -> Seq<
    Seq<char>,
> {
    let kept = hidden.filter(other_than(id));
    if enabled {
        kept
    } else {
        kept.push(id)
    }
}

impl AppleCalCfg {
    /// Shows or hides one calendar in the merged feed.
    pub fn set_calendar_enabled(&mut self, calendar_id: &str, enabled: bool)
        ensures
            hidden_ids(*final(self)) == with_calendar(hidden_ids(*old(self)), calendar_id@, enabled),
    {
        let ghost old_ids = hidden_ids(*self);
        let mut kept: Vec<String> = Vec::new();
        let mut i: usize = 0;
        while i < self.hidden_calendars.len()
            invariant
                old_ids == hidden_ids(*old(self)),
                self.hidden_calendars@ == old(self).hidden_calendars@,
                i <= self.hidden_calendars@.len(),
                char_seqs_of_strings(kept@) == old_ids.take(i as int).filter(
                    other_than(calendar_id@),
                ),
            decreases self.hidden_calendars@.len() - i,
        {
            let ghost prev = old_ids.take(i as int);
            assert(old_ids.take(i + 1) =~= prev.push(old_ids[i as int]));
            let id = &self.hidden_calendars[i];
            if !str_eq(id, calendar_id) {
                let ghost before = char_seqs_of_strings(kept@);
                let c = chars_of(id);
                kept.push(string_from_chars(&c));
                assert(char_seqs_of_strings(kept@) =~= before.push(id@));
            }
            proof {
                reveal(Seq::filter);
                assert(old_ids.take(i + 1).drop_last() =~= prev);
            }
            i = i + 1;
        }
        assert(old_ids.take(old_ids.len() as int) =~= old_ids);
        if !enabled {
            let ghost before = char_seqs_of_strings(kept@);
            let c = chars_of(calendar_id);
            kept.push(string_from_chars(&c));
            assert(char_seqs_of_strings(kept@) =~= before.push(calendar_id@));
        }
        self.hidden_calendars = kept;
    }

    /// Whether a calendar is shown.
    pub fn is_enabled(&self, calendar_id: &str) -> (r: bool)
        ensures
            r == !hidden_ids(*self).contains(calendar_id@),
    {
        let mut i: usize = 0;
        while i < self.hidden_calendars.len()
            invariant
                i <= self.hidden_calendars@.len(),
                forall|k: int| 0 <= k < i ==> hidden_ids(*self)[k] != calendar_id@,
            decreases self.hidden_calendars@.len() - i,
        {
            if str_eq(&self.hidden_calendars[i], calendar_id) {
                assert(hidden_ids(*self)[i as int] == calendar_id@);
                return false;
            }
            i = i + 1;
        }
        true
    }
}

/// After showing or hiding a calendar, it is shown exactly when it was
/// enabled, and every other calendar keeps its visibility.
pub proof fn lemma_visibility_follows_setting(
    hidden: Seq<Seq<char>>,
    id: Seq<char>,
    enabled: bool,
    other: Seq<char>,
)
    requires
        other != id,
    ensures
        with_calendar(hidden, id, enabled).contains(id) == !enabled,
        with_calendar(hidden, id, enabled).contains(other) == hidden.contains(other),
{
    let pred = other_than(id);
    let kept = hidden.filter(pred);
    assert(!kept.contains(id)) by {
        if kept.contains(id) {
            let k = choose|k: int| 0 <= k < kept.len() && kept[k] == id;
            hidden.lemma_filter_pred(pred, k);
        }
    }
    assert(kept.contains(other) == hidden.contains(other)) by {
        if hidden.contains(other) {
            let k = choose|k: int| 0 <= k < hidden.len() && hidden[k] == other;
            hidden.lemma_filter_contains(pred, k);
        }
        if kept.contains(other) {
            hidden.lemma_filter_contains_rev(pred, other);
        }
    }
    if !enabled {
        assert(kept.push(id).contains(id)) by {
            assert(kept.push(id)[kept.len() as int] == id);
        }
        assert(kept.push(id).contains(other) == kept.contains(other)) by {
            if kept.push(id).contains(other) {
                let k = choose|k: int| 0 <= k < kept.len() + 1 && kept.push(id)[k] == other;
                assert(k < kept.len());
                assert(kept[k] == other);
            }
            if kept.contains(other) {
                let k = choose|k: int| 0 <= k < kept.len() && kept[k] == other;
                assert(kept.push(id)[k] == other);
            }
        }
    }
}

/// Whether this Mac can serve Apple Calendar, and whether the user allowed
/// it.
#[derive(Debug, Clone, Copy, PartialEq, Eq, Structural)]
pub enum Access {
    Granted,
    Denied,
    Restricted,
    /// A write-only grant cannot read events, so for a read-only integration
    /// it is no more useful than no access at all.
    WriteOnly,
    NotDetermined,
    /// Not macOS: there is no Apple Calendar to read.
    Unsupported,
}

pub open spec fn access_name(a: Access) -> Seq<char> {
    match a {
        Access::Granted => "granted"@,
        Access::Denied => "denied"@,
        Access::Restricted => "restricted"@,
        Access::WriteOnly => "write_only"@,
        Access::NotDetermined => "not_determined"@,
        Access::Unsupported => "unsupported"@,
    }
}

impl Access {
    /// The wire form the frontend switches on.
    pub fn as_str(self) -> (r: &'static str)
        ensures
            r@ == access_name(self),
    {
        match self {
            Access::Granted => "granted",
            Access::Denied => "denied",
            Access::Restricted => "restricted",
            Access::WriteOnly => "write_only",
            Access::NotDetermined => "not_determined",
            Access::Unsupported => "unsupported",
        }
    }

    /// The single definition of "we may read events".
    pub fn can_read(self) -> (r: bool)
        ensures
            r <==> self == Access::Granted,
    {
        match self {
            Access::Granted => true,
            _ => false,
        }
    }
}

/// The event-entity authorization status the operating system reports.
#[derive(Debug, Clone, Copy, PartialEq, Eq, Structural)]
pub enum AuthorizationStatus {
    NotDetermined,
    Restricted,
    Denied,
    FullAccess,
    WriteOnly,
}

/// The access state for the authorization the system reports; `None` means
/// the platform has no Apple Calendar.
pub fn access_state(status: Option<AuthorizationStatus>) -> (r: Access)
    ensures
        r == match status {
            None => Access::Unsupported,
            Some(AuthorizationStatus::FullAccess) => Access::Granted,
            Some(AuthorizationStatus::Denied) => Access::Denied,
            Some(AuthorizationStatus::Restricted) => Access::Restricted,
            Some(AuthorizationStatus::WriteOnly) => Access::WriteOnly,
            Some(AuthorizationStatus::NotDetermined) => Access::NotDetermined,
        },
{
    match status {
        None => Access::Unsupported,
        Some(AuthorizationStatus::FullAccess) => Access::Granted,
        Some(AuthorizationStatus::Denied) => Access::Denied,
        Some(AuthorizationStatus::Restricted) => Access::Restricted,
        Some(AuthorizationStatus::WriteOnly) => Access::WriteOnly,
        Some(AuthorizationStatus::NotDetermined) => Access::NotDetermined,
    }
}

/// One calendar as EventKit describes it.
#[derive(Debug, Clone)]
pub struct CalendarInfo {
    pub id: String,
    pub name: String,
    pub color: String,
    pub source: String,
}

// ---------------------------------------------------------------------------
// Wall-clock strings
// ---------------------------------------------------------------------------

pub open spec fn digit_char(d: int) -> char {
    if d == 0 {
        '0'
    } else if d == 1 {
        '1'
    } else if d == 2 {
        '2'
    } else if d == 3 {
        '3'
    } else if d == 4 {
        '4'
    } else if d == 5 {
        '5'
    } else if d == 6 {
        '6'
    } else if d == 7 {
        '7'
    } else if d == 8 {
        '8'
    } else {
        '9'
    }
}

/// A number below 100 with two digits.
pub open spec fn two_digits(n: int) -> Seq<char> {
    seq![digit_char(n / 10), digit_char(n % 10)]
}

/// "HH:MM" for minutes from local midnight, wrapped into one day.
pub open spec fn hhmm_spec(minutes: int) -> Seq<char> {
    let m = minutes % 1440;
    two_digits(m / 60) + seq![':'] + two_digits(m % 60)
}

fn digit_char_exec(d: i64) -> (c: char)
    requires
        0 <= d < 10,
    ensures
        c == digit_char(d as int),
{
    if d == 0 {
        '0'
    } else if d == 1 {
        '1'
    } else if d == 2 {
        '2'
    } else if d == 3 {
        '3'
    } else if d == 4 {
        '4'
    } else if d == 5 {
        '5'
    } else if d == 6 {
        '6'
    } else if d == 7 {
        '7'
    } else if d == 8 {
        '8'
    } else {
        '9'
    }
}

/// Minutes from local midnight as "HH:MM". An end past midnight wraps to the
/// wall-clock time rather than reading "25:30".
pub fn hhmm(minutes: i64) -> (r: String)
    ensures
        r@ == hhmm_spec(minutes as int),
{
    let m: i64 = if minutes >= 0 {
        minutes % 1440
    } else {
        1439 - ((-(minutes + 1)) % 1440)
    };
    assert(m == (minutes as int) % 1440) by {
        if minutes < 0 {
            let k = -(minutes + 1);
            assert(0 <= k % 1440 < 1440);
            assert(k == (k / 1440) * 1440 + k % 1440);
            assert(minutes == -(k / 1440) * 1440 - 1 - k % 1440);
            assert(minutes == (-(k / 1440) - 1) * 1440 + (1439 - k % 1440)) by (nonlinear_arith)
                requires
                    minutes == -(k / 1440) * 1440 - 1 - k % 1440,
            ;
            vstd::arithmetic::div_mod::lemma_fundamental_div_mod_converse(
                minutes as int,
                1440,
                -(k / 1440) - 1,
                1439 - k % 1440,
            );
        }
    }
    let h = m / 60;
    let mm = m % 60;
    let mut out: Vec<char> = Vec::new();
    out.push(digit_char_exec(h / 10));
    out.push(digit_char_exec(h % 10));
    out.push(':');
    out.push(digit_char_exec(mm / 10));
    out.push(digit_char_exec(mm % 10));
    assert(out@ =~= hhmm_spec(minutes as int));
    string_from_chars(&out)
}

/// Wall-clock text repeats every day: a time past midnight reads as the
/// same time of the day before.
pub proof fn lemma_hhmm_wraps(minutes: int)
    ensures
        hhmm_spec(minutes + 1440) == hhmm_spec(minutes),
{
    vstd::arithmetic::div_mod::lemma_mod_add_multiples_vanish(minutes, 1440);
    let m = (minutes + 1440) % 1440;
    assert(m == minutes % 1440);
}

// ---------------------------------------------------------------------------
// Join links
// ---------------------------------------------------------------------------

/// The video-call hosts whose links count as join links.
pub open spec fn call_hosts() -> Seq<Seq<char>> {
    seq![
        "zoom.us"@,
        "meet.google.com"@,
        "teams.microsoft.com"@,
        "teams.live.com"@,
        "webex.com"@,
        "whereby.com"@,
    ]
}

/// Whether the lowercased text mentions a video-call host.
pub open spec fn looks_like_call(candidate: Seq<char>) -> bool {
    exists|i: int| 0 <= i < call_hosts().len() && contains_seq(lowercase_spec(candidate), #[trigger] call_hosts()[i])
}

/// Characters stripped from both ends of a scanned token: anything that is not
/// printable ASCII, and the punctuation that usually wraps a pasted link.
pub open spec fn is_link_junk(c: char) -> bool {
    !('!' <= c && c <= '~') || c == '<' || c == '>' || c == '(' || c == ')' || c == ','
        || c == ';' || c == '"' || c == '\''
}

pub open spec fn strip_junk_start(s: Seq<char>) -> Seq<char>
    decreases s.len(),
{
    if s.len() > 0 && is_link_junk(s[0]) {
        strip_junk_start(s.drop_first())
    } else {
        s
    }
}

pub open spec fn strip_junk_end(s: Seq<char>) -> Seq<char>
    decreases s.len(),
{
    if s.len() > 0 && is_link_junk(s.last()) {
        strip_junk_end(s.drop_last())
    } else {
        s
    }
}

/// A token without junk at either end (`str::trim_matches`).
pub open spec fn strip_junk(s: Seq<char>) -> Seq<char> {
    strip_junk_end(strip_junk_start(s))
}

/// The first token, once stripped, that starts with "http" and names a call
/// host.
pub open spec fn first_call_token(tokens: Seq<Seq<char>>) -> Option<Seq<char>>
    decreases tokens.len(),
{
    if tokens.len() == 0 {
        None
    } else if starts_with(strip_junk(tokens[0]), "http"@) && looks_like_call(
        strip_junk(tokens[0]),
    ) {
        Some(strip_junk(tokens[0]))
    } else {
        first_call_token(tokens.drop_first())
    }
}

pub open spec fn first_call_in(field: Option<Seq<char>>) -> Option<Seq<char>> {
    match field {
        None => None,
        Some(f) => first_call_token(words(f)),
    }
}

/// The join link of an event: its URL when that names a call host, else the
/// first call link written in its location, else in its notes.
pub open spec fn meeting_link_spec(
    url: Option<Seq<char>>,
    location: Option<Seq<char>>,
    notes: Option<Seq<char>>,
) -> Option<Seq<char>> {
    if url is Some && looks_like_call(url->0) {
        url
    } else if first_call_in(location) is Some {
        first_call_in(location)
    } else {
        first_call_in(notes)
    }
}

/// Text names a video call exactly when its lowercase form mentions Zoom,
/// Google Meet, Microsoft Teams (work or personal), Webex or Whereby; an
/// event URL that names one is the event's join link, whatever its location
/// and notes say.
pub proof fn lemma_call_hosts(
    candidate: Seq<char>,
    location: Option<Seq<char>>,
    notes: Option<Seq<char>>,
)
    ensures
        looks_like_call(candidate) <==> (contains_seq(lowercase_spec(candidate), "zoom.us"@)
            || contains_seq(lowercase_spec(candidate), "meet.google.com"@)
            || contains_seq(lowercase_spec(candidate), "teams.microsoft.com"@)
            || contains_seq(lowercase_spec(candidate), "teams.live.com"@)
            || contains_seq(lowercase_spec(candidate), "webex.com"@)
            || contains_seq(lowercase_spec(candidate), "whereby.com"@)),
        looks_like_call(candidate) ==> meeting_link_spec(Some(candidate), location, notes) == Some(
            candidate,
        ),
{
    let lower = lowercase_spec(candidate);
    let hosts = call_hosts();
    assert(hosts[0] == "zoom.us"@);
    assert(hosts[1] == "meet.google.com"@);
    assert(hosts[2] == "teams.microsoft.com"@);
    assert(hosts[3] == "teams.live.com"@);
    assert(hosts[4] == "webex.com"@);
    assert(hosts[5] == "whereby.com"@);
    if looks_like_call(candidate) {
        let i = choose|i: int| 0 <= i < hosts.len() && contains_seq(lower, #[trigger] hosts[i]);
        assert(0 <= i < 6);
    }
    if contains_seq(lower, "zoom.us"@) {
        assert(contains_seq(lower, hosts[0]));
    }
    if contains_seq(lower, "meet.google.com"@) {
        assert(contains_seq(lower, hosts[1]));
    }
    if contains_seq(lower, "teams.microsoft.com"@) {
        assert(contains_seq(lower, hosts[2]));
    }
    if contains_seq(lower, "teams.live.com"@) {
        assert(contains_seq(lower, hosts[3]));
    }
    if contains_seq(lower, "webex.com"@) {
        assert(contains_seq(lower, hosts[4]));
    }
    if contains_seq(lower, "whereby.com"@) {
        assert(contains_seq(lower, hosts[5]));
    }
}

proof fn lemma_first_call_token_is_call(tokens: Seq<Seq<char>>)
    ensures
        first_call_token(tokens) matches Some(t) ==> starts_with(t, "http"@) && looks_like_call(t),
    decreases tokens.len(),
{
    if tokens.len() > 0 {
        lemma_first_call_token_is_call(tokens.drop_first());
    }
}

/// A join link is always a call link: it is the event's URL, or a token of
/// its location or notes that starts with "http", and it names a call host.
pub proof fn lemma_meeting_link_is_call(
    url: Option<Seq<char>>,
    location: Option<Seq<char>>,
    notes: Option<Seq<char>>,
)
    ensures
        meeting_link_spec(url, location, notes) is Some ==> looks_like_call(
            meeting_link_spec(url, location, notes)->0,
        ) && (url == meeting_link_spec(url, location, notes) || starts_with(
            meeting_link_spec(url, location, notes)->0,
            "http"@,
        )),
{
    if let Some(l) = location {
        lemma_first_call_token_is_call(words(l));
    }
    if let Some(n) = notes {
        lemma_first_call_token_is_call(words(n));
    }
}

fn looks_like_call_exec(candidate: &[char]) -> (r: bool)
    ensures
        r == looks_like_call(candidate@),
{
    let lower = lowercase_chars(candidate);
    let hosts: [&str; 6] = [
        "zoom.us",
        "meet.google.com",
        "teams.microsoft.com",
        "teams.live.com",
        "webex.com",
        "whereby.com",
    ];
    let mut i: usize = 0;
    while i < 6
        invariant
            i <= 6,
            lower@ == lowercase_spec(candidate@),
            hosts@.len() == 6,
            forall|k: int| 0 <= k < 6 ==> (#[trigger] hosts@[k])@ == call_hosts()[k],
            forall|k: int| 0 <= k < i ==> !contains_seq(lower@, #[trigger] call_hosts()[k]),
        decreases 6 - i,
    {
        let host = chars_of(hosts[i]);
        if contains_chars(&lower, &host) {
            assert(contains_seq(lowercase_spec(candidate@), call_hosts()[i as int]));
            return true;
        }
        i = i + 1;
    }
    false
}

fn is_link_junk_exec(c: char) -> (r: bool)
    ensures
        r == is_link_junk(c),
{
    !('!' <= c && c <= '~') || c == '<' || c == '>' || c == '(' || c == ')' || c == ',' || c == ';'
        || c == '"' || c == '\''
}

proof fn lemma_strip_start_skip(s: Seq<char>, i: int)
    requires
        0 <= i <= s.len(),
        forall|k: int| 0 <= k < i ==> is_link_junk(s[k]),
    ensures
        strip_junk_start(s) == strip_junk_start(s.subrange(i, s.len() as int)),
    decreases i,
{
    if i > 0 {
        assert(s.drop_first().subrange(i - 1, s.drop_first().len() as int) =~= s.subrange(
            i,
            s.len() as int,
        ));
        lemma_strip_start_skip(s.drop_first(), i - 1);
    } else {
        assert(s.subrange(0, s.len() as int) =~= s);
    }
}

proof fn lemma_strip_end_skip(s: Seq<char>, j: int)
    requires
        0 <= j <= s.len(),
        forall|k: int| j <= k < s.len() ==> is_link_junk(s[k]),
    ensures
        strip_junk_end(s) == strip_junk_end(s.subrange(0, j)),
    decreases s.len() - j,
{
    if j < s.len() {
        assert(s.drop_last().subrange(0, j) =~= s.subrange(0, j));
        lemma_strip_end_skip(s.drop_last(), j);
    } else {
        assert(s.subrange(0, j) =~= s);
    }
}

/// Strips link junk from both ends of a token.
fn strip_junk_exec(s: &[char]) -> (r: Vec<char>)
    ensures
        r@ == strip_junk(s@),
{
    let mut a: usize = 0;
    while a < s.len() && is_link_junk_exec(s[a])
        invariant
            a <= s@.len(),
            forall|k: int| 0 <= k < a ==> is_link_junk(s@[k]),
        decreases s@.len() - a,
    {
        a = a + 1;
    }
    proof {
        lemma_strip_start_skip(s@, a as int);
    }
    let ghost rest = s@.subrange(a as int, s@.len() as int);
    assert(rest.len() == 0 || !is_link_junk(rest[0]));
    assert(strip_junk_start(rest) == rest);
    let mut b: usize = s.len();
    while b > a && is_link_junk_exec(s[b - 1])
        invariant
            a <= b <= s@.len(),
            forall|k: int| b <= k < s@.len() ==> is_link_junk(s@[k]),
        decreases b - a,
    {
        b = b - 1;
    }
    proof {
        let t = s@.subrange(a as int, s@.len() as int);
        lemma_strip_end_skip(t, b - a);
        assert(t.subrange(0, b - a) =~= s@.subrange(a as int, b as int));
    }
    slice_range(s, a, b)
}

fn first_call_token_exec(tokens: &Vec<Vec<char>>) -> (r: Option<Vec<char>>)
    ensures
        match first_call_token(char_seqs(tokens@)) {
            None => r is None,
            Some(t) => r matches Some(v) && v@ == t,
        },
{
    let ghost all = char_seqs(tokens@);
    let mut i: usize = 0;
    let http = chars_of("http");
    assert(all.subrange(0, all.len() as int) =~= all);
    while i < tokens.len()
        invariant
            i <= tokens@.len(),
            all == char_seqs(tokens@),
            http@ == "http"@,
            first_call_token(all) == first_call_token(all.subrange(i as int, all.len() as int)),
        decreases tokens@.len() - i,
    {
        let ghost rest = all.subrange(i as int, all.len() as int);
        assert(rest[0] == tokens@[i as int]@);
        assert(rest.drop_first() =~= all.subrange(i + 1, all.len() as int));
        let t = strip_junk_exec(&tokens[i]);
        if starts_with_chars(&t, &http) && looks_like_call_exec(&t) {
            return Some(t);
        }
        i = i + 1;
    }
    assert(all.subrange(i as int, all.len() as int).len() == 0);
    None
}

fn first_call_in_exec(field: Option<&str>) -> (r: Option<Vec<char>>)
    ensures
        match first_call_in(match field { Some(f) => Some(f@), None => None }) {
            None => r is None,
            Some(t) => r matches Some(v) && v@ == t,
        },
{
    match field {
        None => None,
        Some(f) => {
            let c = chars_of(f);
            let tokens = split_whitespace_chars(&c);
            first_call_token_exec(&tokens)
        },
    }
}

pub open spec fn opt_view(o: Option<&str>) -> Option<Seq<char>> {
    match o {
        Some(s) => Some(s@),
        None => None,
    }
}

/// Meeting join link from an event's URL, location, or notes.
pub fn meeting_link(url: Option<&str>, location: Option<&str>, notes: Option<&str>) -> (r: Option<
    String,
>)
    ensures
        match meeting_link_spec(opt_view(url), opt_view(location), opt_view(notes)) {
            None => r is None,
            Some(t) => r matches Some(v) && v@ == t,
        },
{
    if let Some(u) = url {
        let c = chars_of(u);
        if looks_like_call_exec(&c) {
            return Some(string_from_chars(&c));
        }
    }
    match first_call_in_exec(location) {
        Some(t) => Some(string_from_chars(&t)),
        None => match first_call_in_exec(notes) {
            Some(t) => Some(string_from_chars(&t)),
            None => None,
        },
    }
}

// ---------------------------------------------------------------------------
// Participants
// ---------------------------------------------------------------------------

pub open spec fn strip_mailto(url: Seq<char>) -> Seq<char> {
    if starts_with(url, "mailto:"@) {
        url.subrange(7, url.len() as int)
    } else {
        url
    }
}

/// A participant's e-mail address from the `mailto:` URL EventKit exposes.
pub fn participant_email(url: &str) -> (r: String)
    ensures
        r@ == lowercase_spec(strip_mailto(url@)),
{
    let c = chars_of(url);
    let prefix = chars_of("mailto:");
    proof {
        reveal_strlit("mailto:");
    }
    let body = if starts_with_chars(&c, &prefix) {
        slice_range(&c, 7, c.len())
    } else {
        copy_chars(&c)
    };
    let lower = lowercase_chars(&body);
    string_from_chars(&lower)
}

/// A participant's answer to an invitation.
#[derive(Debug, Clone, Copy, PartialEq, Eq, Structural)]
pub enum ParticipantStatus {
    Accepted,
    Declined,
    Tentative,
    Other,
}

pub open spec fn participant_status_name(s: ParticipantStatus) -> Seq<char> {
    match s {
        ParticipantStatus::Accepted => "accepted"@,
        ParticipantStatus::Declined => "declined"@,
        ParticipantStatus::Tentative => "tentative"@,
        ParticipantStatus::Other => "needsAction"@,
    }
}

impl ParticipantStatus {
    /// The response status in the spelling Google Calendar uses.
    pub fn as_str(self) -> (r: &'static str)
        ensures
            r@ == participant_status_name(self),
    {
        match self {
            ParticipantStatus::Accepted => "accepted",
            ParticipantStatus::Declined => "declined",
            ParticipantStatus::Tentative => "tentative",
            ParticipantStatus::Other => "needsAction",
        }
    }
}

/// One attendee as EventKit reports it.
#[derive(Debug, Clone)]
pub struct Participant {
    /// The participant's `mailto:` URL, when it has one.
    pub url: Option<String>,
    pub name: Option<String>,
    pub status: ParticipantStatus,
    pub is_current_user: bool,
}

/// One attendee as the app displays it.
#[derive(Debug, Clone)]
pub struct AttendeeView {
    pub name: String,
    pub email: String,
    pub status: ParticipantStatus,
    pub is_self: bool,
}

/// What an event's attendee list contributes to the event the app shows.
#[derive(Debug, Clone)]
pub struct AttendeeSummary {
    /// At most `MAX_LISTED_ATTENDEES` attendees, in EventKit's order.
    pub attendees: Vec<AttendeeView>,
    /// Every non-empty attendee address, in order.
    pub emails: Vec<String>,
    /// Whether the current user declined.
    pub declined_self: bool,
}

/// Matches Google Calendar's cap so the UI never renders an unbounded list.
pub const MAX_LISTED_ATTENDEES: usize = 12;

pub open spec fn participant_address(p: Participant) -> Seq<char> {
    match p.url {
        Some(u) => lowercase_spec(strip_mailto(u@)),
        None => Seq::empty(),
    }
}

pub open spec fn declined_by_self(ps: Seq<Participant>) -> bool {
    exists|i: int| 0 <= i < ps.len() && (#[trigger] ps[i]).is_current_user && ps[i].status
        == ParticipantStatus::Declined
}

pub open spec fn addresses(ps: Seq<Participant>) -> Seq<Seq<char>>
    decreases ps.len(),
{
    if ps.len() == 0 {
        Seq::empty()
    } else if participant_address(ps.last()).len() > 0 {
        addresses(ps.drop_last()).push(participant_address(ps.last()))
    } else {
        addresses(ps.drop_last())
    }
}

/// Summarizes an event's participants: the first twelve as displayed
/// attendees (named by their name, else their address), every non-empty
/// address, and whether the current user declined.
pub fn summarize_attendees(participants: &[Participant]) -> (r: AttendeeSummary)
    ensures
        r.attendees@.len() == if participants@.len() < MAX_LISTED_ATTENDEES {
            participants@.len()
        } else {
            MAX_LISTED_ATTENDEES as nat
        },
        forall|i: int|
            0 <= i < r.attendees@.len() ==> {
                &&& (#[trigger] r.attendees@[i]).email@ == participant_address(participants@[i])
                &&& r.attendees@[i].name@ == match participants@[i].name {
                    Some(n) => n@,
                    None => participant_address(participants@[i]),
                }
                &&& r.attendees@[i].status == participants@[i].status
                &&& r.attendees@[i].is_self == participants@[i].is_current_user
            },
        char_seqs_of_strings(r.emails@) == addresses(participants@),
        r.declined_self == declined_by_self(participants@),
{
    let mut attendees: Vec<AttendeeView> = Vec::new();
    let mut emails: Vec<String> = Vec::new();
    let mut declined_self = false;
    let mut i: usize = 0;
    while i < participants.len()
        invariant
            i <= participants@.len(),
            attendees@.len() == if i < MAX_LISTED_ATTENDEES {
                i as nat
            } else {
                MAX_LISTED_ATTENDEES as nat
            },
            forall|k: int|
                0 <= k < attendees@.len() ==> {
                    &&& (#[trigger] attendees@[k]).email@ == participant_address(participants@[k])
                    &&& attendees@[k].name@ == match participants@[k].name {
                        Some(n) => n@,
                        None => participant_address(participants@[k]),
                    }
                    &&& attendees@[k].status == participants@[k].status
                    &&& attendees@[k].is_self == participants@[k].is_current_user
                },
            char_seqs_of_strings(emails@) == addresses(participants@.take(i as int)),
            declined_self == declined_by_self(participants@.take(i as int)),
        decreases participants@.len() - i,
    {
        let p = &participants[i];
        let ghost prefix = participants@.take(i as int);
        let ghost next = participants@.take(i + 1);
        assert(next.drop_last() =~= prefix);
        assert(next.last() == participants@[i as int]);
        let email = match &p.url {
            Some(u) => participant_email(u),
            None => String::new(),
        };
        let name = match &p.name {
            Some(n) => {
                let c = chars_of(n);
                string_from_chars(&c)
            },
            None => {
                let c = chars_of(&email);
                string_from_chars(&c)
            },
        };
        if p.is_current_user && p.status == ParticipantStatus::Declined {
            declined_self = true;
            assert(next[i as int] == participants@[i as int]);
        }
        proof {
            if !(p.is_current_user && p.status == ParticipantStatus::Declined) && declined_by_self(
                next,
            ) {
                let w = choose|w: int| 0 <= w < next.len() && (#[trigger] next[w]).is_current_user
                    && next[w].status == ParticipantStatus::Declined;
                assert(prefix[w] == next[w]);
            }
            if declined_by_self(prefix) {
                let w = choose|w: int| 0 <= w < prefix.len() && (#[trigger] prefix[w]).is_current_user
                    && prefix[w].status == ParticipantStatus::Declined;
                assert(next[w] == prefix[w]);
            }
        }
        let ghost before = char_seqs_of_strings(emails@);
        let email_chars = chars_of(&email);
        if email_chars.len() > 0 {
            emails.push(string_from_chars(&email_chars));
            assert(char_seqs_of_strings(emails@) =~= before.push(email@));
        }
        if attendees.len() < MAX_LISTED_ATTENDEES {
            attendees.push(
                AttendeeView { name, email, status: p.status, is_self: p.is_current_user },
            );
        }
        i = i + 1;
    }
    assert(participants@.take(participants@.len() as int) =~= participants@);
    AttendeeSummary { attendees, emails, declined_self }
}

// ---------------------------------------------------------------------------
// Event spans
// ---------------------------------------------------------------------------

/// A moment in the user's time zone: a day number and the minute of that
/// day (0..1440).
#[derive(Debug, Clone, Copy, PartialEq, Eq, Structural)]
pub struct LocalMoment {
    pub day: i64,
    pub minute: i64,
}

/// Where an event sits on the calendar grid: its first day, for a multi-day
/// all-day event its last covered day, and for a timed event its start and
/// end as minutes after the start of its first day.
#[derive(Debug, Clone, Copy, PartialEq, Eq, Structural)]
pub struct SpanShape {
    pub day: i64,
    pub end_day: Option<i64>,
    pub start_min: Option<i64>,
    pub end_min: Option<i64>,
    pub all_day: bool,
}

pub open spec fn span_shape(start: LocalMoment, end: LocalMoment, all_day: bool) -> SpanShape {
    if all_day {
        let last = if end.day > start.day {
            end.day - 1
        } else {
            start.day as int
        };
        SpanShape {
            day: start.day,
            end_day: if last > start.day {
                Some(last as i64)
            } else {
                None
            },
            start_min: None,
            end_min: None,
            all_day: true,
        }
    } else {
        let end_min = (end.day - start.day) * 1440 + end.minute;
        SpanShape {
            day: start.day,
            end_day: None,
            start_min: Some(start.minute),
            end_min: Some(
                if end_min > start.minute + 15 {
                    end_min as i64
                } else {
                    (start.minute + 15) as i64
                },
            ),
            all_day: false,
        }
    }
}

/// Turns an event's local start and end into its grid shape. An all-day
/// event ends the day before its exclusive end; a timed event of zero or
/// negative length still gets a fifteen-minute block.
pub fn local_span(start: LocalMoment, end: LocalMoment, all_day: bool) -> (r: SpanShape)
    requires
        0 <= start.minute < 1440,
        0 <= end.minute < 1440,
        -0x1_0000_0000_0000 < start.day < 0x1_0000_0000_0000,
        -0x1_0000_0000_0000 < end.day < 0x1_0000_0000_0000,
    ensures
        r == span_shape(start, end, all_day),
{
    if all_day {
        let last = if end.day > start.day {
            end.day - 1
        } else {
            start.day
        };
        return SpanShape {
            day: start.day,
            end_day: if last > start.day {
                Some(last)
            } else {
                None
            },
            start_min: None,
            end_min: None,
            all_day: true,
        };
    }
    let end_min = (end.day - start.day) * 1440 + end.minute;
    SpanShape {
        day: start.day,
        end_day: None,
        start_min: Some(start.minute),
        end_min: Some(
            if end_min > start.minute + 15 {
                end_min
            } else {
                start.minute + 15
            },
        ),
        all_day: false,
    }
}

/// An Apple event as the calendar grid lists it.
#[derive(Debug, Clone)]
pub struct RangeEvent {
    pub id: String,
    pub title: String,
    pub all_day: bool,
    pub start_min: Option<i64>,
    pub end_min: Option<i64>,
    pub calendar: String,
    pub calendar_id: String,
    pub color: String,
    pub account: String,
    pub meet_link: Option<String>,
}

/// An Apple event as the daily schedule lists it.
#[derive(Debug, Clone)]
pub struct CalEvent {
    pub id: String,
    pub task: String,
    pub start: Option<String>,
    pub end: Option<String>,
    pub all_day: bool,
    pub calendar: String,
    pub calendar_id: String,
    pub color: String,
    pub account: String,
    pub meet_link: Option<String>,
    pub html_link: Option<String>,
}

pub open spec fn clock_of(all_day: bool, minutes: Option<i64>) -> Option<Seq<char>> {
    if all_day {
        None
    } else {
        match minutes {
            Some(m) => Some(hhmm_spec(m as int)),
            None => None,
        }
    }
}

fn clock_exec(all_day: bool, minutes: Option<i64>) -> (r: Option<String>)
    ensures
        match (r, clock_of(all_day, minutes)) {
            (Some(a), Some(b)) => a@ == b,
            (None, None) => true,
            _ => false,
        },
{
    if all_day {
        return None;
    }
    match minutes {
        Some(m) => Some(hhmm(m)),
        None => None,
    }
}

/// The schedule's view of a grid event: wall-clock start and end strings
/// for a timed event, none for an all-day one, and no web link.
pub fn to_cal_event(e: RangeEvent) -> (r: CalEvent)
    ensures
        r.id@ == e.id@,
        r.task@ == e.title@,
        r.all_day == e.all_day,
        match (r.start, clock_of(e.all_day, e.start_min)) {
            (Some(a), Some(b)) => a@ == b,
            (None, None) => true,
            _ => false,
        },
        match (r.end, clock_of(e.all_day, e.end_min)) {
            (Some(a), Some(b)) => a@ == b,
            (None, None) => true,
            _ => false,
        },
        r.calendar@ == e.calendar@,
        r.calendar_id@ == e.calendar_id@,
        r.color@ == e.color@,
        r.account@ == e.account@,
        r.meet_link == e.meet_link,
        r.html_link is None,
{
    let start = clock_exec(e.all_day, e.start_min);
    let end = clock_exec(e.all_day, e.end_min);
    CalEvent {
        id: e.id,
        task: e.title,
        start,
        end,
        all_day: e.all_day,
        calendar: e.calendar,
        calendar_id: e.calendar_id,
        color: e.color,
        account: e.account,
        meet_link: e.meet_link,
        html_link: None,
    }
}

// ---------------------------------------------------------------------------
// Query ranges
// ---------------------------------------------------------------------------

/// What `chrono::NaiveDate::parse_from_str(text, "%Y-%m-%d")` gives for a
/// text: the date's day number counted from the common era, or the parse
/// error's message.
pub uninterp spec fn ymd_day_of(text: Seq<char>) -> Result<i32, Seq<char>>;

/// Parses a `YYYY-MM-DD` date with `chrono::NaiveDate::parse_from_str` and
/// numbers its day with `Datelike::num_days_from_ce`. The contract claims
/// only that the outcome is determined by the text.
#[verifier::external_body]
fn parse_ymd_day(text: &str) -> (r: Result<i32, String>)
    ensures
        match r {
            Ok(d) => ymd_day_of(text@) == Ok::<i32, Seq<char>>(d),
            Err(e) => ymd_day_of(text@) == Err::<i32, Seq<char>>(e@),
        },
{
    match chrono::NaiveDate::parse_from_str(text, "%Y-%m-%d") {
        Ok(date) => Ok(chrono::Datelike::num_days_from_ce(&date)),
        Err(error) => Err(error.to_string()),
    }
}

/// The days a calendar query covers, both ends included, or why the range is
/// refused: a date that does not parse, or an end before the start.
pub open spec fn range_days_spec(start: Seq<char>, end: Seq<char>) -> Result<(i32, i32), Seq<char>> {
    match (ymd_day_of(start), ymd_day_of(end)) {
        (Err(e), _) => Err("bad start date "@ + start + ": "@ + e),
        (Ok(_), Err(e)) => Err("bad end date "@ + end + ": "@ + e),
        (Ok(s), Ok(t)) => if t < s {
            Err("end date "@ + end + " precedes start "@ + start)
        } else {
            Ok((s, t))
        },
    }
}

/// Parses a query's first and last day. A backwards range is refused rather
/// than read as empty.
pub fn range_days(start_date: &str, end_date: &str) -> (r: Result<(i32, i32), String>)
    ensures
        match (r, range_days_spec(start_date@, end_date@)) {
            (Ok(a), Ok(b)) => a == b,
            (Err(a), Err(b)) => a@ == b,
            _ => false,
        },
{
    let start = match parse_ymd_day(start_date) {
        Ok(d) => d,
        Err(e) => {
            let mut m = chars_of("bad start date ");
            let s = chars_of(start_date);
            crate::text::append_chars(&mut m, &s);
            let sep = chars_of(": ");
            crate::text::append_chars(&mut m, &sep);
            let ec = chars_of(&e);
            crate::text::append_chars(&mut m, &ec);
            return Err(string_from_chars(&m));
        },
    };
    let end = match parse_ymd_day(end_date) {
        Ok(d) => d,
        Err(e) => {
            let mut m = chars_of("bad end date ");
            let s = chars_of(end_date);
            crate::text::append_chars(&mut m, &s);
            let sep = chars_of(": ");
            crate::text::append_chars(&mut m, &sep);
            let ec = chars_of(&e);
            crate::text::append_chars(&mut m, &ec);
            return Err(string_from_chars(&m));
        },
    };
    if end < start {
        let mut m = chars_of("end date ");
        let e = chars_of(end_date);
        crate::text::append_chars(&mut m, &e);
        let mid = chars_of(" precedes start ");
        crate::text::append_chars(&mut m, &mid);
        let s = chars_of(start_date);
        crate::text::append_chars(&mut m, &s);
        return Err(string_from_chars(&m));
    }
    Ok((start, end))
}

} // verus!
