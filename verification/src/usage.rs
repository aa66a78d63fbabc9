//! Token counts of a session, summed up from the usage figures its events carry.
//!
//! Some events carry the tokens of one turn, others a running total; a running total
//! counts with what it has grown by since the last one. Sums stop at the largest number
//! a counter can hold.
//!
//! A session log is a text of JSON lines. Its first line describes the session; every
//! further line is an event. [`parse_session_for_usage`] reads a log into what the
//! session used; what it costs is for the caller to work out.

use crate::json::{
    elements_of, is_object, json_elements, json_is_object, json_member, json_parse, member,
    parse_value, read_text, read_unsigned, text_member, unsigned_member,
};
use crate::choice::{arranged, lemma_inserted_at};
use crate::text::{
    chars_of, contains, contains_string, has_substring, push_string, slice_chars,
    string_from_chars, trim, trimmed,
};
use crate::version::{older, rank_numbers, Rank};
use vstd::prelude::*;
use vstd::string::*;

verus! {

/// The tokens a session has used.
#[derive(Clone, Copy, Debug, PartialEq, Eq, Structural)]
pub struct TokenCounts {
    pub input: u64,
    pub output: u64,
    pub cached: u64,
}

/// The sum of two counts, capped at the largest number a counter can hold.
pub open spec fn capped_sum(a: u64, b: u64) -> u64 {
    if a + b <= u64::MAX {
        (a + b) as u64
    } else {
        u64::MAX
    }
}

/// Computes [`capped_sum`].
pub fn add_capped(a: u64, b: u64) -> (r: u64)
    ensures
        r == capped_sum(a, b),
{
    if a <= u64::MAX - b {
        a + b
    } else {
        u64::MAX
    }
}

/// What a running total has grown by since the previous one. A total that is smaller
/// than the previous one has started over and counts in full, as does the first one.
pub open spec fn grown_by(previous: Option<u64>, total: u64) -> u64 {
    match previous {
        Some(p) => if total >= p {
            (total - p) as u64
        } else {
            total
        },
        None => total,
    }
}

/// Computes [`grown_by`].
pub fn usage_delta(previous: Option<u64>, total: u64) -> (r: u64)
    ensures
        r == grown_by(previous, total),
        r <= total,
{
    match previous {
        Some(p) => {
            if total >= p {
                total - p
            } else {
                total
            }
        },
        None => total,
    }
}

impl TokenCounts {
    /// No tokens.
    pub fn zero() -> (r: TokenCounts)
        ensures
            r == (TokenCounts { input: 0, output: 0, cached: 0 }),
    {
        TokenCounts { input: 0, output: 0, cached: 0 }
    }

    /// The counts with the tokens of one more turn.
    pub open spec fn plus(self, turn: TokenCounts) -> TokenCounts {
        TokenCounts {
            input: capped_sum(self.input, turn.input),
            output: capped_sum(self.output, turn.output),
            cached: capped_sum(self.cached, turn.cached),
        }
    }

    /// Adds the tokens of one turn.
    pub fn add_turn(&mut self, turn: TokenCounts)
        ensures
            *final(self) == old(self).plus(turn),
    {
        self.input = add_capped(self.input, turn.input);
        self.output = add_capped(self.output, turn.output);
        self.cached = add_capped(self.cached, turn.cached);
    }

    /// Input and output tokens together.
    pub fn total(&self) -> (r: u64)
        ensures
            r == capped_sum(self.input, self.output),
    {
        add_capped(self.input, self.output)
    }
}

/// The running totals seen last in a session.
#[derive(Clone, Copy, Debug, PartialEq, Eq, Structural)]
pub struct RunningTotals {
    pub last: Option<TokenCounts>,
}

impl RunningTotals {
    /// What the new running total adds to the session, counter by counter.
    pub open spec fn growth(self, total: TokenCounts) -> TokenCounts {
        match self.last {
            Some(p) => TokenCounts {
                input: grown_by(Some(p.input), total.input),
                output: grown_by(Some(p.output), total.output),
                cached: grown_by(Some(p.cached), total.cached),
            },
            None => total,
        }
    }

    /// Takes note of a new running total and says what it adds to the session.
    pub fn advance(&mut self, total: TokenCounts) -> (r: TokenCounts)
        ensures
            r == old(self).growth(total),
            final(self).last == Some(total),
    {
        let grown = match self.last {
            Some(p) => TokenCounts {
                input: usage_delta(Some(p.input), total.input),
                output: usage_delta(Some(p.output), total.output),
                cached: usage_delta(Some(p.cached), total.cached),
            },
            None => total,
        };
        self.last = Some(total);
        grown
    }
}

/// What `chrono::DateTime::parse_from_rfc3339` followed by `DateTime::timestamp` gives:
/// the seconds since the epoch of an RFC 3339 date and time, `None` where the text is
/// not one.
pub uninterp spec fn rfc3339_seconds(text: Seq<char>) -> Option<i64>;

/// Trusted: calls `chrono::DateTime::parse_from_rfc3339` and, on what it parsed,
/// `DateTime::timestamp`. The result depends on the text alone.
#[verifier::external_body]
fn parse_rfc3339(text: &str) -> (r: Option<i64>)
    ensures
        r == rfc3339_seconds(text@),
{
    chrono::DateTime::parse_from_rfc3339(text).ok().map(|moment| moment.timestamp())
}

/// A time as an unsigned count of seconds; a time before the epoch wraps around.
pub open spec fn unsigned_seconds(seconds: i64) -> u64 {
    if seconds >= 0 {
        seconds as u64
    } else {
        (seconds + 0x1_0000_0000_0000_0000) as u64
    }
}

/// Computes [`unsigned_seconds`].
pub fn to_unsigned_seconds(seconds: i64) -> (r: u64)
    ensures
        r == unsigned_seconds(seconds),
{
    if seconds >= 0 {
        seconds as u64
    } else {
        u64::MAX - ((-(seconds + 1)) as u64)
    }
}

/// What an event says about tokens.
#[derive(Clone, Copy, Debug, PartialEq, Eq, Structural)]
pub enum TokenReport {
    /// Nothing.
    Silent,
    /// The tokens of one turn.
    Turn(TokenCounts),
    /// The tokens of the session so far.
    Total(TokenCounts),
}

/// What one event of a session log contributes.
#[derive(Debug)]
pub struct EventFacts {
    /// The time of the event, as written.
    pub timestamp: Option<String>,
    /// The model the event selects.
    pub model: Option<String>,
    pub tokens: TokenReport,
    /// What the user wrote, where the event is a message of the user with text of their
    /// own.
    pub user_text: Option<String>,
}

/// View of [`EventFacts`].
pub struct EventFactsView {
    pub timestamp: Option<Seq<char>>,
    pub model: Option<Seq<char>>,
    pub tokens: TokenReport,
    pub user_text: Option<Seq<char>>,
}

impl View for EventFacts {
    type V = EventFactsView;

    open spec fn view(&self) -> EventFactsView {
        EventFactsView {
            timestamp: self.timestamp.deep_view(),
            model: self.model.deep_view(),
            tokens: self.tokens,
            user_text: self.user_text.deep_view(),
        }
    }
}

impl DeepView for EventFacts {
    type V = EventFactsView;

    open spec fn deep_view(&self) -> EventFactsView {
        self@
    }
}

/// A count that is absent counts as zero.
pub open spec fn or_zero(count: Option<u64>) -> u64 {
    match count {
        Some(n) => n,
        None => 0,
    }
}

/// The member under `key` of the member under `outer`, if both are there.
pub open spec fn inner_member(value: serde_json::Value, outer: Seq<char>, key: Seq<char>) -> Option<
    serde_json::Value,
> {
    match json_member(value, outer) {
        Some(m) => json_member(m, key),
        None => None,
    }
}

/// The cached tokens of a usage object: the count under `cached_input_tokens` where
/// there is such a member, else the one under `cached_tokens`.
pub open spec fn cached_count(usage: serde_json::Value) -> Option<u64> {
    match json_member(usage, "cached_input_tokens"@) {
        Some(m) => crate::json::json_u64(m),
        None => unsigned_member(usage, "cached_tokens"@),
    }
}

/// The counts of a usage object, absent counts as zero.
pub open spec fn counts_in(usage: serde_json::Value) -> TokenCounts {
    TokenCounts {
        input: or_zero(unsigned_member(usage, "input_tokens"@)),
        output: or_zero(unsigned_member(usage, "output_tokens"@)),
        cached: or_zero(cached_count(usage)),
    }
}

/// The counts of a usage object whose cached tokens stand under `cached_input_tokens`
/// only.
pub open spec fn turn_counts_in(usage: serde_json::Value) -> TokenCounts {
    TokenCounts {
        input: or_zero(unsigned_member(usage, "input_tokens"@)),
        output: or_zero(unsigned_member(usage, "output_tokens"@)),
        cached: or_zero(unsigned_member(usage, "cached_input_tokens"@)),
    }
}

/// The object under `key`, if `value` has a member there that is an object.
pub open spec fn object_member(value: serde_json::Value, key: Seq<char>) -> Option<
    serde_json::Value,
> {
    match json_member(value, key) {
        Some(m) => if json_is_object(m) {
            Some(m)
        } else {
            None
        },
        None => None,
    }
}

/// What an event of kind `kind` says about tokens.
///
/// A completed turn carries its tokens under `usage`. A token count carries them under
/// `payload.info`. An event message of type `token_count` carries under `payload.info`
/// the tokens of the last turn, or else the total of the session.
pub open spec fn tokens_of(event: serde_json::Value, kind: Seq<char>) -> TokenReport {
    if kind == "turn.completed"@ {
        match json_member(event, "usage"@) {
            Some(usage) => TokenReport::Turn(turn_counts_in(usage)),
            None => TokenReport::Silent,
        }
    } else if kind == "token_count"@ {
        match inner_member(event, "payload"@, "info"@) {
            Some(info) => TokenReport::Turn(counts_in(info)),
            None => TokenReport::Silent,
        }
    } else if kind == "event_msg"@ {
        match json_member(event, "payload"@) {
            Some(payload) => if text_member(payload, "type"@) == Some("token_count"@) {
                match json_member(payload, "info"@) {
                    Some(info) => match object_member(info, "last_token_usage"@) {
                        Some(last) => TokenReport::Turn(counts_in(last)),
                        None => match object_member(info, "total_token_usage"@) {
                            Some(total) => TokenReport::Total(counts_in(total)),
                            None => TokenReport::Silent,
                        },
                    },
                    None => TokenReport::Silent,
                }
            } else {
                TokenReport::Silent
            },
            None => TokenReport::Silent,
        }
    } else {
        TokenReport::Silent
    }
}

/// An event of this kind may select the model.
pub open spec fn selects_model(kind: Seq<char>) -> bool {
    kind == "session_meta"@ || kind == "model_selected"@ || kind == "turn_context"@
}

/// A text counts as the user's own where it is not a block of context put in front of
/// the conversation and is not blank.
pub open spec fn own_words(text: Seq<char>) -> bool {
    &&& !has_substring(text, "<environment_context>"@)
    &&& !has_substring(text, "# AGENTS.md"@)
    &&& trimmed(text).len() > 0
}

/// The text of a content item, where the item is input text in the user's own words.
pub open spec fn own_text(item: serde_json::Value) -> Option<Seq<char>> {
    if text_member(item, "type"@) == Some("input_text"@) {
        match text_member(item, "text"@) {
            Some(text) => if own_words(text) {
                Some(text)
            } else {
                None
            },
            None => None,
        }
    } else {
        None
    }
}

/// The first of the items that is input text in the user's own words.
pub open spec fn first_own_text(items: Seq<serde_json::Value>) -> Option<Seq<char>>
    decreases items.len(),
{
    if items.len() == 0 {
        None
    } else {
        match own_text(items.first()) {
            Some(text) => Some(text),
            None => first_own_text(items.drop_first()),
        }
    }
}

/// What the user wrote in an event of kind `kind`: the event is a response item whose
/// payload has the role `user`, and the text is the first of its content that is in the
/// user's own words.
pub open spec fn user_text_of(event: serde_json::Value, kind: Seq<char>) -> Option<Seq<char>> {
    if kind == "response_item"@ {
        match json_member(event, "payload"@) {
            Some(payload) => if text_member(payload, "role"@) == Some("user"@) {
                match json_member(payload, "content"@) {
                    Some(content) => match json_elements(content) {
                        Some(items) => first_own_text(items),
                        None => None,
                    },
                    None => None,
                }
            } else {
                None
            },
            None => None,
        }
    } else {
        None
    }
}

/// The kind of an event: the text under `type`, empty where there is none.
pub open spec fn kind_of(event: serde_json::Value) -> Seq<char> {
    match text_member(event, "type"@) {
        Some(kind) => kind,
        None => Seq::empty(),
    }
}

/// What an event contributes.
pub open spec fn facts_of(event: serde_json::Value) -> EventFactsView {
    let kind = kind_of(event);
    EventFactsView {
        timestamp: text_member(event, "timestamp"@),
        model: if selects_model(kind) {
            match json_member(event, "payload"@) {
                Some(payload) => text_member(payload, "model"@),
                None => None,
            }
        } else {
            None
        },
        tokens: tokens_of(event, kind),
        user_text: user_text_of(event, kind),
    }
}

/// What a line of a session log contributes; `None` where the line is not JSON.
pub open spec fn event_read(line: Seq<char>) -> Option<EventFactsView> {
    match json_parse(line) {
        Some(event) => Some(facts_of(event)),
        None => None,
    }
}

fn read_cached(usage: &serde_json::Value) -> (r: Option<u64>)
    ensures
        r == cached_count(*usage),
{
    match member(usage, "cached_input_tokens") {
        Some(m) => crate::json::unsigned_of(m),
        None => read_unsigned(usage, "cached_tokens"),
    }
}

fn zero_if_absent(count: Option<u64>) -> (r: u64)
    ensures
        r == or_zero(count),
{
    match count {
        Some(n) => n,
        None => 0,
    }
}

fn read_counts(usage: &serde_json::Value) -> (r: TokenCounts)
    ensures
        r == counts_in(*usage),
{
    TokenCounts {
        input: zero_if_absent(read_unsigned(usage, "input_tokens")),
        output: zero_if_absent(read_unsigned(usage, "output_tokens")),
        cached: zero_if_absent(read_cached(usage)),
    }
}

fn read_object<'a>(value: &'a serde_json::Value, key: &str) -> (r: Option<&'a serde_json::Value>)
    ensures
        match r {
            Some(m) => object_member(*value, key@) == Some(*m),
            None => object_member(*value, key@) is None,
        },
{
    match member(value, key) {
        Some(m) => if is_object(m) {
            Some(m)
        } else {
            None
        },
        None => None,
    }
}

fn read_tokens(event: &serde_json::Value, kind: &str) -> (r: TokenReport)
    ensures
        r == tokens_of(*event, kind@),
{
    if *kind == *"turn.completed" {
        match member(event, "usage") {
            Some(usage) => TokenReport::Turn(
                TokenCounts {
                    input: zero_if_absent(read_unsigned(usage, "input_tokens")),
                    output: zero_if_absent(read_unsigned(usage, "output_tokens")),
                    cached: zero_if_absent(read_unsigned(usage, "cached_input_tokens")),
                },
            ),
            None => TokenReport::Silent,
        }
    } else if *kind == *"token_count" {
        match member(event, "payload") {
            Some(payload) => match member(payload, "info") {
                Some(info) => TokenReport::Turn(read_counts(info)),
                None => TokenReport::Silent,
            },
            None => TokenReport::Silent,
        }
    } else if *kind == *"event_msg" {
        let payload = match member(event, "payload") {
            Some(payload) => payload,
            None => {
                return TokenReport::Silent;
            },
        };
        let counts = match read_text(payload, "type") {
            Some(t) => *t.as_str() == *"token_count",
            None => false,
        };
        if !counts {
            return TokenReport::Silent;
        }
        let info = match member(payload, "info") {
            Some(info) => info,
            None => {
                return TokenReport::Silent;
            },
        };
        match read_object(info, "last_token_usage") {
            Some(last) => TokenReport::Turn(read_counts(last)),
            None => match read_object(info, "total_token_usage") {
                Some(total) => TokenReport::Total(read_counts(total)),
                None => TokenReport::Silent,
            },
        }
    } else {
        TokenReport::Silent
    }
}

fn read_own_text(item: &serde_json::Value) -> (r: Option<String>)
    ensures
        r.deep_view() == own_text(*item),
{
    let is_input = match read_text(item, "type") {
        Some(t) => *t.as_str() == *"input_text",
        None => false,
    };
    if !is_input {
        return None;
    }
    match read_text(item, "text") {
        Some(text) => {
            if !contains(text.as_str(), "<environment_context>") && !contains(
                text.as_str(),
                "# AGENTS.md",
            ) && !trim(text.as_str()).is_empty() {
                Some(text)
            } else {
                None
            }
        },
        None => None,
    }
}

fn read_user_text(event: &serde_json::Value, kind: &str) -> (r: Option<String>)
    ensures
        r.deep_view() == user_text_of(*event, kind@),
{
    if !(*kind == *"response_item") {
        return None;
    }
    let payload = match member(event, "payload") {
        Some(payload) => payload,
        None => {
            return None;
        },
    };
    let by_user = match read_text(payload, "role") {
        Some(role) => *role.as_str() == *"user",
        None => false,
    };
    if !by_user {
        return None;
    }
    let content = match member(payload, "content") {
        Some(content) => content,
        None => {
            return None;
        },
    };
    let items = match elements_of(content) {
        Some(items) => items,
        None => {
            return None;
        },
    };
    let mut i: usize = 0;
    assert(items@.skip(0) =~= items@);
    assert(user_text_of(*event, kind@) == first_own_text(items@));
    while i < items.len()
        invariant
            i <= items@.len(),
            user_text_of(*event, kind@) == first_own_text(items@),
            first_own_text(items@) == first_own_text(items@.skip(i as int)),
        decreases items@.len() - i,
    {
        proof {
            let rest = items@.skip(i as int);
            assert(rest.first() == items@[i as int]);
            assert(rest.drop_first() =~= items@.skip(i + 1));
        }
        match read_own_text(&items[i]) {
            Some(text) => {
                assert(first_own_text(items@.skip(i as int)) == Some(text@));
                return Some(text);
            },
            None => {
                assert(first_own_text(items@.skip(i as int)) == first_own_text(
                    items@.skip(i + 1),
                ));
            },
        }
        i += 1;
    }
    None
}

/// Reads what a line of a session log contributes.
pub fn read_event(line: &str) -> (r: Option<EventFacts>)
    ensures
        r.deep_view() == event_read(line@),
{
    let event = match parse_value(line) {
        Some(event) => event,
        None => {
            return None;
        },
    };
    let kind = match read_text(&event, "type") {
        Some(kind) => kind,
        None => String::new(),
    };
    let selects = *kind.as_str() == *"session_meta" || *kind.as_str() == *"model_selected"
        || *kind.as_str() == *"turn_context";
    let model = if selects {
        match member(&event, "payload") {
            Some(payload) => read_text(payload, "model"),
            None => None,
        }
    } else {
        None
    };
    Some(
        EventFacts {
            timestamp: read_text(&event, "timestamp"),
            model,
            tokens: read_tokens(&event, kind.as_str()),
            user_text: read_user_text(&event, kind.as_str()),
        },
    )
}

/// What the first line of a session log says about the session.
#[derive(Debug)]
pub struct SessionMeta {
    pub session_id: String,
    /// When the session began, in seconds since the epoch.
    pub created_at: u64,
    /// The directory the session worked in; empty where the log does not say.
    pub cwd: String,
}

/// View of [`SessionMeta`].
pub struct SessionMetaView {
    pub session_id: Seq<char>,
    pub created_at: u64,
    pub cwd: Seq<char>,
}

impl View for SessionMeta {
    type V = SessionMetaView;

    open spec fn view(&self) -> SessionMetaView {
        SessionMetaView { session_id: self.session_id@, created_at: self.created_at, cwd: self.cwd@ }
    }
}

impl DeepView for SessionMeta {
    type V = SessionMetaView;

    open spec fn deep_view(&self) -> SessionMetaView {
        self@
    }
}

/// The description of the session in the first line of its log: the line is JSON of
/// type `session_meta` whose payload has the session's id and the time it began, as an
/// RFC 3339 date and time.
pub open spec fn meta_read(line: Seq<char>) -> Option<SessionMetaView> {
    match json_parse(line) {
        Some(meta) => if text_member(meta, "type"@) == Some("session_meta"@) {
            match json_member(meta, "payload"@) {
                Some(payload) => match (
                    text_member(payload, "id"@),
                    text_member(payload, "timestamp"@),
                ) {
                    (Some(id), Some(stamp)) => match rfc3339_seconds(stamp) {
                        Some(seconds) => Some(
                            SessionMetaView {
                                session_id: id,
                                created_at: unsigned_seconds(seconds),
                                cwd: match text_member(payload, "cwd"@) {
                                    Some(cwd) => cwd,
                                    None => Seq::empty(),
                                },
                            },
                        ),
                        None => None,
                    },
                    _ => None,
                },
                None => None,
            }
        } else {
            None
        },
        None => None,
    }
}

/// Reads the description of the session from the first line of its log.
pub fn read_session_meta(line: &str) -> (r: Option<SessionMeta>)
    ensures
        r.deep_view() == meta_read(line@),
{
    let meta = match parse_value(line) {
        Some(meta) => meta,
        None => {
            return None;
        },
    };
    let is_meta = match read_text(&meta, "type") {
        Some(kind) => *kind.as_str() == *"session_meta",
        None => false,
    };
    if !is_meta {
        return None;
    }
    let payload = match member(&meta, "payload") {
        Some(payload) => payload,
        None => {
            return None;
        },
    };
    let session_id = match read_text(payload, "id") {
        Some(id) => id,
        None => {
            return None;
        },
    };
    let stamp = match read_text(payload, "timestamp") {
        Some(stamp) => stamp,
        None => {
            return None;
        },
    };
    let seconds = match parse_rfc3339(stamp.as_str()) {
        Some(seconds) => seconds,
        None => {
            return None;
        },
    };
    let cwd = match read_text(payload, "cwd") {
        Some(cwd) => cwd,
        None => String::new(),
    };
    Some(SessionMeta { session_id, created_at: to_unsigned_seconds(seconds), cwd })
}

/// What has been gathered from the events of a session so far.
#[derive(Debug)]
pub struct SessionTally {
    pub tokens: TokenCounts,
    pub running: RunningTotals,
    /// The model selected last; `unknown` while none was.
    pub model: String,
    /// The first text in the user's own words.
    pub first_message: Option<String>,
    /// The time of the last event that has one, as written.
    pub last_timestamp: Option<String>,
}

/// View of [`SessionTally`].
pub struct SessionTallyView {
    pub tokens: TokenCounts,
    pub running: RunningTotals,
    pub model: Seq<char>,
    pub first_message: Option<Seq<char>>,
    pub last_timestamp: Option<Seq<char>>,
}

impl View for SessionTally {
    type V = SessionTallyView;

    open spec fn view(&self) -> SessionTallyView {
        SessionTallyView {
            tokens: self.tokens,
            running: self.running,
            model: self.model@,
            first_message: self.first_message.deep_view(),
            last_timestamp: self.last_timestamp.deep_view(),
        }
    }
}

impl SessionTallyView {
    /// The tally of a session without events.
    pub open spec fn start() -> SessionTallyView {
        SessionTallyView {
            tokens: TokenCounts { input: 0, output: 0, cached: 0 },
            running: RunningTotals { last: None },
            model: "unknown"@,
            first_message: None,
            last_timestamp: None,
        }
    }

    /// The tally with one more event.
    pub open spec fn with_event(self, facts: EventFactsView) -> SessionTallyView {
        SessionTallyView {
            tokens: match facts.tokens {
                TokenReport::Silent => self.tokens,
                TokenReport::Turn(turn) => self.tokens.plus(turn),
                TokenReport::Total(total) => self.tokens.plus(self.running.growth(total)),
            },
            running: match facts.tokens {
                TokenReport::Total(total) => RunningTotals { last: Some(total) },
                _ => self.running,
            },
            model: match facts.model {
                Some(model) => model,
                None => self.model,
            },
            first_message: match self.first_message {
                Some(text) => Some(text),
                None => facts.user_text,
            },
            last_timestamp: match facts.timestamp {
                Some(stamp) => Some(stamp),
                None => self.last_timestamp,
            },
        }
    }

    /// The tally with the events of the given lines; a line that is not JSON is passed
    /// over.
    pub open spec fn with_lines(self, lines: Seq<Seq<char>>) -> SessionTallyView
        decreases lines.len(),
    {
        if lines.len() == 0 {
            self
        } else {
            let earlier = self.with_lines(lines.drop_last());
            match event_read(lines.last()) {
                Some(facts) => earlier.with_event(facts),
                None => earlier,
            }
        }
    }
}

impl SessionTally {
    /// The tally of a session without events.
    pub fn new() -> (r: SessionTally)
        ensures
            r@ == SessionTallyView::start(),
    {
        SessionTally {
            tokens: TokenCounts::zero(),
            running: RunningTotals { last: None },
            model: String::from_str("unknown"),
            first_message: None,
            last_timestamp: None,
        }
    }

    /// Takes one more event into the tally.
    pub fn absorb(&mut self, facts: EventFacts)
        ensures
            final(self)@ == old(self)@.with_event(facts@),
    {
        match facts.tokens {
            TokenReport::Silent => {},
            TokenReport::Turn(turn) => {
                self.tokens.add_turn(turn);
            },
            TokenReport::Total(total) => {
                let grown = self.running.advance(total);
                self.tokens.add_turn(grown);
            },
        }
        match facts.model {
            Some(model) => {
                self.model = model;
            },
            None => {},
        }
        if self.first_message.is_none() {
            self.first_message = facts.user_text;
        }
        match facts.timestamp {
            Some(stamp) => {
                self.last_timestamp = Some(stamp);
            },
            None => {},
        }
    }
}

/// What a session used.
#[derive(Debug)]
pub struct SessionUsage {
    pub session_id: String,
    pub project_path: String,
    pub model: String,
    pub tokens: TokenCounts,
    /// When the session began, in seconds since the epoch.
    pub created_at: u64,
    /// The time of its last event, in seconds since the epoch.
    pub updated_at: u64,
    pub first_message: Option<String>,
}

/// View of [`SessionUsage`].
pub struct SessionUsageView {
    pub session_id: Seq<char>,
    pub project_path: Seq<char>,
    pub model: Seq<char>,
    pub tokens: TokenCounts,
    pub created_at: u64,
    pub updated_at: u64,
    pub first_message: Option<Seq<char>>,
}

impl View for SessionUsage {
    type V = SessionUsageView;

    open spec fn view(&self) -> SessionUsageView {
        SessionUsageView {
            session_id: self.session_id@,
            project_path: self.project_path@,
            model: self.model@,
            tokens: self.tokens,
            created_at: self.created_at,
            updated_at: self.updated_at,
            first_message: self.first_message.deep_view(),
        }
    }
}

impl DeepView for SessionUsage {
    type V = SessionUsageView;

    open spec fn deep_view(&self) -> SessionUsageView {
        self@
    }
}

/// The usage that a description of the session and a tally of its events come to. The
/// session was last active at the time of its last event, where that is an RFC 3339
/// date and time, else when it began.
pub open spec fn summed_up(meta: SessionMetaView, tally: SessionTallyView) -> SessionUsageView {
    SessionUsageView {
        session_id: meta.session_id,
        project_path: meta.cwd,
        model: tally.model,
        tokens: tally.tokens,
        created_at: meta.created_at,
        updated_at: match tally.last_timestamp {
            Some(stamp) => match rfc3339_seconds(stamp) {
                Some(seconds) => unsigned_seconds(seconds),
                None => meta.created_at,
            },
            None => meta.created_at,
        },
        first_message: tally.first_message,
    }
}

/// What the session of a log used; `None` where the log does not start with the
/// description of a session.
pub open spec fn session_usage(lines: Seq<Seq<char>>) -> Option<SessionUsageView> {
    if lines.len() == 0 {
        None
    } else {
        match meta_read(lines.first()) {
            Some(meta) => Some(
                summed_up(meta, SessionTallyView::start().with_lines(lines.drop_first())),
            ),
            None => None,
        }
    }
}

/// Sums up a description of the session and a tally of its events.
pub fn sum_up(meta: SessionMeta, tally: SessionTally) -> (r: SessionUsage)
    ensures
        r@ == summed_up(meta@, tally@),
{
    let updated_at = match &tally.last_timestamp {
        Some(stamp) => match parse_rfc3339(stamp.as_str()) {
            Some(seconds) => to_unsigned_seconds(seconds),
            None => meta.created_at,
        },
        None => meta.created_at,
    };
    SessionUsage {
        session_id: meta.session_id,
        project_path: meta.cwd,
        model: tally.model,
        tokens: tally.tokens,
        created_at: meta.created_at,
        updated_at,
        first_message: tally.first_message,
    }
}

/// Reads the lines of a session log into what the session used.
pub fn parse_session_for_usage(lines: &Vec<String>) -> (r: Option<SessionUsage>)
    ensures
        r.deep_view() == session_usage(lines.deep_view()),
{
    if lines.len() == 0 {
        return None;
    }
    assert(lines.deep_view().first() == lines@[0]@);
    let meta = match read_session_meta(lines[0].as_str()) {
        Some(meta) => meta,
        None => {
            return None;
        },
    };
    let ghost events = lines.deep_view().drop_first();
    let mut tally = SessionTally::new();
    let mut i: usize = 1;
    assert(events.take(0) =~= Seq::<Seq<char>>::empty());
    while i < lines.len()
        invariant
            1 <= i <= lines@.len(),
            events == lines.deep_view().drop_first(),
            tally@ == SessionTallyView::start().with_lines(events.take(i - 1)),
        decreases lines@.len() - i,
    {
        proof {
            let upto = events.take(i as int);
            assert(upto.drop_last() =~= events.take(i - 1));
            assert(upto.last() == lines@[i as int]@);
        }
        match read_event(lines[i].as_str()) {
            Some(facts) => {
                tally.absorb(facts);
            },
            None => {},
        }
        i += 1;
    }
    assert(events.take(i - 1) =~= events);
    Some(sum_up(meta, tally))
}

/// What `chrono::DateTime::from_timestamp` with no nanoseconds, `DateTime::format` and
/// the formatted value's `to_string` give: the moment in universal time, written after
/// the pattern; `None` where the seconds are out of the range of dates.
pub uninterp spec fn utc_text(seconds: i64, pattern: Seq<char>) -> Option<Seq<char>>;

/// The pattern of a day: year, month, day.
pub open spec fn day_pattern() -> Seq<char> {
    "%Y-%m-%d"@
}

/// The pattern of a moment: day and time of day.
pub open spec fn moment_pattern() -> Seq<char> {
    "%Y-%m-%dT%H:%M:%S"@
}

/// Trusted: calls `chrono::DateTime::from_timestamp`, `DateTime::format` and `to_string`
/// of what that gives. The result depends on the seconds and the pattern alone. Only the
/// two patterns of this module are admitted: writing out a pattern that is not valid
/// would panic.
#[verifier::external_body]
fn format_utc(seconds: i64, pattern: &str) -> (r: Option<String>)
    requires
        pattern@ == day_pattern() || pattern@ == moment_pattern(),
    ensures
        r.deep_view() == utc_text(seconds, pattern@),
{
    chrono::DateTime::from_timestamp(seconds, 0).map(|moment| moment.format(pattern).to_string())
}

/// An unsigned count of seconds as a time; a count beyond the largest time wraps around.
pub open spec fn signed_seconds(seconds: u64) -> i64 {
    if seconds <= 0x7fff_ffff_ffff_ffff {
        seconds as i64
    } else {
        (seconds - 0x1_0000_0000_0000_0000) as i64
    }
}

/// Computes [`signed_seconds`].
pub fn to_signed_seconds(seconds: u64) -> (r: i64)
    ensures
        r == signed_seconds(seconds),
{
    if seconds <= 0x7fff_ffff_ffff_ffff {
        seconds as i64
    } else {
        let below: u64 = u64::MAX - seconds;
        assert(below <= 0x7fff_ffff_ffff_ffff);
        let distance: i64 = below as i64;
        -distance - 1
    }
}

/// The time written after `pattern`, or `unknown` where it is out of the range of dates.
pub open spec fn written(seconds: u64, pattern: Seq<char>) -> Seq<char> {
    match utc_text(signed_seconds(seconds), pattern) {
        Some(text) => text,
        None => "unknown"@,
    }
}

fn write_time(seconds: u64, pattern: &str) -> (r: String)
    requires
        pattern@ == day_pattern() || pattern@ == moment_pattern(),
    ensures
        r@ == written(seconds, pattern@),
{
    match format_utc(to_signed_seconds(seconds), pattern) {
        Some(text) => text,
        None => String::from_str("unknown"),
    }
}

/// The characters of a text as numbers that order texts the way texts are ordered: by
/// the first character in which they differ, a text that ends there coming first.
pub open spec fn codes(text: Seq<char>) -> Seq<u32> {
    text.map_values(|c: char| (c as u32 + 1) as u32)
}

/// `a` comes before `b` in the order of texts.
pub open spec fn text_before(a: Seq<char>, b: Seq<char>) -> bool {
    older(codes(a), codes(b))
}

/// Decides [`text_before`].
pub fn comes_before(a: &str, b: &str) -> (r: bool)
    ensures
        r == text_before(a@, b@),
{
    let x = code_list(a);
    let y = code_list(b);
    match rank_numbers(&x, &y) {
        Rank::Lower => true,
        _ => false,
    }
}

fn code_list(text: &str) -> (r: Vec<u32>)
    ensures
        r@ == codes(text@),
{
    let chars = chars_of(text);
    let mut out: Vec<u32> = Vec::new();
    let mut i: usize = 0;
    while i < chars.len()
        invariant
            i <= chars@.len(),
            chars@ == text@,
            out@ == codes(text@).take(i as int),
        decreases chars@.len() - i,
    {
        let c = chars[i];
        proof {
            vstd::utf8::char_is_scalar(c);
        }
        out.push(c as u32 + 1);
        assert(out@ =~= codes(text@).take(i + 1));
        i += 1;
    }
    assert(codes(text@).take(i as int) =~= codes(text@));
    out
}

/// What the sessions of one model used.
#[derive(Debug)]
pub struct ModelTotals {
    pub model: String,
    pub tokens: TokenCounts,
    pub session_count: u64,
}

/// View of [`ModelTotals`].
pub struct ModelTotalsView {
    pub model: Seq<char>,
    pub tokens: TokenCounts,
    pub session_count: u64,
}

impl View for ModelTotals {
    type V = ModelTotalsView;

    open spec fn view(&self) -> ModelTotalsView {
        ModelTotalsView {
            model: self.model@,
            tokens: self.tokens,
            session_count: self.session_count,
        }
    }
}

impl DeepView for ModelTotals {
    type V = ModelTotalsView;

    open spec fn deep_view(&self) -> ModelTotalsView {
        self@
    }
}

/// What the sessions of one day used.
#[derive(Debug)]
pub struct DayTotals {
    /// The day, as year, month and day; `unknown` where it is out of the range of dates.
    pub date: String,
    /// Input and output tokens together.
    pub total_tokens: u64,
    /// The models used that day, in the order they were first used.
    pub models_used: Vec<String>,
}

/// View of [`DayTotals`].
pub struct DayTotalsView {
    pub date: Seq<char>,
    pub total_tokens: u64,
    pub models_used: Seq<Seq<char>>,
}

impl View for DayTotals {
    type V = DayTotalsView;

    open spec fn view(&self) -> DayTotalsView {
        DayTotalsView {
            date: self.date@,
            total_tokens: self.total_tokens,
            models_used: self.models_used.deep_view(),
        }
    }
}

impl DeepView for DayTotals {
    type V = DayTotalsView;

    open spec fn deep_view(&self) -> DayTotalsView {
        self@
    }
}

/// What the sessions of one project used.
#[derive(Debug)]
pub struct ProjectTotals {
    pub project_path: String,
    /// The last piece of the path.
    pub project_name: String,
    /// Input and output tokens together.
    pub total_tokens: u64,
    pub session_count: u64,
    /// The moment of the project's last activity, as day and time of day.
    pub last_used: String,
}

/// View of [`ProjectTotals`].
pub struct ProjectTotalsView {
    pub project_path: Seq<char>,
    pub project_name: Seq<char>,
    pub total_tokens: u64,
    pub session_count: u64,
    pub last_used: Seq<char>,
}

impl View for ProjectTotals {
    type V = ProjectTotalsView;

    open spec fn view(&self) -> ProjectTotalsView {
        ProjectTotalsView {
            project_path: self.project_path@,
            project_name: self.project_name@,
            total_tokens: self.total_tokens,
            session_count: self.session_count,
            last_used: self.last_used@,
        }
    }
}

impl DeepView for ProjectTotals {
    type V = ProjectTotalsView;

    open spec fn deep_view(&self) -> ProjectTotalsView {
        self@
    }
}

/// Input and output tokens of a session together.
pub open spec fn spent(session: SessionUsageView) -> u64 {
    capped_sum(session.tokens.input, session.tokens.output)
}

/// The totals per model with one more session. Models stand in the order they were
/// first seen.
pub open spec fn models_with(groups: Seq<ModelTotalsView>, session: SessionUsageView) -> Seq<
    ModelTotalsView,
> {
    match groups.map_values(|g: ModelTotalsView| g.model).index_of_first(session.model) {
        Some(i) => groups.update(
            i,
            ModelTotalsView {
                model: groups[i].model,
                tokens: groups[i].tokens.plus(session.tokens),
                session_count: capped_sum(groups[i].session_count, 1),
            },
        ),
        None => groups.push(
            ModelTotalsView { model: session.model, tokens: session.tokens, session_count: 1 },
        ),
    }
}

/// The totals per model of the sessions.
pub open spec fn per_model(sessions: Seq<SessionUsageView>) -> Seq<ModelTotalsView>
    decreases sessions.len(),
{
    if sessions.len() == 0 {
        Seq::empty()
    } else {
        models_with(per_model(sessions.drop_last()), sessions.last())
    }
}

/// The list with `item` at its end, unless it is in the list already.
pub open spec fn with_once(items: Seq<Seq<char>>, item: Seq<char>) -> Seq<Seq<char>> {
    if items.contains(item) {
        items
    } else {
        items.push(item)
    }
}

/// The totals per day with one more session, which counts for the day it began on.
pub open spec fn days_with(groups: Seq<DayTotalsView>, session: SessionUsageView) -> Seq<
    DayTotalsView,
> {
    let day = written(session.created_at, day_pattern());
    match groups.map_values(|g: DayTotalsView| g.date).index_of_first(day) {
        Some(i) => groups.update(
            i,
            DayTotalsView {
                date: groups[i].date,
                total_tokens: capped_sum(groups[i].total_tokens, spent(session)),
                models_used: with_once(groups[i].models_used, session.model),
            },
        ),
        None => groups.push(
            DayTotalsView {
                date: day,
                total_tokens: spent(session),
                models_used: seq![session.model],
            },
        ),
    }
}

/// The totals per day of the sessions, in the order the days were first seen.
pub open spec fn per_day(sessions: Seq<SessionUsageView>) -> Seq<DayTotalsView>
    decreases sessions.len(),
{
    if sessions.len() == 0 {
        Seq::empty()
    } else {
        days_with(per_day(sessions.drop_last()), sessions.last())
    }
}

/// In the list of days a later day goes first.
pub open spec fn later_first() -> spec_fn(DayTotalsView, DayTotalsView) -> bool {
    |a: DayTotalsView, b: DayTotalsView| text_before(b.date, a.date)
}

/// The totals per day of the sessions, latest day first.
pub open spec fn by_day(sessions: Seq<SessionUsageView>) -> Seq<DayTotalsView> {
    arranged(per_day(sessions), later_first())
}

/// The order of the list of days ranks days into tiers.
pub proof fn lemma_later_first_tiers()
    ensures
        crate::choice::ranks_in_tiers(later_first()),
{
    let before = later_first();
    assert forall|a: DayTotalsView, b: DayTotalsView| #[trigger] before(a, b) implies !before(
        b,
        a,
    ) by {
        crate::version::lemma_older_is_one_way(codes(b.date), codes(a.date));
    }
    assert forall|a: DayTotalsView, b: DayTotalsView, c: DayTotalsView|
        #![trigger before(b, a), before(c, b)]
        !before(b, a) && !before(c, b) implies !before(c, a) by {
        crate::version::lemma_not_older_is_transitive(codes(c.date), codes(b.date), codes(a.date));
    }
}

/// The list of days is in order, no day standing behind an earlier one, and holds every
/// day of the sessions once for each time it was first seen.
pub proof fn lemma_days_in_order(sessions: Seq<SessionUsageView>)
    ensures
        crate::choice::in_order(by_day(sessions), later_first()),
        by_day(sessions).len() == per_day(sessions).len(),
        by_day(sessions).to_multiset() == per_day(sessions).to_multiset(),
{
    lemma_later_first_tiers();
    crate::choice::lemma_arranged_is_sorted(per_day(sessions), later_first());
}

/// A character that separates the pieces of a path.
pub open spec fn is_separator(c: char) -> bool {
    c == '/' || c == '\\'
}

/// What stands behind the last separator of a path; the whole path where it has none.
pub open spec fn last_piece(path: Seq<char>) -> Seq<char>
    decreases path.len(),
{
    if path.len() == 0 || is_separator(path.last()) {
        Seq::empty()
    } else {
        last_piece(path.drop_last()).push(path.last())
    }
}

/// Takes the last piece of a path.
pub fn project_name(path: &str) -> (r: String)
    ensures
        r@ == last_piece(path@),
{
    let chars = chars_of(path);
    let mut start: usize = chars.len();
    assert(chars@.subrange(start as int, chars@.len() as int) =~= Seq::<char>::empty());
    assert(last_piece(chars@.take(0)) =~= Seq::<char>::empty());
    while start > 0 && !(chars[start - 1] == '/' || chars[start - 1] == '\\')
        invariant
            start <= chars@.len(),
            forall|k: int| start <= k < chars@.len() ==> !is_separator(chars@[k]),
        decreases start,
    {
        start -= 1;
    }
    let piece = slice_chars(&chars, start, chars.len());
    proof {
        lemma_last_piece(chars@, start as int);
    }
    string_from_chars(&piece)
}

/// The last piece starts behind the last separator.
proof fn lemma_last_piece(path: Seq<char>, start: int)
    requires
        0 <= start <= path.len(),
        forall|k: int| start <= k < path.len() ==> !is_separator(path[k]),
        start > 0 ==> is_separator(path[start - 1]),
    ensures
        last_piece(path) == path.subrange(start, path.len() as int),
    decreases path.len(),
{
    if path.len() == 0 || start == path.len() {
        assert(path.subrange(start, path.len() as int) =~= Seq::<char>::empty());
    } else {
        let shorter = path.drop_last();
        assert forall|k: int| start <= k < shorter.len() implies !is_separator(shorter[k]) by {
            assert(shorter[k] == path[k]);
        }
        if start > 0 {
            assert(shorter[start - 1] == path[start - 1]);
        }
        lemma_last_piece(shorter, start);
        assert(shorter.subrange(start, shorter.len() as int).push(path.last()) =~= path.subrange(
            start,
            path.len() as int,
        ));
    }
}

/// The totals per project with one more session. Projects stand in the order they were
/// first seen; a project was last used at the latest moment any of its sessions was.
pub open spec fn projects_with(groups: Seq<ProjectTotalsView>, session: SessionUsageView) -> Seq<
    ProjectTotalsView,
> {
    let moment = written(session.updated_at, moment_pattern());
    match groups.map_values(|g: ProjectTotalsView| g.project_path).index_of_first(
        session.project_path,
    ) {
        Some(i) => groups.update(
            i,
            ProjectTotalsView {
                project_path: groups[i].project_path,
                project_name: groups[i].project_name,
                total_tokens: capped_sum(groups[i].total_tokens, spent(session)),
                session_count: capped_sum(groups[i].session_count, 1),
                last_used: if text_before(groups[i].last_used, moment) {
                    moment
                } else {
                    groups[i].last_used
                },
            },
        ),
        None => groups.push(
            ProjectTotalsView {
                project_path: session.project_path,
                project_name: last_piece(session.project_path),
                total_tokens: spent(session),
                session_count: 1,
                last_used: moment,
            },
        ),
    }
}

/// The totals per project of the sessions.
pub open spec fn per_project(sessions: Seq<SessionUsageView>) -> Seq<ProjectTotalsView>
    decreases sessions.len(),
{
    if sessions.len() == 0 {
        Seq::empty()
    } else {
        projects_with(per_project(sessions.drop_last()), sessions.last())
    }
}

/// The tokens of the sessions summed up.
pub open spec fn all_tokens(sessions: Seq<SessionUsageView>) -> TokenCounts
    decreases sessions.len(),
{
    if sessions.len() == 0 {
        TokenCounts { input: 0, output: 0, cached: 0 }
    } else {
        all_tokens(sessions.drop_last()).plus(sessions.last().tokens)
    }
}

/// What a list of sessions used, in all and per model, day and project.
#[derive(Debug)]
pub struct UsageTotals {
    pub tokens: TokenCounts,
    pub total_sessions: usize,
    /// Per model, in the order the models were first seen.
    pub by_model: Vec<ModelTotals>,
    /// Per day, latest day first.
    pub by_date: Vec<DayTotals>,
    /// Per project, in the order the projects were first seen.
    pub by_project: Vec<ProjectTotals>,
}

fn find_text(keys: &Vec<String>, wanted: &str) -> (r: Option<usize>)
    ensures
        match r {
            Some(i) => i < keys@.len() && keys.deep_view().index_of_first(wanted@) == Some(
                i as int,
            ) && keys.deep_view()[i as int] == wanted@,
            None => keys.deep_view().index_of_first(wanted@) is None,
        },
{
    let ghost all = keys.deep_view();
    let mut i: usize = 0;
    while i < keys.len()
        invariant
            i <= keys@.len(),
            all == keys.deep_view(),
            forall|k: int| 0 <= k < i ==> all[k] != wanted@,
        decreases keys@.len() - i,
    {
        assert(all[i as int] == keys@[i as int]@);
        if *keys[i].as_str() == *wanted {
            proof {
                all.index_of_first_ensures(wanted@);
                assert(all.contains(wanted@));
            }
            return Some(i);
        }
        i += 1;
    }
    proof {
        all.index_of_first_ensures(wanted@);
    }
    None
}

/// Sums up what the sessions used per model.
pub fn totals_per_model(sessions: &Vec<SessionUsage>) -> (r: Vec<ModelTotals>)
    ensures
        r.deep_view() == per_model(sessions.deep_view()),
{
    let mut groups: Vec<ModelTotals> = Vec::new();
    let mut keys: Vec<String> = Vec::new();
    let mut i: usize = 0;
    assert(sessions.deep_view().take(0) =~= Seq::<SessionUsageView>::empty());
    assert(groups.deep_view() =~= Seq::<ModelTotalsView>::empty());
    assert(keys.deep_view() =~= groups.deep_view().map_values(|g: ModelTotalsView| g.model));
    while i < sessions.len()
        invariant
            i <= sessions@.len(),
            groups.deep_view() == per_model(sessions.deep_view().take(i as int)),
            keys.deep_view() == groups.deep_view().map_values(|g: ModelTotalsView| g.model),
        decreases sessions@.len() - i,
    {
        let ghost before = groups.deep_view();
        proof {
            let upto = sessions.deep_view().take(i + 1);
            assert(upto.drop_last() =~= sessions.deep_view().take(i as int));
            assert(upto.last() == sessions@[i as int]@);
        }
        let session = &sessions[i];
        match find_text(&keys, session.model.as_str()) {
            Some(at) => {
                assert(keys.deep_view().len() == groups.deep_view().len());
                assert(at < groups@.len());
                assert(before[at as int] == groups@[at as int]@);
                groups[at].tokens.add_turn(session.tokens);
                groups[at].session_count = add_capped(groups[at].session_count, 1);
                assert(groups.deep_view() =~= models_with(before, session@));
                assert(keys.deep_view() =~= groups.deep_view().map_values(
                    |g: ModelTotalsView| g.model,
                ));
            },
            None => {
                groups.push(
                    ModelTotals {
                        model: session.model.clone(),
                        tokens: session.tokens,
                        session_count: 1,
                    },
                );
                push_string(&mut keys, session.model.clone());
                assert(groups.deep_view() =~= models_with(before, session@));
                assert(keys.deep_view() =~= groups.deep_view().map_values(
                    |g: ModelTotalsView| g.model,
                ));
            },
        }
        i += 1;
    }
    assert(sessions.deep_view().take(i as int) =~= sessions.deep_view());
    groups
}

fn spent_by(session: &SessionUsage) -> (r: u64)
    ensures
        r == spent(session@),
{
    add_capped(session.tokens.input, session.tokens.output)
}

fn days_unsorted(sessions: &Vec<SessionUsage>) -> (r: Vec<DayTotals>)
    ensures
        r.deep_view() == per_day(sessions.deep_view()),
{
    let mut groups: Vec<DayTotals> = Vec::new();
    let mut keys: Vec<String> = Vec::new();
    let mut i: usize = 0;
    assert(sessions.deep_view().take(0) =~= Seq::<SessionUsageView>::empty());
    assert(groups.deep_view() =~= Seq::<DayTotalsView>::empty());
    assert(keys.deep_view() =~= groups.deep_view().map_values(|g: DayTotalsView| g.date));
    while i < sessions.len()
        invariant
            i <= sessions@.len(),
            groups.deep_view() == per_day(sessions.deep_view().take(i as int)),
            keys.deep_view() == groups.deep_view().map_values(|g: DayTotalsView| g.date),
        decreases sessions@.len() - i,
    {
        let ghost before = groups.deep_view();
        proof {
            let upto = sessions.deep_view().take(i + 1);
            assert(upto.drop_last() =~= sessions.deep_view().take(i as int));
            assert(upto.last() == sessions@[i as int]@);
        }
        let session = &sessions[i];
        let day = write_time(session.created_at, "%Y-%m-%d");
        match find_text(&keys, day.as_str()) {
            Some(at) => {
                assert(keys.deep_view().len() == groups.deep_view().len());
                assert(at < groups@.len());
                assert(before[at as int] == groups@[at as int]@);
                groups[at].total_tokens = add_capped(groups[at].total_tokens, spent_by(session));
                if !contains_string(&groups[at].models_used, session.model.as_str()) {
                    push_string(&mut groups[at].models_used, session.model.clone());
                }
                assert(groups.deep_view() =~= days_with(before, session@));
                assert(keys.deep_view() =~= groups.deep_view().map_values(
                    |g: DayTotalsView| g.date,
                ));
            },
            None => {
                let mut models_used: Vec<String> = Vec::new();
                models_used.push(session.model.clone());
                assert(models_used.deep_view() =~= seq![session.model@]);
                groups.push(
                    DayTotals { date: day.clone(), total_tokens: spent_by(session), models_used },
                );
                push_string(&mut keys, day);
                assert(groups.deep_view() =~= days_with(before, session@));
                assert(keys.deep_view() =~= groups.deep_view().map_values(
                    |g: DayTotalsView| g.date,
                ));
            },
        }
        i += 1;
    }
    assert(sessions.deep_view().take(i as int) =~= sessions.deep_view());
    groups
}

/// Sums up what the sessions used per day, latest day first.
pub fn totals_per_day(sessions: &Vec<SessionUsage>) -> (r: Vec<DayTotals>)
    ensures
        r.deep_view() == by_day(sessions.deep_view()),
{
    let mut groups = days_unsorted(sessions);
    let ghost all = groups.deep_view();
    let ghost before_fn = later_first();
    let mut out: Vec<DayTotals> = Vec::new();
    let mut done: usize = 0;
    assert(all.take(0) =~= Seq::<DayTotalsView>::empty());
    assert(out.deep_view() =~= Seq::<DayTotalsView>::empty());
    let total = groups.len();
    // the groups are taken from the front one by one
    while groups.len() > 0
        invariant
            done + groups@.len() == all.len(),
            total == all.len(),
            groups.deep_view() == all.skip(done as int),
            before_fn == later_first(),
            out.deep_view() == arranged(all.take(done as int), before_fn),
        decreases groups@.len(),
    {
        let ghost rest = groups.deep_view();
        let x = groups.remove(0);
        assert(x@ == all[done as int]) by {
            assert(rest[0] == all.skip(done as int)[0]);
        }
        assert(groups.deep_view() =~= all.skip(done + 1)) by {
            assert(groups.deep_view() =~= rest.remove(0));
        }
        let mut at: usize = out.len();
        while at > 0 && comes_before(out[at - 1].date.as_str(), x.date.as_str())
            invariant
                at <= out@.len(),
                before_fn == later_first(),
                forall|m: int| at <= m < out@.len() ==> before_fn(x@, #[trigger] out@[m]@),
            decreases at,
        {
            at -= 1;
        }
        let ghost sorted = out.deep_view();
        proof {
            assert forall|m: int| at <= m < sorted.len() implies before_fn(
                x@,
                #[trigger] sorted[m],
            ) by {
                assert(sorted[m] == out@[m]@);
            }
            if at > 0 {
                assert(sorted[at - 1] == out@[at - 1]@);
            }
            lemma_inserted_at(sorted, x@, before_fn, at as int);
            let upto = all.take(done + 1);
            assert(upto.drop_last() =~= all.take(done as int));
            assert(upto.last() == all[done as int]);
        }
        out.insert(at, x);
        assert(out.deep_view() =~= sorted.insert(at as int, all[done as int]));
        done += 1;
    }
    assert(all.take(done as int) =~= all);
    out
}

/// Sums up what the sessions used per project.
pub fn totals_per_project(sessions: &Vec<SessionUsage>) -> (r: Vec<ProjectTotals>)
    ensures
        r.deep_view() == per_project(sessions.deep_view()),
{
    let mut groups: Vec<ProjectTotals> = Vec::new();
    let mut keys: Vec<String> = Vec::new();
    let mut i: usize = 0;
    assert(sessions.deep_view().take(0) =~= Seq::<SessionUsageView>::empty());
    assert(groups.deep_view() =~= Seq::<ProjectTotalsView>::empty());
    assert(keys.deep_view() =~= groups.deep_view().map_values(
        |g: ProjectTotalsView| g.project_path,
    ));
    while i < sessions.len()
        invariant
            i <= sessions@.len(),
            groups.deep_view() == per_project(sessions.deep_view().take(i as int)),
            keys.deep_view() == groups.deep_view().map_values(|g: ProjectTotalsView| g.project_path),
        decreases sessions@.len() - i,
    {
        let ghost before = groups.deep_view();
        proof {
            let upto = sessions.deep_view().take(i + 1);
            assert(upto.drop_last() =~= sessions.deep_view().take(i as int));
            assert(upto.last() == sessions@[i as int]@);
        }
        let session = &sessions[i];
        let moment = write_time(session.updated_at, "%Y-%m-%dT%H:%M:%S");
        match find_text(&keys, session.project_path.as_str()) {
            Some(at) => {
                assert(keys.deep_view().len() == groups.deep_view().len());
                assert(at < groups@.len());
                assert(before[at as int] == groups@[at as int]@);
                groups[at].total_tokens = add_capped(groups[at].total_tokens, spent_by(session));
                groups[at].session_count = add_capped(groups[at].session_count, 1);
                if comes_before(groups[at].last_used.as_str(), moment.as_str()) {
                    groups[at].last_used = moment;
                }
                assert(groups.deep_view() =~= projects_with(before, session@));
                assert(keys.deep_view() =~= groups.deep_view().map_values(
                    |g: ProjectTotalsView| g.project_path,
                ));
            },
            None => {
                groups.push(
                    ProjectTotals {
                        project_path: session.project_path.clone(),
                        project_name: project_name(session.project_path.as_str()),
                        total_tokens: spent_by(session),
                        session_count: 1,
                        last_used: moment,
                    },
                );
                push_string(&mut keys, session.project_path.clone());
                assert(groups.deep_view() =~= projects_with(before, session@));
                assert(keys.deep_view() =~= groups.deep_view().map_values(
                    |g: ProjectTotalsView| g.project_path,
                ));
            },
        }
        i += 1;
    }
    assert(sessions.deep_view().take(i as int) =~= sessions.deep_view());
    groups
}

/// Sums up what the sessions used: in all, and per model, day and project.
pub fn sum_up_sessions(sessions: &Vec<SessionUsage>) -> (r: UsageTotals)
    ensures
        r.tokens == all_tokens(sessions.deep_view()),
        r.total_sessions == sessions@.len(),
        r.by_model.deep_view() == per_model(sessions.deep_view()),
        r.by_date.deep_view() == by_day(sessions.deep_view()),
        r.by_project.deep_view() == per_project(sessions.deep_view()),
{
    let mut tokens = TokenCounts::zero();
    let mut i: usize = 0;
    assert(sessions.deep_view().take(0) =~= Seq::<SessionUsageView>::empty());
    while i < sessions.len()
        invariant
            i <= sessions@.len(),
            tokens == all_tokens(sessions.deep_view().take(i as int)),
        decreases sessions@.len() - i,
    {
        proof {
            let upto = sessions.deep_view().take(i + 1);
            assert(upto.drop_last() =~= sessions.deep_view().take(i as int));
            assert(upto.last() == sessions@[i as int]@);
        }
        tokens.add_turn(sessions[i].tokens);
        i += 1;
    }
    assert(sessions.deep_view().take(i as int) =~= sessions.deep_view());
    UsageTotals {
        tokens,
        total_sessions: sessions.len(),
        by_model: totals_per_model(sessions),
        by_date: totals_per_day(sessions),
        by_project: totals_per_project(sessions),
    }
}

impl Clone for SessionUsage {
    fn clone(&self) -> (r: Self)
        ensures
            r@ == self@,
    {
        SessionUsage {
            session_id: self.session_id.clone(),
            project_path: self.project_path.clone(),
            model: self.model.clone(),
            tokens: self.tokens,
            created_at: self.created_at,
            updated_at: self.updated_at,
            first_message: self.first_message.clone(),
        }
    }
}

/// What `chrono::DateTime::from_timestamp`, `DateTime::date_naive` and
/// `Datelike::num_days_from_ce` give: the day of the moment in universal time, as a
/// count of days; `None` where the seconds are out of the range of dates.
pub uninterp spec fn utc_day_number(seconds: i64) -> Option<i32>;

/// Trusted: calls `chrono::DateTime::from_timestamp`, `DateTime::date_naive` and
/// `Datelike::num_days_from_ce`. The result depends on the seconds alone.
#[verifier::external_body]
fn day_number(seconds: i64) -> (r: Option<i32>)
    ensures
        r == utc_day_number(seconds),
{
    chrono::DateTime::from_timestamp(seconds, 0).map(
        |moment| chrono::Datelike::num_days_from_ce(&moment.date_naive()),
    )
}

/// What `chrono::NaiveDate::parse_from_str` gives for a text and a pattern: the day the
/// text writes, as `Datelike::num_days_from_ce` counts it, or the message of the error.
pub uninterp spec fn day_parsed(text: Seq<char>, pattern: Seq<char>) -> Result<i32, Seq<char>>;

/// Trusted: calls `chrono::NaiveDate::parse_from_str` and, on the day it parsed,
/// `Datelike::num_days_from_ce`; an error is given as the text it displays as. The
/// result depends on the text and the pattern alone.
#[verifier::external_body]
fn parse_day(text: &str, pattern: &str) -> (r: Result<i32, String>)
    ensures
        match r {
            Ok(day) => day_parsed(text@, pattern@) == Ok::<i32, Seq<char>>(day),
            Err(e) => day_parsed(text@, pattern@) == Err::<i32, Seq<char>>(e@),
        },
{
    chrono::NaiveDate::parse_from_str(text, pattern).map(
        |day| chrono::Datelike::num_days_from_ce(&day),
    ).map_err(|e| e.to_string())
}

/// The session began on a day from `first` to `last`, both included.
pub open spec fn began_within(session: SessionUsageView, first: i32, last: i32) -> bool {
    match utc_day_number(signed_seconds(session.created_at)) {
        Some(day) => first <= day && day <= last,
        None => false,
    }
}

/// [`began_within`] as a predicate on sessions.
pub open spec fn within(first: i32, last: i32) -> spec_fn(SessionUsageView) -> bool {
    |session: SessionUsageView| began_within(session, first, last)
}

/// The sessions that began on a day from `start` to `end`, both written as year, month
/// and day; an error where one of the two is no such day.
pub open spec fn between(sessions: Seq<SessionUsageView>, start: Seq<char>, end: Seq<char>) -> Result<
    Seq<SessionUsageView>,
    Seq<char>,
> {
    match day_parsed(start, day_pattern()) {
        Err(e) => Err("Invalid start date: "@ + e),
        Ok(first) => match day_parsed(end, day_pattern()) {
            Err(e) => Err("Invalid end date: "@ + e),
            Ok(last) => Ok(sessions.filter(within(first, last))),
        },
    }
}

/// Keeps the sessions that began within the given days.
pub fn sessions_between(sessions: &Vec<SessionUsage>, start: &str, end: &str) -> (r: Result<
    Vec<SessionUsage>,
    String,
>)
    ensures
        match r {
            Ok(kept) => between(sessions.deep_view(), start@, end@) == Ok::<
                Seq<SessionUsageView>,
                Seq<char>,
            >(kept.deep_view()),
            Err(e) => between(sessions.deep_view(), start@, end@) == Err::<
                Seq<SessionUsageView>,
                Seq<char>,
            >(e@),
        },
{
    let first = match parse_day(start, "%Y-%m-%d") {
        Ok(day) => day,
        Err(e) => {
            let mut message = String::from_str("Invalid start date: ");
            message.append(e.as_str());
            return Err(message);
        },
    };
    let last = match parse_day(end, "%Y-%m-%d") {
        Ok(day) => day,
        Err(e) => {
            let mut message = String::from_str("Invalid end date: ");
            message.append(e.as_str());
            return Err(message);
        },
    };
    let ghost keep = within(first, last);
    let mut out: Vec<SessionUsage> = Vec::new();
    let mut i: usize = 0;
    assert(sessions.deep_view().take(0) =~= Seq::<SessionUsageView>::empty());
    assert(out.deep_view() =~= Seq::<SessionUsageView>::empty());
    proof {
        reveal(Seq::filter);
    }
    while i < sessions.len()
        invariant
            i <= sessions@.len(),
            keep == within(first, last),
            out.deep_view() == sessions.deep_view().take(i as int).filter(keep),
        decreases sessions@.len() - i,
    {
        let ghost before = out.deep_view();
        proof {
            reveal(Seq::filter);
            let upto = sessions.deep_view().take(i + 1);
            assert(upto.drop_last() =~= sessions.deep_view().take(i as int));
            assert(upto.last() == sessions@[i as int]@);
        }
        let inside = match day_number(to_signed_seconds(sessions[i].created_at)) {
            Some(day) => first <= day && day <= last,
            None => false,
        };
        if inside {
            out.push(sessions[i].clone());
            assert(out.deep_view() =~= before.push(sessions@[i as int]@));
        }
        i += 1;
    }
    assert(sessions.deep_view().take(i as int) =~= sessions.deep_view());
    Ok(out)
}

} // verus!
