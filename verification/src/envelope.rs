//! Decoding one output line of the child into the little the engine reads from it.
//!
//! A line is JSON text. The engine looks at four members of the top-level value: `type`,
//! `subtype`, `session_id` and `usage`. Everything else in the line is opaque and is
//! forwarded as it came. JSON parsing itself is done by `serde_json`, see [`crate::json`];
//! this module states which of its answers the envelope is built from.

use crate::json::{
    json_member, json_parse, member, parse_value, read_text, read_unsigned, text_member,
    unsigned_member,
};
use vstd::prelude::*;
use vstd::string::*;

verus! {

/// The token counts of a `usage` member. A count is absent where the member is missing
/// or is not an unsigned integer.
#[derive(Clone, Copy, Debug, PartialEq, Eq, Structural)]
pub struct Usage {
    pub input_tokens: Option<u64>,
    pub output_tokens: Option<u64>,
    pub cache_creation_input_tokens: Option<u64>,
    pub cache_read_input_tokens: Option<u64>,
}

/// What the engine reads from one line.
#[derive(Debug)]
pub struct Envelope {
    /// The string under `type`.
    pub kind: Option<String>,
    /// The string under `subtype`.
    pub subtype: Option<String>,
    /// The string under `session_id`.
    pub session_id: Option<String>,
    /// The counts under `usage`, where the line has such a member.
    pub usage: Option<Usage>,
}

/// View of [`Envelope`].
pub struct EnvelopeView {
    pub kind: Option<Seq<char>>,
    pub subtype: Option<Seq<char>>,
    pub session_id: Option<Seq<char>>,
    pub usage: Option<Usage>,
}

impl View for Envelope {
    type V = EnvelopeView;

    open spec fn view(&self) -> EnvelopeView {
        EnvelopeView {
            kind: self.kind.deep_view(),
            subtype: self.subtype.deep_view(),
            session_id: self.session_id.deep_view(),
            usage: self.usage,
        }
    }
}

impl DeepView for Envelope {
    type V = EnvelopeView;

    open spec fn deep_view(&self) -> EnvelopeView {
        self@
    }
}

/// The counts read from the `usage` member `value`.
pub open spec fn usage_of(value: serde_json::Value) -> Usage {
    Usage {
        input_tokens: unsigned_member(value, "input_tokens"@),
        output_tokens: unsigned_member(value, "output_tokens"@),
        cache_creation_input_tokens: unsigned_member(value, "cache_creation_input_tokens"@),
        cache_read_input_tokens: unsigned_member(value, "cache_read_input_tokens"@),
    }
}

/// The envelope of a parsed line.
pub open spec fn envelope_of(value: serde_json::Value) -> EnvelopeView {
    EnvelopeView {
        kind: text_member(value, "type"@),
        subtype: text_member(value, "subtype"@),
        session_id: text_member(value, "session_id"@),
        usage: match json_member(value, "usage"@) {
            Some(u) => Some(usage_of(u)),
            None => None,
        },
    }
}

/// The envelope of a line; `None` where the line is not JSON.
pub open spec fn decoded(line: Seq<char>) -> Option<EnvelopeView> {
    match json_parse(line) {
        Some(value) => Some(envelope_of(value)),
        None => None,
    }
}

/// Decodes one line. A line that is not JSON has no envelope; it is still a line.
pub fn decode(line: &str) -> (r: Option<Envelope>)
    ensures
        r.deep_view() == decoded(line@),
{
    let value = match parse_value(line) {
        Some(value) => value,
        None => {
            return None;
        },
    };
    let usage = match member(&value, "usage") {
        Some(u) => Some(
            Usage {
                input_tokens: read_unsigned(u, "input_tokens"),
                output_tokens: read_unsigned(u, "output_tokens"),
                cache_creation_input_tokens: read_unsigned(u, "cache_creation_input_tokens"),
                cache_read_input_tokens: read_unsigned(u, "cache_read_input_tokens"),
            },
        ),
        None => None,
    };
    Some(
        Envelope {
            kind: read_text(&value, "type"),
            subtype: read_text(&value, "subtype"),
            session_id: read_text(&value, "session_id"),
            usage,
        },
    )
}

impl EnvelopeView {
    /// The session id an init line announces: the line's `type` is `system`, its `subtype`
    /// is `init`, and it has a string `session_id`.
    pub open spec fn announced_session(self) -> Option<Seq<char>> {
        if self.kind == Some("system"@) && self.subtype == Some("init"@) {
            self.session_id
        } else {
            None
        }
    }

    /// The token total of a usage line: input plus output tokens, capped at `u64::MAX`.
    /// Present where the line has a `usage` member with both counts.
    pub open spec fn token_total(self) -> Option<u64> {
        match self.usage {
            Some(u) => match (u.input_tokens, u.output_tokens) {
                (Some(i), Some(o)) => Some(
                    if i + o <= u64::MAX {
                        (i + o) as u64
                    } else {
                        u64::MAX
                    },
                ),
                _ => None,
            },
            None => None,
        }
    }
}

impl Envelope {
    /// The session id this line announces, if it is an init line.
    pub fn announced_session(&self) -> (r: Option<&String>)
        ensures
            r.deep_view() == self@.announced_session(),
    {
        let is_system = match &self.kind {
            Some(k) => *k.as_str() == *"system",
            None => false,
        };
        let is_init = match &self.subtype {
            Some(s) => *s.as_str() == *"init",
            None => false,
        };
        if is_system && is_init {
            self.session_id.as_ref()
        } else {
            None
        }
    }

    /// The token total this line reports, if it is a usage line.
    pub fn token_total(&self) -> (r: Option<u64>)
        ensures
            r == self@.token_total(),
    {
        match self.usage {
            Some(u) => match (u.input_tokens, u.output_tokens) {
                (Some(i), Some(o)) => Some(
                    if i <= u64::MAX - o {
                        i + o
                    } else {
                        u64::MAX
                    },
                ),
                _ => None,
            },
            None => None,
        }
    }
}

} // verus!
