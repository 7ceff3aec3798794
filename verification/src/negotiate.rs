//! Coarse content negotiation: the handful of response shapes the HTTP
//! surface can produce, read off the start of an `Accept` header.
use vstd::prelude::*;

use crate::flog::esc;
use crate::strutil::append_str;
use crate::strutil::push_char;
use crate::strutil::str_starts_with;
use crate::strutil::string_of;

verus! {

/// What an `Accept` header asks for, reduced to the shapes the handlers
/// can produce. An absent header reads as `Missing`.
#[derive(Debug, Clone, Copy, PartialEq, Eq, Structural)]
pub enum Accept {
    Missing,
    Any,
    PlainText,
    Json,
    Html,
    Xml,
}

pub open spec fn starts_with_spec(s: Seq<char>, p: Seq<char>) -> bool {
    s.len() >= p.len() && s.subrange(0, p.len() as int) == p
}

/// The shape an `Accept` header value asks for: the first of the known
/// media types it starts with.
pub open spec fn accept_kind_spec(s: Seq<char>) -> Accept {
    if starts_with_spec(s, "application/json"@) {
        Accept::Json
    } else if starts_with_spec(s, "text/plain"@) {
        Accept::PlainText
    } else if starts_with_spec(s, "text/html"@) {
        Accept::Html
    } else if starts_with_spec(s, "application/xml"@) {
        Accept::Xml
    } else if starts_with_spec(s, "*/*"@) {
        Accept::Any
    } else {
        Accept::Missing
    }
}

impl Accept {
    /// Read the shape off the start of a header value.
    pub fn from_header(v: &str) -> (r: Accept)
        ensures
            r == accept_kind_spec(v@),
    {
        if str_starts_with(v, "application/json") {
            Accept::Json
        } else if str_starts_with(v, "text/plain") {
            Accept::PlainText
        } else if str_starts_with(v, "text/html") {
            Accept::Html
        } else if str_starts_with(v, "application/xml") {
            Accept::Xml
        } else if str_starts_with(v, "*/*") {
            Accept::Any
        } else {
            Accept::Missing
        }
    }

    /// The shape for a request: an absent header asks for nothing in
    /// particular.
    pub fn from_request(header: Option<&String>) -> (r: Accept)
        ensures
            match header {
                Some(h) => r == accept_kind_spec(h@),
                None => r == Accept::Missing,
            },
    {
        match header {
            Some(h) => Accept::from_header(h.as_str()),
            None => Accept::Missing,
        }
    }
}

/// The body a created link is answered with.
#[derive(Debug, Clone, Copy, PartialEq, Eq, Structural)]
pub enum CreateReply {
    /// The bare identifier.
    Text,
    /// A JSON object with the URL and the identifier.
    Json,
    /// A rendered page.
    Html,
    /// No supported shape was asked for.
    Bad,
}

/// The reply shape for a create request: plain text for no preference, a
/// wildcard or plain text; JSON and HTML for themselves; anything else is
/// refused.
pub fn create_reply_for(accept: Accept) -> (r: CreateReply)
    ensures
        (accept == Accept::Missing || accept == Accept::Any || accept == Accept::PlainText) ==> r
            == CreateReply::Text,
        accept == Accept::Json ==> r == CreateReply::Json,
        accept == Accept::Html ==> r == CreateReply::Html,
        accept == Accept::Xml ==> r == CreateReply::Bad,
{
    match accept {
        Accept::Missing => CreateReply::Text,
        Accept::Any => CreateReply::Text,
        Accept::PlainText => CreateReply::Text,
        Accept::Json => CreateReply::Json,
        Accept::Html => CreateReply::Html,
        Accept::Xml => CreateReply::Bad,
    }
}

/// The JSON error envelope both services answer errors with: a fixed
/// `error` status and the message, escaped.
pub open spec fn error_body_spec(message: Seq<char>) -> Seq<char> {
    "{\"status\":\"error\",\"message\":\""@ + esc(message) + "\"}"@
}

/// Write the JSON error envelope for a message.
pub fn error_body(message: &str) -> (r: String)
    ensures
        r@ == error_body_spec(message@),
{
    let mut out = String::new();
    append_str(&mut out, "{\"status\":\"error\",\"message\":\"");
    let e = crate::flog::escape_json(message);
    let es = string_of(e.as_slice());
    append_str(&mut out, es.as_str());
    push_char(&mut out, '"');
    push_char(&mut out, '}');
    proof {
        reveal_strlit("\"}");
        assert("\"}"@.len() == 2);
        assert(out@ =~= error_body_spec(message@));
    }
    out
}

} // verus!
