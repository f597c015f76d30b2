//! The conversation with the store.
//!
//! A procedure that talks to the store is a state machine: it hands out an
//! `Action`, the caller performs it, and hands the `Reply` back.
use vstd::prelude::*;
use vstd::string::*;

use crate::json::{
    document, document_of_bytes, parse_bytes, parse_text, parsed, Json, JsonView,
};
use crate::text::{contains, holds_text, law_held_text};

verus! {

/// The method of a request.
#[derive(Debug, Clone, Copy, PartialEq, Eq, Structural)]
pub enum Method {
    Get,
    Post,
    Put,
}

/// What is read of the answer to a request.
#[derive(Debug, Clone, Copy, PartialEq, Eq, Structural)]
pub enum ReadMode {
    /// Nothing.
    Ignore,
    /// The body, as a document, whatever the status.
    Json,
    /// The body, as a text, whatever the status.
    Text,
    /// The body: as a document on success, else as a text.
    JsonOrErrorText,
    /// The status, and on failure the body as a text.
    ErrorText,
}

/// A request to the store.
#[derive(Debug)]
pub struct Request {
    pub method: Method,
    pub url: String,
    pub body: Option<Json>,
    pub read: ReadMode,
}

/// The model of a request.
pub struct RequestView {
    pub method: Method,
    pub url: Seq<char>,
    pub body: Option<JsonView>,
    pub read: ReadMode,
}

impl View for Request {
    type V = RequestView;

    open spec fn view(&self) -> RequestView {
        RequestView {
            method: self.method,
            url: self.url@,
            body: match self.body {
                Some(json) => Some(json@),
                None => None,
            },
            read: self.read,
        }
    }
}

/// What the caller does next.
#[derive(Debug)]
pub enum Action {
    /// Waits for this number of milliseconds.
    Wait(u64),
    /// Sends the request and reads the answer as the request says.
    Send(Request),
    /// Gets a fresh access token.
    RefreshToken,
    /// Stops: the procedure holds its outcome.
    Finish,
}

/// The model of an action.
pub enum ActionView {
    Wait(u64),
    Send(RequestView),
    RefreshToken,
    Finish,
}

impl View for Action {
    type V = ActionView;

    open spec fn view(&self) -> ActionView {
        match self {
            Action::Wait(milliseconds) => ActionView::Wait(*milliseconds),
            Action::Send(request) => ActionView::Send(request@),
            Action::RefreshToken => ActionView::RefreshToken,
            Action::Finish => ActionView::Finish,
        }
    }
}

/// What came of an action, as it was read.
#[derive(Debug)]
pub enum RawReply {
    /// There was nothing to read: the procedure begins, a wait is over, or a
    /// fresh token is in place.
    Ready,
    /// The answer arrived and was not looked at.
    Ignored,
    /// The answer reports success; its body was not read.
    Success,
    /// The body of the answer.
    Bytes(Vec<u8>),
    /// The body of the answer as a text.
    Text(String),
    /// The answer reports failure; its body as a text.
    ErrorText(String),
    /// No answer came, or it could not be read.
    Failed(String),
}

/// What came of an action, with its documents read.
#[derive(Debug)]
pub enum Reply {
    Ready,
    Ignored,
    Success,
    /// The body as a document, and its bytes.
    Json(Json, Vec<u8>),
    /// The body is no document; what is wrong with it.
    Undecodable(String),
    /// The body as a text, and what reading it as a document gives.
    Text(String, Result<Json, String>),
    ErrorText(String),
    Failed(String),
}

/// The model of a reply.
pub enum ReplyView {
    Ready,
    Ignored,
    Success,
    Json(JsonView, Seq<u8>),
    Undecodable(Seq<char>),
    Text(Seq<char>, Result<JsonView, Seq<char>>),
    ErrorText(Seq<char>),
    Failed(Seq<char>),
}

impl View for Reply {
    type V = ReplyView;

    open spec fn view(&self) -> ReplyView {
        match self {
            Reply::Ready => ReplyView::Ready,
            Reply::Ignored => ReplyView::Ignored,
            Reply::Success => ReplyView::Success,
            Reply::Json(json, bytes) => ReplyView::Json(json@, bytes@),
            Reply::Undecodable(message) => ReplyView::Undecodable(message@),
            Reply::Text(text, result) => ReplyView::Text(text@, parsed(*result)),
            Reply::ErrorText(text) => ReplyView::ErrorText(text@),
            Reply::Failed(message) => ReplyView::Failed(message@),
        }
    }
}

/// A raw reply with its documents read.
pub open spec fn decoded(raw: RawReply) -> ReplyView {
    match raw {
        RawReply::Ready => ReplyView::Ready,
        RawReply::Ignored => ReplyView::Ignored,
        RawReply::Success => ReplyView::Success,
        RawReply::Bytes(bytes) => match document_of_bytes(bytes@) {
            Ok(json) => ReplyView::Json(json, bytes@),
            Err(message) => ReplyView::Undecodable(message),
        },
        RawReply::Text(text) => ReplyView::Text(text@, document(text@)),
        RawReply::ErrorText(text) => ReplyView::ErrorText(text@),
        RawReply::Failed(message) => ReplyView::Failed(message@),
    }
}

/// Reads the documents of a reply.
pub fn decode(raw: RawReply) -> (reply: Reply)
    ensures
        reply@ == decoded(raw),
{
    match raw {
        RawReply::Ready => Reply::Ready,
        RawReply::Ignored => Reply::Ignored,
        RawReply::Success => Reply::Success,
        RawReply::Bytes(bytes) => match parse_bytes(&bytes) {
            Ok(json) => Reply::Json(json, bytes),
            Err(message) => Reply::Undecodable(message),
        },
        RawReply::Text(text) => {
            let result = parse_text(text.as_str());
            Reply::Text(text, result)
        },
        RawReply::ErrorText(text) => Reply::ErrorText(text),
        RawReply::Failed(message) => Reply::Failed(message),
    }
}

/// The body of an answer says that requests came too fast.
pub open spec fn rate_limited(body: Seq<char>) -> bool {
    holds_text(body, "Exceeded 2 calls per second"@)
}

/// Whether the body of an answer says that requests came too fast.
pub fn is_rate_limited(body: &str) -> (limited: bool)
    ensures
        limited == rate_limited(body@),
{
    contains(body, "Exceeded 2 calls per second")
}

/// Requests came too fast exactly where the body holds the store's words for it.
pub proof fn law_words_for_too_fast(body: Seq<char>)
    ensures
        rate_limited(body) <==> exists|a: Seq<char>, b: Seq<char>|
            body == #[trigger] (a + "Exceeded 2 calls per second"@ + b),
{
    law_held_text(body, "Exceeded 2 calls per second"@);
}

/// The document of a reply is what its bytes or its text write, and nothing of
/// what was read is lost.
pub proof fn law_replies_are_decoded(raw: RawReply)
    ensures
        match raw {
            RawReply::Bytes(bytes) => match document_of_bytes(bytes@) {
                Ok(json) => decoded(raw) == ReplyView::Json(json, bytes@),
                Err(message) => decoded(raw) == ReplyView::Undecodable(message),
            },
            RawReply::Text(text) => decoded(raw) == ReplyView::Text(text@, document(text@)),
            RawReply::ErrorText(text) => decoded(raw) == ReplyView::ErrorText(text@),
            RawReply::Failed(message) => decoded(raw) == ReplyView::Failed(message@),
            RawReply::Ready => decoded(raw) is Ready,
            RawReply::Ignored => decoded(raw) is Ignored,
            RawReply::Success => decoded(raw) is Success,
        },
{
}

} // verus!
