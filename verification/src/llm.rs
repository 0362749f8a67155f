//! The language-model client: its settings, when it may call, where it
//! calls, and how a reply is read.
use vstd::prelude::*;
use crate::client::{json_as_object, json_error_text, json_member, json_parse, member, parse_json, value_object};
use crate::requests::{json_object_fields, member_text, text_of};
use crate::text::concat;

verus! {

/// Configuration for the language-model client.
#[derive(Debug, Clone, PartialEq, Eq)]
pub struct LlmConfig {
    /// API key (`None` disables the client).
    pub api_key: Option<String>,
    /// Model to use.
    pub model: String,
    /// Base URL of the API.
    pub base_url: String,
    /// Max tokens in a response.
    pub max_tokens: usize,
}

impl LlmConfig {
    /// The client is enabled exactly when an API key is configured.
    pub fn is_enabled(&self) -> (r: bool)
        ensures
            r == self.api_key is Some,
    {
        self.api_key.is_some()
    }
}

impl Default for LlmConfig {
    /// No API key, the `haiku-4-5-20251001` model at
    /// `https://api.anthropic.com/v1`, 512 tokens.
    fn default() -> (r: Self)
        ensures
            r.api_key is None,
            r.model@ == "haiku-4-5-20251001"@,
            r.base_url@ == "https://api.anthropic.com/v1"@,
            r.max_tokens == 512,
    {
        LlmConfig {
            api_key: None,
            model: "haiku-4-5-20251001".to_string(),
            base_url: "https://api.anthropic.com/v1".to_string(),
            max_tokens: 512,
        }
    }
}

/// The items of a JSON value when it is an array (`Value::as_array`).
pub uninterp spec fn json_as_array(v: serde_json::Value) -> Option<Seq<serde_json::Value>>;

/// `Value::as_array`.
#[verifier::external_body]
fn value_array(v: &serde_json::Value) -> (r: Option<&Vec<serde_json::Value>>)
    ensures
        match json_as_array(*v) {
            Some(items) => r matches Some(a) && a@ == items,
            None => r is None,
        },
{
    v.as_array()
}

/// Errors from model calls.
#[derive(Debug)]
pub enum LlmError {
    /// No API key is configured.
    Disabled,
    /// The HTTP request failed (the transport's message).
    Http(String),
    /// The API answered with an error status, or with a body of another
    /// shape.
    Api { status: u16, message: String },
    /// The body was not JSON.
    Parse(serde_json::Error),
}

impl LlmError {
    /// `"LLM client is disabled (no API key)"`, `"API error 500: .."` and
    /// so on.
    pub fn message(&self) -> (r: String)
        ensures
            self is Disabled ==> r@ == "LLM client is disabled (no API key)"@,
            self matches LlmError::Http(m) ==> r@ == "HTTP request failed: "@ + m@,
    {
        match self {
            LlmError::Disabled => {
                proof {
                    reveal_strlit("LLM client is disabled (no API key)");
                }
                "LLM client is disabled (no API key)".to_string()
            },
            LlmError::Http(m) => concat("HTTP request failed: ", m.as_str()),
            LlmError::Api { status, message } => {
                let mut s = "API error ".to_string();
                crate::text::push_decimal(&mut s, *status as u64);
                let s = concat(s.as_str(), ": ");
                concat(s.as_str(), message.as_str())
            },
            LlmError::Parse(e) => concat("Failed to parse JSON: ", json_error_text(e).as_str()),
        }
    }
}

/// The text of a reply body's first content block: `content[0].text`.
pub open spec fn content_text(v: serde_json::Value) -> Option<Seq<char>> {
    match json_as_object(v) {
        None => None,
        Some(m) => match json_member(m, "content"@) {
            None => None,
            Some(c) => match json_as_array(c) {
                None => None,
                Some(items) => if items.len() == 0 {
                    None
                } else {
                    match json_as_object(items[0]) {
                        None => None,
                        Some(block) => text_of(json_object_fields(block), "text"@),
                    }
                },
            },
        },
    }
}

/// Client of a messages API for haiku-class models.
#[derive(Debug, Clone, PartialEq, Eq)]
pub struct LlmClient {
    pub config: LlmConfig,
}

impl LlmClient {
    /// A client with the given settings.
    pub fn new(config: LlmConfig) -> (r: Self)
        ensures
            r.config == config,
    {
        LlmClient { config }
    }

    /// The client may call exactly when an API key is configured.
    pub fn is_enabled(&self) -> (r: bool)
        ensures
            r == self.config.api_key is Some,
    {
        self.config.is_enabled()
    }

    /// The key a call is made with; `Disabled` without one.
    pub fn api_key(&self) -> (r: Result<&str, LlmError>)
        ensures
            match self.config.api_key {
                Some(k) => r matches Ok(s) && s@ == k@,
                None => r matches Err(LlmError::Disabled),
            },
    {
        match &self.config.api_key {
            Some(k) => Ok(k.as_str()),
            None => Err(LlmError::Disabled),
        }
    }

    /// Where calls go: the base URL followed by `/messages`.
    pub fn messages_url(&self) -> (r: String)
        ensures
            r@ == self.config.base_url@ + "/messages"@,
    {
        proof {
            reveal_strlit("/messages");
        }
        concat(self.config.base_url.as_str(), "/messages")
    }

    /// What a reply says: an error status gives `Api` with the status and
    /// the body; a body that is not JSON gives `Parse` with the parser's
    /// error; a body without a first text block gives `Api` with status
    /// 200; otherwise the block's text.
    pub fn reply_text(status: u16, success: bool, body: &str) -> (r: Result<String, LlmError>)
        ensures
            !success ==> (r matches Err(LlmError::Api { status: s, message: m }) && s == status && m@ == body@),
            success ==> match json_parse(body@) {
                None => r matches Err(LlmError::Parse(_)),
                Some(v) => match content_text(v) {
                    Some(t) => (r matches Ok(x) && x@ == t),
                    None => (r matches Err(LlmError::Api { status: s, message: m }) && s == 200 && m@
                        == "Unexpected response format: "@ + body@),
                },
            },
    {
        proof {
            reveal_strlit("content");
            reveal_strlit("text");
            reveal_strlit("Unexpected response format: ");
        }
        if !success {
            return Err(LlmError::Api { status, message: body.to_string() });
        }
        let v = match parse_json(body) {
            Ok(v) => v,
            Err(e) => {
                return Err(LlmError::Parse(e));
            },
        };
        let text = match value_object(&v) {
            None => None,
            Some(m) => match member(m, "content") {
                None => None,
                Some(c) => match value_array(c) {
                    None => None,
                    Some(items) => if items.len() == 0 {
                        None
                    } else {
                        match value_object(&items[0]) {
                            None => None,
                            Some(block) => member_text(block, "text"),
                        }
                    },
                },
            },
        };
        match text {
            Some(t) => Ok(t),
            None => Err(LlmError::Api { status: 200, message: concat("Unexpected response format: ", body) }),
        }
    }
}

} // verus!
