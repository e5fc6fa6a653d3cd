//! The errors of the library.
use vstd::prelude::*;
use crate::text::{decimal, decimal_chars, push_all, push_str, string_of};

verus! {

/// What can go wrong between a query and its answer.
#[derive(Debug)]
pub enum HfpError {
    /// The request could not be made or answered.
    Http(String),
    /// The catalog has no model under the identifier.
    ModelNotFound(String),
    /// The catalog answered with an error status.
    Api { status: u16, body: String },
    /// The answer is no well-formed document.
    Json(String),
    /// No access token is at hand.
    NoToken,
    /// A file could not be read or written, or held no valid data.
    Io(String),
    /// Anything else.
    Other(String),
}

impl HfpError {
    /// The message of the error.
    pub open spec fn message(&self) -> Seq<char> {
        match self {
            HfpError::Http(what) => "HTTP request failed: "@ + what@,
            HfpError::ModelNotFound(id) => "model not found: "@ + id@,
            HfpError::Api { status, body } => "API error (HTTP "@ + decimal(*status as nat) + "): "@
                + body@,
            HfpError::Json(what) => "JSON parse error: "@ + what@,
            HfpError::NoToken =>
                "no HF token found \u{2014} set $HF_TOKEN or run `huggingface-cli login`"@,
            HfpError::Io(what) => "IO error: "@ + what@,
            HfpError::Other(what) => what@,
        }
    }

    /// The message of the error.
    pub fn to_string(&self) -> (r: String)
        ensures
            r@ == self.message(),
    {
        let mut out: Vec<char> = Vec::new();
        match self {
            HfpError::Http(what) => {
                push_str(&mut out, "HTTP request failed: ");
                push_str(&mut out, what.as_str());
            },
            HfpError::ModelNotFound(id) => {
                push_str(&mut out, "model not found: ");
                push_str(&mut out, id.as_str());
            },
            HfpError::Api { status, body } => {
                push_str(&mut out, "API error (HTTP ");
                let digits = decimal_chars(*status as u64);
                push_all(&mut out, digits.as_slice());
                push_str(&mut out, "): ");
                push_str(&mut out, body.as_str());
            },
            HfpError::Json(what) => {
                push_str(&mut out, "JSON parse error: ");
                push_str(&mut out, what.as_str());
            },
            HfpError::NoToken => {
                push_str(
                    &mut out,
                    "no HF token found \u{2014} set $HF_TOKEN or run `huggingface-cli login`",
                );
            },
            HfpError::Io(what) => {
                push_str(&mut out, "IO error: ");
                push_str(&mut out, what.as_str());
            },
            HfpError::Other(what) => {
                push_str(&mut out, what.as_str());
            },
        }
        assert(out@ =~= self.message());
        string_of(out.as_slice())
    }
}

} // verus!
