//! The service's decisions about requests: the API key, which engine
//! renders a format, and what is answered for each outcome of a render.
use vstd::prelude::*;
use crate::domain::OutputFormat;
use crate::engines::RenderOutput;
use crate::text::{push_str, str_eq, string_from};

verus! {

broadcast use vstd::string::group_string_axioms;

/// The answer to an API key check.
pub struct VerifyResponse {
    pub authenticated: bool,
}

/// An error answer: its HTTP status and message.
pub struct ErrorReply {
    pub status: u16,
    pub message: String,
}

/// A request is let through when its `x-api-key` header (missing or
/// unreadable counting as empty) equals the configured key.
pub fn key_accepted(provided: Option<&str>, expected: &str) -> (r: bool)
    ensures
        r == (match provided {
            Some(p) => p@,
            None => ""@,
        } == expected@),
{
    proof {
        reveal_strlit("");
    }
    match provided {
        Some(p) => str_eq(p, expected),
        None => str_eq("", expected),
    }
}

/// The answer to `GET /auth/verify`: authenticated, or 401.
pub fn verify_api_key(provided: Option<&str>, expected: &str) -> (r: Result<VerifyResponse, ErrorReply>)
    ensures
        match r {
            Ok(v) => v.authenticated && (match provided {
                Some(p) => p@,
                None => ""@,
            } == expected@),
            Err(e) => e.status == 401 && e.message@ == "Invalid API Key"@ && (match provided {
                Some(p) => p@,
                None => ""@,
            } != expected@),
        },
{
    if key_accepted(provided, expected) {
        Ok(VerifyResponse { authenticated: true })
    } else {
        Err(ErrorReply { status: 401, message: string_from("Invalid API Key") })
    }
}

pub enum EngineChoice {
    Pdf,
    Html,
}

/// PDF and HTML have engines; DOCX is answered with 501.
pub fn choose_engine(format: &OutputFormat) -> (r: Result<EngineChoice, ErrorReply>)
    ensures
        match *format {
            OutputFormat::Pdf => r matches Ok(EngineChoice::Pdf),
            OutputFormat::Html => r matches Ok(EngineChoice::Html),
            OutputFormat::Docx => r matches Err(e) && e.status == 501 && e.message@
                == "DOCX format not yet supported"@,
        },
{
    match format {
        OutputFormat::Pdf => Ok(EngineChoice::Pdf),
        OutputFormat::Html => Ok(EngineChoice::Html),
        OutputFormat::Docx => Err(
            ErrorReply { status: 501, message: string_from("DOCX format not yet supported") },
        ),
    }
}

/// How a render ended.
pub enum RenderOutcome {
    /// The render took longer than allowed.
    TimedOut,
    /// The render's task panicked.
    Panicked,
    /// The engine refused the document.
    Failed(String),
    Rendered(RenderOutput),
}

/// A successful answer: its content type, content disposition and body.
pub struct DocumentReply {
    pub content_type: String,
    pub disposition: String,
    pub body: Vec<u8>,
}

/// 504 for a timeout, 500 for a panic, 422 with the engine's message for
/// a refused document, else the document shown inline under its name.
pub fn reply_for(outcome: RenderOutcome) -> (r: Result<DocumentReply, ErrorReply>)
    ensures
        match outcome {
            RenderOutcome::TimedOut => r matches Err(e) && e.status == 504 && e.message@
                == "Generation timed out"@,
            RenderOutcome::Panicked => r matches Err(e) && e.status == 500 && e.message@
                == "Internal error"@,
            RenderOutcome::Failed(m) => r matches Err(e) && e.status == 422 && e.message@ == m@,
            RenderOutcome::Rendered(o) => r matches Ok(d) && d.content_type@ == o.mime_type@
                && d.disposition@ == "inline; filename=\""@ + o.suggested_filename@ + "\""@
                && d.body@ == o.bytes@,
        },
{
    match outcome {
        RenderOutcome::TimedOut => Err(
            ErrorReply { status: 504, message: string_from("Generation timed out") },
        ),
        RenderOutcome::Panicked => Err(ErrorReply { status: 500, message: string_from("Internal error") }),
        RenderOutcome::Failed(m) => Err(ErrorReply { status: 422, message: m }),
        RenderOutcome::Rendered(o) => {
            let mut d = string_from("inline; filename=\"");
            push_str(&mut d, o.suggested_filename.as_str());
            push_str(&mut d, "\"");
            Ok(DocumentReply { content_type: o.mime_type, disposition: d, body: o.bytes })
        },
    }
}

} // verus!
