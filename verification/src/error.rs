//! The crate's typed error. Library code returns `Result`; it never panics.

use vstd::prelude::*;

verus! {

/// Errors raised by the aion-context library, carried through unchanged.
#[verifier::external_type_specification]
#[verifier::external_body]
pub struct ExAionError(aion_context::AionError);

/// JSON (de)serialization errors from serde_json.
#[verifier::external_type_specification]
#[verifier::external_body]
pub struct ExJsonError(serde_json::Error);

/// Filesystem errors.
#[verifier::external_type_specification]
#[verifier::external_body]
pub struct ExIoError(std::io::Error);

/// Everything that can go wrong in the studio.
#[derive(Debug)]
pub enum StudioError {
    /// No policy with this id exists in the workspace.
    NotFound(String),
    /// A policy id failed validation (must be `[a-z0-9-]`, 1..=64 chars) — guards path traversal.
    InvalidId(String),
    /// A policy with this id already exists (create would overwrite).
    AlreadyExists(String),
    /// A signing key could not be loaded or decoded.
    BadKey(String),
    /// A request was well-formed but semantically invalid (e.g. a bad M-of-N, an unknown signer).
    Invalid(String),
    /// Filesystem error.
    Io(std::io::Error),
    /// JSON (de)serialization error.
    Json(serde_json::Error),
    /// An error from the aion-context library.
    Aion(aion_context::AionError),
}

/// The HTTP status an error is answered with: 404 for a missing policy, 409 for one that
/// already exists, 400 for a bad id or an invalid request, 500 for everything else.
pub open spec fn status_of(e: StudioError) -> u16 {
    match e {
        StudioError::NotFound(_) => 404,
        StudioError::AlreadyExists(_) => 409,
        StudioError::InvalidId(_) | StudioError::Invalid(_) => 400,
        _ => 500,
    }
}

/// The message of an error that carries its own text: a fixed prefix and that text.
pub open spec fn message_of(e: StudioError) -> Option<Seq<char>> {
    match e {
        StudioError::NotFound(s) => Some("policy not found: "@ + s@),
        StudioError::InvalidId(s) => Some("invalid policy id: "@ + s@),
        StudioError::AlreadyExists(s) => Some("policy already exists: "@ + s@),
        StudioError::BadKey(s) => Some("signing key: "@ + s@),
        StudioError::Invalid(s) => Some(s@),
        _ => None,
    }
}

/// `std::io::Error`'s `Display` text.
#[verifier::external_body]
fn io_text(e: &std::io::Error) -> String {
    e.to_string()
}

/// `serde_json::Error`'s `Display` text.
#[verifier::external_body]
fn json_text(e: &serde_json::Error) -> String {
    e.to_string()
}

/// `AionError`'s `Display` text.
#[verifier::external_body]
fn aion_text(e: &aion_context::AionError) -> String {
    e.to_string()
}

impl StudioError {
    /// The HTTP status this error is answered with.
    pub fn http_status(&self) -> (s: u16)
        ensures
            s == status_of(*self),
    {
        match self {
            StudioError::NotFound(_) => 404,
            StudioError::AlreadyExists(_) => 409,
            StudioError::InvalidId(_) | StudioError::Invalid(_) => 400,
            _ => 500,
        }
    }

    /// The error's message. Filesystem and JSON errors read `io: ..` and `json: ..`, followed by
    /// the underlying error's own text; an aion-context error is its own text.
    pub fn message(&self) -> (m: String)
        ensures
            message_of(*self) matches Some(t) ==> m@ == t,
            self is Io ==> m@.take(4) == "io: "@,
            self is Json ==> m@.take(6) == "json: "@,
    {
        match self {
            StudioError::NotFound(s) => String::from_str("policy not found: ").concat(s.as_str()),
            StudioError::InvalidId(s) => String::from_str("invalid policy id: ").concat(s.as_str()),
            StudioError::AlreadyExists(s) => String::from_str("policy already exists: ").concat(
                s.as_str(),
            ),
            StudioError::BadKey(s) => String::from_str("signing key: ").concat(s.as_str()),
            StudioError::Invalid(s) => s.clone(),
            StudioError::Io(e) => {
                let m = String::from_str("io: ").concat(io_text(e).as_str());
                proof {
                    reveal_strlit("io: ");
                    assert(m@.take(4) =~= "io: "@);
                }
                m
            },
            StudioError::Json(e) => {
                let m = String::from_str("json: ").concat(json_text(e).as_str());
                proof {
                    reveal_strlit("json: ");
                    assert(m@.take(6) =~= "json: "@);
                }
                m
            },
            StudioError::Aion(e) => aion_text(e),
        }
    }
}

} // verus!
