use vstd::prelude::*;

verus! {

/// Why a document could not be read as expected.
#[derive(Clone, Copy, Debug, PartialEq, Eq, Structural)]
pub enum ParseFailure {
    /// The path expression itself is malformed.
    InvalidQuery,
    /// The query did not match the number of nodes the caller relies on.
    UnexpectedSchema,
    /// A link did not resolve to a valid URL.
    InvalidUrl,
    /// The body could not be parsed at all.
    MalformedHtml,
}

/// Errors of the request engine and of the document model.
#[derive(Debug)]
pub enum EngineError {
    /// A document could not be read as expected.
    ParsingError(ParseFailure),
    /// No node matched the form locator.
    NoFormFound,
    /// Transport failure or timeout, with its description.
    IoError(String),
    /// The server answered with a status outside 200..=299.
    HttpStatusError(u16),
    /// The body carried the marker of a closed session.
    SessionExpired,
    /// The bootstrap exchange set no cookie.
    NoSessionCookie,
    /// A request body that cannot be sent again identically.
    RequestCloneError(String),
}

} // verus!
