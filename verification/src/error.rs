//! What can be wrong with a declaration.

use vstd::prelude::*;

verus! {

/// An error found while an interface's declaration is compiled. Each variant
/// that names something carries that name.
#[derive(Debug, PartialEq, Eq)]
pub enum DefinitionError {
    /// An entry is not of the form `name` or `name = expression`.
    MalformedArg,
    /// An entry is not of the form `name = expression`, or its expression
    /// cannot stand for a header value.
    MalformedHeader,
    /// The entries of a verb annotation are not one text literal.
    MalformedPath,
    /// The entries of a custom verb annotation are not `token("path")`.
    MalformedVerb,
    /// The entries of a response annotation are not one expression that
    /// names a decode strategy.
    MalformedResponse,
    /// The named method has no verb annotation.
    MissingVerb(String),
    /// The named method has more than one verb annotation.
    ConflictingVerb(String),
    /// The named custom verb is no method token.
    InvalidMethod(String),
    /// The path template holds the named placeholder, and neither an
    /// argument nor a parameter bears that name.
    UnresolvedPlaceholder(String),
    /// Two declared arguments bear the name of one placeholder.
    AmbiguousPlaceholder(String),
    /// An expression refers to the named parameter, which the method lacks.
    UnknownParameter(String),
    /// The named header has no valid wire form.
    InvalidHeaderName(String),
    /// The literal value of the named header holds a character that no
    /// header value may hold.
    InvalidHeaderValue(String),
    /// The named request option is no encode strategy.
    UnknownEncode(String),
    /// The named method declares more than one encode strategy.
    ConflictingEncode(String),
    /// The named method's encode strategy names no source, and none can be
    /// inferred.
    MissingSource(String),
}

pub enum DefinitionErrorView {
    MalformedArg,
    MalformedHeader,
    MalformedPath,
    MalformedVerb,
    MalformedResponse,
    MissingVerb(Seq<char>),
    ConflictingVerb(Seq<char>),
    InvalidMethod(Seq<char>),
    UnresolvedPlaceholder(Seq<char>),
    AmbiguousPlaceholder(Seq<char>),
    UnknownParameter(Seq<char>),
    InvalidHeaderName(Seq<char>),
    InvalidHeaderValue(Seq<char>),
    UnknownEncode(Seq<char>),
    ConflictingEncode(Seq<char>),
    MissingSource(Seq<char>),
}

impl View for DefinitionError {
    type V = DefinitionErrorView;

    open spec fn view(&self) -> DefinitionErrorView {
        match self {
            DefinitionError::MalformedArg => DefinitionErrorView::MalformedArg,
            DefinitionError::MalformedHeader => DefinitionErrorView::MalformedHeader,
            DefinitionError::MalformedPath => DefinitionErrorView::MalformedPath,
            DefinitionError::MalformedVerb => DefinitionErrorView::MalformedVerb,
            DefinitionError::MalformedResponse => DefinitionErrorView::MalformedResponse,
            DefinitionError::MissingVerb(n) => DefinitionErrorView::MissingVerb(n@),
            DefinitionError::ConflictingVerb(n) => DefinitionErrorView::ConflictingVerb(n@),
            DefinitionError::InvalidMethod(n) => DefinitionErrorView::InvalidMethod(n@),
            DefinitionError::UnresolvedPlaceholder(n) => DefinitionErrorView::UnresolvedPlaceholder(n@),
            DefinitionError::AmbiguousPlaceholder(n) => DefinitionErrorView::AmbiguousPlaceholder(n@),
            DefinitionError::UnknownParameter(n) => DefinitionErrorView::UnknownParameter(n@),
            DefinitionError::InvalidHeaderName(n) => DefinitionErrorView::InvalidHeaderName(n@),
            DefinitionError::InvalidHeaderValue(n) => DefinitionErrorView::InvalidHeaderValue(n@),
            DefinitionError::UnknownEncode(n) => DefinitionErrorView::UnknownEncode(n@),
            DefinitionError::ConflictingEncode(n) => DefinitionErrorView::ConflictingEncode(n@),
            DefinitionError::MissingSource(n) => DefinitionErrorView::MissingSource(n@),
        }
    }
}

/// A name between backquotes, between two pieces of text.
pub open spec fn about(before: Seq<char>, name: Seq<char>, after: Seq<char>) -> Seq<char> {
    before + seq!['`'] + name + seq!['`'] + after
}

/// What a definition error says to the one who wrote the declaration.
pub open spec fn message_of(error: DefinitionErrorView) -> Seq<char> {
    match error {
        DefinitionErrorView::MalformedArg => "expected `name` or `name = expression`"@,
        DefinitionErrorView::MalformedHeader => "expected `name = value` with a text or a parameter as value"@,
        DefinitionErrorView::MalformedPath => "expected one text literal as path"@,
        DefinitionErrorView::MalformedVerb => "expected a method and a path, as in `custom(\"/path\")`"@,
        DefinitionErrorView::MalformedResponse => "expected one call that names a decode strategy"@,
        DefinitionErrorView::MissingVerb(n) => about(
            "expected `get`, `post` or other request for the "@,
            n,
            " method"@,
        ),
        DefinitionErrorView::ConflictingVerb(n) => about(
            "more than one request declared for the "@,
            n,
            " method"@,
        ),
        DefinitionErrorView::InvalidMethod(n) => about("invalid HTTP method "@, n, ""@),
        DefinitionErrorView::UnresolvedPlaceholder(n) => about(
            "unresolved path placeholder "@,
            n,
            ""@,
        ),
        DefinitionErrorView::AmbiguousPlaceholder(n) => about(
            "ambiguous path placeholder "@,
            n,
            ""@,
        ),
        DefinitionErrorView::UnknownParameter(n) => about("unknown parameter "@, n, ""@),
        DefinitionErrorView::InvalidHeaderName(n) => about("invalid header name "@, n, ""@),
        DefinitionErrorView::InvalidHeaderValue(n) => about(
            "invalid value for the header "@,
            n,
            ""@,
        ),
        DefinitionErrorView::UnknownEncode(n) => about("unknown request option "@, n, ""@),
        DefinitionErrorView::ConflictingEncode(n) => about(
            "more than one request option declared for the "@,
            n,
            " method"@,
        ),
        DefinitionErrorView::MissingSource(n) => about(
            "nothing to encode for the "@,
            n,
            " method"@,
        ),
    }
}

fn say(before: &str, name: &str, after: &str) -> (r: String)
    ensures
        r@ == about(before@, name@, after@),
{
    let mut out = before.to_owned();
    out.append("`");
    out.append(name);
    out.append("`");
    out.append(after);
    proof {
        reveal_strlit("`");
        assert("`"@ == seq!['`']);
    }
    out
}

impl DefinitionError {
    /// What this error says to the one who wrote the declaration.
    pub fn message(&self) -> (r: String)
        ensures
            r@ == message_of(self@),
    {
        match self {
            DefinitionError::MalformedArg => "expected `name` or `name = expression`".to_owned(),
            DefinitionError::MalformedHeader => "expected `name = value` with a text or a parameter as value".to_owned(),
            DefinitionError::MalformedPath => "expected one text literal as path".to_owned(),
            DefinitionError::MalformedVerb => "expected a method and a path, as in `custom(\"/path\")`".to_owned(),
            DefinitionError::MalformedResponse => "expected one call that names a decode strategy".to_owned(),
            DefinitionError::MissingVerb(n) => say(
                "expected `get`, `post` or other request for the ",
                n.as_str(),
                " method",
            ),
            DefinitionError::ConflictingVerb(n) => say(
                "more than one request declared for the ",
                n.as_str(),
                " method",
            ),
            DefinitionError::InvalidMethod(n) => say("invalid HTTP method ", n.as_str(), ""),
            DefinitionError::UnresolvedPlaceholder(n) => say(
                "unresolved path placeholder ",
                n.as_str(),
                "",
            ),
            DefinitionError::AmbiguousPlaceholder(n) => say(
                "ambiguous path placeholder ",
                n.as_str(),
                "",
            ),
            DefinitionError::UnknownParameter(n) => say("unknown parameter ", n.as_str(), ""),
            DefinitionError::InvalidHeaderName(n) => say("invalid header name ", n.as_str(), ""),
            DefinitionError::InvalidHeaderValue(n) => say(
                "invalid value for the header ",
                n.as_str(),
                "",
            ),
            DefinitionError::UnknownEncode(n) => say("unknown request option ", n.as_str(), ""),
            DefinitionError::ConflictingEncode(n) => say(
                "more than one request option declared for the ",
                n.as_str(),
                " method",
            ),
            DefinitionError::MissingSource(n) => say(
                "nothing to encode for the ",
                n.as_str(),
                " method",
            ),
        }
    }
}

/// An error found while a request is bound to the values of one call.
#[derive(Debug, PartialEq, Eq)]
pub enum BindError {
    /// Nothing is bound to the named placeholder of the path.
    UnresolvedPlaceholder(String),
    /// A header takes the value of the named parameter, and the call
    /// passes none for it.
    MissingValue(String),
    /// The named header, set for the call, has no valid wire form.
    InvalidHeaderName(String),
    /// The value of the header of this wire name holds a character that no
    /// header value may hold.
    InvalidHeaderValue(String),
    /// What the call passes to be encoded does not fit the method's encode
    /// strategy.
    PayloadMismatch,
    /// The service has no method at the given position.
    UnknownMethod,
    /// The service declares no base URL, and the call supplies none.
    MissingBaseUrl,
}

pub enum BindErrorView {
    UnresolvedPlaceholder(Seq<char>),
    MissingValue(Seq<char>),
    InvalidHeaderName(Seq<char>),
    InvalidHeaderValue(Seq<char>),
    PayloadMismatch,
    UnknownMethod,
    MissingBaseUrl,
}

impl View for BindError {
    type V = BindErrorView;

    open spec fn view(&self) -> BindErrorView {
        match self {
            BindError::UnresolvedPlaceholder(n) => BindErrorView::UnresolvedPlaceholder(n@),
            BindError::MissingValue(n) => BindErrorView::MissingValue(n@),
            BindError::InvalidHeaderName(n) => BindErrorView::InvalidHeaderName(n@),
            BindError::InvalidHeaderValue(n) => BindErrorView::InvalidHeaderValue(n@),
            BindError::PayloadMismatch => BindErrorView::PayloadMismatch,
            BindError::UnknownMethod => BindErrorView::UnknownMethod,
            BindError::MissingBaseUrl => BindErrorView::MissingBaseUrl,
        }
    }
}

} // verus!
