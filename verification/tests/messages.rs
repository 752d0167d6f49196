use retrofit::error::DefinitionError;
use retrofit::header::wire_name;

fn s(text: &str) -> String {
    text.to_string()
}

#[test]
fn a_missing_verb_names_the_method() {
    assert_eq!(
        DefinitionError::MissingVerb(s("root")).message(),
        "expected `get`, `post` or other request for the `root` method"
    );
}

#[test]
fn an_unresolved_placeholder_is_named() {
    assert_eq!(
        DefinitionError::UnresolvedPlaceholder(s("username")).message(),
        "unresolved path placeholder `username`"
    );
}

#[test]
fn every_definition_error_has_its_message() {
    let cases = vec![
        (DefinitionError::MalformedArg, s("expected `name` or `name = expression`")),
        (
            DefinitionError::MalformedHeader,
            s("expected `name = value` with a text or a parameter as value"),
        ),
        (DefinitionError::MalformedPath, s("expected one text literal as path")),
        (
            DefinitionError::MalformedVerb,
            s("expected a method and a path, as in `custom(\"/path\")`"),
        ),
        (
            DefinitionError::MalformedResponse,
            s("expected one call that names a decode strategy"),
        ),
        (
            DefinitionError::ConflictingVerb(s("m")),
            s("more than one request declared for the `m` method"),
        ),
        (DefinitionError::InvalidMethod(s("a b")), s("invalid HTTP method `a b`")),
        (
            DefinitionError::AmbiguousPlaceholder(s("x")),
            s("ambiguous path placeholder `x`"),
        ),
        (DefinitionError::UnknownParameter(s("p")), s("unknown parameter `p`")),
        (DefinitionError::InvalidHeaderName(s("a b")), s("invalid header name `a b`")),
        (
            DefinitionError::InvalidHeaderValue(s("accept")),
            s("invalid value for the header `accept`"),
        ),
        (DefinitionError::UnknownEncode(s("xml")), s("unknown request option `xml`")),
        (
            DefinitionError::ConflictingEncode(s("m")),
            s("more than one request option declared for the `m` method"),
        ),
        (DefinitionError::MissingSource(s("m")), s("nothing to encode for the `m` method")),
    ];
    for (error, message) in cases {
        assert_eq!(error.message(), message);
    }
}

#[test]
fn a_double_quote_is_a_header_name_character() {
    assert_eq!(wire_name("a\"b"), Some(s("a\"b")));
}
