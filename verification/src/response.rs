//! Decode strategies: what a method's annotations say of its response, and
//! what a received response decodes to.

use vstd::prelude::*;

use crate::error::{DefinitionError, DefinitionErrorView};
use crate::header::{HeaderEntry, HeaderEntryView};
use crate::meta::{
    clone_values, path_names, views, Attribute, AttributeView, Entry, EntryView, Expr, ExprView,
    MethodDecl, Value, ValueView,
};
use crate::text::same_text;

verus! {

/// A response annotation leaves the method that bears it as it is.
pub fn response(_attr: Expr, item: MethodDecl) -> (r: Result<MethodDecl, DefinitionError>)
    ensures
        r == Ok::<MethodDecl, DefinitionError>(item),
{
    Ok(item)
}

/// The position of the first annotation at or after position `i` that is
/// called `name`.
pub open spec fn first_named(attrs: Seq<AttributeView>, name: Seq<char>, i: int) -> Option<int>
    decreases attrs.len() - i,
{
    if i < 0 || i >= attrs.len() {
        None
    } else if path_names(attrs[i].path, name) {
        Some(i)
    } else {
        first_named(attrs, name, i + 1)
    }
}

/// The one expression that stands between the parentheses of a response
/// annotation.
pub open spec fn parse_response(entries: Seq<EntryView>) -> Result<ExprView, DefinitionErrorView> {
    if entries.len() == 1 {
        match entries[0] {
            EntryView::Bare(e) => Ok(e),
            _ => Err(DefinitionErrorView::MalformedResponse),
        }
    } else {
        Err(DefinitionErrorView::MalformedResponse)
    }
}

/// Reads the entries of a response annotation as its one expression.
pub fn decode_expr(entries: &Vec<Entry>) -> (r: Result<Expr, DefinitionError>)
    ensures
        crate::request::view_result(r) == parse_response(views(entries@)),
{
    if entries.len() == 1 {
        assert(views(entries@)[0] == entries@[0]@);
        match &entries[0] {
            Entry::Bare(e) => Ok(e.clone()),
            _ => Err(DefinitionError::MalformedResponse),
        }
    } else {
        Err(DefinitionError::MalformedResponse)
    }
}

/// The decode expression that a method's annotations declare: that of the
/// first response annotation, if there is one.
pub open spec fn extract_response(attrs: Seq<AttributeView>) -> Result<
    Option<ExprView>,
    DefinitionErrorView,
> {
    match first_named(attrs, "response"@, 0) {
        None => Ok(None),
        Some(at) => match parse_response(attrs[at].entries) {
            Err(e) => Err(e),
            Ok(expr) => Ok(Some(expr)),
        },
    }
}

/// Reads a method's annotations for the decode expression that they
/// declare.
pub fn extract(attrs: &Vec<Attribute>) -> (r: Result<Option<Expr>, DefinitionError>)
    ensures
        match r {
            Ok(Some(e)) => extract_response(views(attrs@)) == Ok::<
                Option<ExprView>,
                DefinitionErrorView,
            >(Some(e@)),
            Ok(None) => extract_response(views(attrs@)) == Ok::<
                Option<ExprView>,
                DefinitionErrorView,
            >(None),
            Err(e) => extract_response(views(attrs@)) == Err::<
                Option<ExprView>,
                DefinitionErrorView,
            >(e@),
        },
{
    let mut i: usize = 0;
    let ghost all = views(attrs@);
    while i < attrs.len()
        invariant
            i <= attrs.len(),
            all == views(attrs@),
            first_named(all, "response"@, 0) == first_named(all, "response"@, i as int),
        decreases attrs.len() - i,
    {
        assert(all[i as int] == attrs@[i as int]@);
        if attrs[i].is_named("response") {
            return match decode_expr(&attrs[i].entries) {
                Ok(e) => Ok(Some(e)),
                Err(e) => Err(e),
            };
        }
        i += 1;
    }
    Ok(None)
}

/// How a response is turned into a result.
#[derive(Debug, PartialEq, Eq)]
pub enum DecodeSpec {
    /// The body is a JSON document of the method's return type.
    Json,
    /// The body is text in the charset that the response declares, or in
    /// UTF-8 where it declares none.
    Text,
    /// The body is text in the given charset, whatever the response
    /// declares.
    TextWithCharset(String),
    /// The body is returned as it is.
    Bytes,
    /// The named operation is applied to the response.
    Custom { name: String, args: Vec<Value> },
}

pub enum DecodeSpecView {
    Json,
    Text,
    TextWithCharset(Seq<char>),
    Bytes,
    Custom { name: Seq<char>, args: Seq<ValueView> },
}

impl View for DecodeSpec {
    type V = DecodeSpecView;

    open spec fn view(&self) -> DecodeSpecView {
        match self {
            DecodeSpec::Json => DecodeSpecView::Json,
            DecodeSpec::Text => DecodeSpecView::Text,
            DecodeSpec::TextWithCharset(c) => DecodeSpecView::TextWithCharset(c@),
            DecodeSpec::Bytes => DecodeSpecView::Bytes,
            DecodeSpec::Custom { name, args } => DecodeSpecView::Custom {
                name: name@,
                args: views(args@),
            },
        }
    }
}

/// The decode strategy that a decode expression stands for. Without an
/// expression the strategy is JSON. An expression must be a call: `json()`,
/// `text()`, `text_with_charset("name")` or `bytes()` stand for the
/// strategies of those names, and a call of any other name is a custom
/// operation.
pub open spec fn decode_spec_of(expr: Option<ExprView>) -> Result<
    DecodeSpecView,
    DefinitionErrorView,
> {
    match expr {
        None => Ok(DecodeSpecView::Json),
        Some(ExprView::Call { name, args }) => {
            if name == "json"@ {
                if args.len() == 0 {
                    Ok(DecodeSpecView::Json)
                } else {
                    Err(DefinitionErrorView::MalformedResponse)
                }
            } else if name == "text"@ {
                if args.len() == 0 {
                    Ok(DecodeSpecView::Text)
                } else {
                    Err(DefinitionErrorView::MalformedResponse)
                }
            } else if name == "text_with_charset"@ {
                if args.len() == 1 {
                    match args[0] {
                        ValueView::Text(charset) => Ok(DecodeSpecView::TextWithCharset(charset)),
                        _ => Err(DefinitionErrorView::MalformedResponse),
                    }
                } else {
                    Err(DefinitionErrorView::MalformedResponse)
                }
            } else if name == "bytes"@ {
                if args.len() == 0 {
                    Ok(DecodeSpecView::Bytes)
                } else {
                    Err(DefinitionErrorView::MalformedResponse)
                }
            } else {
                Ok(DecodeSpecView::Custom { name, args })
            }
        },
        Some(_) => Err(DefinitionErrorView::MalformedResponse),
    }
}

impl DecodeSpec {
    /// The decode strategy that a decode expression stands for.
    pub fn of(expr: &Option<Expr>) -> (r: Result<DecodeSpec, DefinitionError>)
        ensures
            crate::request::view_result(r) == decode_spec_of(
                match expr {
                    Some(e) => Some(e@),
                    None => None,
                },
            ),
    {
        match expr {
            None => Ok(DecodeSpec::Json),
            Some(Expr::Call { name, args }) => {
                if same_text(name.as_str(), "json") {
                    if args.len() == 0 {
                        Ok(DecodeSpec::Json)
                    } else {
                        Err(DefinitionError::MalformedResponse)
                    }
                } else if same_text(name.as_str(), "text") {
                    if args.len() == 0 {
                        Ok(DecodeSpec::Text)
                    } else {
                        Err(DefinitionError::MalformedResponse)
                    }
                } else if same_text(name.as_str(), "text_with_charset") {
                    if args.len() == 1 {
                        assert(views(args@)[0] == args@[0]@);
                        match &args[0] {
                            Value::Text(charset) => Ok(
                                DecodeSpec::TextWithCharset(charset.clone()),
                            ),
                            _ => Err(DefinitionError::MalformedResponse),
                        }
                    } else {
                        Err(DefinitionError::MalformedResponse)
                    }
                } else if same_text(name.as_str(), "bytes") {
                    if args.len() == 0 {
                        Ok(DecodeSpec::Bytes)
                    } else {
                        Err(DefinitionError::MalformedResponse)
                    }
                } else {
                    Ok(DecodeSpec::Custom { name: name.clone(), args: clone_values(args) })
                }
            },
            Some(_) => Err(DefinitionError::MalformedResponse),
        }
    }
}

/// A response as the transport hands it over.
#[derive(Debug, PartialEq, Eq)]
pub struct Response {
    pub status: u16,
    pub headers: Vec<HeaderEntry>,
    pub body: Vec<u8>,
}

pub struct ResponseView {
    pub status: u16,
    pub headers: Seq<HeaderEntryView>,
    pub body: Seq<u8>,
}

impl View for Response {
    type V = ResponseView;

    open spec fn view(&self) -> ResponseView {
        ResponseView { status: self.status, headers: views(self.headers@), body: self.body@ }
    }
}

/// What a response decodes to.
#[derive(Debug, PartialEq, Eq)]
pub enum Decoded {
    /// The method returns no value: nothing was decoded.
    Nothing,
    /// The bytes of a JSON document, for the serializer to read as the
    /// method's return type.
    Json(Vec<u8>),
    /// The body as text.
    Text(String),
    /// The body as it is.
    Bytes(Vec<u8>),
    /// The named operation, to be applied to the response.
    Custom { name: String, args: Vec<Value>, response: Response },
}

pub enum DecodedView {
    Nothing,
    Json(Seq<u8>),
    Text(Seq<char>),
    Bytes(Seq<u8>),
    Custom { name: Seq<char>, args: Seq<ValueView>, response: ResponseView },
}

impl View for Decoded {
    type V = DecodedView;

    open spec fn view(&self) -> DecodedView {
        match self {
            Decoded::Nothing => DecodedView::Nothing,
            Decoded::Json(b) => DecodedView::Json(b@),
            Decoded::Text(t) => DecodedView::Text(t@),
            Decoded::Bytes(b) => DecodedView::Bytes(b@),
            Decoded::Custom { name, args, response } => DecodedView::Custom {
                name: name@,
                args: views(args@),
                response: response@,
            },
        }
    }
}

/// Why a call failed after its request was bound.
#[derive(Debug, PartialEq, Eq)]
pub enum Cause {
    /// The transport could not carry the request out; the text is the
    /// transport's own.
    Transport(String),
    /// The server answered with a status outside the successful ones.
    Status(u16),
    /// The body could not be read as the method's return type; the text is
    /// the serializer's own.
    Decode(String),
}

pub enum CauseView {
    Transport(Seq<char>),
    Status(u16),
    Decode(Seq<char>),
}

impl View for Cause {
    type V = CauseView;

    open spec fn view(&self) -> CauseView {
        match self {
            Cause::Transport(t) => CauseView::Transport(t@),
            Cause::Status(s) => CauseView::Status(*s),
            Cause::Decode(t) => CauseView::Decode(t@),
        }
    }
}

/// The charset that a content type declares, as the `mime` crate reads it.
pub uninterp spec fn declared_charset(content_type: Seq<char>) -> Option<Seq<char>>;

/// Parses the text with `mime::Mime::from_str` and asks the media type for
/// its `charset` parameter with `mime::Mime::get_param`. The result is a
/// function of the text alone: nothing where the text is no media type or
/// the media type has no such parameter.
#[verifier::external_body]
fn charset_of(content_type: &str) -> (r: Option<String>)
    ensures
        match r {
            Some(c) => declared_charset(content_type@) == Some(c@),
            None => declared_charset(content_type@) is None,
        },
{
    match content_type.parse::<mime::Mime>() {
        Ok(media) => media.get_param(mime::CHARSET).map(|c| c.as_str().to_string()),
        Err(_) => None,
    }
}

/// The text that bytes decode to in the encoding of the given label, as
/// `encoding_rs` decodes them; nothing where the label names no encoding.
pub uninterp spec fn decoded_as(label: Seq<char>, bytes: Seq<u8>) -> Option<Seq<char>>;

/// Looks the label up with `encoding_rs::Encoding::for_label` and decodes
/// the bytes with `encoding_rs::Encoding::decode`, which sniffs a byte
/// order mark and replaces malformed sequences by the replacement
/// character. The result is a function of the label and the bytes alone.
#[verifier::external_body]
fn decode_labelled(label: &str, bytes: &[u8]) -> (r: Option<String>)
    ensures
        match r {
            Some(t) => decoded_as(label@, bytes@) == Some(t@),
            None => decoded_as(label@, bytes@) is None,
        },
{
    match encoding_rs::Encoding::for_label(label.as_bytes()) {
        Some(encoding) => Some(encoding.decode(bytes).0.into_owned()),
        None => None,
    }
}

/// The text that bytes decode to as UTF-8, as `encoding_rs` decodes them.
pub uninterp spec fn decoded_utf8(bytes: Seq<u8>) -> Seq<char>;

/// Decodes the bytes with `encoding_rs::Encoding::decode` of
/// `encoding_rs::UTF_8`. The result is a function of the bytes alone.
#[verifier::external_body]
fn decode_utf8(bytes: &[u8]) -> (r: String)
    ensures
        r@ == decoded_utf8(bytes@),
{
    encoding_rs::UTF_8.decode(bytes).0.into_owned()
}

/// The label of the encoding that is used where nothing names another.
pub open spec fn default_charset() -> Seq<char> {
    "utf-8"@
}

/// The value of the first header at or after position `i` whose name, in
/// normal form, is the given one.
pub open spec fn header_from(headers: Seq<HeaderEntryView>, name: Seq<char>, i: int) -> Option<
    Seq<char>,
>
    decreases headers.len() - i,
{
    if i < 0 || i >= headers.len() {
        None
    } else if crate::header::normal_form(headers[i].name) == Some(name) {
        Some(headers[i].value)
    } else {
        header_from(headers, name, i + 1)
    }
}

/// The content type that a response declares.
pub open spec fn content_type_of(headers: Seq<HeaderEntryView>) -> Option<Seq<char>> {
    header_from(headers, "content-type"@, 0)
}

/// The label given the charset that the response's content type declares,
/// if it declares one: that charset, or else the default.
pub open spec fn label_given(declared: Option<Seq<char>>) -> Seq<char> {
    match declared {
        Some(charset) => charset,
        None => default_charset(),
    }
}

/// The label of the encoding in which a response's text is read where the
/// strategy forces none.
pub open spec fn inferred_label(headers: Seq<HeaderEntryView>) -> Seq<char> {
    match content_type_of(headers) {
        Some(content_type) => label_given(declared_charset(content_type)),
        None => default_charset(),
    }
}

/// The text given what decoding under the label gave: that text, or the
/// body decoded as UTF-8 where the label names no encoding.
pub open spec fn text_given(labelled: Option<Seq<char>>, body: Seq<u8>) -> Seq<char> {
    match labelled {
        Some(text) => text,
        None => decoded_utf8(body),
    }
}

/// The text of a body in the encoding of the given label; in UTF-8 where
/// the label names no encoding.
pub open spec fn text_in(label: Seq<char>, body: Seq<u8>) -> Seq<char> {
    text_given(decoded_as(label, body), body)
}

/// Whether a status is one of the successful ones.
pub open spec fn is_success(status: u16) -> bool {
    200 <= status <= 299
}

/// What a response decodes to under a strategy. A status outside the
/// successful ones is an error, whatever the strategy. A method that
/// returns no value decodes nothing.
pub open spec fn decoded(spec: DecodeSpecView, returns_value: bool, response: ResponseView) -> Result<
    DecodedView,
    CauseView,
> {
    if !is_success(response.status) {
        Err(CauseView::Status(response.status))
    } else if !returns_value {
        Ok(DecodedView::Nothing)
    } else {
        match spec {
            DecodeSpecView::Json => Ok(DecodedView::Json(response.body)),
            DecodeSpecView::Text => Ok(
                DecodedView::Text(text_in(inferred_label(response.headers), response.body)),
            ),
            DecodeSpecView::TextWithCharset(charset) => Ok(
                DecodedView::Text(text_in(charset, response.body)),
            ),
            DecodeSpecView::Bytes => Ok(DecodedView::Bytes(response.body)),
            DecodeSpecView::Custom { name, args } => Ok(
                DecodedView::Custom { name, args, response },
            ),
        }
    }
}

/// The content type that a response declares.
pub fn content_type(headers: &Vec<HeaderEntry>) -> (r: Option<String>)
    ensures
        match r {
            Some(v) => content_type_of(views(headers@)) == Some(v@),
            None => content_type_of(views(headers@)) is None,
        },
{
    let mut i: usize = 0;
    let ghost all = views(headers@);
    while i < headers.len()
        invariant
            i <= headers.len(),
            all == views(headers@),
            content_type_of(all) == header_from(all, "content-type"@, i as int),
        decreases headers.len() - i,
    {
        assert(all[i as int] == headers@[i as int]@);
        match crate::header::header_name(headers[i].name.as_str()) {
            Some(name) => {
                if same_text(name.as_str(), "content-type") {
                    return Some(headers[i].value.clone());
                }
            },
            None => {},
        }
        i += 1;
    }
    None
}

/// The label given the charset that the response's content type declares.
pub fn label_for(declared: Option<String>) -> (r: String)
    ensures
        r@ == label_given(
            match declared {
                Some(c) => Some(c@),
                None => None,
            },
        ),
{
    match declared {
        Some(charset) => charset,
        None => "utf-8".to_owned(),
    }
}

/// The text given what decoding under the label gave.
pub fn text_from(labelled: Option<String>, body: &Vec<u8>) -> (r: String)
    ensures
        r@ == text_given(
            match labelled {
                Some(t) => Some(t@),
                None => None,
            },
            body@,
        ),
{
    match labelled {
        Some(text) => text,
        None => decode_utf8(body.as_slice()),
    }
}

/// Reads a body as text in the encoding of the given label.
pub fn text(label: &str, body: &Vec<u8>) -> (r: String)
    ensures
        r@ == text_in(label@, body@),
{
    text_from(decode_labelled(label, body.as_slice()), body)
}

/// Decodes a response under a strategy.
pub fn decode(spec: &DecodeSpec, returns_value: bool, response: Response) -> (r: Result<
    Decoded,
    Cause,
>)
    ensures
        crate::request::view_result(r) == decoded(spec@, returns_value, response@),
{
    if response.status < 200 || response.status > 299 {
        return Err(Cause::Status(response.status));
    }
    if !returns_value {
        return Ok(Decoded::Nothing);
    }
    match spec {
        DecodeSpec::Json => Ok(Decoded::Json(response.body)),
        DecodeSpec::Text => {
            let label = match content_type(&response.headers) {
                Some(declared) => label_for(charset_of(declared.as_str())),
                None => "utf-8".to_owned(),
            };
            Ok(Decoded::Text(text(label.as_str(), &response.body)))
        },
        DecodeSpec::TextWithCharset(charset) => Ok(
            Decoded::Text(text(charset.as_str(), &response.body)),
        ),
        DecodeSpec::Bytes => Ok(Decoded::Bytes(response.body)),
        DecodeSpec::Custom { name, args } => Ok(
            Decoded::Custom { name: name.clone(), args: clone_values(args), response },
        ),
    }
}

} // verus!
