//! Declared headers, their wire form, and the composition of header layers.

use vstd::prelude::*;

use crate::error::{DefinitionError, DefinitionErrorView};
use crate::meta::{
    path_names, views, Attribute, AttributeView, Entry, EntryView, Expr, ExprView, Interface,
    MethodDecl, Value, ValueView,
};
use crate::request::{view_result, view_results};

verus! {

/// A declared header: its name as written, and the expression that gives
/// its value.
#[derive(Debug, PartialEq, Eq)]
pub struct Header {
    pub name: String,
    pub value: Expr,
}

pub struct HeaderView {
    pub name: Seq<char>,
    pub value: ExprView,
}

impl View for Header {
    type V = HeaderView;

    open spec fn view(&self) -> HeaderView {
        HeaderView { name: self.name@, value: self.value@ }
    }
}

/// The header that an entry declares: `name = expression`.
pub open spec fn parse_header(entry: EntryView) -> Result<HeaderView, DefinitionErrorView> {
    match entry {
        EntryView::Assign { name, value } => Ok(HeaderView { name, value }),
        _ => Err(DefinitionErrorView::MalformedHeader),
    }
}

/// The headers that a list of entries declares, in order; the error of the
/// first entry that declares none.
pub open spec fn parse_headers(entries: Seq<EntryView>) -> Result<
    Seq<HeaderView>,
    DefinitionErrorView,
>
    decreases entries.len(),
{
    if entries.len() == 0 {
        Ok(Seq::empty())
    } else {
        match parse_headers(entries.drop_last()) {
            Err(e) => Err(e),
            Ok(init) => match parse_header(entries.last()) {
                Err(e) => Err(e),
                Ok(header) => Ok(init.push(header)),
            },
        }
    }
}

/// The headers declared by the annotations called `name`, in order of
/// declaration; the error of the first such annotation that is malformed.
pub open spec fn extract_headers(name: Seq<char>, attrs: Seq<AttributeView>) -> Result<
    Seq<HeaderView>,
    DefinitionErrorView,
>
    decreases attrs.len(),
{
    if attrs.len() == 0 {
        Ok(Seq::empty())
    } else {
        match extract_headers(name, attrs.drop_last()) {
            Err(e) => Err(e),
            Ok(init) => if path_names(attrs.last().path, name) {
                match parse_headers(attrs.last().entries) {
                    Err(e) => Err(e),
                    Ok(more) => Ok(init + more),
                }
            } else {
                Ok(init)
            },
        }
    }
}

/// Once a prefix of the entries fails, the whole list fails in the same way.
pub proof fn lemma_parse_headers_fails(entries: Seq<EntryView>, n: int)
    requires
        0 <= n <= entries.len(),
        parse_headers(entries.take(n)) is Err,
    ensures
        parse_headers(entries) == parse_headers(entries.take(n)),
    decreases entries.len() - n,
{
    if n == entries.len() {
        assert(entries.take(n) == entries);
    } else {
        assert(entries.take(n + 1).drop_last() == entries.take(n));
        lemma_parse_headers_fails(entries, n + 1);
    }
}

/// Once a prefix of the annotations fails, the whole list fails in the same
/// way.
pub proof fn lemma_extract_headers_fails(name: Seq<char>, attrs: Seq<AttributeView>, n: int)
    requires
        0 <= n <= attrs.len(),
        extract_headers(name, attrs.take(n)) is Err,
    ensures
        extract_headers(name, attrs) == extract_headers(name, attrs.take(n)),
    decreases attrs.len() - n,
{
    if n == attrs.len() {
        assert(attrs.take(n) == attrs);
    } else {
        assert(attrs.take(n + 1).drop_last() == attrs.take(n));
        lemma_extract_headers_fails(name, attrs, n + 1);
    }
}

impl Header {
    /// Reads one entry as a declared header.
    pub fn parse(entry: &Entry) -> (r: Result<Header, DefinitionError>)
        ensures
            view_result(r) == parse_header(entry@),
    {
        match entry {
            Entry::Assign { name, value } => Ok(
                Header { name: name.clone(), value: value.clone() },
            ),
            _ => Err(DefinitionError::MalformedHeader),
        }
    }
}

/// A list of declared headers, in order of declaration.
#[derive(Debug, PartialEq, Eq)]
pub struct Headers(pub Vec<Header>);

impl View for Headers {
    type V = Seq<HeaderView>;

    open spec fn view(&self) -> Seq<HeaderView> {
        views(self.0@)
    }
}

impl Headers {
    /// Reads the entries of one annotation as declared headers.
    pub fn parse(entries: &Vec<Entry>) -> (r: Result<Headers, DefinitionError>)
        ensures
            view_result(r) == parse_headers(views(entries@)),
    {
        let mut headers: Vec<Header> = Vec::new();
        let mut i: usize = 0;
        let ghost all = views(entries@);
        proof {
            assert(views(headers@) == Seq::<HeaderView>::empty());
        }
        while i < entries.len()
            invariant
                i <= entries.len(),
                all == views(entries@),
                parse_headers(all.take(i as int)) == Ok::<Seq<HeaderView>, DefinitionErrorView>(
                    views(headers@),
                ),
            decreases entries.len() - i,
        {
            proof {
                assert(all.take(i + 1).drop_last() == all.take(i as int));
                assert(all.take(i + 1).last() == entries@[i as int]@);
            }
            match Header::parse(&entries[i]) {
                Err(e) => {
                    proof {
                        lemma_parse_headers_fails(all, i + 1);
                    }
                    return Err(e);
                },
                Ok(header) => {
                    proof {
                        assert(views(headers@.push(header)) == views(headers@).push(header@));
                    }
                    headers.push(header);
                },
            }
            i += 1;
        }
        proof {
            assert(all.take(i as int) == all);
        }
        Ok(Headers(headers))
    }

    /// Collects the headers declared by the annotations called `name`.
    pub fn extract(name: &str, attrs: &Vec<Attribute>) -> (r: Result<Headers, DefinitionError>)
        ensures
            view_result(r) == extract_headers(name@, views(attrs@)),
    {
        let mut found: Vec<Header> = Vec::new();
        let mut i: usize = 0;
        let ghost all = views(attrs@);
        proof {
            assert(views(found@) == Seq::<HeaderView>::empty());
        }
        while i < attrs.len()
            invariant
                i <= attrs.len(),
                all == views(attrs@),
                extract_headers(name@, all.take(i as int)) == Ok::<
                    Seq<HeaderView>,
                    DefinitionErrorView,
                >(views(found@)),
            decreases attrs.len() - i,
        {
            proof {
                assert(all.take(i + 1).drop_last() == all.take(i as int));
                assert(all.take(i + 1).last() == attrs@[i as int]@);
            }
            if attrs[i].is_named(name) {
                match Headers::parse(&attrs[i].entries) {
                    Err(e) => {
                        proof {
                            lemma_extract_headers_fails(name@, all, i + 1);
                        }
                        return Err(e);
                    },
                    Ok(more) => {
                        let ghost before = views(found@);
                        let mut more = more.0;
                        let ghost added = views(more@);
                        found.append(&mut more);
                        proof {
                            assert(views(found@) == before + added);
                        }
                    },
                }
            }
            i += 1;
        }
        proof {
            assert(all.take(i as int) == all);
        }
        Ok(Headers(found))
    }

    /// Whether no header is declared.
    pub fn is_empty(&self) -> (r: bool)
        ensures
            r == (self@.len() == 0),
    {
        self.0.len() == 0
    }
}

/// An annotation of headers leaves the method that bears it as it is.
pub fn headers(_attr: Headers, item: MethodDecl) -> (r: Result<MethodDecl, DefinitionError>)
    ensures
        r == Ok::<MethodDecl, DefinitionError>(item),
{
    Ok(item)
}

/// An annotation of default headers leaves the interface that bears it as
/// it is.
pub fn default_headers(_attr: Headers, item: Interface) -> (r: Result<Interface, DefinitionError>)
    ensures
        r == Ok::<Interface, DefinitionError>(item),
{
    Ok(item)
}

/// A name with each underscore replaced by a dash.
pub open spec fn dashed(name: Seq<char>) -> Seq<char> {
    Seq::new(
        name.len(),
        |i: int|
            if name[i] == '_' {
                '-'
            } else {
                name[i]
            },
    )
}

/// Calls `case::CaseExt::to_dashed`, which copies the text with each
/// underscore replaced by a dash and every other character kept.
#[verifier::external_body]
fn to_dashed(name: &str) -> (r: String)
    ensures
        r@ == dashed(name@),
{
    case::CaseExt::to_dashed(name)
}

/// A character that a header name may hold.
pub open spec fn is_header_name_char(c: char) -> bool {
    ||| c == '!'
    ||| c == '"'
    ||| c == '#'
    ||| c == '$'
    ||| c == '%'
    ||| c == '&'
    ||| c == '\''
    ||| c == '*'
    ||| c == '+'
    ||| c == '-'
    ||| c == '.'
    ||| ('0' <= c && c <= '9')
    ||| ('A' <= c && c <= 'Z')
    ||| c == '^'
    ||| c == '_'
    ||| c == '`'
    ||| ('a' <= c && c <= 'z')
    ||| c == '|'
    ||| c == '~'
}

/// A header name: between one and 65535 characters, each of them a header
/// name character.
pub open spec fn is_header_name(name: Seq<char>) -> bool {
    &&& 0 < name.len() <= 65535
    &&& forall|i: int| 0 <= i < name.len() ==> is_header_name_char(#[trigger] name[i])
}

/// A character with an ASCII capital replaced by its small letter.
pub open spec fn lower_char(c: char) -> char {
    if 'A' <= c && c <= 'Z' {
        ((c as u32) + 32) as char
    } else {
        c
    }
}

/// A text with each ASCII capital replaced by its small letter.
pub open spec fn lowered(text: Seq<char>) -> Seq<char> {
    Seq::new(text.len(), |i: int| lower_char(text[i]))
}

/// Calls `http::header::HeaderName::from_bytes` on the text's bytes and
/// hands back the name's own text. The call accepts exactly the texts of
/// between one and 65535 bytes whose bytes all stand in its table of
/// header characters, and the accepted name reads as the text with its
/// ASCII capitals made small.
#[verifier::external_body]
pub(crate) fn header_name(raw: &str) -> (r: Option<String>)
    ensures
        r is Some <==> is_header_name(raw@),
        r matches Some(name) ==> name@ == lowered(raw@),
{
    match http::header::HeaderName::from_bytes(raw.as_bytes()) {
        Ok(name) => Some(name.as_str().to_string()),
        Err(_) => None,
    }
}

/// The normal form of a header name as it was received: its ASCII capitals
/// made small. A text that is no header name has none.
pub open spec fn normal_form(name: Seq<char>) -> Option<Seq<char>> {
    if is_header_name(name) {
        Some(lowered(name))
    } else {
        None
    }
}

/// A character that a header value may hold: anything but the ASCII
/// control characters, of which the tab alone is allowed.
pub open spec fn is_header_value_char(c: char) -> bool {
    ||| c == '\t'
    ||| (c >= ' ' && c != '\x7f')
}

/// A header value: each of its characters is a header value character.
pub open spec fn is_header_value(value: Seq<char>) -> bool {
    forall|i: int| 0 <= i < value.len() ==> is_header_value_char(#[trigger] value[i])
}

/// Calls `http::header::HeaderValue::from_str` and tells whether it
/// accepted the text. The call accepts exactly the texts whose bytes are
/// all 32 or more and not 127, or the tab; of a character outside ASCII
/// every byte is 128 or more.
#[verifier::external_body]
fn header_value_accepted(value: &str) -> (r: bool)
    ensures
        r == is_header_value(value@),
{
    http::header::HeaderValue::from_str(value).is_ok()
}

/// The wire form of a header's name: its underscores made dashes and its
/// ASCII capitals made small. A name whose dashed form is no header name
/// has none.
pub open spec fn wire_form(name: Seq<char>) -> Option<Seq<char>> {
    if is_header_name(dashed(name)) {
        Some(lowered(dashed(name)))
    } else {
        None
    }
}

/// The wire form of a header's name.
pub fn wire_name(name: &str) -> (r: Option<String>)
    ensures
        match r {
            Some(wire) => wire_form(name@) == Some(wire@),
            None => wire_form(name@) is None,
        },
{
    let with_dashes = to_dashed(name);
    header_name(with_dashes.as_str())
}

/// Whether a text can stand as a header value.
pub fn valid_value(value: &str) -> (r: bool)
    ensures
        r == is_header_value(value@),
{
    header_value_accepted(value)
}

/// Where a header's value comes from: fixed when the interface is
/// declared, or passed at each call for the named parameter.
#[derive(Debug, PartialEq, Eq)]
pub enum Source {
    Fixed(String),
    Param(String),
}

pub enum SourceView {
    Fixed(Seq<char>),
    Param(Seq<char>),
}

impl View for Source {
    type V = SourceView;

    open spec fn view(&self) -> SourceView {
        match self {
            Source::Fixed(v) => SourceView::Fixed(v@),
            Source::Param(p) => SourceView::Param(p@),
        }
    }
}

/// A compiled header: its name in wire form, and where its value comes
/// from.
#[derive(Debug, PartialEq, Eq)]
pub struct Slot {
    pub name: String,
    pub value: Source,
}

pub struct SlotView {
    pub name: Seq<char>,
    pub value: SourceView,
}

impl View for Slot {
    type V = SlotView;

    open spec fn view(&self) -> SlotView {
        SlotView { name: self.name@, value: self.value@ }
    }
}

/// Whether each character of a text is an ASCII character.
pub open spec fn is_ascii_text(text: Seq<char>) -> bool {
    forall|i: int| 0 <= i < text.len() ==> (#[trigger] text[i]) <= '\x7f'
}

/// The compiled form of one declared header, for a method with the given
/// parameters. A literal text must be an ASCII header value; a name must be
/// that of a parameter; nothing else can give a header's value.
pub open spec fn slot_of(header: HeaderView, params: Seq<Seq<char>>) -> Result<
    SlotView,
    DefinitionErrorView,
> {
    match wire_form(header.name) {
        None => Err(DefinitionErrorView::InvalidHeaderName(header.name)),
        Some(wire) => match header.value {
            ExprView::Literal(ValueView::Text(v)) => if is_header_value(v) && is_ascii_text(v) {
                Ok(SlotView { name: wire, value: SourceView::Fixed(v) })
            } else {
                Err(DefinitionErrorView::InvalidHeaderValue(header.name))
            },
            ExprView::Name(param) => if params.contains(param) {
                Ok(SlotView { name: wire, value: SourceView::Param(param) })
            } else {
                Err(DefinitionErrorView::UnknownParameter(param))
            },
            _ => Err(DefinitionErrorView::MalformedHeader),
        },
    }
}

/// The compiled forms of the declared headers, in order; the error of the
/// first header that has none.
pub open spec fn slots_of(headers: Seq<HeaderView>, params: Seq<Seq<char>>) -> Result<
    Seq<SlotView>,
    DefinitionErrorView,
>
    decreases headers.len(),
{
    if headers.len() == 0 {
        Ok(Seq::empty())
    } else {
        match slots_of(headers.drop_last(), params) {
            Err(e) => Err(e),
            Ok(init) => match slot_of(headers.last(), params) {
                Err(e) => Err(e),
                Ok(slot) => Ok(init.push(slot)),
            },
        }
    }
}

/// Whether a name stands in wire form: a header name without ASCII
/// capitals.
pub open spec fn is_wire_name(name: Seq<char>) -> bool {
    &&& is_header_name(name)
    &&& lowered(name) == name
}

/// The wire form of a name stands in wire form.
pub proof fn lemma_wire_form(name: Seq<char>)
    ensures
        wire_form(name) matches Some(wire) ==> is_wire_name(wire),
{
    if let Some(wire) = wire_form(name) {
        let with_dashes = dashed(name);
        assert forall|i: int| 0 <= i < wire.len() implies is_header_name_char(
            #[trigger] wire[i],
        ) && lower_char(wire[i]) == wire[i] by {
            assert(is_header_name_char(with_dashes[i]));
        }
        assert(lowered(wire) == wire);
    }
}

impl SlotView {
    /// A compiled header bears a name in wire form; its fixed value is an
    /// ASCII header value, and the parameter that it takes its value from
    /// is one of the method's.
    pub open spec fn well_formed(self, params: Seq<Seq<char>>) -> bool {
        &&& is_wire_name(self.name)
        &&& match self.value {
            SourceView::Fixed(value) => is_header_value(value) && is_ascii_text(value),
            SourceView::Param(param) => params.contains(param),
        }
    }
}

/// Whether each of the compiled headers is well formed.
pub open spec fn slots_well_formed(slots: Seq<SlotView>, params: Seq<Seq<char>>) -> bool {
    forall|k: int| 0 <= k < slots.len() ==> (#[trigger] slots[k]).well_formed(params)
}

/// Compiled headers are well formed.
pub proof fn lemma_slots_of_well_formed(headers: Seq<HeaderView>, params: Seq<Seq<char>>)
    ensures
        slots_of(headers, params) matches Ok(slots) ==> slots_well_formed(slots, params),
    decreases headers.len(),
{
    if headers.len() > 0 {
        lemma_slots_of_well_formed(headers.drop_last(), params);
        lemma_wire_form(headers.last().name);
    }
}

/// Once a prefix of the headers fails, the whole list fails in the same way.
pub proof fn lemma_slots_of_fails(headers: Seq<HeaderView>, params: Seq<Seq<char>>, n: int)
    requires
        0 <= n <= headers.len(),
        slots_of(headers.take(n), params) is Err,
    ensures
        slots_of(headers, params) == slots_of(headers.take(n), params),
    decreases headers.len() - n,
{
    if n == headers.len() {
        assert(headers.take(n) == headers);
    } else {
        assert(headers.take(n + 1).drop_last() == headers.take(n));
        lemma_slots_of_fails(headers, params, n + 1);
    }
}

fn all_ascii(text: &str) -> (r: bool)
    ensures
        r == is_ascii_text(text@),
{
    let chars = crate::text::chars_of(text);
    let mut i: usize = 0;
    while i < chars.len()
        invariant
            i <= chars.len(),
            chars@ == text@,
            forall|k: int| 0 <= k < i ==> (#[trigger] chars@[k]) <= '\x7f',
        decreases chars.len() - i,
    {
        if chars[i] > '\x7f' {
            return false;
        }
        i += 1;
    }
    true
}

impl Header {
    /// Compiles this header for a method with the given parameters.
    pub fn to_slot(&self, params: &Vec<String>) -> (r: Result<Slot, DefinitionError>)
        ensures
            view_result(r) == slot_of(self@, views(params@)),
    {
        let wire = match wire_name(self.name.as_str()) {
            None => {
                return Err(DefinitionError::InvalidHeaderName(self.name.clone()));
            },
            Some(wire) => wire,
        };
        match &self.value {
            Expr::Literal(Value::Text(v)) => {
                if valid_value(v.as_str()) && all_ascii(v.as_str()) {
                    Ok(Slot { name: wire, value: Source::Fixed(v.clone()) })
                } else {
                    Err(DefinitionError::InvalidHeaderValue(self.name.clone()))
                }
            },
            Expr::Name(param) => {
                if crate::template::holds(params, param.as_str()) {
                    Ok(Slot { name: wire, value: Source::Param(param.clone()) })
                } else {
                    Err(DefinitionError::UnknownParameter(param.clone()))
                }
            },
            _ => Err(DefinitionError::MalformedHeader),
        }
    }
}

impl Headers {
    /// Compiles the declared headers, in order, for a method with the given
    /// parameters: each name is brought into wire form, each literal value
    /// is checked, and each reference must name a parameter.
    pub fn to_slots(&self, params: &Vec<String>) -> (r: Result<Vec<Slot>, DefinitionError>)
        ensures
            view_results(r) == slots_of(self@, views(params@)),
    {
        let mut slots: Vec<Slot> = Vec::new();
        let mut i: usize = 0;
        let ghost all = self@;
        proof {
            assert(views(slots@) == Seq::<SlotView>::empty());
        }
        while i < self.0.len()
            invariant
                i <= self.0.len(),
                all == self@,
                slots_of(all.take(i as int), views(params@)) == Ok::<
                    Seq<SlotView>,
                    DefinitionErrorView,
                >(views(slots@)),
            decreases self.0.len() - i,
        {
            proof {
                assert(all.take(i + 1).drop_last() == all.take(i as int));
                assert(all.take(i + 1).last() == self.0@[i as int]@);
            }
            match self.0[i].to_slot(params) {
                Err(e) => {
                    proof {
                        lemma_slots_of_fails(all, views(params@), i + 1);
                    }
                    return Err(e);
                },
                Ok(slot) => {
                    proof {
                        assert(views(slots@.push(slot)) == views(slots@).push(slot@));
                    }
                    slots.push(slot);
                },
            }
            i += 1;
        }
        proof {
            assert(all.take(i as int) == all);
        }
        Ok(slots)
    }
}

/// One header of a request as it goes on the wire.
#[derive(Debug, PartialEq, Eq)]
pub struct HeaderEntry {
    pub name: String,
    pub value: String,
}

pub struct HeaderEntryView {
    pub name: Seq<char>,
    pub value: Seq<char>,
}

impl View for HeaderEntry {
    type V = HeaderEntryView;

    open spec fn view(&self) -> HeaderEntryView {
        HeaderEntryView { name: self.name@, value: self.value@ }
    }
}

impl Clone for HeaderEntry {
    fn clone(&self) -> (r: Self)
        ensures
            r@ == self@,
    {
        HeaderEntry { name: self.name.clone(), value: self.value.clone() }
    }
}

/// One layer of headers on top of another: the base's entries, then the
/// top's, each kept.
pub open spec fn layered(base: Seq<HeaderEntryView>, top: Seq<HeaderEntryView>) -> Seq<
    HeaderEntryView,
> {
    base + top
}

/// The headers of one request: the interface's defaults, then the
/// method's own, then those set for the call.
pub open spec fn composed(
    defaults: Seq<HeaderEntryView>,
    method: Seq<HeaderEntryView>,
    call: Seq<HeaderEntryView>,
) -> Seq<HeaderEntryView> {
    layered(layered(defaults, method), call)
}

/// The headers of a request: an ordered list in which a name may stand
/// more than once.
#[derive(Debug, PartialEq, Eq)]
pub struct HeaderSet {
    pub entries: Vec<HeaderEntry>,
}

impl View for HeaderSet {
    type V = Seq<HeaderEntryView>;

    open spec fn view(&self) -> Seq<HeaderEntryView> {
        views(self.entries@)
    }
}

impl HeaderSet {
    /// The set without entries.
    pub fn new() -> (r: HeaderSet)
        ensures
            r@ == Seq::<HeaderEntryView>::empty(),
    {
        let r = HeaderSet { entries: Vec::new() };
        assert(r@ == Seq::<HeaderEntryView>::empty());
        r
    }

    /// Adds one entry behind those that the set holds.
    pub fn push(&mut self, entry: HeaderEntry)
        ensures
            final(self)@ == old(self)@.push(entry@),
    {
        self.entries.push(entry);
        assert(self@ == old(self)@.push(entry@));
    }

    /// Lays another layer on top of this set: its entries are added behind
    /// those that the set holds, whatever their names.
    pub fn layer(&mut self, top: &HeaderSet)
        ensures
            final(self)@ == layered(old(self)@, top@),
    {
        let mut i: usize = 0;
        proof {
            assert(top@.take(0) == Seq::<HeaderEntryView>::empty());
            assert(old(self)@ + top@.take(0) == old(self)@);
        }
        while i < top.entries.len()
            invariant
                i <= top.entries.len(),
                self@ == old(self)@ + top@.take(i as int),
            decreases top.entries.len() - i,
        {
            let ghost before = self@;
            self.push(top.entries[i].clone());
            proof {
                assert(top@.take(i + 1) == top@.take(i as int).push(top.entries@[i as int]@));
                assert(before.push(top.entries@[i as int]@) == old(self)@ + top@.take(i + 1));
            }
            i += 1;
        }
        proof {
            assert(top@.take(i as int) == top@);
        }
    }

    /// Composes the header layers of one request, in order: the
    /// interface's defaults, the method's own headers, and the headers set
    /// for the call.
    pub fn compose(defaults: &HeaderSet, method: &HeaderSet, call: &HeaderSet) -> (r: HeaderSet)
        ensures
            r@ == composed(defaults@, method@, call@),
    {
        let mut r = HeaderSet::new();
        r.layer(defaults);
        r.layer(method);
        r.layer(call);
        assert(Seq::<HeaderEntryView>::empty() + defaults@ == defaults@);
        r
    }
}

/// How often an entry stands in a list.
pub open spec fn occurrences(entries: Seq<HeaderEntryView>, entry: HeaderEntryView) -> nat {
    entries.to_multiset().count(entry)
}

/// Layering is associative: to lay the call's headers on the method's and
/// the result on the defaults gives what laying them one after another
/// gives.
pub proof fn law_layering_is_associative(
    defaults: Seq<HeaderEntryView>,
    method: Seq<HeaderEntryView>,
    call: Seq<HeaderEntryView>,
)
    ensures
        layered(layered(defaults, method), call) == layered(defaults, layered(method, call)),
        composed(defaults, method, call) == defaults + method + call,
{
    assert((defaults + method) + call == defaults + (method + call));
}

/// Layering appends and never overwrites: the base's entries come first, in
/// their order, then the top's, in theirs, and each entry stands in the
/// result as often as in both layers together.
pub proof fn law_layering_appends(
    base: Seq<HeaderEntryView>,
    top: Seq<HeaderEntryView>,
    entry: HeaderEntryView,
)
    ensures
        layered(base, top).len() == base.len() + top.len(),
        forall|i: int| 0 <= i < base.len() ==> layered(base, top)[i] == base[i],
        forall|i: int| 0 <= i < top.len() ==> layered(base, top)[base.len() + i] == top[i],
        occurrences(layered(base, top), entry) == occurrences(base, entry) + occurrences(
            top,
            entry,
        ),
{
    vstd::seq_lib::lemma_multiset_commutative(base, top);
}

/// To lay a layer on itself doubles each of its entries: nothing is taken
/// for a duplicate and dropped.
pub proof fn law_layering_keeps_duplicates(layer: Seq<HeaderEntryView>, entry: HeaderEntryView)
    ensures
        layered(layer, layer).len() == 2 * layer.len(),
        occurrences(layered(layer, layer), entry) == 2 * occurrences(layer, entry),
{
    law_layering_appends(layer, layer, entry);
}

} // verus!
