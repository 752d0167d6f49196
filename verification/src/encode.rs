//! Encode strategies: how what a caller passes becomes a query string or a
//! body.

use vstd::prelude::*;
use vstd::utf8::encode_utf8;

use crate::meta::views;

verus! {

/// A name and a value, both texts: one field of a query string or of a
/// form.
#[derive(Debug, PartialEq, Eq)]
pub struct Pair {
    pub name: String,
    pub value: String,
}

pub struct PairView {
    pub name: Seq<char>,
    pub value: Seq<char>,
}

impl View for Pair {
    type V = PairView;

    open spec fn view(&self) -> PairView {
        PairView { name: self.name@, value: self.value@ }
    }
}

/// A byte that stands for itself in a query string or a form: an ASCII
/// letter or digit, or one of `*`, `-`, `.` and `_`.
pub open spec fn is_unreserved(b: u8) -> bool {
    ||| (0x30 <= b && b <= 0x39)
    ||| (0x41 <= b && b <= 0x5A)
    ||| (0x61 <= b && b <= 0x7A)
    ||| b == 0x2A
    ||| b == 0x2D
    ||| b == 0x2E
    ||| b == 0x5F
}

/// The ASCII code of a hexadecimal digit, with capitals for ten to fifteen.
pub open spec fn hex_digit(n: u8) -> u8
    recommends
        n < 16,
{
    if n < 10 {
        (0x30 + n) as u8
    } else {
        (0x41 + (n - 10)) as u8
    }
}

/// One byte as it stands in a query string or a form: itself where it is
/// unreserved, a plus sign for the space, and otherwise a percent sign and
/// its two hexadecimal digits.
pub open spec fn encode_byte(b: u8) -> Seq<u8> {
    if is_unreserved(b) {
        seq![b]
    } else if b == 0x20 {
        seq![0x2Bu8]
    } else {
        seq![0x25u8, hex_digit(b / 16), hex_digit(b % 16)]
    }
}

/// A run of bytes as it stands in a query string or a form.
pub open spec fn encode_bytes(bytes: Seq<u8>) -> Seq<u8>
    decreases bytes.len(),
{
    if bytes.len() == 0 {
        Seq::empty()
    } else {
        encode_bytes(bytes.drop_last()) + encode_byte(bytes.last())
    }
}

/// One pair as it stands in a query string or a form: the name, an equals
/// sign, the value.
pub open spec fn encode_pair(pair: PairView) -> Seq<u8> {
    encode_bytes(encode_utf8(pair.name)) + seq![0x3Du8] + encode_bytes(encode_utf8(pair.value))
}

/// Two encoded runs joined by an ampersand; where one is empty, the other
/// alone.
pub open spec fn joined(left: Seq<u8>, right: Seq<u8>) -> Seq<u8> {
    if left.len() == 0 {
        right
    } else if right.len() == 0 {
        left
    } else {
        left + seq![0x26u8] + right
    }
}

/// The pairs as a query string or a form: each pair in its place, with an
/// ampersand between neighbours. No pair is dropped or merged with another,
/// whatever their names.
pub open spec fn encode_pairs(pairs: Seq<PairView>) -> Seq<u8>
    decreases pairs.len(),
{
    if pairs.len() == 0 {
        Seq::empty()
    } else {
        joined(encode_pairs(pairs.drop_last()), encode_pair(pairs.last()))
    }
}

/// The text whose characters are the given bytes, each taken as the
/// character of its number.
pub open spec fn ascii_text(bytes: Seq<u8>) -> Seq<char> {
    Seq::new(bytes.len(), |i: int| bytes[i] as char)
}

fn hex_of(n: u8) -> (r: u8)
    requires
        n < 16,
    ensures
        r == hex_digit(n),
{
    if n < 10 {
        0x30 + n
    } else {
        0x41 + (n - 10)
    }
}

fn unreserved(b: u8) -> (r: bool)
    ensures
        r == is_unreserved(b),
{
    (0x30 <= b && b <= 0x39) || (0x41 <= b && b <= 0x5A) || (0x61 <= b && b <= 0x7A) || b == 0x2A
        || b == 0x2D || b == 0x2E || b == 0x5F
}

/// Appends a run of bytes, encoded, to what `out` holds.
pub fn push_encoded(out: &mut Vec<u8>, bytes: &[u8])
    ensures
        final(out)@ == old(out)@ + encode_bytes(bytes@),
{
    let mut i: usize = 0;
    proof {
        assert(bytes@.take(0) == Seq::<u8>::empty());
        assert(old(out)@ + Seq::<u8>::empty() == old(out)@);
    }
    while i < bytes.len()
        invariant
            i <= bytes.len(),
            out@ == old(out)@ + encode_bytes(bytes@.take(i as int)),
        decreases bytes.len() - i,
    {
        let b = bytes[i];
        let ghost before = out@;
        proof {
            assert(bytes@.take(i + 1).drop_last() == bytes@.take(i as int));
            assert(bytes@.take(i + 1).last() == b);
        }
        if unreserved(b) {
            out.push(b);
            assert(out@ == before + seq![b]);
        } else if b == 0x20 {
            out.push(0x2B);
            assert(out@ == before + seq![0x2Bu8]);
        } else {
            out.push(0x25);
            out.push(hex_of(b / 16));
            out.push(hex_of(b % 16));
            assert(out@ == before + seq![0x25u8, hex_digit(b / 16), hex_digit(b % 16)]);
        }
        proof {
            assert(out@ == old(out)@ + (encode_bytes(bytes@.take(i as int)) + encode_byte(b)));
        }
        i += 1;
    }
    proof {
        assert(bytes@.take(i as int) == bytes@);
    }
}

/// Encodes the pairs as a query string or a form, in their order.
pub fn urlencode(pairs: &Vec<Pair>) -> (r: Vec<u8>)
    ensures
        r@ == encode_pairs(views(pairs@)),
{
    let mut out: Vec<u8> = Vec::new();
    let mut i: usize = 0;
    let ghost all = views(pairs@);
    proof {
        assert(all.take(0) == Seq::<PairView>::empty());
    }
    while i < pairs.len()
        invariant
            i <= pairs.len(),
            all == views(pairs@),
            out@ == encode_pairs(all.take(i as int)),
        decreases pairs.len() - i,
    {
        let ghost before = out@;
        proof {
            assert(all.take(i + 1).drop_last() == all.take(i as int));
            assert(all.take(i + 1).last() == pairs@[i as int]@);
        }
        let mut one: Vec<u8> = Vec::new();
        push_encoded(&mut one, pairs[i].name.as_str().as_bytes());
        one.push(0x3D);
        push_encoded(&mut one, pairs[i].value.as_str().as_bytes());
        proof {
            assert(one@ == encode_pair(pairs@[i as int]@));
            assert(one@.len() > 0);
        }
        if out.len() > 0 {
            out.push(0x26);
        }
        let ghost sep = out@;
        out.append(&mut one);
        proof {
            assert(out@ == joined(before, encode_pair(pairs@[i as int]@)));
        }
        i += 1;
    }
    proof {
        assert(all.take(i as int) == all);
    }
    out
}

/// The text whose characters are the given bytes, each taken as the
/// character of its number.
pub fn text_of_ascii(bytes: &Vec<u8>) -> (r: String)
    ensures
        r@ == ascii_text(bytes@),
{
    let mut out = String::new();
    let mut i: usize = 0;
    while i < bytes.len()
        invariant
            i <= bytes.len(),
            out@ == ascii_text(bytes@.take(i as int)),
        decreases bytes.len() - i,
    {
        out.push(bytes[i] as char);
        proof {
            assert(ascii_text(bytes@.take(i + 1)) == ascii_text(bytes@.take(i as int)).push(
                bytes@[i as int] as char,
            ));
        }
        i += 1;
    }
    proof {
        assert(bytes@.take(i as int) == bytes@);
    }
    out
}

/// The pairs as the text of a query string.
pub fn query_string(pairs: &Vec<Pair>) -> (r: String)
    ensures
        r@ == ascii_text(encode_pairs(views(pairs@))),
{
    let bytes = urlencode(pairs);
    text_of_ascii(&bytes)
}

/// Joining is associative.
pub proof fn lemma_joined_associative(a: Seq<u8>, b: Seq<u8>, c: Seq<u8>)
    ensures
        joined(joined(a, b), c) == joined(a, joined(b, c)),
{
    if a.len() > 0 && b.len() > 0 && c.len() > 0 {
        assert((a + seq![0x26u8] + b) + seq![0x26u8] + c == a + seq![0x26u8] + (b + seq![0x26u8]
            + c));
    }
}

/// Encoding keeps the order of the pairs and drops none: a list of pairs
/// encodes to the encoding of any front part of it, joined to the encoding
/// of the rest.
pub proof fn law_encoding_keeps_order(front: Seq<PairView>, rest: Seq<PairView>)
    ensures
        encode_pairs(front + rest) == joined(encode_pairs(front), encode_pairs(rest)),
    decreases rest.len(),
{
    if rest.len() == 0 {
        assert(front + rest == front);
    } else {
        assert((front + rest).drop_last() == front + rest.drop_last());
        assert((front + rest).last() == rest.last());
        law_encoding_keeps_order(front, rest.drop_last());
        lemma_joined_associative(
            encode_pairs(front),
            encode_pairs(rest.drop_last()),
            encode_pair(rest.last()),
        );
    }
}

/// Two pairs of one name both stand in the encoding, the first before the
/// second, with an ampersand between them.
pub proof fn law_repeated_name_is_kept(name: Seq<char>, first: Seq<char>, second: Seq<char>)
    ensures
        encode_pairs(
            seq![PairView { name, value: first }, PairView { name, value: second }],
        ) == encode_pair(PairView { name, value: first }) + seq![0x26u8] + encode_pair(
            PairView { name, value: second },
        ),
{
    let a = PairView { name, value: first };
    let b = PairView { name, value: second };
    let both = seq![a, b];
    assert(both.drop_last() == seq![a]);
    assert(both.last() == b);
    assert(seq![a].drop_last() == Seq::<PairView>::empty());
    assert(seq![a].last() == a);
    assert(encode_pairs(Seq::<PairView>::empty()) == Seq::<u8>::empty());
    assert(encode_pairs(seq![a]) == joined(encode_pairs(seq![a].drop_last()), encode_pair(a)));
    assert(encode_pairs(seq![a]) == encode_pair(a));
    assert(encode_pair(a).len() > 0);
    assert(encode_pair(b).len() > 0);
}

/// The strategy by which what a caller passes is attached to a request.
#[derive(Debug, PartialEq, Eq, Clone, Copy)]
pub enum EncodeKind {
    /// Nothing is attached.
    Nothing,
    /// Pairs are added to the URL's query string.
    Query,
    /// An encoded JSON document becomes the body.
    Json,
    /// Pairs become a URL-encoded form body.
    Form,
    /// Raw bytes become the body.
    Body,
    /// A multipart form becomes the body.
    Multipart,
}

/// The encode strategy of a method, and the parameter whose value is
/// encoded.
#[derive(Debug, PartialEq, Eq)]
pub struct EncodeSpec {
    pub kind: EncodeKind,
    pub source: Option<String>,
}

pub struct EncodeSpecView {
    pub kind: EncodeKind,
    pub source: Option<Seq<char>>,
}

impl View for EncodeSpec {
    type V = EncodeSpecView;

    open spec fn view(&self) -> EncodeSpecView {
        EncodeSpecView {
            kind: self.kind,
            source: match self.source {
                Some(s) => Some(s@),
                None => None,
            },
        }
    }
}

/// The strategy that a request option's name stands for.
pub open spec fn kind_named(name: Seq<char>) -> Option<EncodeKind> {
    if name == "query"@ {
        Some(EncodeKind::Query)
    } else if name == "json"@ {
        Some(EncodeKind::Json)
    } else if name == "form"@ {
        Some(EncodeKind::Form)
    } else if name == "body"@ {
        Some(EncodeKind::Body)
    } else if name == "multipart"@ {
        Some(EncodeKind::Multipart)
    } else {
        None
    }
}

impl EncodeKind {
    /// The strategy that a request option's name stands for.
    pub fn named(name: &str) -> (r: Option<EncodeKind>)
        ensures
            r == kind_named(name@),
    {
        if crate::text::same_text(name, "query") {
            Some(EncodeKind::Query)
        } else if crate::text::same_text(name, "json") {
            Some(EncodeKind::Json)
        } else if crate::text::same_text(name, "form") {
            Some(EncodeKind::Form)
        } else if crate::text::same_text(name, "body") {
            Some(EncodeKind::Body)
        } else if crate::text::same_text(name, "multipart") {
            Some(EncodeKind::Multipart)
        } else {
            None
        }
    }
}

/// What one field of a multipart form holds: a text, or the file at a
/// path.
#[derive(Debug, PartialEq, Eq)]
pub enum PartContent {
    Text(String),
    File(String),
}

pub enum PartContentView {
    Text(Seq<char>),
    File(Seq<char>),
}

impl View for PartContent {
    type V = PartContentView;

    open spec fn view(&self) -> PartContentView {
        match self {
            PartContent::Text(t) => PartContentView::Text(t@),
            PartContent::File(p) => PartContentView::File(p@),
        }
    }
}

/// One field of a multipart form.
#[derive(Debug, PartialEq, Eq)]
pub struct Part {
    pub name: String,
    pub content: PartContent,
}

pub struct PartView {
    pub name: Seq<char>,
    pub content: PartContentView,
}

impl View for Part {
    type V = PartView;

    open spec fn view(&self) -> PartView {
        PartView { name: self.name@, content: self.content@ }
    }
}

/// What a caller passes to be encoded: nothing, pairs for a query string or
/// a form, a JSON document that the serializer has already encoded, raw
/// bytes, or the fields of a multipart form.
#[derive(Debug, PartialEq, Eq)]
pub enum Payload {
    Nothing,
    Pairs(Vec<Pair>),
    Json(Vec<u8>),
    Raw(Vec<u8>),
    Multipart(Vec<Part>),
}

pub enum PayloadView {
    Nothing,
    Pairs(Seq<PairView>),
    Json(Seq<u8>),
    Raw(Seq<u8>),
    Multipart(Seq<PartView>),
}

impl View for Payload {
    type V = PayloadView;

    open spec fn view(&self) -> PayloadView {
        match self {
            Payload::Nothing => PayloadView::Nothing,
            Payload::Pairs(p) => PayloadView::Pairs(views(p@)),
            Payload::Json(b) => PayloadView::Json(b@),
            Payload::Raw(b) => PayloadView::Raw(b@),
            Payload::Multipart(p) => PayloadView::Multipart(views(p@)),
        }
    }
}

/// The body of a request: none, bytes with the content type that the
/// encode strategy sets for them, or the fields of a multipart form.
#[derive(Debug, PartialEq, Eq)]
pub enum Body {
    Empty,
    Bytes { content_type: Option<String>, data: Vec<u8> },
    Multipart(Vec<Part>),
}

pub enum BodyView {
    Empty,
    Bytes { content_type: Option<Seq<char>>, data: Seq<u8> },
    Multipart(Seq<PartView>),
}

impl View for Body {
    type V = BodyView;

    open spec fn view(&self) -> BodyView {
        match self {
            Body::Empty => BodyView::Empty,
            Body::Bytes { content_type, data } => BodyView::Bytes {
                content_type: match content_type {
                    Some(c) => Some(c@),
                    None => None,
                },
                data: data@,
            },
            Body::Multipart(p) => BodyView::Multipart(views(p@)),
        }
    }
}

/// The content type of a JSON body.
pub open spec fn json_type() -> Seq<char> {
    "application/json"@
}

/// The content type of a form body.
pub open spec fn form_type() -> Seq<char> {
    "application/x-www-form-urlencoded"@
}

/// Whether a text holds a question mark.
pub open spec fn has_query(url: Seq<char>) -> bool {
    url.contains('?')
}

/// A URL with the pairs added to its query string: unchanged where there
/// are no pairs; otherwise the URL, a question mark (an ampersand where the
/// URL holds a question mark already), and the encoded pairs.
pub open spec fn with_query(url: Seq<char>, pairs: Seq<PairView>) -> Seq<char> {
    if pairs.len() == 0 {
        url
    } else if has_query(url) {
        url + seq!['&'] + ascii_text(encode_pairs(pairs))
    } else {
        url + seq!['?'] + ascii_text(encode_pairs(pairs))
    }
}

/// The URL and the body that a strategy makes of a URL and what the caller
/// passed; nothing where what was passed does not fit the strategy.
pub open spec fn encoded(kind: EncodeKind, url: Seq<char>, payload: PayloadView) -> Option<
    (Seq<char>, BodyView),
> {
    match (kind, payload) {
        (EncodeKind::Nothing, PayloadView::Nothing) => Some((url, BodyView::Empty)),
        (EncodeKind::Query, PayloadView::Pairs(pairs)) => Some(
            (with_query(url, pairs), BodyView::Empty),
        ),
        (EncodeKind::Json, PayloadView::Json(data)) => Some(
            (url, BodyView::Bytes { content_type: Some(json_type()), data }),
        ),
        (EncodeKind::Form, PayloadView::Pairs(pairs)) => Some(
            (url, BodyView::Bytes { content_type: Some(form_type()), data: encode_pairs(pairs) }),
        ),
        (EncodeKind::Body, PayloadView::Raw(data)) => Some(
            (url, BodyView::Bytes { content_type: None, data }),
        ),
        (EncodeKind::Multipart, PayloadView::Multipart(parts)) => Some(
            (url, BodyView::Multipart(parts)),
        ),
        _ => None,
    }
}

fn holds_question_mark(url: &str) -> (r: bool)
    ensures
        r == has_query(url@),
{
    let chars = crate::text::chars_of(url);
    let mut i: usize = 0;
    while i < chars.len()
        invariant
            i <= chars.len(),
            chars@ == url@,
            forall|k: int| 0 <= k < i ==> chars@[k] != '?',
        decreases chars.len() - i,
    {
        if chars[i] == '?' {
            return true;
        }
        i += 1;
    }
    false
}

/// Adds the pairs to a URL's query string.
pub fn add_query(url: String, pairs: &Vec<Pair>) -> (r: String)
    ensures
        r@ == with_query(url@, views(pairs@)),
{
    if pairs.len() == 0 {
        url
    } else {
        let mut out = url;
        if holds_question_mark(out.as_str()) {
            out.push('&');
        } else {
            out.push('?');
        }
        let query = query_string(pairs);
        out.append(query.as_str());
        out
    }
}

/// Applies an encode strategy to a URL and to what the caller passed.
pub fn apply(kind: EncodeKind, url: String, payload: Payload) -> (r: Option<(String, Body)>)
    ensures
        match r {
            Some((u, body)) => encoded(kind, url@, payload@) == Some((u@, body@)),
            None => encoded(kind, url@, payload@) is None,
        },
{
    match (kind, payload) {
        (EncodeKind::Nothing, Payload::Nothing) => Some((url, Body::Empty)),
        (EncodeKind::Query, Payload::Pairs(pairs)) => Some((add_query(url, &pairs), Body::Empty)),
        (EncodeKind::Json, Payload::Json(data)) => Some(
            (url, Body::Bytes { content_type: Some("application/json".to_owned()), data }),
        ),
        (EncodeKind::Form, Payload::Pairs(pairs)) => Some(
            (
                url,
                Body::Bytes {
                    content_type: Some("application/x-www-form-urlencoded".to_owned()),
                    data: urlencode(&pairs),
                },
            ),
        ),
        (EncodeKind::Body, Payload::Raw(data)) => Some(
            (url, Body::Bytes { content_type: None, data }),
        ),
        (EncodeKind::Multipart, Payload::Multipart(parts)) => Some((url, Body::Multipart(parts))),
        _ => None,
    }
}

} // verus!
