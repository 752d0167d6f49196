use retrofit::encode::{
    add_query, apply, query_string, text_of_ascii, urlencode, Body, EncodeKind, Pair, Part,
    PartContent, Payload,
};

fn s(text: &str) -> String {
    text.to_string()
}

fn pair(name: &str, value: &str) -> Pair {
    Pair { name: s(name), value: s(value) }
}

#[test]
fn repeated_keys_are_both_kept_in_order() {
    assert_eq!(query_string(&vec![pair("foo", "a"), pair("foo", "b")]), "foo=a&foo=b");
}

#[test]
fn pairs_are_joined_by_ampersands() {
    assert_eq!(query_string(&vec![]), "");
    assert_eq!(query_string(&vec![pair("lang", "rust")]), "lang=rust");
    assert_eq!(
        query_string(&vec![pair("a", "1"), pair("b", "2"), pair("c", "3")]),
        "a=1&b=2&c=3"
    );
    assert_eq!(query_string(&vec![pair("", ""), pair("", "")]), "=&=");
}

#[test]
fn reserved_bytes_are_escaped() {
    assert_eq!(query_string(&vec![pair("q", "a b")]), "q=a+b");
    assert_eq!(query_string(&vec![pair("q", "a&b=c")]), "q=a%26b%3Dc");
    assert_eq!(query_string(&vec![pair("a b", "c/d?e")]), "a+b=c%2Fd%3Fe");
    assert_eq!(query_string(&vec![pair("k", "*-._")]), "k=*-._");
    assert_eq!(query_string(&vec![pair("k", "~!'()")]), "k=%7E%21%27%28%29");
    assert_eq!(query_string(&vec![pair("k", "+%")]), "k=%2B%25");
    assert_eq!(query_string(&vec![pair("k", "\u{0}\n\u{7f}")]), "k=%00%0A%7F");
    assert_eq!(query_string(&vec![pair("k", "azAZ09")]), "k=azAZ09");
}

#[test]
fn characters_outside_ascii_are_escaped_byte_by_byte() {
    assert_eq!(query_string(&vec![pair("k", "\u{e9}")]), "k=%C3%A9");
    assert_eq!(query_string(&vec![pair("\u{20ac}", "\u{1f600}")]), "%E2%82%AC=%F0%9F%98%80");
}

#[test]
fn a_form_is_the_same_encoding_as_bytes() {
    assert_eq!(urlencode(&vec![pair("lang", "rust"), pair("q", "a b")]), b"lang=rust&q=a+b".to_vec());
    assert_eq!(urlencode(&vec![]), Vec::<u8>::new());
}

#[test]
fn bytes_become_the_characters_of_their_numbers() {
    assert_eq!(text_of_ascii(&b"a=1".to_vec()), "a=1");
    assert_eq!(text_of_ascii(&vec![0xE9]), "\u{e9}");
    assert_eq!(text_of_ascii(&vec![]), "");
}

#[test]
fn a_query_is_put_behind_a_question_mark() {
    assert_eq!(
        add_query(s("http://httpbin.org/get"), &vec![pair("lang", "rust")]),
        "http://httpbin.org/get?lang=rust"
    );
}

#[test]
fn a_query_is_added_to_one_that_the_url_holds() {
    assert_eq!(
        add_query(s("http://h/get?a=1"), &vec![pair("a", "2"), pair("b", "3")]),
        "http://h/get?a=1&a=2&b=3"
    );
}

#[test]
fn no_pairs_leave_the_url_as_it_is() {
    assert_eq!(add_query(s("http://h/get"), &vec![]), "http://h/get");
    assert_eq!(add_query(s("http://h/get?a=1"), &vec![]), "http://h/get?a=1");
}

#[test]
fn a_strategy_is_known_by_its_name() {
    assert_eq!(EncodeKind::named("query"), Some(EncodeKind::Query));
    assert_eq!(EncodeKind::named("json"), Some(EncodeKind::Json));
    assert_eq!(EncodeKind::named("form"), Some(EncodeKind::Form));
    assert_eq!(EncodeKind::named("body"), Some(EncodeKind::Body));
    assert_eq!(EncodeKind::named("multipart"), Some(EncodeKind::Multipart));
    assert_eq!(EncodeKind::named("none"), None);
    assert_eq!(EncodeKind::named("Query"), None);
    assert_eq!(EncodeKind::named(""), None);
}

#[test]
fn nothing_is_attached_where_nothing_is_declared() {
    assert_eq!(
        apply(EncodeKind::Nothing, s("http://h/"), Payload::Nothing),
        Some((s("http://h/"), Body::Empty))
    );
}

#[test]
fn the_query_strategy_extends_the_url() {
    assert_eq!(
        apply(
            EncodeKind::Query,
            s("http://h/get"),
            Payload::Pairs(vec![pair("foo", "a"), pair("foo", "b")])
        ),
        Some((s("http://h/get?foo=a&foo=b"), Body::Empty))
    );
}

#[test]
fn the_json_strategy_makes_a_json_body() {
    let document = b"{\"lang\":\"rust\"}".to_vec();
    assert_eq!(
        apply(EncodeKind::Json, s("http://h/post"), Payload::Json(document.clone())),
        Some((
            s("http://h/post"),
            Body::Bytes { content_type: Some(s("application/json")), data: document }
        ))
    );
}

#[test]
fn the_form_strategy_makes_a_form_body() {
    assert_eq!(
        apply(EncodeKind::Form, s("http://h/post"), Payload::Pairs(vec![pair("lang", "rust")])),
        Some((
            s("http://h/post"),
            Body::Bytes {
                content_type: Some(s("application/x-www-form-urlencoded")),
                data: b"lang=rust".to_vec()
            }
        ))
    );
}

#[test]
fn the_body_strategy_takes_the_bytes_as_they_are() {
    assert_eq!(
        apply(EncodeKind::Body, s("http://h/post"), Payload::Raw(vec![1, 10, 100])),
        Some((s("http://h/post"), Body::Bytes { content_type: None, data: vec![1, 10, 100] }))
    );
}

#[test]
fn the_multipart_strategy_takes_the_form_as_it_is() {
    let parts = vec![
        Part { name: s("username"), content: PartContent::Text(s("seanmonstar")) },
        Part { name: s("photo"), content: PartContent::File(s("/path/to/photo.png")) },
    ];
    let same = vec![
        Part { name: s("username"), content: PartContent::Text(s("seanmonstar")) },
        Part { name: s("photo"), content: PartContent::File(s("/path/to/photo.png")) },
    ];
    assert_eq!(
        apply(EncodeKind::Multipart, s("http://h/post"), Payload::Multipart(parts)),
        Some((s("http://h/post"), Body::Multipart(same)))
    );
}

#[test]
fn a_payload_that_does_not_fit_the_strategy_gives_nothing() {
    assert_eq!(apply(EncodeKind::Nothing, s("u"), Payload::Raw(vec![])), None);
    assert_eq!(apply(EncodeKind::Query, s("u"), Payload::Nothing), None);
    assert_eq!(apply(EncodeKind::Query, s("u"), Payload::Json(vec![])), None);
    assert_eq!(apply(EncodeKind::Json, s("u"), Payload::Raw(vec![])), None);
    assert_eq!(apply(EncodeKind::Json, s("u"), Payload::Pairs(vec![])), None);
    assert_eq!(apply(EncodeKind::Form, s("u"), Payload::Json(vec![])), None);
    assert_eq!(apply(EncodeKind::Body, s("u"), Payload::Json(vec![])), None);
    assert_eq!(apply(EncodeKind::Multipart, s("u"), Payload::Pairs(vec![])), None);
    assert_eq!(apply(EncodeKind::Multipart, s("u"), Payload::Nothing), None);
}
