use retrofit::error::DefinitionError;
use retrofit::header::{
    valid_value, wire_name, Header, HeaderEntry, HeaderSet, Headers, Slot, Source,
};
use retrofit::meta::{Attribute, Entry, Expr, Interface, MethodDecl, ReturnType, Signature, Value};

fn s(text: &str) -> String {
    text.to_string()
}

fn text(value: &str) -> Expr {
    Expr::Literal(Value::Text(s(value)))
}

fn assign(key: &str, value: Expr) -> Entry {
    Entry::Assign { name: s(key), value }
}

fn attr(path: &[&str], entries: Vec<Entry>) -> Attribute {
    Attribute { path: path.iter().map(|p| s(p)).collect(), entries }
}

fn entry(name: &str, value: &str) -> HeaderEntry {
    HeaderEntry { name: s(name), value: s(value) }
}

fn set(entries: Vec<HeaderEntry>) -> HeaderSet {
    HeaderSet { entries }
}

#[test]
fn a_header_name_goes_on_the_wire_dashed_and_in_small_letters() {
    assert_eq!(wire_name("cache_control"), Some(s("cache-control")));
    assert_eq!(wire_name("Cache_Control"), Some(s("cache-control")));
    assert_eq!(wire_name("accept"), Some(s("accept")));
    assert_eq!(wire_name("X_REQUEST_ID"), Some(s("x-request-id")));
    assert_eq!(wire_name("content-type"), Some(s("content-type")));
    assert_eq!(wire_name("a1!#$%&'*+.^`|~"), Some(s("a1!#$%&'*+.^`|~")));
}

#[test]
fn a_text_that_is_no_header_name_has_no_wire_form() {
    assert_eq!(wire_name(""), None);
    assert_eq!(wire_name("two words"), None);
    assert_eq!(wire_name("colon:"), None);
    assert_eq!(wire_name("caf\u{e9}"), None);
    assert_eq!(wire_name("a(b)"), None);
    assert_eq!(wire_name("a,b"), None);
    assert_eq!(wire_name("a/b"), None);
    assert_eq!(wire_name("a@b"), None);
    assert_eq!(wire_name("a[b]"), None);
    assert_eq!(wire_name("a{b}"), None);
}

#[test]
fn a_header_name_may_be_long_but_not_too_long() {
    let long = "a".repeat(65535);
    assert_eq!(wire_name(&long), Some(long.clone()));
    let mixed = "A_".repeat(100);
    assert_eq!(wire_name(&mixed), Some("a-".repeat(100)));
    let too_long = "a".repeat(65536);
    assert_eq!(wire_name(&too_long), None);
}

#[test]
fn a_header_value_holds_no_control_character_but_the_tab() {
    assert!(valid_value("max-age=640000"));
    assert!(valid_value(""));
    assert!(valid_value("a\tb"));
    assert!(valid_value("caf\u{e9}"));
    assert!(valid_value(" ~"));
    assert!(!valid_value("a\nb"));
    assert!(!valid_value("a\rb"));
    assert!(!valid_value("a\u{0}b"));
    assert!(!valid_value("a\u{1f}b"));
    assert!(!valid_value("a\u{7f}b"));
}

#[test]
fn a_header_is_a_name_with_an_expression() {
    assert_eq!(
        Header::parse(&assign("accept", text("application/json"))),
        Ok(Header { name: s("accept"), value: text("application/json") })
    );
    assert_eq!(
        Header::parse(&Entry::Bare(Expr::Name(s("accept")))),
        Err(DefinitionError::MalformedHeader)
    );
}

#[test]
fn headers_are_read_in_order_and_fail_on_the_first_fault() {
    assert_eq!(
        Headers::parse(&vec![assign("a", text("1")), assign("b", Expr::Name(s("p")))]),
        Ok(Headers(vec![
            Header { name: s("a"), value: text("1") },
            Header { name: s("b"), value: Expr::Name(s("p")) },
        ]))
    );
    assert_eq!(
        Headers::parse(&vec![assign("a", text("1")), Entry::Bare(text("b"))]),
        Err(DefinitionError::MalformedHeader)
    );
}

#[test]
fn headers_are_collected_from_every_annotation_of_the_name() {
    let attrs = vec![
        attr(&["headers"], vec![assign("a", text("1"))]),
        attr(&["default_headers"], vec![assign("d", text("0"))]),
        attr(&["retrofit", "headers"], vec![assign("a", text("2")), assign("b", text("3"))]),
    ];
    let found = Headers::extract("headers", &attrs).unwrap();
    assert_eq!(
        found,
        Headers(vec![
            Header { name: s("a"), value: text("1") },
            Header { name: s("a"), value: text("2") },
            Header { name: s("b"), value: text("3") },
        ])
    );
    assert!(!found.is_empty());
    assert!(Headers::extract("other", &attrs).unwrap().is_empty());
}

#[test]
fn collecting_headers_fails_on_a_malformed_annotation() {
    let attrs = vec![attr(&["headers"], vec![Entry::Bare(text("x"))])];
    assert_eq!(Headers::extract("headers", &attrs), Err(DefinitionError::MalformedHeader));
}

#[test]
fn declared_headers_compile_to_slots() {
    let headers = Headers(vec![
        Header { name: s("cache_control"), value: text("max-age=640000") },
        Header { name: s("authorization"), value: Expr::Name(s("token")) },
    ]);
    assert_eq!(
        headers.to_slots(&vec![s("token")]),
        Ok(vec![
            Slot { name: s("cache-control"), value: Source::Fixed(s("max-age=640000")) },
            Slot { name: s("authorization"), value: Source::Param(s("token")) },
        ])
    );
}

#[test]
fn a_header_of_one_name_may_be_declared_twice() {
    let headers = Headers(vec![
        Header { name: s("accept"), value: text("text/plain") },
        Header { name: s("accept"), value: text("application/json") },
    ]);
    assert_eq!(
        headers.to_slots(&vec![]),
        Ok(vec![
            Slot { name: s("accept"), value: Source::Fixed(s("text/plain")) },
            Slot { name: s("accept"), value: Source::Fixed(s("application/json")) },
        ])
    );
}

#[test]
fn a_header_with_a_bad_name_does_not_compile() {
    let header = Header { name: s("bad name"), value: text("v") };
    assert_eq!(
        header.to_slot(&vec![]),
        Err(DefinitionError::InvalidHeaderName(s("bad name")))
    );
}

#[test]
fn a_header_with_a_bad_literal_does_not_compile() {
    let header = Header { name: s("x"), value: text("line\nbreak") };
    assert_eq!(header.to_slot(&vec![]), Err(DefinitionError::InvalidHeaderValue(s("x"))));
    let header = Header { name: s("x"), value: text("caf\u{e9}") };
    assert_eq!(header.to_slot(&vec![]), Err(DefinitionError::InvalidHeaderValue(s("x"))));
}

#[test]
fn a_header_that_refers_to_no_parameter_does_not_compile() {
    let header = Header { name: s("x"), value: Expr::Name(s("token")) };
    assert_eq!(
        header.to_slot(&vec![s("other")]),
        Err(DefinitionError::UnknownParameter(s("token")))
    );
}

#[test]
fn a_header_whose_value_is_no_text_does_not_compile() {
    let header = Header { name: s("x"), value: Expr::Literal(Value::Unsigned(1)) };
    assert_eq!(header.to_slot(&vec![]), Err(DefinitionError::MalformedHeader));
    let header = Header { name: s("x"), value: Expr::Call { name: s("f"), args: vec![] } };
    assert_eq!(header.to_slot(&vec![]), Err(DefinitionError::MalformedHeader));
}

#[test]
fn compiling_headers_fails_on_the_first_fault() {
    let headers = Headers(vec![
        Header { name: s("ok"), value: text("v") },
        Header { name: s("bad name"), value: text("v") },
        Header { name: s("x"), value: text("\n") },
    ]);
    assert_eq!(
        headers.to_slots(&vec![]),
        Err(DefinitionError::InvalidHeaderName(s("bad name")))
    );
}

#[test]
fn composing_puts_the_layers_one_behind_the_other() {
    let defaults = set(vec![entry("accept", "application/json"), entry("user-agent", "x")]);
    let method = set(vec![entry("cache-control", "max-age=1")]);
    let call = set(vec![entry("authorization", "token")]);
    assert_eq!(
        HeaderSet::compose(&defaults, &method, &call),
        set(vec![
            entry("accept", "application/json"),
            entry("user-agent", "x"),
            entry("cache-control", "max-age=1"),
            entry("authorization", "token"),
        ])
    );
}

#[test]
fn composing_keeps_a_name_that_stands_in_two_layers() {
    let defaults = set(vec![entry("accept", "text/plain")]);
    let method = set(vec![entry("accept", "application/json")]);
    let call = set(vec![entry("accept", "text/plain")]);
    assert_eq!(
        HeaderSet::compose(&defaults, &method, &call),
        set(vec![
            entry("accept", "text/plain"),
            entry("accept", "application/json"),
            entry("accept", "text/plain"),
        ])
    );
}

#[test]
fn laying_a_layer_on_itself_doubles_it() {
    let mut layer = set(vec![entry("a", "1"), entry("b", "2")]);
    let same = set(vec![entry("a", "1"), entry("b", "2")]);
    layer.layer(&same);
    assert_eq!(
        layer,
        set(vec![entry("a", "1"), entry("b", "2"), entry("a", "1"), entry("b", "2")])
    );
}

#[test]
fn layering_is_associative_on_given_layers() {
    let a = set(vec![entry("a", "1")]);
    let b = set(vec![entry("b", "2"), entry("a", "3")]);
    let c = set(vec![entry("c", "4")]);
    let mut left = HeaderSet::new();
    left.layer(&a);
    left.layer(&b);
    left.layer(&c);
    let mut right_tail = HeaderSet::new();
    right_tail.layer(&b);
    right_tail.layer(&c);
    let mut right = HeaderSet::new();
    right.layer(&a);
    right.layer(&right_tail);
    assert_eq!(left, right);
    assert_eq!(left, HeaderSet::compose(&a, &b, &c));
}

#[test]
fn an_empty_set_and_a_pushed_entry() {
    let mut headers = HeaderSet::new();
    assert_eq!(headers, set(vec![]));
    headers.push(entry("a", "1"));
    headers.push(entry("a", "1"));
    assert_eq!(headers, set(vec![entry("a", "1"), entry("a", "1")]));
}

#[test]
fn the_header_annotations_hand_their_item_back() {
    let decl = MethodDecl {
        attrs: vec![],
        sig: Signature { ident: s("m"), params: vec![], output: ReturnType::Default },
        provided: false,
    };
    let same = MethodDecl {
        attrs: vec![],
        sig: Signature { ident: s("m"), params: vec![], output: ReturnType::Default },
        provided: false,
    };
    assert_eq!(retrofit::header::headers(Headers(vec![]), decl), Ok(same));
    let item = Interface { attrs: vec![], ident: s("I"), supertraits: vec![], items: vec![] };
    let same = Interface { attrs: vec![], ident: s("I"), supertraits: vec![], items: vec![] };
    assert_eq!(retrofit::header::default_headers(Headers(vec![]), item), Ok(same));
}
