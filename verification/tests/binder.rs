use retrofit::binder::{
    entries_for, overrides_for, unbound_params, CallFailure, Invocation, RequestDescriptor,
    RequestTemplate,
};
use retrofit::encode::{Body, EncodeKind, EncodeSpec, Payload};
use retrofit::error::{BindError, DefinitionError};
use retrofit::header::{HeaderEntry, HeaderSet, Slot, Source};
use retrofit::meta::{Attribute, Entry, Expr, MethodDecl, ReturnType, Signature, Value};
use retrofit::request::{Arg, Verb};
use retrofit::response::{Cause, DecodeSpec};
use retrofit::service::Returns;
use retrofit::template::Argument;

fn s(text: &str) -> String {
    text.to_string()
}

fn names(list: &[&str]) -> Vec<String> {
    list.iter().map(|p| s(p)).collect()
}

fn lit(value: &str) -> Entry {
    Entry::Bare(Expr::Literal(Value::Text(s(value))))
}

fn attr(name: &str, entries: Vec<Entry>) -> Attribute {
    Attribute { path: vec![s(name)], entries }
}

fn option(name: &str) -> Attribute {
    attr("request", vec![Entry::Bare(Expr::Name(s(name)))])
}

fn option_from(name: &str, param: &str) -> Attribute {
    attr("request", vec![Entry::Assign { name: s(name), value: Expr::Name(s(param)) }])
}

fn method(ident: &str, params: &[&str], attrs: Vec<Attribute>) -> MethodDecl {
    MethodDecl {
        attrs,
        sig: Signature { ident: s(ident), params: names(params), output: ReturnType::Default },
        provided: false,
    }
}

fn template(path: &str, headers: Vec<Slot>, kind: EncodeKind) -> RequestTemplate {
    RequestTemplate {
        name: s("m"),
        verb: Verb::Post,
        path: s(path),
        args: vec![],
        params: vec![],
        headers,
        encode: EncodeSpec { kind, source: None },
        decode: DecodeSpec::Json,
        output: Returns::Nothing,
    }
}

fn passed(name: &str, value: Value) -> Argument {
    Argument { name: s(name), value }
}

fn call(values: Vec<Argument>) -> Invocation {
    Invocation { values, payload: Payload::Nothing, headers: vec![] }
}

fn encode_of(decl: &MethodDecl) -> Result<EncodeSpec, DefinitionError> {
    RequestTemplate::compile(decl, Returns::Nothing).map(|t| t.encode)
}

#[test]
fn the_source_is_the_parameter_that_the_option_names() {
    let decl = method("post", &["data", "other"], vec![attr("post", vec![lit("/post")]), option_from("json", "data")]);
    assert_eq!(encode_of(&decl), Ok(EncodeSpec { kind: EncodeKind::Json, source: Some(s("data")) }));
}

#[test]
fn the_source_defaults_to_the_one_parameter_that_nothing_else_takes() {
    let decl = method(
        "post",
        &["id", "payload"],
        vec![attr("post", vec![lit("/items/{id}")]), option("form")],
    );
    assert_eq!(
        encode_of(&decl),
        Ok(EncodeSpec { kind: EncodeKind::Form, source: Some(s("payload")) })
    );
}

#[test]
fn the_source_defaults_to_the_parameter_of_the_strategys_name() {
    let decl = method(
        "get",
        &["a", "query", "b"],
        vec![attr("get", vec![lit("/get")]), option("query")],
    );
    assert_eq!(
        encode_of(&decl),
        Ok(EncodeSpec { kind: EncodeKind::Query, source: Some(s("query")) })
    );
}

#[test]
fn a_strategy_without_a_source_is_rejected() {
    let decl = method("post", &["a", "b"], vec![attr("post", vec![lit("/post")]), option("body")]);
    assert_eq!(encode_of(&decl), Err(DefinitionError::MissingSource(s("post"))));
    let decl = method("post", &[], vec![attr("post", vec![lit("/post")]), option("body")]);
    assert_eq!(encode_of(&decl), Err(DefinitionError::MissingSource(s("post"))));
}

#[test]
fn a_source_that_is_no_parameter_is_rejected() {
    let decl = method("post", &["a"], vec![attr("post", vec![lit("/post")]), option_from("json", "data")]);
    assert_eq!(encode_of(&decl), Err(DefinitionError::UnknownParameter(s("data"))));
}

#[test]
fn a_source_that_is_no_name_is_rejected() {
    let decl = method(
        "post",
        &["a"],
        vec![
            attr("post", vec![lit("/post")]),
            attr(
                "request",
                vec![Entry::Assign {
                    name: s("json"),
                    value: Expr::Literal(Value::Text(s("x"))),
                }],
            ),
        ],
    );
    assert_eq!(encode_of(&decl), Err(DefinitionError::MalformedArg));
}

#[test]
fn an_option_that_names_no_strategy_is_rejected() {
    let decl = method("post", &["a"], vec![attr("post", vec![lit("/post")]), option("xml")]);
    assert_eq!(encode_of(&decl), Err(DefinitionError::UnknownEncode(s("xml"))));
}

#[test]
fn two_strategies_are_rejected() {
    let decl = method(
        "post",
        &["query", "json"],
        vec![attr("post", vec![lit("/post")]), option("query"), option("json")],
    );
    assert_eq!(encode_of(&decl), Err(DefinitionError::ConflictingEncode(s("post"))));
}

#[test]
fn nothing_is_encoded_where_no_option_is_declared() {
    let decl = method("get", &["a"], vec![attr("get", vec![lit("/get")])]);
    assert_eq!(encode_of(&decl), Ok(EncodeSpec { kind: EncodeKind::Nothing, source: None }));
}

#[test]
fn the_parameters_that_nothing_takes_are_listed_in_order() {
    let args = vec![
        Arg { ident: s("user"), expr: Some(Expr::Name(s("login"))) },
        Arg { ident: s("kind"), expr: Some(Expr::Literal(Value::Text(s("all")))) },
    ];
    let slots = vec![
        Slot { name: s("authorization"), value: Source::Param(s("token")) },
        Slot { name: s("accept"), value: Source::Fixed(s("kind")) },
    ];
    let free = unbound_params(
        &names(&["login", "user", "kind", "token", "repo", "data"]),
        &names(&["user", "kind", "repo"]),
        &args,
        &slots,
    );
    assert_eq!(free, names(&["user", "kind", "data"]));
}

#[test]
fn a_malformed_response_annotation_is_found_last() {
    let decl = method(
        "get",
        &[],
        vec![attr("get", vec![lit("/get")]), attr("response", vec![lit("text")])],
    );
    assert_eq!(
        RequestTemplate::compile(&decl, Returns::Nothing),
        Err(DefinitionError::MalformedResponse)
    );
    let decl = method(
        "get",
        &[],
        vec![attr("get", vec![lit("/get")]), attr("response", vec![]), option("xml")],
    );
    assert_eq!(
        RequestTemplate::compile(&decl, Returns::Nothing),
        Err(DefinitionError::UnknownEncode(s("xml")))
    );
}

#[test]
fn malformed_headers_are_found_before_the_options() {
    let decl = method(
        "get",
        &[],
        vec![attr("get", vec![lit("/get")]), attr("headers", vec![lit("x")]), option("xml")],
    );
    assert_eq!(
        RequestTemplate::compile(&decl, Returns::Nothing),
        Err(DefinitionError::MalformedHeader)
    );
}

#[test]
fn the_url_is_the_base_with_the_path_behind_it() {
    let request = template("/post", vec![], EncodeKind::Nothing).bind("http://httpbin.org", &vec![], call(vec![]));
    assert_eq!(
        request,
        Ok(RequestDescriptor {
            verb: Verb::Post,
            url: s("http://httpbin.org/post"),
            headers: HeaderSet { entries: vec![] },
            body: Body::Empty,
        })
    );
}

#[test]
fn binding_fails_on_a_placeholder_without_a_value() {
    let request = template("/items/{id}", vec![], EncodeKind::Nothing).bind("http://h", &vec![], call(vec![]));
    assert_eq!(request, Err(BindError::UnresolvedPlaceholder(s("id"))));
}

#[test]
fn binding_fails_on_a_header_without_a_value() {
    let slots = vec![Slot { name: s("authorization"), value: Source::Param(s("token")) }];
    let request = template("/", slots, EncodeKind::Nothing).bind("http://h", &vec![], call(vec![]));
    assert_eq!(request, Err(BindError::MissingValue(s("token"))));
}

#[test]
fn binding_fails_on_a_header_value_with_a_line_break() {
    let slots = vec![Slot { name: s("authorization"), value: Source::Param(s("token")) }];
    let values = vec![passed("token", Value::Text(s("a\r\nb: c")))];
    let request = template("/", slots, EncodeKind::Nothing).bind("http://h", &vec![], call(values));
    assert_eq!(request, Err(BindError::InvalidHeaderValue(s("authorization"))));
}

#[test]
fn binding_fails_on_a_call_header_with_a_bad_name() {
    let invocation = Invocation {
        values: vec![],
        payload: Payload::Nothing,
        headers: vec![HeaderEntry { name: s("bad name"), value: s("v") }],
    };
    let request = template("/", vec![], EncodeKind::Nothing).bind("http://h", &vec![], invocation);
    assert_eq!(request, Err(BindError::InvalidHeaderName(s("bad name"))));
}

#[test]
fn binding_fails_on_a_call_header_with_a_bad_value() {
    let invocation = Invocation {
        values: vec![],
        payload: Payload::Nothing,
        headers: vec![HeaderEntry { name: s("X_Id"), value: s("a\nb") }],
    };
    let request = template("/", vec![], EncodeKind::Nothing).bind("http://h", &vec![], invocation);
    assert_eq!(request, Err(BindError::InvalidHeaderValue(s("x-id"))));
}

#[test]
fn binding_fails_on_a_payload_that_does_not_fit() {
    let invocation = Invocation { values: vec![], payload: Payload::Raw(vec![1]), headers: vec![] };
    let request = template("/", vec![], EncodeKind::Json).bind("http://h", &vec![], invocation);
    assert_eq!(request, Err(BindError::PayloadMismatch));
}

#[test]
fn the_path_is_resolved_before_the_headers_and_the_headers_before_the_payload() {
    let slots = vec![Slot { name: s("a"), value: Source::Param(s("missing")) }];
    let invocation = Invocation { values: vec![], payload: Payload::Raw(vec![1]), headers: vec![] };
    let request = template("/{id}", slots, EncodeKind::Json).bind("http://h", &vec![], invocation);
    assert_eq!(request, Err(BindError::UnresolvedPlaceholder(s("id"))));
    let slots = vec![Slot { name: s("a"), value: Source::Param(s("missing")) }];
    let invocation = Invocation { values: vec![], payload: Payload::Raw(vec![1]), headers: vec![] };
    let request = template("/", slots, EncodeKind::Json).bind("http://h", &vec![], invocation);
    assert_eq!(request, Err(BindError::MissingValue(s("missing"))));
}

#[test]
fn header_values_take_the_external_form_of_what_is_passed() {
    let slots = vec![
        Slot { name: s("x-count"), value: Source::Param(s("n")) },
        Slot { name: s("x-flag"), value: Source::Param(s("f")) },
        Slot { name: s("x-none"), value: Source::Param(s("o")) },
        Slot { name: s("x-fixed"), value: Source::Fixed(s("v")) },
    ];
    let values = vec![
        passed("n", Value::Unsigned(8)),
        passed("f", Value::Flag(false)),
        passed("o", Value::Absent),
    ];
    assert_eq!(
        entries_for(&slots, &values),
        Ok(HeaderSet {
            entries: vec![
                HeaderEntry { name: s("x-count"), value: s("8") },
                HeaderEntry { name: s("x-flag"), value: s("false") },
                HeaderEntry { name: s("x-none"), value: s("") },
                HeaderEntry { name: s("x-fixed"), value: s("v") },
            ],
        })
    );
}

#[test]
fn call_headers_are_brought_into_wire_form() {
    assert_eq!(
        overrides_for(&vec![
            HeaderEntry { name: s("Cache_Control"), value: s("no-cache") },
            HeaderEntry { name: s("cache_control"), value: s("no-store") },
        ]),
        Ok(HeaderSet {
            entries: vec![
                HeaderEntry { name: s("cache-control"), value: s("no-cache") },
                HeaderEntry { name: s("cache-control"), value: s("no-store") },
            ],
        })
    );
}

#[test]
fn a_failure_carries_the_verb_the_url_and_the_cause() {
    let request = RequestDescriptor {
        verb: Verb::Custom(s("PURGE")),
        url: s("http://h/cache"),
        headers: HeaderSet { entries: vec![] },
        body: Body::Empty,
    };
    assert_eq!(
        request.failure(Cause::Transport(s("connection refused"))),
        CallFailure {
            verb: Verb::Custom(s("PURGE")),
            url: s("http://h/cache"),
            cause: Cause::Transport(s("connection refused")),
        }
    );
    assert_eq!(request.failure(Cause::Status(503)).cause, Cause::Status(503));
    assert_eq!(
        request.failure(Cause::Decode(s("expected value"))).cause,
        Cause::Decode(s("expected value"))
    );
}
