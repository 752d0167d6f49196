use retrofit::error::DefinitionError;
use retrofit::meta::{Expr, Value};
use retrofit::request::Arg;
use retrofit::template::{bound, check, placeholders, resolve, Argument, Unresolved};

fn s(text: &str) -> String {
    text.to_string()
}

fn passed(name: &str, value: Value) -> Argument {
    Argument { name: s(name), value }
}

fn text(name: &str, value: &str) -> Argument {
    passed(name, Value::Text(s(value)))
}

fn bare(name: &str) -> Arg {
    Arg { ident: s(name), expr: None }
}

fn renamed(name: &str, param: &str) -> Arg {
    Arg { ident: s(name), expr: Some(Expr::Name(s(param))) }
}

fn fixed(name: &str, value: Value) -> Arg {
    Arg { ident: s(name), expr: Some(Expr::Literal(value)) }
}

#[test]
fn resolve_replaces_a_placeholder_by_the_parameter_of_its_name() {
    let r = resolve("/users/{username}/repos", &vec![], &vec![text("username", "octo")]);
    assert_eq!(r, Ok(s("/users/octo/repos")));
}

#[test]
fn resolve_replaces_every_occurrence() {
    let r = resolve("/{x}/a/{x}/{x}", &vec![], &vec![text("x", "v")]);
    assert_eq!(r, Ok(s("/v/a/v/v")));
}

#[test]
fn resolve_leaves_a_plain_template_as_it_is() {
    let r = resolve("/base64/value", &vec![], &vec![]);
    assert_eq!(r, Ok(s("/base64/value")));
}

#[test]
fn resolve_of_the_empty_template_is_empty() {
    assert_eq!(resolve("", &vec![], &vec![]), Ok(s("")));
}

#[test]
fn resolve_fails_on_the_leftmost_unbound_placeholder() {
    let r = resolve("/{a}/{b}/{c}", &vec![], &vec![text("a", "1")]);
    assert_eq!(r, Err(Unresolved { name: s("b") }));
}

#[test]
fn resolve_fails_where_the_only_placeholder_is_unbound() {
    let r = resolve("/users/{username}", &vec![], &vec![]);
    assert_eq!(r, Err(Unresolved { name: s("username") }));
}

#[test]
fn resolve_ignores_a_format_behind_a_colon() {
    let r = resolve("/bytes/{len:>5}/x", &vec![], &vec![passed("len", Value::Unsigned(8))]);
    assert_eq!(r, Ok(s("/bytes/8/x")));
}

#[test]
fn resolve_does_not_escape_the_value() {
    let r = resolve("/q/{term}", &vec![], &vec![text("term", "a b/c?d")]);
    assert_eq!(r, Ok(s("/q/a b/c?d")));
}

#[test]
fn resolve_keeps_braces_that_hold_no_name() {
    let values = vec![text("x", "v")];
    assert_eq!(resolve("/a/{}/b", &vec![], &values), Ok(s("/a/{}/b")));
    assert_eq!(resolve("/a/{x", &vec![], &values), Ok(s("/a/{x")));
    assert_eq!(resolve("/a/{x y}", &vec![], &values), Ok(s("/a/{x y}")));
    assert_eq!(resolve("/a/{x:y", &vec![], &values), Ok(s("/a/{x:y")));
    assert_eq!(resolve("/a/{{x}}", &vec![], &values), Ok(s("/a/{v}")));
    assert_eq!(resolve("x}", &vec![], &values), Ok(s("x}")));
}

#[test]
fn resolve_prefers_a_declared_argument_to_a_parameter() {
    let args = vec![fixed("kind", Value::Text(s("public")))];
    let values = vec![text("kind", "private")];
    assert_eq!(resolve("/repos/{kind}", &args, &values), Ok(s("/repos/public")));
}

#[test]
fn resolve_follows_a_declared_argument_to_its_parameter() {
    let args = vec![renamed("user", "login")];
    let values = vec![text("login", "octo"), text("user", "other")];
    assert_eq!(resolve("/users/{user}", &args, &values), Ok(s("/users/octo")));
}

#[test]
fn resolve_takes_a_bare_argument_for_the_parameter_of_its_name() {
    let args = vec![bare("user")];
    let values = vec![text("user", "octo")];
    assert_eq!(resolve("/users/{user}", &args, &values), Ok(s("/users/octo")));
}

#[test]
fn resolve_fails_where_the_argument_refers_to_a_value_not_passed() {
    let args = vec![renamed("user", "login")];
    let values = vec![text("user", "octo")];
    assert_eq!(
        resolve("/users/{user}", &args, &values),
        Err(Unresolved { name: s("user") })
    );
}

#[test]
fn resolve_takes_the_first_value_passed_under_a_name() {
    let values = vec![text("x", "first"), text("x", "second")];
    assert_eq!(resolve("{x}", &vec![], &values), Ok(s("first")));
}

#[test]
fn an_absent_value_resolves_to_the_empty_text() {
    let r = resolve("/a/{opt}/b", &vec![], &vec![passed("opt", Value::Absent)]);
    assert_eq!(r, Ok(s("/a//b")));
}

#[test]
fn numbers_and_flags_resolve_to_their_external_form() {
    let values = vec![
        passed("n", Value::Unsigned(640000)),
        passed("i", Value::Signed(-42)),
        passed("b", Value::Flag(true)),
    ];
    assert_eq!(resolve("/{n}/{i}/{b}", &vec![], &values), Ok(s("/640000/-42/true")));
}

#[test]
fn external_forms_are_exact() {
    assert_eq!(Value::Unsigned(0).external(), "0");
    assert_eq!(Value::Unsigned(9).external(), "9");
    assert_eq!(Value::Unsigned(10).external(), "10");
    assert_eq!(Value::Unsigned(u64::MAX).external(), "18446744073709551615");
    assert_eq!(Value::Signed(0).external(), "0");
    assert_eq!(Value::Signed(i64::MAX).external(), "9223372036854775807");
    assert_eq!(Value::Signed(i64::MIN).external(), "-9223372036854775808");
    assert_eq!(Value::Signed(-1).external(), "-1");
    assert_eq!(Value::Flag(false).external(), "false");
    assert_eq!(Value::Flag(true).external(), "true");
    assert_eq!(Value::Absent.external(), "");
    assert_eq!(Value::Text(s("as is")).external(), "as is");
}

#[test]
fn bound_gives_nothing_for_a_call_expression() {
    let args = vec![Arg {
        ident: s("x"),
        expr: Some(Expr::Call { name: s("f"), args: vec![] }),
    }];
    assert_eq!(bound(&args, &vec![text("x", "v")], "x"), None);
}

#[test]
fn placeholders_lists_each_name_once_in_order_of_first_occurrence() {
    assert_eq!(
        placeholders("/{b}/{a}/{b}/{c:x}/{a}"),
        vec![s("b"), s("a"), s("c")]
    );
    assert_eq!(placeholders("/plain"), Vec::<String>::new());
}

#[test]
fn check_accepts_a_placeholder_that_a_parameter_resolves() {
    assert_eq!(check("/users/{username}/repos", &vec![], &vec![s("username")]), Ok(()));
}

#[test]
fn check_accepts_a_placeholder_that_a_literal_resolves() {
    let args = vec![fixed("v", Value::Unsigned(3))];
    assert_eq!(check("/api/v{v}", &args, &vec![]), Ok(()));
}

#[test]
fn check_rejects_an_unresolved_placeholder() {
    assert_eq!(
        check("/users/{username}/repos/{repo}", &vec![], &vec![s("username")]),
        Err(DefinitionError::UnresolvedPlaceholder(s("repo")))
    );
}

#[test]
fn check_rejects_an_argument_that_refers_to_no_parameter() {
    let args = vec![renamed("user", "login")];
    assert_eq!(
        check("/users/{user}", &args, &vec![s("user")]),
        Err(DefinitionError::UnresolvedPlaceholder(s("user")))
    );
}

#[test]
fn check_rejects_two_arguments_for_one_placeholder() {
    let args = vec![renamed("user", "a"), renamed("user", "b")];
    assert_eq!(
        check("/users/{user}", &args, &vec![s("a"), s("b")]),
        Err(DefinitionError::AmbiguousPlaceholder(s("user")))
    );
}

#[test]
fn check_allows_an_argument_beside_a_parameter_of_its_name() {
    let args = vec![fixed("user", Value::Text(s("octo")))];
    assert_eq!(check("/users/{user}", &args, &vec![s("user")]), Ok(()));
}

#[test]
fn check_reports_the_leftmost_fault() {
    let args = vec![bare("b"), bare("b")];
    assert_eq!(
        check("/{a}/{b}", &args, &vec![s("b")]),
        Err(DefinitionError::UnresolvedPlaceholder(s("a")))
    );
}
