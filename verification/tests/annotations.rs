use retrofit::error::DefinitionError;
use retrofit::meta::{Attribute, Entry, Expr, Interface, Member, MethodDecl, ReturnType, Signature, Value};

fn s(text: &str) -> String {
    text.to_string()
}

fn lit(value: &str) -> Entry {
    Entry::Bare(Expr::Literal(Value::Text(s(value))))
}

fn name(value: &str) -> Entry {
    Entry::Bare(Expr::Name(s(value)))
}

fn assign(key: &str, value: &str) -> Entry {
    Entry::Assign { name: s(key), value: Expr::Literal(Value::Text(s(value))) }
}

fn decl() -> MethodDecl {
    MethodDecl {
        attrs: vec![Attribute { path: vec![s("get")], entries: vec![lit("/ip")] }],
        sig: Signature { ident: s("ip"), params: vec![], output: ReturnType::Default },
        provided: false,
    }
}

fn item() -> Interface {
    Interface {
        attrs: vec![],
        ident: s("HttpBin"),
        supertraits: vec![],
        items: vec![Member::Method(decl())],
    }
}

#[test]
fn a_verb_annotation_with_a_path_hands_the_method_back() {
    assert_eq!(retrofit::get(&vec![lit("/get")], decl()), Ok(decl()));
    assert_eq!(retrofit::head(&vec![lit("/")], decl()), Ok(decl()));
    assert_eq!(retrofit::post(&vec![lit("/post")], decl()), Ok(decl()));
    assert_eq!(retrofit::put(&vec![lit("/put")], decl()), Ok(decl()));
    assert_eq!(retrofit::patch(&vec![lit("/patch")], decl()), Ok(decl()));
    assert_eq!(retrofit::delete(&vec![lit("/delete")], decl()), Ok(decl()));
    assert_eq!(retrofit::trace(&vec![lit("/")], decl()), Ok(decl()));
    assert_eq!(retrofit::options(&vec![lit("/")], decl()), Ok(decl()));
}

#[test]
fn a_verb_annotation_without_a_path_is_rejected() {
    let bad = Err(DefinitionError::MalformedPath);
    assert_eq!(retrofit::get(&vec![], decl()), bad);
    assert_eq!(retrofit::head(&vec![name("x")], decl()), bad);
    assert_eq!(retrofit::post(&vec![lit("/a"), lit("/b")], decl()), bad);
    assert_eq!(retrofit::put(&vec![assign("a", "b")], decl()), bad);
    assert_eq!(retrofit::patch(&vec![], decl()), bad);
    assert_eq!(retrofit::delete(&vec![], decl()), bad);
    assert_eq!(retrofit::trace(&vec![], decl()), bad);
    assert_eq!(retrofit::options(&vec![], decl()), bad);
}

#[test]
fn the_custom_verb_annotation_is_checked() {
    let custom = Entry::Bare(Expr::Call { name: s("custom"), args: vec![Value::Text(s("/c"))] });
    assert_eq!(retrofit::http(&vec![custom], decl()), Ok(decl()));
    assert_eq!(retrofit::http(&vec![lit("/c")], decl()), Err(DefinitionError::MalformedVerb));
}

#[test]
fn the_annotations_of_arguments_are_checked() {
    assert_eq!(retrofit::args(&vec![name("a"), assign("b", "c")], decl()), Ok(decl()));
    assert_eq!(retrofit::args(&vec![lit("a")], decl()), Err(DefinitionError::MalformedArg));
    assert_eq!(retrofit::request(&vec![name("query")], decl()), Ok(decl()));
    assert_eq!(retrofit::request(&vec![lit("query")], decl()), Err(DefinitionError::MalformedArg));
    assert_eq!(retrofit::client(&vec![assign("user_agent", "x")], item()), Ok(item()));
    assert_eq!(retrofit::client(&vec![lit("x")], item()), Err(DefinitionError::MalformedArg));
}

#[test]
fn the_annotations_of_headers_are_checked() {
    assert_eq!(retrofit::headers(&vec![assign("accept", "a/b")], decl()), Ok(decl()));
    assert_eq!(retrofit::headers(&vec![name("accept")], decl()), Err(DefinitionError::MalformedHeader));
    assert_eq!(retrofit::default_headers(&vec![assign("accept", "a/b")], item()), Ok(item()));
    assert_eq!(
        retrofit::default_headers(&vec![name("accept")], item()),
        Err(DefinitionError::MalformedHeader)
    );
}

#[test]
fn the_response_annotation_is_checked() {
    let text = Entry::Bare(Expr::Call { name: s("text"), args: vec![] });
    assert_eq!(retrofit::response(&vec![text], decl()), Ok(decl()));
    assert_eq!(retrofit::response(&vec![], decl()), Err(DefinitionError::MalformedResponse));
}

#[test]
fn the_service_annotation_compiles_the_interface() {
    let definition = retrofit::service(&vec![assign("base_url", "http://httpbin.org")], item()).unwrap();
    assert_eq!(definition.name, "HttpBin");
    assert_eq!(definition.factory, "http_bin");
    assert_eq!(definition.client_name, "HttpBinClient");
    assert_eq!(definition.base_url, Some(s("http://httpbin.org")));
    assert_eq!(definition.methods.len(), 1);
    assert_eq!(definition.methods[0].path, "/ip");
}

#[test]
fn a_malformed_service_annotation_is_found_first() {
    assert_eq!(retrofit::service(&vec![lit("x")], item()), Err(DefinitionError::MalformedArg));
}
