//! Verbs, declared arguments, and the request that a method's annotations
//! describe.

use vstd::prelude::*;

use crate::error::{DefinitionError, DefinitionErrorView};
use crate::text::same_text;
use crate::meta::{
    path_names, views, Attribute, AttributeView, Entry, EntryView, Expr, ExprView, MethodDecl,
    MethodDeclView, Value, ValueView,
};

verus! {

/// The HTTP verb of a request: one of the eight common ones, or a custom
/// token.
#[derive(Debug, PartialEq, Eq)]
pub enum Verb {
    Get,
    Head,
    Post,
    Put,
    Patch,
    Delete,
    Trace,
    Options,
    Custom(String),
}

pub enum VerbView {
    Get,
    Head,
    Post,
    Put,
    Patch,
    Delete,
    Trace,
    Options,
    Custom(Seq<char>),
}

impl View for Verb {
    type V = VerbView;

    open spec fn view(&self) -> VerbView {
        match self {
            Verb::Get => VerbView::Get,
            Verb::Head => VerbView::Head,
            Verb::Post => VerbView::Post,
            Verb::Put => VerbView::Put,
            Verb::Patch => VerbView::Patch,
            Verb::Delete => VerbView::Delete,
            Verb::Trace => VerbView::Trace,
            Verb::Options => VerbView::Options,
            Verb::Custom(t) => VerbView::Custom(t@),
        }
    }
}

impl Clone for Verb {
    fn clone(&self) -> (r: Self)
        ensures
            r@ == self@,
    {
        match self {
            Verb::Get => Verb::Get,
            Verb::Head => Verb::Head,
            Verb::Post => Verb::Post,
            Verb::Put => Verb::Put,
            Verb::Patch => Verb::Patch,
            Verb::Delete => Verb::Delete,
            Verb::Trace => Verb::Trace,
            Verb::Options => Verb::Options,
            Verb::Custom(t) => Verb::Custom(t.clone()),
        }
    }
}

/// The token that stands for a verb on the wire.
pub open spec fn verb_token(verb: VerbView) -> Seq<char> {
    match verb {
        VerbView::Get => "GET"@,
        VerbView::Head => "HEAD"@,
        VerbView::Post => "POST"@,
        VerbView::Put => "PUT"@,
        VerbView::Patch => "PATCH"@,
        VerbView::Delete => "DELETE"@,
        VerbView::Trace => "TRACE"@,
        VerbView::Options => "OPTIONS"@,
        VerbView::Custom(t) => t,
    }
}

impl Verb {
    /// The token that stands for this verb on the wire.
    pub fn token(&self) -> (r: String)
        ensures
            r@ == verb_token(self@),
    {
        match self {
            Verb::Get => "GET".to_owned(),
            Verb::Head => "HEAD".to_owned(),
            Verb::Post => "POST".to_owned(),
            Verb::Put => "PUT".to_owned(),
            Verb::Patch => "PATCH".to_owned(),
            Verb::Delete => "DELETE".to_owned(),
            Verb::Trace => "TRACE".to_owned(),
            Verb::Options => "OPTIONS".to_owned(),
            Verb::Custom(t) => t.clone(),
        }
    }
}

/// A character that a method token may hold.
pub open spec fn is_method_char(c: char) -> bool {
    ||| c == '!'
    ||| c == '*'
    ||| c == '+'
    ||| c == '-'
    ||| c == '.'
    ||| ('0' <= c && c <= '9')
    ||| ('A' <= c && c <= 'Z')
    ||| c == '^'
    ||| c == '_'
    ||| c == '`'
    ||| ('a' <= c && c <= 'z')
    ||| c == '|'
    ||| c == '~'
}

/// A method token: one character or more, each of them a method character.
pub open spec fn is_method_token(token: Seq<char>) -> bool {
    &&& token.len() > 0
    &&& forall|i: int| 0 <= i < token.len() ==> is_method_char(#[trigger] token[i])
}

/// The verb that a token stands for, if it is a method token.
pub open spec fn verb_of_token(token: Seq<char>) -> Option<VerbView> {
    if !is_method_token(token) {
        None
    } else if token == "GET"@ {
        Some(VerbView::Get)
    } else if token == "HEAD"@ {
        Some(VerbView::Head)
    } else if token == "POST"@ {
        Some(VerbView::Post)
    } else if token == "PUT"@ {
        Some(VerbView::Put)
    } else if token == "PATCH"@ {
        Some(VerbView::Patch)
    } else if token == "DELETE"@ {
        Some(VerbView::Delete)
    } else if token == "TRACE"@ {
        Some(VerbView::Trace)
    } else if token == "OPTIONS"@ {
        Some(VerbView::Options)
    } else {
        Some(VerbView::Custom(token))
    }
}

/// Whether a token is that of one of the eight common verbs.
pub open spec fn is_common_token(token: Seq<char>) -> bool {
    ||| token == "GET"@
    ||| token == "HEAD"@
    ||| token == "POST"@
    ||| token == "PUT"@
    ||| token == "PATCH"@
    ||| token == "DELETE"@
    ||| token == "TRACE"@
    ||| token == "OPTIONS"@
}

impl VerbView {
    /// A custom verb holds a method token that is not the token of a
    /// common verb.
    pub open spec fn well_formed(self) -> bool {
        match self {
            VerbView::Custom(token) => is_method_token(token) && !is_common_token(token),
            _ => true,
        }
    }
}

/// The tokens of the common verbs are method tokens, each different from
/// the others.
pub proof fn lemma_common_tokens()
    ensures
        is_method_token("GET"@),
        is_method_token("HEAD"@),
        is_method_token("POST"@),
        is_method_token("PUT"@),
        is_method_token("PATCH"@),
        is_method_token("DELETE"@),
        is_method_token("TRACE"@),
        is_method_token("OPTIONS"@),
        "GET"@.len() == 3 && "GET"@[0] == 'G',
        "PUT"@.len() == 3 && "PUT"@[0] == 'P',
        "HEAD"@.len() == 4 && "HEAD"@[0] == 'H',
        "POST"@.len() == 4 && "POST"@[0] == 'P',
        "PATCH"@.len() == 5 && "PATCH"@[0] == 'P',
        "TRACE"@.len() == 5 && "TRACE"@[0] == 'T',
        "DELETE"@.len() == 6,
        "OPTIONS"@.len() == 7,
{
    reveal_strlit("GET");
    reveal_strlit("HEAD");
    reveal_strlit("POST");
    reveal_strlit("PUT");
    reveal_strlit("PATCH");
    reveal_strlit("DELETE");
    reveal_strlit("TRACE");
    reveal_strlit("OPTIONS");
}

/// A verb that was read from a token is well formed, and its own token is
/// the one it was read from.
pub proof fn lemma_verb_of_token(token: Seq<char>)
    ensures
        verb_of_token(token) matches Some(verb) ==> verb.well_formed() && verb_token(verb)
            == token,
{
}

/// To write a well-formed verb as its token and to read the token back
/// gives the verb again.
pub proof fn law_verb_token_round_trip(verb: VerbView)
    requires
        verb.well_formed(),
    ensures
        verb_of_token(verb_token(verb)) == Some(verb),
{
    lemma_common_tokens();
}

/// The error of `http::Method::from_bytes`.
#[verifier::external_type_specification]
#[verifier::external_body]
pub struct ExInvalidMethod(http::method::InvalidMethod);

/// The upper-case form that std gives a text.
pub uninterp spec fn uppercased(text: Seq<char>) -> Seq<char>;

/// Calls `str::to_uppercase` of std, which maps a text to its upper-case
/// equivalent by Unicode's rules. The result is a function of the text
/// alone; nothing else is claimed of it.
#[verifier::external_body]
fn to_uppercase(text: &str) -> (r: String)
    ensures
        r@ == uppercased(text@),
{
    text.to_uppercase()
}

/// Calls `http::Method::from_bytes` on the text's bytes and hands back the
/// method's own text. The call accepts exactly the texts of one character or
/// more whose characters all stand in its table of method characters, and
/// the accepted method reads as the text it was made from.
#[verifier::external_body]
fn method_from_text(token: &str) -> (r: Result<String, http::method::InvalidMethod>)
    ensures
        r is Ok <==> is_method_token(token@),
        r matches Ok(t) ==> t@ == token@,
{
    http::Method::from_bytes(token.as_bytes()).map(|m| m.as_str().to_string())
}

/// A custom verb was declared with a token that is no method token.
#[derive(Debug, PartialEq, Eq)]
pub struct InvalidVerb;

impl Verb {
    /// The verb that an upper-case token stands for.
    pub fn from_token(token: &str) -> (r: Result<Verb, InvalidVerb>)
        ensures
            r is Ok <==> verb_of_token(token@) is Some,
            r matches Ok(v) ==> verb_of_token(token@) == Some(v@),
    {
        match method_from_text(token) {
            Err(_) => Err(InvalidVerb),
            Ok(t) => {
                if same_text(t.as_str(), "GET") {
                    Ok(Verb::Get)
                } else if same_text(t.as_str(), "HEAD") {
                    Ok(Verb::Head)
                } else if same_text(t.as_str(), "POST") {
                    Ok(Verb::Post)
                } else if same_text(t.as_str(), "PUT") {
                    Ok(Verb::Put)
                } else if same_text(t.as_str(), "PATCH") {
                    Ok(Verb::Patch)
                } else if same_text(t.as_str(), "DELETE") {
                    Ok(Verb::Delete)
                } else if same_text(t.as_str(), "TRACE") {
                    Ok(Verb::Trace)
                } else if same_text(t.as_str(), "OPTIONS") {
                    Ok(Verb::Options)
                } else {
                    Ok(Verb::Custom(t))
                }
            },
        }
    }
}

/// The views of a result's two sides.
pub open spec fn view_result<T: View, E: View>(r: Result<T, E>) -> Result<T::V, E::V> {
    match r {
        Ok(t) => Ok(t@),
        Err(e) => Err(e@),
    }
}

/// The views of a result whose success is a list.
pub open spec fn view_results<T: View, E: View>(r: Result<Vec<T>, E>) -> Result<Seq<T::V>, E::V> {
    match r {
        Ok(t) => Ok(views(t@)),
        Err(e) => Err(e@),
    }
}

/// A declared argument: a name, and the expression bound to it, if any.
/// Without an expression the name stands for the parameter of that name.
#[derive(Debug, PartialEq, Eq)]
pub struct Arg {
    pub ident: String,
    pub expr: Option<Expr>,
}

pub struct ArgView {
    pub ident: Seq<char>,
    pub expr: Option<ExprView>,
}

impl View for Arg {
    type V = ArgView;

    open spec fn view(&self) -> ArgView {
        ArgView {
            ident: self.ident@,
            expr: match self.expr {
                Some(e) => Some(e@),
                None => None,
            },
        }
    }
}

impl Clone for Arg {
    fn clone(&self) -> (r: Self)
        ensures
            r@ == self@,
    {
        Arg {
            ident: self.ident.clone(),
            expr: match &self.expr {
                Some(e) => Some(e.clone()),
                None => None,
            },
        }
    }
}

/// The argument that an entry declares: `name` or `name = expression`.
pub open spec fn parse_arg(entry: EntryView) -> Result<ArgView, DefinitionErrorView> {
    match entry {
        EntryView::Bare(ExprView::Name(n)) => Ok(ArgView { ident: n, expr: None }),
        EntryView::Assign { name, value } => Ok(ArgView { ident: name, expr: Some(value) }),
        _ => Err(DefinitionErrorView::MalformedArg),
    }
}

/// The arguments that a list of entries declares, in order; the error of
/// the first entry that declares none.
pub open spec fn parse_args(entries: Seq<EntryView>) -> Result<Seq<ArgView>, DefinitionErrorView>
    decreases entries.len(),
{
    if entries.len() == 0 {
        Ok(Seq::empty())
    } else {
        match parse_args(entries.drop_last()) {
            Err(e) => Err(e),
            Ok(init) => match parse_arg(entries.last()) {
                Err(e) => Err(e),
                Ok(arg) => Ok(init.push(arg)),
            },
        }
    }
}

/// The arguments declared by the annotations called `name`, in order of
/// declaration; the error of the first such annotation that is malformed.
pub open spec fn extract_args(name: Seq<char>, attrs: Seq<AttributeView>) -> Result<
    Seq<ArgView>,
    DefinitionErrorView,
>
    decreases attrs.len(),
{
    if attrs.len() == 0 {
        Ok(Seq::empty())
    } else {
        match extract_args(name, attrs.drop_last()) {
            Err(e) => Err(e),
            Ok(init) => if path_names(attrs.last().path, name) {
                match parse_args(attrs.last().entries) {
                    Err(e) => Err(e),
                    Ok(more) => Ok(init + more),
                }
            } else {
                Ok(init)
            },
        }
    }
}

impl Arg {
    /// Reads one entry as a declared argument.
    pub fn parse(entry: &Entry) -> (r: Result<Arg, DefinitionError>)
        ensures
            view_result(r) == parse_arg(entry@),
    {
        match entry {
            Entry::Bare(Expr::Name(n)) => Ok(Arg { ident: n.clone(), expr: None }),
            Entry::Assign { name, value } => Ok(
                Arg { ident: name.clone(), expr: Some(value.clone()) },
            ),
            _ => Err(DefinitionError::MalformedArg),
        }
    }
}

/// A list of declared arguments.
#[derive(Debug, PartialEq, Eq)]
pub struct Args(pub Vec<Arg>);

impl View for Args {
    type V = Seq<ArgView>;

    open spec fn view(&self) -> Seq<ArgView> {
        views(self.0@)
    }
}

impl Args {
    /// Reads the entries of one annotation as declared arguments.
    pub fn parse(entries: &Vec<Entry>) -> (r: Result<Args, DefinitionError>)
        ensures
            view_result(r) == parse_args(views(entries@)),
    {
        let mut args: Vec<Arg> = Vec::new();
        let mut i: usize = 0;
        let ghost all = views(entries@);
        proof {
            assert(views(args@) == Seq::<ArgView>::empty());
        }
        while i < entries.len()
            invariant
                i <= entries.len(),
                all == views(entries@),
                parse_args(all.take(i as int)) == Ok::<Seq<ArgView>, DefinitionErrorView>(
                    views(args@),
                ),
            decreases entries.len() - i,
        {
            proof {
                assert(all.take(i + 1).drop_last() == all.take(i as int));
                assert(all.take(i + 1).last() == entries@[i as int]@);
            }
            match Arg::parse(&entries[i]) {
                Err(e) => {
                    proof {
                        lemma_parse_args_fails(all, i + 1);
                    }
                    return Err(e);
                },
                Ok(arg) => {
                    proof {
                        assert(views(args@.push(arg)) == views(args@).push(arg@));
                    }
                    args.push(arg);
                },
            }
            i += 1;
        }
        proof {
            assert(all.take(i as int) == all);
        }
        Ok(Args(args))
    }

    /// Collects the arguments declared by the annotations called `name`.
    pub fn extract(name: &str, attrs: &Vec<Attribute>) -> (r: Result<Vec<Arg>, DefinitionError>)
        ensures
            view_results(r) == extract_args(name@, views(attrs@)),
    {
        let mut found: Vec<Arg> = Vec::new();
        let mut i: usize = 0;
        let ghost all = views(attrs@);
        proof {
            assert(views(found@) == Seq::<ArgView>::empty());
        }
        while i < attrs.len()
            invariant
                i <= attrs.len(),
                all == views(attrs@),
                extract_args(name@, all.take(i as int)) == Ok::<
                    Seq<ArgView>,
                    DefinitionErrorView,
                >(views(found@)),
            decreases attrs.len() - i,
        {
            proof {
                assert(all.take(i + 1).drop_last() == all.take(i as int));
                assert(all.take(i + 1).last() == attrs@[i as int]@);
            }
            if attrs[i].is_named(name) {
                match Args::parse(&attrs[i].entries) {
                    Err(e) => {
                        proof {
                            lemma_extract_args_fails(name@, all, i + 1);
                        }
                        return Err(e);
                    },
                    Ok(more) => {
                        let ghost before = views(found@);
                        let mut more = more.0;
                        let ghost added = views(more@);
                        found.append(&mut more);
                        proof {
                            assert(views(found@) == before + added);
                        }
                    },
                }
            }
            i += 1;
        }
        proof {
            assert(all.take(i as int) == all);
        }
        Ok(found)
    }
}

/// Once a prefix of the entries fails, the whole list fails in the same way.
pub proof fn lemma_parse_args_fails(entries: Seq<EntryView>, n: int)
    requires
        0 <= n <= entries.len(),
        parse_args(entries.take(n)) is Err,
    ensures
        parse_args(entries) == parse_args(entries.take(n)),
    decreases entries.len() - n,
{
    if n == entries.len() {
        assert(entries.take(n) == entries);
    } else {
        assert(entries.take(n + 1).drop_last() == entries.take(n));
        lemma_parse_args_fails(entries, n + 1);
    }
}

/// Once a prefix of the annotations fails, the whole list fails in the same
/// way.
pub proof fn lemma_extract_args_fails(name: Seq<char>, attrs: Seq<AttributeView>, n: int)
    requires
        0 <= n <= attrs.len(),
        extract_args(name, attrs.take(n)) is Err,
    ensures
        extract_args(name, attrs) == extract_args(name, attrs.take(n)),
    decreases attrs.len() - n,
{
    if n == attrs.len() {
        assert(attrs.take(n) == attrs);
    } else {
        assert(attrs.take(n + 1).drop_last() == attrs.take(n));
        lemma_extract_args_fails(name, attrs, n + 1);
    }
}

/// The one text literal that stands between the parentheses of a verb
/// annotation: the path template.
pub open spec fn parse_path(entries: Seq<EntryView>) -> Result<Seq<char>, DefinitionErrorView> {
    if entries.len() == 1 {
        match entries[0] {
            EntryView::Bare(ExprView::Literal(ValueView::Text(path))) => Ok(path),
            _ => Err(DefinitionErrorView::MalformedPath),
        }
    } else {
        Err(DefinitionErrorView::MalformedPath)
    }
}

/// Reads the entries of a verb annotation as a path template.
pub fn path_literal(entries: &Vec<Entry>) -> (r: Result<String, DefinitionError>)
    ensures
        view_result(r) == parse_path(views(entries@)),
{
    if entries.len() == 1 {
        assert(views(entries@)[0] == entries@[0]@);
        match &entries[0] {
            Entry::Bare(Expr::Literal(Value::Text(path))) => Ok(path.clone()),
            _ => Err(DefinitionError::MalformedPath),
        }
    } else {
        Err(DefinitionError::MalformedPath)
    }
}

/// A custom verb as declared: the token as written, and the path template.
#[derive(Debug, PartialEq, Eq)]
pub struct Http {
    pub method: String,
    pub path: String,
}

pub struct HttpView {
    pub method: Seq<char>,
    pub path: Seq<char>,
}

impl View for Http {
    type V = HttpView;

    open spec fn view(&self) -> HttpView {
        HttpView { method: self.method@, path: self.path@ }
    }
}

/// The custom verb that a list of entries declares: `token("path")`.
pub open spec fn parse_http(entries: Seq<EntryView>) -> Result<HttpView, DefinitionErrorView> {
    if entries.len() == 1 {
        match entries[0] {
            EntryView::Bare(ExprView::Call { name, args }) => if args.len() == 1 {
                match args[0] {
                    ValueView::Text(path) => Ok(HttpView { method: name, path }),
                    _ => Err(DefinitionErrorView::MalformedVerb),
                }
            } else {
                Err(DefinitionErrorView::MalformedVerb)
            },
            _ => Err(DefinitionErrorView::MalformedVerb),
        }
    } else {
        Err(DefinitionErrorView::MalformedVerb)
    }
}

impl Http {
    /// Reads the entries of a custom verb annotation.
    pub fn parse(entries: &Vec<Entry>) -> (r: Result<Http, DefinitionError>)
        ensures
            view_result(r) == parse_http(views(entries@)),
    {
        if entries.len() == 1 {
            assert(views(entries@)[0] == entries@[0]@);
            match &entries[0] {
                Entry::Bare(Expr::Call { name, args }) => {
                    if args.len() == 1 {
                        assert(views(args@)[0] == args@[0]@);
                        match &args[0] {
                            Value::Text(path) => Ok(
                                Http { method: name.clone(), path: path.clone() },
                            ),
                            _ => Err(DefinitionError::MalformedVerb),
                        }
                    } else {
                        Err(DefinitionError::MalformedVerb)
                    }
                },
                _ => Err(DefinitionError::MalformedVerb),
            }
        } else {
            Err(DefinitionError::MalformedVerb)
        }
    }

    /// The verb that the declared token stands for, once in upper case.
    pub fn method(&self) -> (r: Result<Verb, InvalidVerb>)
        ensures
            r is Ok <==> verb_of_token(uppercased(self.method@)) is Some,
            r matches Ok(v) ==> verb_of_token(uppercased(self.method@)) == Some(v@),
    {
        let upper = to_uppercase(self.method.as_str());
        Verb::from_token(upper.as_str())
    }
}

/// What a method's annotations say of its request: the verb, the path
/// template and the declared arguments.
#[derive(Debug, PartialEq, Eq)]
pub struct Request {
    pub method: Verb,
    pub path: String,
    pub args: Vec<Arg>,
}

pub struct RequestView {
    pub method: VerbView,
    pub path: Seq<char>,
    pub args: Seq<ArgView>,
}

impl View for Request {
    type V = RequestView;

    open spec fn view(&self) -> RequestView {
        RequestView { method: self.method@, path: self.path@, args: views(self.args@) }
    }
}

/// The common verb that an annotation's path names, if it names one.
pub open spec fn standard_verb(path: Seq<Seq<char>>) -> Option<VerbView> {
    if path_names(path, "get"@) {
        Some(VerbView::Get)
    } else if path_names(path, "head"@) {
        Some(VerbView::Head)
    } else if path_names(path, "post"@) {
        Some(VerbView::Post)
    } else if path_names(path, "put"@) {
        Some(VerbView::Put)
    } else if path_names(path, "patch"@) {
        Some(VerbView::Patch)
    } else if path_names(path, "delete"@) {
        Some(VerbView::Delete)
    } else if path_names(path, "trace"@) {
        Some(VerbView::Trace)
    } else if path_names(path, "options"@) {
        Some(VerbView::Options)
    } else {
        None
    }
}

/// Whether an annotation declares a verb, common or custom.
pub open spec fn is_verb_annotation(attr: AttributeView) -> bool {
    standard_verb(attr.path) is Some || path_names(attr.path, "http"@)
}

/// The positions of the verb annotations among a method's annotations, in
/// rising order.
pub open spec fn verb_positions(attrs: Seq<AttributeView>) -> Seq<int>
    decreases attrs.len(),
{
    if attrs.len() == 0 {
        Seq::empty()
    } else if is_verb_annotation(attrs.last()) {
        verb_positions(attrs.drop_last()).push(attrs.len() - 1)
    } else {
        verb_positions(attrs.drop_last())
    }
}

/// The request that one verb annotation declares, with the given arguments.
pub open spec fn request_of_annotation(attr: AttributeView, args: Seq<ArgView>) -> Result<
    RequestView,
    DefinitionErrorView,
> {
    match standard_verb(attr.path) {
        Some(verb) => match parse_path(attr.entries) {
            Err(e) => Err(e),
            Ok(path) => Ok(RequestView { method: verb, path, args }),
        },
        None => match parse_http(attr.entries) {
            Err(e) => Err(e),
            Ok(http) => match verb_of_token(uppercased(http.method)) {
                None => Err(DefinitionErrorView::InvalidMethod(http.method)),
                Some(verb) => Ok(RequestView { method: verb, path: http.path, args }),
            },
        },
    }
}

/// The request that a method's annotations declare. The arguments are
/// read first; then the method must bear exactly one verb annotation, and
/// that one must be well formed.
pub open spec fn extract_request(method: MethodDeclView) -> Result<
    RequestView,
    DefinitionErrorView,
> {
    match extract_args("args"@, method.attrs) {
        Err(e) => Err(e),
        Ok(args) => {
            let at = verb_positions(method.attrs);
            if at.len() == 0 {
                Err(DefinitionErrorView::MissingVerb(method.sig.ident))
            } else if at.len() > 1 {
                Err(DefinitionErrorView::ConflictingVerb(method.sig.ident))
            } else {
                request_of_annotation(method.attrs[at[0]], args)
            }
        },
    }
}

/// The common verb that an annotation names, if it names one.
fn standard_verb_of(attr: &Attribute) -> (r: Option<Verb>)
    ensures
        r is Some <==> standard_verb(attr@.path) is Some,
        r matches Some(v) ==> standard_verb(attr@.path) == Some(v@),
{
    if attr.is_named("get") {
        Some(Verb::Get)
    } else if attr.is_named("head") {
        Some(Verb::Head)
    } else if attr.is_named("post") {
        Some(Verb::Post)
    } else if attr.is_named("put") {
        Some(Verb::Put)
    } else if attr.is_named("patch") {
        Some(Verb::Patch)
    } else if attr.is_named("delete") {
        Some(Verb::Delete)
    } else if attr.is_named("trace") {
        Some(Verb::Trace)
    } else if attr.is_named("options") {
        Some(Verb::Options)
    } else {
        None
    }
}

impl Request {
    /// Reads a method's annotations as the request that they declare.
    pub fn extract(method: &MethodDecl) -> (r: Result<Request, DefinitionError>)
        ensures
            view_result(r) == extract_request(method@),
    {
        let args = match Args::extract("args", &method.attrs) {
            Err(e) => {
                return Err(e);
            },
            Ok(args) => args,
        };
        let ghost all = views(method.attrs@);
        let mut first: usize = 0;
        let mut count: usize = 0;
        let mut i: usize = 0;
        while i < method.attrs.len()
            invariant
                i <= method.attrs.len(),
                all == views(method.attrs@),
                count == verb_positions(all.take(i as int)).len(),
                count <= i,
                count > 0 ==> first == verb_positions(all.take(i as int))[0] && first < i,
            decreases method.attrs.len() - i,
        {
            proof {
                assert(all.take(i + 1).drop_last() == all.take(i as int));
                assert(all.take(i + 1).last() == method.attrs@[i as int]@);
            }
            let is_verb = standard_verb_of(&method.attrs[i]).is_some() || method.attrs[i].is_named(
                "http",
            );
            if is_verb {
                if count == 0 {
                    first = i;
                }
                count += 1;
            }
            i += 1;
        }
        proof {
            assert(all.take(i as int) == all);
        }
        if count == 0 {
            Err(DefinitionError::MissingVerb(method.sig.ident.clone()))
        } else if count > 1 {
            Err(DefinitionError::ConflictingVerb(method.sig.ident.clone()))
        } else {
            let attr = &method.attrs[first];
            assert(all[first as int] == attr@);
            match standard_verb_of(attr) {
                Some(verb) => match path_literal(&attr.entries) {
                    Err(e) => Err(e),
                    Ok(path) => Ok(Request { method: verb, path, args }),
                },
                None => match Http::parse(&attr.entries) {
                    Err(e) => Err(e),
                    Ok(http) => match http.method() {
                        Err(_) => Err(DefinitionError::InvalidMethod(http.method)),
                        Ok(verb) => Ok(Request { method: verb, path: http.path, args }),
                    },
                },
            }
        }
    }
}

/// A verb annotation leaves the method that bears it as it is.
pub fn request(_attr: &str, item: MethodDecl) -> (r: Result<MethodDecl, DefinitionError>)
    ensures
        r == Ok::<MethodDecl, DefinitionError>(item),
{
    Ok(item)
}

/// A custom verb annotation leaves the method that bears it as it is.
pub fn http(_attr: Http, item: MethodDecl) -> (r: Result<MethodDecl, DefinitionError>)
    ensures
        r == Ok::<MethodDecl, DefinitionError>(item),
{
    Ok(item)
}

/// An annotation of arguments leaves the method that bears it as it is.
pub fn args(_attr: Args, item: MethodDecl) -> (r: Result<MethodDecl, DefinitionError>)
    ensures
        r == Ok::<MethodDecl, DefinitionError>(item),
{
    Ok(item)
}

} // verus!
