//! Compiling an annotated interface into a service definition: its names,
//! its client settings, its default headers and one request template for
//! each of its methods.

use vstd::prelude::*;

use crate::binder::{
    bound_request, compiled, Invocation, InvocationView, RequestDescriptor,
    RequestDescriptorView, RequestTemplate, RequestTemplateView,
};
use crate::error::{BindError, BindErrorView, DefinitionError, DefinitionErrorView};
use crate::header::{
    extract_headers, lower_char, slots_of, slots_well_formed, Headers, Slot, SlotView,
};
use crate::meta::{
    views, Binding, BindingView, Bound, BoundView, Expr, ExprView, Interface, InterfaceView,
    Member, MemberView, MethodDecl, MethodDeclView, ReturnType, ReturnTypeView, Type, TypeView,
    Value, ValueView, path_names,
};
use crate::request::{extract_args, view_result, view_results, Arg, ArgView, Args};
use crate::text::same_text;

verus! {

/// An annotation of client settings leaves the interface that bears it as
/// it is.
pub fn client(_args: Args, item: Interface) -> (r: Result<Interface, DefinitionError>)
    ensures
        r == Ok::<Interface, DefinitionError>(item),
{
    Ok(item)
}

/// Whether a bound names the service capability: the trait `Service`, alone
/// or below the crate's own name, without bindings.
pub open spec fn is_service_bound(bound: BoundView) -> bool {
    match bound {
        BoundView::Trait { path, bindings } => path_names(path, "Service"@) && bindings.len() == 0,
        BoundView::Lifetime(_) => false,
    }
}

/// Whether one of the bounds names the service capability.
pub open spec fn is_bounded(bounds: Seq<BoundView>) -> bool {
    exists|i: int| 0 <= i < bounds.len() && is_service_bound(#[trigger] bounds[i])
}

/// The bound that an interface gets where it names none of its own: the
/// service capability with the crate's own error, body and form types.
pub open spec fn default_bound() -> BoundView {
    BoundView::Trait {
        path: seq!["retrofit"@, "Service"@],
        bindings: seq![
            BindingView { name: "Error"@, ty: seq!["retrofit"@, "Error"@] },
            BindingView { name: "Body"@, ty: seq!["retrofit"@, "blocking"@, "Body"@] },
            BindingView {
                name: "Form"@,
                ty: seq!["retrofit"@, "blocking"@, "multipart"@, "Form"@],
            },
        ],
    }
}

/// The bounds of an interface once it is sure to name the service
/// capability: as they are where one of them names it, and with the
/// default bound behind them where none does.
pub open spec fn ensured(bounds: Seq<BoundView>) -> Seq<BoundView> {
    if is_bounded(bounds) {
        bounds
    } else {
        bounds.push(default_bound())
    }
}

fn names_service(bound: &Bound) -> (r: bool)
    ensures
        r == is_service_bound(bound@),
{
    match bound {
        Bound::Trait { path, bindings } => {
            let n = path.len();
            let named = if n == 1 {
                same_text(path[0].as_str(), "Service")
            } else if n == 2 {
                same_text(path[0].as_str(), "retrofit") && same_text(path[1].as_str(), "Service")
            } else {
                false
            };
            proof {
                let p = views(path@);
                let one = seq!["Service"@];
                let two = seq![crate::meta::crate_name(), "Service"@];
                assert(one.len() == 1 && two.len() == 2);
                assert(one[0] == "Service"@);
                assert(two[0] == crate::meta::crate_name() && two[1] == "Service"@);
                if n == 1 {
                    assert(p[0] == path@[0]@);
                    if named {
                        assert(p =~= one);
                    }
                }
                if n == 2 {
                    assert(p[0] == path@[0]@);
                    assert(p[1] == path@[1]@);
                    if named {
                        assert(p =~= two);
                    }
                }
                assert(views(bindings@).len() == bindings.len());
            }
            named && bindings.len() == 0
        },
        Bound::Lifetime(_) => false,
    }
}

fn push_text(list: &mut Vec<String>, text: &str)
    ensures
        views(final(list)@) == views(old(list)@).push(text@),
{
    list.push(text.to_owned());
    assert(views(list@) == views(old(list)@).push(text@));
}

fn path_of_two(first: &str, second: &str) -> (r: Vec<String>)
    ensures
        views(r@) == seq![first@, second@],
{
    let mut r: Vec<String> = Vec::new();
    assert(views(r@) == Seq::<Seq<char>>::empty());
    push_text(&mut r, first);
    push_text(&mut r, second);
    assert(Seq::<Seq<char>>::empty().push(first@).push(second@) == seq![first@, second@]);
    r
}

fn the_default_bound() -> (r: Bound)
    ensures
        r@ == default_bound(),
{
    let mut body = path_of_two("retrofit", "blocking");
    push_text(&mut body, "Body");
    assert(seq!["retrofit"@, "blocking"@].push("Body"@) == seq![
        "retrofit"@,
        "blocking"@,
        "Body"@,
    ]);
    let mut form = path_of_two("retrofit", "blocking");
    push_text(&mut form, "multipart");
    push_text(&mut form, "Form");
    assert(seq!["retrofit"@, "blocking"@].push("multipart"@).push("Form"@) == seq![
        "retrofit"@,
        "blocking"@,
        "multipart"@,
        "Form"@,
    ]);
    let error = Binding { name: "Error".to_owned(), ty: path_of_two("retrofit", "Error") };
    let body = Binding { name: "Body".to_owned(), ty: body };
    let form = Binding { name: "Form".to_owned(), ty: form };
    let ghost expected = seq![error@, body@, form@];
    let mut bindings: Vec<Binding> = Vec::new();
    bindings.push(error);
    bindings.push(body);
    bindings.push(form);
    assert(views(bindings@) == expected);
    Bound::Trait { path: path_of_two("retrofit", "Service"), bindings }
}

/// Makes sure that an interface names the service capability among its
/// bounds.
pub fn ensure_trait_bound(supertraits: &mut Vec<Bound>)
    ensures
        views(final(supertraits)@) == ensured(views(old(supertraits)@)),
{
    let ghost all = views(supertraits@);
    let mut i: usize = 0;
    while i < supertraits.len()
        invariant
            i <= supertraits.len(),
            supertraits@ == old(supertraits)@,
            all == views(supertraits@),
            forall|k: int| 0 <= k < i ==> !is_service_bound(#[trigger] all[k]),
        decreases supertraits.len() - i,
    {
        assert(all[i as int] == supertraits@[i as int]@);
        if names_service(&supertraits[i]) {
            assert(is_bounded(all));
            return;
        }
        i += 1;
    }
    assert(!is_bounded(all));
    let bound = the_default_bound();
    supertraits.push(bound);
    assert(views(supertraits@) == all.push(default_bound()));
}

/// What the callable made of a method returns, beside the call's error.
#[derive(Debug, PartialEq, Eq)]
pub enum Returns {
    /// Success alone: the method declares no return type.
    Nothing,
    /// A value of the declared type.
    Value(Type),
    /// What the declaration says: it names a result type of its own.
    Declared,
}

pub enum ReturnsView {
    Nothing,
    Value(TypeView),
    Declared,
}

impl View for Returns {
    type V = ReturnsView;

    open spec fn view(&self) -> ReturnsView {
        match self {
            Returns::Nothing => ReturnsView::Nothing,
            Returns::Value(t) => ReturnsView::Value(t@),
            Returns::Declared => ReturnsView::Declared,
        }
    }
}

impl Clone for Returns {
    fn clone(&self) -> (r: Self)
        ensures
            r@ == self@,
    {
        match self {
            Returns::Nothing => Returns::Nothing,
            Returns::Value(t) => Returns::Value(t.clone()),
            Returns::Declared => Returns::Declared,
        }
    }
}

/// Whether a type is the bare name `Result`.
pub open spec fn is_result(ty: TypeView) -> bool {
    match ty {
        TypeView::Path { segments, generic } => segments == seq!["Result"@] && !generic,
        _ => false,
    }
}

/// What the callable made of a method returns, given what the method
/// declares: success alone where it declares nothing, its own result where
/// it declares the bare name `Result`, and otherwise a value of the
/// declared type.
pub open spec fn returns_of(output: ReturnTypeView) -> ReturnsView {
    match output {
        ReturnTypeView::Default => ReturnsView::Nothing,
        ReturnTypeView::Type(ty) => if is_result(ty) {
            ReturnsView::Declared
        } else {
            ReturnsView::Value(ty)
        },
    }
}

/// Whether a call of the method hands a decoded value back: not where the
/// method returns success alone or the empty tuple.
pub open spec fn returns_value(output: ReturnsView) -> bool {
    match output {
        ReturnsView::Nothing => false,
        ReturnsView::Value(TypeView::Unit) => false,
        _ => true,
    }
}

impl Returns {
    /// What the callable made of a method returns, given what the method
    /// declares.
    pub fn of(output: &ReturnType) -> (r: Returns)
        ensures
            r@ == returns_of(output@),
    {
        match output {
            ReturnType::Default => Returns::Nothing,
            ReturnType::Type(ty) => {
                let bare = match ty {
                    Type::Path { segments, generic } => {
                        let one = segments.len() == 1 && same_text(segments[0].as_str(), "Result");
                        proof {
                            let s = views(segments@);
                            let r = seq!["Result"@];
                            assert(r.len() == 1 && r[0] == "Result"@);
                            if segments.len() == 1 {
                                assert(s[0] == segments@[0]@);
                                if one {
                                    assert(s =~= r);
                                }
                            }
                        }
                        one && !*generic
                    },
                    _ => false,
                };
                if bare {
                    Returns::Declared
                } else {
                    Returns::Value(ty.clone())
                }
            },
        }
    }

    /// Whether a call of the method hands a decoded value back.
    pub fn has_value(&self) -> (r: bool)
        ensures
            r == returns_value(self@),
    {
        match self {
            Returns::Nothing => false,
            Returns::Value(Type::Unit) => false,
            _ => true,
        }
    }
}

/// A method for which a callable is made: its declaration, and what the
/// callable returns.
#[derive(Debug, PartialEq, Eq)]
pub struct Method<'a> {
    pub decl: &'a MethodDecl,
    pub output: Returns,
}

pub struct MethodView {
    pub decl: MethodDeclView,
    pub output: ReturnsView,
}

impl<'a> View for Method<'a> {
    type V = MethodView;

    open spec fn view(&self) -> MethodView {
        MethodView { decl: self.decl@, output: self.output@ }
    }
}

/// The methods for which callables are made: those members that are
/// methods without a body of their own, in order, each with what its
/// callable returns.
pub open spec fn required_methods(items: Seq<MemberView>) -> Seq<MethodView>
    decreases items.len(),
{
    if items.len() == 0 {
        Seq::empty()
    } else {
        match items.last() {
            MemberView::Method(decl) => if decl.provided {
                required_methods(items.drop_last())
            } else {
                required_methods(items.drop_last()).push(
                    MethodView { decl, output: returns_of(decl.sig.output) },
                )
            },
            MemberView::Other => required_methods(items.drop_last()),
        }
    }
}

/// Picks the methods for which callables are made, and says what each
/// callable returns.
pub fn generate_methods<'a>(items: &'a Vec<Member>) -> (r: Vec<Method<'a>>)
    ensures
        views(r@) == required_methods(views(items@)),
{
    let mut found: Vec<Method<'a>> = Vec::new();
    let mut i: usize = 0;
    let ghost all = views(items@);
    proof {
        assert(views(found@) == Seq::<MethodView>::empty());
    }
    while i < items.len()
        invariant
            i <= items.len(),
            all == views(items@),
            views(found@) == required_methods(all.take(i as int)),
        decreases items.len() - i,
    {
        proof {
            assert(all.take(i + 1).drop_last() == all.take(i as int));
            assert(all.take(i + 1).last() == items@[i as int]@);
        }
        match &items[i] {
            Member::Method(decl) => {
                if !decl.provided {
                    let method = Method { decl, output: Returns::of(&decl.sig.output) };
                    proof {
                        assert(views(found@.push(method)) == views(found@).push(method@));
                    }
                    found.push(method);
                }
            },
            Member::Other => {},
        }
        i += 1;
    }
    proof {
        assert(all.take(i as int) == all);
    }
    found
}

impl<'a> Method<'a> {
    /// Compiles this method into its request template.
    pub fn to_template(&self) -> (r: Result<RequestTemplate, DefinitionError>)
        ensures
            view_result(r) == compiled(self@.decl, self@.output),
            r matches Ok(template) ==> template@.well_formed(),
    {
        RequestTemplate::compile(self.decl, self.output.clone())
    }
}

/// The templates of the given methods, in order; the error of the first
/// method that does not compile.
pub open spec fn templates_of(methods: Seq<MethodView>) -> Result<
    Seq<RequestTemplateView>,
    DefinitionErrorView,
>
    decreases methods.len(),
{
    if methods.len() == 0 {
        Ok(Seq::empty())
    } else {
        match templates_of(methods.drop_last()) {
            Err(e) => Err(e),
            Ok(init) => match compiled(methods.last().decl, methods.last().output) {
                Err(e) => Err(e),
                Ok(template) => Ok(init.push(template)),
            },
        }
    }
}

/// Once a prefix of the methods fails, the whole list fails in the same way.
pub proof fn lemma_templates_of_fails(methods: Seq<MethodView>, n: int)
    requires
        0 <= n <= methods.len(),
        templates_of(methods.take(n)) is Err,
    ensures
        templates_of(methods) == templates_of(methods.take(n)),
    decreases methods.len() - n,
{
    if n == methods.len() {
        assert(methods.take(n) == methods);
    } else {
        assert(methods.take(n + 1).drop_last() == methods.take(n));
        lemma_templates_of_fails(methods, n + 1);
    }
}

/// Compiles the methods into their request templates, in order.
pub fn compile_methods<'a>(methods: &Vec<Method<'a>>) -> (r: Result<
    Vec<RequestTemplate>,
    DefinitionError,
>)
    ensures
        view_results(r) == templates_of(views(methods@)),
{
    let mut templates: Vec<RequestTemplate> = Vec::new();
    let mut i: usize = 0;
    let ghost all = views(methods@);
    proof {
        assert(views(templates@) == Seq::<RequestTemplateView>::empty());
    }
    while i < methods.len()
        invariant
            i <= methods.len(),
            all == views(methods@),
            templates_of(all.take(i as int)) == Ok::<
                Seq<RequestTemplateView>,
                DefinitionErrorView,
            >(views(templates@)),
        decreases methods.len() - i,
    {
        proof {
            assert(all.take(i + 1).drop_last() == all.take(i as int));
            assert(all.take(i + 1).last() == methods@[i as int]@);
        }
        match methods[i].to_template() {
            Err(e) => {
                proof {
                    lemma_templates_of_fails(all, i + 1);
                }
                return Err(e);
            },
            Ok(template) => {
                proof {
                    assert(views(templates@.push(template)) == views(templates@).push(template@));
                }
                templates.push(template);
            },
        }
        i += 1;
    }
    proof {
        assert(all.take(i as int) == all);
    }
    Ok(templates)
}

/// One setting of the transport client: its name, and its value where it
/// has one.
#[derive(Debug, PartialEq, Eq)]
pub struct Setting {
    pub name: String,
    pub value: Option<Value>,
}

pub struct SettingView {
    pub name: Seq<char>,
    pub value: Option<ValueView>,
}

impl View for Setting {
    type V = SettingView;

    open spec fn view(&self) -> SettingView {
        SettingView {
            name: self.name@,
            value: match self.value {
                Some(v) => Some(v@),
                None => None,
            },
        }
    }
}

impl Clone for Setting {
    fn clone(&self) -> (r: Self)
        ensures
            r@ == self@,
    {
        Setting {
            name: self.name.clone(),
            value: match &self.value {
                Some(v) => Some(v.clone()),
                None => None,
            },
        }
    }
}

/// The setting that a declared argument stands for: its name, and its
/// literal where it has an expression. An expression that is no literal
/// stands for no setting.
pub open spec fn setting_of(arg: ArgView) -> Result<SettingView, DefinitionErrorView> {
    match arg.expr {
        None => Ok(SettingView { name: arg.ident, value: None }),
        Some(ExprView::Literal(v)) => Ok(SettingView { name: arg.ident, value: Some(v) }),
        Some(_) => Err(DefinitionErrorView::MalformedArg),
    }
}

/// The settings that declared arguments stand for, in order; the error of
/// the first that stands for none.
pub open spec fn settings_of(args: Seq<ArgView>) -> Result<Seq<SettingView>, DefinitionErrorView>
    decreases args.len(),
{
    if args.len() == 0 {
        Ok(Seq::empty())
    } else {
        match settings_of(args.drop_last()) {
            Err(e) => Err(e),
            Ok(init) => match setting_of(args.last()) {
                Err(e) => Err(e),
                Ok(setting) => Ok(init.push(setting)),
            },
        }
    }
}

/// Once a prefix of the arguments fails, the whole list fails in the same
/// way.
pub proof fn lemma_settings_of_fails(args: Seq<ArgView>, n: int)
    requires
        0 <= n <= args.len(),
        settings_of(args.take(n)) is Err,
    ensures
        settings_of(args) == settings_of(args.take(n)),
    decreases args.len() - n,
{
    if n == args.len() {
        assert(args.take(n) == args);
    } else {
        assert(args.take(n + 1).drop_last() == args.take(n));
        lemma_settings_of_fails(args, n + 1);
    }
}

/// Reads declared arguments as settings of the transport client.
pub fn settings(args: &Vec<Arg>) -> (r: Result<Vec<Setting>, DefinitionError>)
    ensures
        view_results(r) == settings_of(views(args@)),
{
    let mut found: Vec<Setting> = Vec::new();
    let mut i: usize = 0;
    let ghost all = views(args@);
    proof {
        assert(views(found@) == Seq::<SettingView>::empty());
    }
    while i < args.len()
        invariant
            i <= args.len(),
            all == views(args@),
            settings_of(all.take(i as int)) == Ok::<Seq<SettingView>, DefinitionErrorView>(
                views(found@),
            ),
        decreases args.len() - i,
    {
        proof {
            assert(all.take(i + 1).drop_last() == all.take(i as int));
            assert(all.take(i + 1).last() == args@[i as int]@);
        }
        let setting = match &args[i].expr {
            None => Setting { name: args[i].ident.clone(), value: None },
            Some(Expr::Literal(v)) => Setting { name: args[i].ident.clone(), value: Some(v.clone()) },
            Some(_) => {
                proof {
                    lemma_settings_of_fails(all, i + 1);
                }
                return Err(DefinitionError::MalformedArg);
            },
        };
        proof {
            assert(views(found@.push(setting)) == views(found@).push(setting@));
        }
        found.push(setting);
        i += 1;
    }
    proof {
        assert(all.take(i as int) == all);
    }
    Ok(found)
}

/// The base URL that the arguments of a service annotation declare. An
/// argument without an expression declares nothing. An argument with one
/// must be `base_url`, bound to a text literal, and must be the only such
/// argument.
pub open spec fn base_url_of(args: Seq<ArgView>) -> Result<Option<Seq<char>>, DefinitionErrorView>
    decreases args.len(),
{
    if args.len() == 0 {
        Ok(None)
    } else {
        match base_url_of(args.drop_last()) {
            Err(e) => Err(e),
            Ok(found) => match args.last().expr {
                None => Ok(found),
                Some(ExprView::Literal(ValueView::Text(url))) => if args.last().ident
                    == "base_url"@ && found is None {
                    Ok(Some(url))
                } else {
                    Err(DefinitionErrorView::MalformedArg)
                },
                Some(_) => Err(DefinitionErrorView::MalformedArg),
            },
        }
    }
}

/// Once a prefix of the arguments fails, the whole list fails in the same
/// way.
pub proof fn lemma_base_url_of_fails(args: Seq<ArgView>, n: int)
    requires
        0 <= n <= args.len(),
        base_url_of(args.take(n)) is Err,
    ensures
        base_url_of(args) == base_url_of(args.take(n)),
    decreases args.len() - n,
{
    if n == args.len() {
        assert(args.take(n) == args);
    } else {
        assert(args.take(n + 1).drop_last() == args.take(n));
        lemma_base_url_of_fails(args, n + 1);
    }
}

/// The view of a text that may be absent.
pub open spec fn view_option(text: Option<String>) -> Option<Seq<char>> {
    match text {
        Some(t) => Some(t@),
        None => None,
    }
}

/// Reads the arguments of a service annotation for the base URL.
pub fn base_url(args: &Vec<Arg>) -> (r: Result<Option<String>, DefinitionError>)
    ensures
        match r {
            Ok(found) => base_url_of(views(args@)) == Ok::<
                Option<Seq<char>>,
                DefinitionErrorView,
            >(view_option(found)),
            Err(e) => base_url_of(views(args@)) == Err::<Option<Seq<char>>, DefinitionErrorView>(
                e@,
            ),
        },
{
    let mut found: Option<String> = None;
    let mut i: usize = 0;
    let ghost all = views(args@);
    while i < args.len()
        invariant
            i <= args.len(),
            all == views(args@),
            base_url_of(all.take(i as int)) == Ok::<Option<Seq<char>>, DefinitionErrorView>(
                view_option(found),
            ),
        decreases args.len() - i,
    {
        proof {
            assert(all.take(i + 1).drop_last() == all.take(i as int));
            assert(all.take(i + 1).last() == args@[i as int]@);
        }
        match &args[i].expr {
            None => {},
            Some(Expr::Literal(Value::Text(url))) => {
                if same_text(args[i].ident.as_str(), "base_url") && found.is_none() {
                    found = Some(url.clone());
                } else {
                    proof {
                        lemma_base_url_of_fails(all, i + 1);
                    }
                    return Err(DefinitionError::MalformedArg);
                }
            },
            Some(_) => {
                proof {
                    lemma_base_url_of_fails(all, i + 1);
                }
                return Err(DefinitionError::MalformedArg);
            },
        }
        i += 1;
    }
    proof {
        assert(all.take(i as int) == all);
    }
    Ok(found)
}

/// A name in snake case, from position `i` on: each ASCII capital is made
/// small, and an underscore stands before it unless it is the first
/// character.
pub open spec fn snake_from(name: Seq<char>, i: int) -> Seq<char>
    decreases name.len() - i,
{
    if i < 0 || i >= name.len() {
        Seq::empty()
    } else if 'A' <= name[i] && name[i] <= 'Z' {
        if i == 0 {
            seq![lower_char(name[i])] + snake_from(name, i + 1)
        } else {
            seq!['_', lower_char(name[i])] + snake_from(name, i + 1)
        }
    } else {
        seq![name[i]] + snake_from(name, i + 1)
    }
}

/// A name in snake case.
pub open spec fn snake(name: Seq<char>) -> Seq<char> {
    snake_from(name, 0)
}

/// Calls `case::CaseExt::to_snake`, which copies the text with each ASCII
/// capital made small and an underscore put before it, but for a capital
/// at the very start, and with every other character kept.
#[verifier::external_body]
fn to_snake(name: &str) -> (r: String)
    ensures
        r@ == snake(name@),
{
    case::CaseExt::to_snake(name)
}

/// A compiled service: its names, its base URL where it declares one, the
/// settings of its transport client, its default headers, its bounds, and
/// the request template of each of its methods, in order.
#[derive(Debug, PartialEq, Eq)]
pub struct ServiceDefinition {
    pub name: String,
    pub factory: String,
    pub client_name: String,
    pub base_url: Option<String>,
    pub settings: Vec<Setting>,
    pub default_headers: Vec<Slot>,
    pub bounds: Vec<Bound>,
    pub methods: Vec<RequestTemplate>,
}

pub struct ServiceDefinitionView {
    pub name: Seq<char>,
    pub factory: Seq<char>,
    pub client_name: Seq<char>,
    pub base_url: Option<Seq<char>>,
    pub settings: Seq<SettingView>,
    pub default_headers: Seq<SlotView>,
    pub bounds: Seq<BoundView>,
    pub methods: Seq<RequestTemplateView>,
}

impl View for ServiceDefinition {
    type V = ServiceDefinitionView;

    open spec fn view(&self) -> ServiceDefinitionView {
        ServiceDefinitionView {
            name: self.name@,
            factory: self.factory@,
            client_name: self.client_name@,
            base_url: view_option(self.base_url),
            settings: views(self.settings@),
            default_headers: views(self.default_headers@),
            bounds: views(self.bounds@),
            methods: views(self.methods@),
        }
    }
}

impl ServiceDefinitionView {
    /// What compiling an interface makes sure of: each template is well
    /// formed, each default header is well formed and fixed, and the
    /// bounds name the service capability or hold the default bound.
    pub open spec fn well_formed(self) -> bool {
        &&& forall|k: int| 0 <= k < self.methods.len() ==> (#[trigger] self.methods[k]).well_formed()
        &&& slots_well_formed(self.default_headers, Seq::empty())
        &&& (is_bounded(self.bounds) || (self.bounds.len() > 0 && self.bounds.last()
            == default_bound()))
    }
}

/// The templates of methods that all compile are well formed.
pub proof fn lemma_templates_of_well_formed(methods: Seq<MethodView>)
    ensures
        templates_of(methods) matches Ok(templates) ==> forall|k: int|
            0 <= k < templates.len() ==> (#[trigger] templates[k]).well_formed(),
    decreases methods.len(),
{
    if methods.len() > 0 {
        lemma_templates_of_well_formed(methods.drop_last());
        if templates_of(methods) is Ok {
            crate::binder::law_compiled_is_well_formed(
                methods.last().decl,
                methods.last().output,
            );
        }
    }
}

/// An interface that compiles gives a well-formed service.
pub proof fn law_defined_is_well_formed(args: Seq<ArgView>, item: InterfaceView)
    requires
        defined(args, item) is Ok,
    ensures
        defined(args, item)->Ok_0.well_formed(),
{
    let headers = extract_headers("default_headers"@, item.attrs)->Ok_0;
    crate::header::lemma_slots_of_well_formed(headers, Seq::empty());
    lemma_templates_of_well_formed(required_methods(item.items));
    let bounds = ensured(item.supertraits);
    if !is_bounded(item.supertraits) {
        assert(bounds.last() == default_bound());
    }
}

/// The service that an annotated interface compiles to, given the
/// arguments of its service annotation. The steps, each of which may fail,
/// in order: the client settings are read; the base URL is read; the
/// default headers are read and compiled, with no parameter to take a
/// value from; each method without a body of its own is compiled. The
/// service is named after the interface, its factory bears the interface's
/// name in snake case, and its client the interface's name with `Client`
/// behind it.
pub open spec fn defined(args: Seq<ArgView>, item: InterfaceView) -> Result<
    ServiceDefinitionView,
    DefinitionErrorView,
> {
    match extract_args("client"@, item.attrs) {
        Err(e) => Err(e),
        Ok(client_args) => match settings_of(client_args) {
            Err(e) => Err(e),
            Ok(settings) => match base_url_of(args) {
                Err(e) => Err(e),
                Ok(base_url) => match extract_headers("default_headers"@, item.attrs) {
                    Err(e) => Err(e),
                    Ok(headers) => match slots_of(headers, Seq::empty()) {
                        Err(e) => Err(e),
                        Ok(default_headers) => match templates_of(required_methods(item.items)) {
                            Err(e) => Err(e),
                            Ok(methods) => Ok(
                                ServiceDefinitionView {
                                    name: item.ident,
                                    factory: snake(item.ident),
                                    client_name: item.ident + "Client"@,
                                    base_url,
                                    settings,
                                    default_headers,
                                    bounds: ensured(item.supertraits),
                                    methods,
                                },
                            ),
                        },
                    },
                },
            },
        },
    }
}

/// Compiles an annotated interface into a service.
pub fn service(args: Args, item: Interface) -> (r: Result<ServiceDefinition, DefinitionError>)
    ensures
        view_result(r) == defined(args@, item@),
        r matches Ok(definition) ==> definition@.well_formed(),
{
    proof {
        if defined(args@, item@) is Ok {
            law_defined_is_well_formed(args@, item@);
        }
    }
    let Interface { attrs, ident, supertraits, items } = item;
    let mut bounds = supertraits;
    ensure_trait_bound(&mut bounds);
    let client_args = match Args::extract("client", &attrs) {
        Err(e) => {
            return Err(e);
        },
        Ok(found) => found,
    };
    let client_settings = match settings(&client_args) {
        Err(e) => {
            return Err(e);
        },
        Ok(found) => found,
    };
    let url = match base_url(&args.0) {
        Err(e) => {
            return Err(e);
        },
        Ok(found) => found,
    };
    let factory = to_snake(ident.as_str());
    let mut client_name = ident.clone();
    client_name.append("Client");
    let headers = match Headers::extract("default_headers", &attrs) {
        Err(e) => {
            return Err(e);
        },
        Ok(found) => found,
    };
    let no_params: Vec<String> = Vec::new();
    proof {
        assert(views(no_params@) == Seq::<Seq<char>>::empty());
    }
    let default_headers = match headers.to_slots(&no_params) {
        Err(e) => {
            return Err(e);
        },
        Ok(found) => found,
    };
    let methods = generate_methods(&items);
    let templates = match compile_methods(&methods) {
        Err(e) => {
            return Err(e);
        },
        Ok(found) => found,
    };
    Ok(
        ServiceDefinition {
            name: ident,
            factory,
            client_name,
            base_url: url,
            settings: client_settings,
            default_headers,
            bounds,
            methods: templates,
        },
    )
}

/// The base URL of a call: the one that the service declares, or else the
/// one supplied when the service was made.
pub open spec fn base_of(declared: Option<Seq<char>>, supplied: Option<Seq<char>>) -> Option<
    Seq<char>,
> {
    match declared {
        Some(url) => Some(url),
        None => supplied,
    }
}

/// The request that a call of the method at a position stands for: that
/// of the method's template, below the service's base URL and on top of
/// its default headers.
pub open spec fn service_request(
    service: ServiceDefinitionView,
    index: int,
    supplied: Option<Seq<char>>,
    call: InvocationView,
) -> Result<RequestDescriptorView, BindErrorView> {
    if index < 0 || index >= service.methods.len() {
        Err(BindErrorView::UnknownMethod)
    } else {
        match base_of(service.base_url, supplied) {
            None => Err(BindErrorView::MissingBaseUrl),
            Some(base) => bound_request(service.methods[index], base, service.default_headers, call),
        }
    }
}

impl ServiceDefinition {
    /// The template of the method at a position, if there is one.
    pub fn template(&self, index: usize) -> (r: Option<&RequestTemplate>)
        ensures
            match r {
                Some(t) => index < self@.methods.len() && t@ == self@.methods[index as int],
                None => index >= self@.methods.len(),
            },
    {
        if index < self.methods.len() {
            assert(self@.methods[index as int] == self.methods@[index as int]@);
            Some(&self.methods[index])
        } else {
            None
        }
    }

    /// Binds a call of the method at a position to its request.
    pub fn bind(&self, index: usize, supplied: Option<&str>, call: Invocation) -> (r: Result<
        RequestDescriptor,
        BindError,
    >)
        ensures
            view_result(r) == service_request(
                self@,
                index as int,
                match supplied {
                    Some(url) => Some(url@),
                    None => None,
                },
                call@,
            ),
    {
        let template = match self.template(index) {
            None => {
                return Err(BindError::UnknownMethod);
            },
            Some(template) => template,
        };
        match &self.base_url {
            Some(url) => template.bind(url.as_str(), &self.default_headers, call),
            None => match supplied {
                Some(url) => template.bind(url, &self.default_headers, call),
                None => Err(BindError::MissingBaseUrl),
            },
        }
    }
}

} // verus!
