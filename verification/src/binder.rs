//! Request templates: the part of a request that is fixed when a method is
//! compiled, and the binding of a template to the values of one call.

use vstd::prelude::*;

use crate::encode::{
    encoded, kind_named, Body, BodyView, EncodeKind, EncodeSpec, EncodeSpecView, Payload,
    PayloadView,
};
use crate::error::{BindError, BindErrorView, DefinitionError, DefinitionErrorView};
use crate::header::{
    composed, extract_headers, is_header_value, slots_of, slots_well_formed, wire_form,
    HeaderEntry, HeaderEntryView, HeaderSet, Headers, Slot, SlotView, Source, SourceView,
};
use crate::meta::{external_form, views, Expr, ExprView, MethodDecl, MethodDeclView};
use crate::request::{
    extract_args, extract_request, view_result, Arg, ArgView, Args, Request, Verb, VerbView,
};
use crate::response::{
    decode_spec_of, decoded, extract_response, Cause, CauseView, DecodeSpec, DecodeSpecView,
    Decoded, DecodedView, Response, ResponseView,
};
use crate::service::{returns_value, Returns, ReturnsView};
use crate::template::{
    bindings, check_template, expand, find_arg, holds, lookup, names, Argument, ArgumentView,
};
use crate::text::same_text;

verus! {

/// The parameter whose value resolves a placeholder of the given name, if
/// a parameter does: the one that a declared argument of that name refers
/// to, or else the parameter of the name itself.
pub open spec fn source_param(args: Seq<ArgView>, name: Seq<char>) -> Option<Seq<char>> {
    match find_arg(args, name) {
        None => Some(name),
        Some(arg) => match arg.expr {
            None => Some(name),
            Some(ExprView::Name(param)) => Some(param),
            Some(_) => None,
        },
    }
}

/// Whether the path takes the value of the parameter.
pub open spec fn path_uses(names: Seq<Seq<char>>, args: Seq<ArgView>, param: Seq<char>) -> bool {
    exists|k: int| 0 <= k < names.len() && #[trigger] source_param(args, names[k]) == Some(param)
}

/// Whether a header takes the value of the parameter.
pub open spec fn headers_use(slots: Seq<SlotView>, param: Seq<char>) -> bool {
    exists|k: int| 0 <= k < slots.len() && (#[trigger] slots[k]).value == SourceView::Param(param)
}

/// The parameters that neither the path nor a header takes, in order.
pub open spec fn unbound(
    params: Seq<Seq<char>>,
    names: Seq<Seq<char>>,
    args: Seq<ArgView>,
    slots: Seq<SlotView>,
) -> Seq<Seq<char>>
    decreases params.len(),
{
    if params.len() == 0 {
        Seq::empty()
    } else if path_uses(names, args, params.last()) || headers_use(slots, params.last()) {
        unbound(params.drop_last(), names, args, slots)
    } else {
        unbound(params.drop_last(), names, args, slots).push(params.last())
    }
}

/// The parameter that is encoded where the declaration names none: the one
/// parameter that nothing else takes, if there is exactly one; or else the
/// parameter that bears the strategy's name.
pub open spec fn default_source(
    params: Seq<Seq<char>>,
    free: Seq<Seq<char>>,
    strategy: Seq<char>,
) -> Option<Seq<char>> {
    if free.len() == 1 {
        Some(free[0])
    } else if params.contains(strategy) {
        Some(strategy)
    } else {
        None
    }
}

/// The encode strategy that a method's request options declare. No option
/// means that nothing is encoded; more than one option is a conflict. The
/// one option must bear a strategy's name; its expression, if it has one,
/// must name a parameter.
pub open spec fn encode_of(
    options: Seq<ArgView>,
    params: Seq<Seq<char>>,
    free: Seq<Seq<char>>,
    method: Seq<char>,
) -> Result<EncodeSpecView, DefinitionErrorView> {
    if options.len() == 0 {
        Ok(EncodeSpecView { kind: EncodeKind::Nothing, source: None })
    } else if options.len() > 1 {
        Err(DefinitionErrorView::ConflictingEncode(method))
    } else {
        match kind_named(options[0].ident) {
            None => Err(DefinitionErrorView::UnknownEncode(options[0].ident)),
            Some(kind) => match options[0].expr {
                Some(ExprView::Name(param)) => if params.contains(param) {
                    Ok(EncodeSpecView { kind, source: Some(param) })
                } else {
                    Err(DefinitionErrorView::UnknownParameter(param))
                },
                Some(_) => Err(DefinitionErrorView::MalformedArg),
                None => match default_source(params, free, options[0].ident) {
                    Some(param) => Ok(EncodeSpecView { kind, source: Some(param) }),
                    None => Err(DefinitionErrorView::MissingSource(method)),
                },
            },
        }
    }
}

fn source_of(args: &Vec<Arg>, name: &str) -> (r: Option<String>)
    ensures
        match r {
            Some(p) => source_param(views(args@), name@) == Some(p@),
            None => source_param(views(args@), name@) is None,
        },
{
    match crate::template::arg_of(args, name) {
        None => Some(name.to_owned()),
        Some(arg) => match &arg.expr {
            None => Some(name.to_owned()),
            Some(Expr::Name(param)) => Some(param.clone()),
            Some(_) => None,
        },
    }
}

fn uses_in_path(names: &Vec<String>, args: &Vec<Arg>, param: &str) -> (r: bool)
    ensures
        r == path_uses(views(names@), views(args@), param@),
{
    let mut i: usize = 0;
    let ghost all = views(names@);
    while i < names.len()
        invariant
            i <= names.len(),
            all == views(names@),
            forall|k: int| 0 <= k < i ==> #[trigger] source_param(views(args@), all[k]) != Some(
                param@,
            ),
        decreases names.len() - i,
    {
        assert(all[i as int] == names@[i as int]@);
        match source_of(args, names[i].as_str()) {
            Some(p) => {
                if same_text(p.as_str(), param) {
                    assert(source_param(views(args@), all[i as int]) == Some(param@));
                    return true;
                }
            },
            None => {},
        }
        i += 1;
    }
    false
}

fn uses_in_headers(slots: &Vec<Slot>, param: &str) -> (r: bool)
    ensures
        r == headers_use(views(slots@), param@),
{
    let mut i: usize = 0;
    let ghost all = views(slots@);
    while i < slots.len()
        invariant
            i <= slots.len(),
            all == views(slots@),
            forall|k: int| 0 <= k < i ==> (#[trigger] all[k]).value != SourceView::Param(param@),
        decreases slots.len() - i,
    {
        assert(all[i as int] == slots@[i as int]@);
        match &slots[i].value {
            Source::Param(p) => {
                if same_text(p.as_str(), param) {
                    assert(all[i as int].value == SourceView::Param(param@));
                    return true;
                }
            },
            Source::Fixed(_) => {},
        }
        i += 1;
    }
    false
}

/// The parameters that neither the path nor a header takes, in order.
pub fn unbound_params(
    params: &Vec<String>,
    names: &Vec<String>,
    args: &Vec<Arg>,
    slots: &Vec<Slot>,
) -> (r: Vec<String>)
    ensures
        views(r@) == unbound(views(params@), views(names@), views(args@), views(slots@)),
{
    let mut free: Vec<String> = Vec::new();
    let mut i: usize = 0;
    let ghost all = views(params@);
    proof {
        assert(views(free@) == Seq::<Seq<char>>::empty());
    }
    while i < params.len()
        invariant
            i <= params.len(),
            all == views(params@),
            views(free@) == unbound(
                all.take(i as int),
                views(names@),
                views(args@),
                views(slots@),
            ),
        decreases params.len() - i,
    {
        proof {
            assert(all.take(i + 1).drop_last() == all.take(i as int));
            assert(all.take(i + 1).last() == params@[i as int]@);
        }
        let taken = uses_in_path(names, args, params[i].as_str()) || uses_in_headers(
            slots,
            params[i].as_str(),
        );
        if !taken {
            let param = params[i].clone();
            proof {
                assert(views(free@.push(param)) == views(free@).push(param@));
            }
            free.push(param);
        }
        i += 1;
    }
    proof {
        assert(all.take(i as int) == all);
    }
    free
}

impl EncodeSpec {
    /// The encode strategy that a method's request options declare, given
    /// the method's parameters and those of them that nothing else takes.
    pub fn of(options: &Vec<Arg>, params: &Vec<String>, free: &Vec<String>, method: &str) -> (r:
        Result<EncodeSpec, DefinitionError>)
        ensures
            view_result(r) == encode_of(views(options@), views(params@), views(free@), method@),
    {
        if options.len() == 0 {
            return Ok(EncodeSpec { kind: EncodeKind::Nothing, source: None });
        }
        if options.len() > 1 {
            return Err(DefinitionError::ConflictingEncode(method.to_owned()));
        }
        let option = &options[0];
        assert(views(options@)[0] == option@);
        let kind = match EncodeKind::named(option.ident.as_str()) {
            None => {
                return Err(DefinitionError::UnknownEncode(option.ident.clone()));
            },
            Some(kind) => kind,
        };
        match &option.expr {
            Some(Expr::Name(param)) => {
                if holds(params, param.as_str()) {
                    Ok(EncodeSpec { kind, source: Some(param.clone()) })
                } else {
                    Err(DefinitionError::UnknownParameter(param.clone()))
                }
            },
            Some(_) => Err(DefinitionError::MalformedArg),
            None => {
                if free.len() == 1 {
                    assert(views(free@)[0] == free@[0]@);
                    Ok(EncodeSpec { kind, source: Some(free[0].clone()) })
                } else if holds(params, option.ident.as_str()) {
                    Ok(EncodeSpec { kind, source: Some(option.ident.clone()) })
                } else {
                    Err(DefinitionError::MissingSource(method.to_owned()))
                }
            },
        }
    }
}

/// The part of a request that is fixed when its method is compiled: the
/// verb, the path template with the declared arguments and the method's
/// parameters, the compiled headers, and the encode and decode strategies.
#[derive(Debug, PartialEq, Eq)]
pub struct RequestTemplate {
    pub name: String,
    pub verb: Verb,
    pub path: String,
    pub args: Vec<Arg>,
    pub params: Vec<String>,
    pub headers: Vec<Slot>,
    pub encode: EncodeSpec,
    pub decode: DecodeSpec,
    pub output: Returns,
}

pub struct RequestTemplateView {
    pub name: Seq<char>,
    pub verb: VerbView,
    pub path: Seq<char>,
    pub args: Seq<ArgView>,
    pub params: Seq<Seq<char>>,
    pub headers: Seq<SlotView>,
    pub encode: EncodeSpecView,
    pub decode: DecodeSpecView,
    pub output: ReturnsView,
}

impl View for RequestTemplate {
    type V = RequestTemplateView;

    open spec fn view(&self) -> RequestTemplateView {
        RequestTemplateView {
            name: self.name@,
            verb: self.verb@,
            path: self.path@,
            args: views(self.args@),
            params: views(self.params@),
            headers: views(self.headers@),
            encode: self.encode@,
            decode: self.decode@,
            output: self.output@,
        }
    }
}

/// The template that a method's declaration compiles to, given what its
/// callable returns. The steps, each of which may fail, in order: the
/// request is read from the annotations; each placeholder of its path
/// must be resolvable; the headers are read and compiled; the encode
/// strategy is read from the request options; the decode strategy is read
/// from the response annotation.
pub open spec fn compiled(decl: MethodDeclView, output: ReturnsView) -> Result<
    RequestTemplateView,
    DefinitionErrorView,
> {
    match extract_request(decl) {
        Err(e) => Err(e),
        Ok(request) => match check_template(request.path, request.args, decl.sig.params) {
            Err(e) => Err(e),
            Ok(_) => match extract_headers("headers"@, decl.attrs) {
                Err(e) => Err(e),
                Ok(headers) => match slots_of(headers, decl.sig.params) {
                    Err(e) => Err(e),
                    Ok(slots) => match extract_args("request"@, decl.attrs) {
                        Err(e) => Err(e),
                        Ok(options) => match encode_of(
                            options,
                            decl.sig.params,
                            unbound(decl.sig.params, names(request.path), request.args, slots),
                            decl.sig.ident,
                        ) {
                            Err(e) => Err(e),
                            Ok(encode) => match extract_response(decl.attrs) {
                                Err(e) => Err(e),
                                Ok(expr) => match decode_spec_of(expr) {
                                    Err(e) => Err(e),
                                    Ok(decode) => Ok(
                                        RequestTemplateView {
                                            name: decl.sig.ident,
                                            verb: request.method,
                                            path: request.path,
                                            args: request.args,
                                            params: decl.sig.params,
                                            headers: slots,
                                            encode,
                                            decode,
                                            output,
                                        },
                                    ),
                                },
                            },
                        },
                    },
                },
            },
        },
    }
}

impl RequestTemplate {
    /// Compiles a method's declaration into its request template.
    pub fn compile(decl: &MethodDecl, output: Returns) -> (r: Result<
        RequestTemplate,
        DefinitionError,
    >)
        ensures
            view_result(r) == compiled(decl@, output@),
            r matches Ok(template) ==> template@.well_formed(),
    {
        proof {
            if compiled(decl@, output@) is Ok {
                law_compiled_is_well_formed(decl@, output@);
            }
        }
        let request = match Request::extract(decl) {
            Err(e) => {
                return Err(e);
            },
            Ok(request) => request,
        };
        match crate::template::check(request.path.as_str(), &request.args, &decl.sig.params) {
            Err(e) => {
                return Err(e);
            },
            Ok(_) => {},
        }
        let headers = match Headers::extract("headers", &decl.attrs) {
            Err(e) => {
                return Err(e);
            },
            Ok(headers) => headers,
        };
        let slots = match headers.to_slots(&decl.sig.params) {
            Err(e) => {
                return Err(e);
            },
            Ok(slots) => slots,
        };
        let options = match Args::extract("request", &decl.attrs) {
            Err(e) => {
                return Err(e);
            },
            Ok(options) => options,
        };
        let path_chars = crate::text::chars_of(request.path.as_str());
        let found = crate::template::scan_names(&path_chars);
        let free = unbound_params(&decl.sig.params, &found, &request.args, &slots);
        let encode = match EncodeSpec::of(
            &options,
            &decl.sig.params,
            &free,
            decl.sig.ident.as_str(),
        ) {
            Err(e) => {
                return Err(e);
            },
            Ok(encode) => encode,
        };
        let expr = match crate::response::extract(&decl.attrs) {
            Err(e) => {
                return Err(e);
            },
            Ok(expr) => expr,
        };
        let decode = match DecodeSpec::of(&expr) {
            Err(e) => {
                return Err(e);
            },
            Ok(decode) => decode,
        };
        Ok(
            RequestTemplate {
                name: decl.sig.ident.clone(),
                verb: request.method,
                path: request.path,
                args: request.args,
                params: crate::meta::clone_strings(&decl.sig.params),
                headers: slots,
                encode,
                decode,
                output,
            },
        )
    }
}

impl RequestTemplateView {
    /// What compiling a method makes sure of: the verb is well formed, each
    /// placeholder of the path can be resolved, each header is well formed,
    /// and a parameter is named as the source of what is encoded exactly
    /// where something is encoded.
    pub open spec fn well_formed(self) -> bool {
        &&& self.verb.well_formed()
        &&& check_template(self.path, self.args, self.params) is Ok
        &&& slots_well_formed(self.headers, self.params)
        &&& (self.encode.kind == EncodeKind::Nothing <==> self.encode.source is None)
        &&& (self.encode.source matches Some(param) ==> self.params.contains(param))
    }
}

/// Each parameter that nothing takes is a parameter.
pub proof fn lemma_unbound_are_params(
    params: Seq<Seq<char>>,
    names: Seq<Seq<char>>,
    args: Seq<ArgView>,
    slots: Seq<SlotView>,
)
    ensures
        forall|k: int|
            0 <= k < unbound(params, names, args, slots).len() ==> params.contains(
                #[trigger] unbound(params, names, args, slots)[k],
            ),
    decreases params.len(),
{
    if params.len() > 0 {
        let init = params.drop_last();
        lemma_unbound_are_params(init, names, args, slots);
        let free = unbound(params, names, args, slots);
        assert forall|k: int| 0 <= k < free.len() implies params.contains(#[trigger] free[k]) by {
            if k < unbound(init, names, args, slots).len() {
                let p = unbound(init, names, args, slots)[k];
                assert(init.contains(p));
                let at = choose|at: int| 0 <= at < init.len() && init[at] == p;
                assert(params[at] == p);
            } else {
                assert(params[params.len() - 1] == free[k]);
            }
        }
    }
}

/// A method that compiles gives a well-formed template.
pub proof fn law_compiled_is_well_formed(decl: MethodDeclView, output: ReturnsView)
    requires
        compiled(decl, output) is Ok,
    ensures
        compiled(decl, output)->Ok_0.well_formed(),
{
    let template = compiled(decl, output)->Ok_0;
    let request = extract_request(decl)->Ok_0;
    let params = decl.sig.params;
    let at = crate::request::verb_positions(decl.attrs);
    let attr = decl.attrs[at[0]];
    if crate::request::standard_verb(attr.path) is None {
        let http = crate::request::parse_http(attr.entries)->Ok_0;
        crate::request::lemma_verb_of_token(crate::request::uppercased(http.method));
    }
    assert(template.verb.well_formed());
    let headers = extract_headers("headers"@, decl.attrs)->Ok_0;
    crate::header::lemma_slots_of_well_formed(headers, params);
    let slots = slots_of(headers, params)->Ok_0;
    let options = extract_args("request"@, decl.attrs)->Ok_0;
    let free = unbound(params, names(request.path), request.args, slots);
    lemma_unbound_are_params(params, names(request.path), request.args, slots);
    if options.len() == 1 && options[0].expr is None && free.len() == 1 {
        assert(params.contains(free[0]));
    }
}

/// What one call passes: a value for each parameter that the path or a
/// header takes, what is to be encoded, and the headers set for this call
/// alone, by their names as written.
#[derive(Debug, PartialEq, Eq)]
pub struct Invocation {
    pub values: Vec<Argument>,
    pub payload: Payload,
    pub headers: Vec<HeaderEntry>,
}

pub struct InvocationView {
    pub values: Seq<ArgumentView>,
    pub payload: PayloadView,
    pub headers: Seq<HeaderEntryView>,
}

impl View for Invocation {
    type V = InvocationView;

    open spec fn view(&self) -> InvocationView {
        InvocationView {
            values: views(self.values@),
            payload: self.payload@,
            headers: views(self.headers@),
        }
    }
}

/// One outbound request, fully specified: the verb, the absolute URL, the
/// headers in order, and the body.
#[derive(Debug, PartialEq, Eq)]
pub struct RequestDescriptor {
    pub verb: Verb,
    pub url: String,
    pub headers: HeaderSet,
    pub body: Body,
}

pub struct RequestDescriptorView {
    pub verb: VerbView,
    pub url: Seq<char>,
    pub headers: Seq<HeaderEntryView>,
    pub body: BodyView,
}

impl View for RequestDescriptor {
    type V = RequestDescriptorView;

    open spec fn view(&self) -> RequestDescriptorView {
        RequestDescriptorView {
            verb: self.verb@,
            url: self.url@,
            headers: self.headers@,
            body: self.body@,
        }
    }
}

/// The wire entry that a compiled header gives for one call: its fixed
/// value, or the external form of the value passed for its parameter,
/// which must be a header value.
pub open spec fn entry_of(slot: SlotView, values: Seq<ArgumentView>) -> Result<
    HeaderEntryView,
    BindErrorView,
> {
    match slot.value {
        SourceView::Fixed(value) => Ok(HeaderEntryView { name: slot.name, value }),
        SourceView::Param(param) => match lookup(values, param) {
            None => Err(BindErrorView::MissingValue(param)),
            Some(v) => if is_header_value(external_form(v)) {
                Ok(HeaderEntryView { name: slot.name, value: external_form(v) })
            } else {
                Err(BindErrorView::InvalidHeaderValue(slot.name))
            },
        },
    }
}

/// The wire entries that compiled headers give for one call, in order; the
/// error of the first that gives none.
pub open spec fn entries_of(slots: Seq<SlotView>, values: Seq<ArgumentView>) -> Result<
    Seq<HeaderEntryView>,
    BindErrorView,
>
    decreases slots.len(),
{
    if slots.len() == 0 {
        Ok(Seq::empty())
    } else {
        match entries_of(slots.drop_last(), values) {
            Err(e) => Err(e),
            Ok(init) => match entry_of(slots.last(), values) {
                Err(e) => Err(e),
                Ok(entry) => Ok(init.push(entry)),
            },
        }
    }
}

/// The wire entry of a header set for one call: its name brought into
/// wire form, and its value, which must be a header value.
pub open spec fn override_of(entry: HeaderEntryView) -> Result<HeaderEntryView, BindErrorView> {
    match wire_form(entry.name) {
        None => Err(BindErrorView::InvalidHeaderName(entry.name)),
        Some(wire) => if is_header_value(entry.value) {
            Ok(HeaderEntryView { name: wire, value: entry.value })
        } else {
            Err(BindErrorView::InvalidHeaderValue(wire))
        },
    }
}

/// The wire entries of the headers set for one call, in order; the error
/// of the first that has none.
pub open spec fn overrides_of(entries: Seq<HeaderEntryView>) -> Result<
    Seq<HeaderEntryView>,
    BindErrorView,
>
    decreases entries.len(),
{
    if entries.len() == 0 {
        Ok(Seq::empty())
    } else {
        match overrides_of(entries.drop_last()) {
            Err(e) => Err(e),
            Ok(init) => match override_of(entries.last()) {
                Err(e) => Err(e),
                Ok(entry) => Ok(init.push(entry)),
            },
        }
    }
}

/// Once a prefix of the headers fails, the whole list fails in the same way.
pub proof fn lemma_entries_of_fails(slots: Seq<SlotView>, values: Seq<ArgumentView>, n: int)
    requires
        0 <= n <= slots.len(),
        entries_of(slots.take(n), values) is Err,
    ensures
        entries_of(slots, values) == entries_of(slots.take(n), values),
    decreases slots.len() - n,
{
    if n == slots.len() {
        assert(slots.take(n) == slots);
    } else {
        assert(slots.take(n + 1).drop_last() == slots.take(n));
        lemma_entries_of_fails(slots, values, n + 1);
    }
}

/// Once a prefix of the headers fails, the whole list fails in the same way.
pub proof fn lemma_overrides_of_fails(entries: Seq<HeaderEntryView>, n: int)
    requires
        0 <= n <= entries.len(),
        overrides_of(entries.take(n)) is Err,
    ensures
        overrides_of(entries) == overrides_of(entries.take(n)),
    decreases entries.len() - n,
{
    if n == entries.len() {
        assert(entries.take(n) == entries);
    } else {
        assert(entries.take(n + 1).drop_last() == entries.take(n));
        lemma_overrides_of_fails(entries, n + 1);
    }
}

/// The request that a template gives for one call, below a base URL and
/// on top of the interface's default headers. The steps, each of which may
/// fail, in order: the path is resolved and put behind the base URL; the
/// default headers, the method's headers and the call's headers are
/// brought into wire entries and composed in that order; the encode
/// strategy is applied to what the call passes.
pub open spec fn bound_request(
    template: RequestTemplateView,
    base_url: Seq<char>,
    defaults: Seq<SlotView>,
    call: InvocationView,
) -> Result<RequestDescriptorView, BindErrorView> {
    match expand(template.path, bindings(template.args, call.values)) {
        Err(name) => Err(BindErrorView::UnresolvedPlaceholder(name)),
        Ok(path) => match entries_of(defaults, call.values) {
            Err(e) => Err(e),
            Ok(default_entries) => match entries_of(template.headers, call.values) {
                Err(e) => Err(e),
                Ok(method_entries) => match overrides_of(call.headers) {
                    Err(e) => Err(e),
                    Ok(call_entries) => match encoded(
                        template.encode.kind,
                        base_url + path,
                        call.payload,
                    ) {
                        None => Err(BindErrorView::PayloadMismatch),
                        Some((url, body)) => Ok(
                            RequestDescriptorView {
                                verb: template.verb,
                                url,
                                headers: composed(default_entries, method_entries, call_entries),
                                body,
                            },
                        ),
                    },
                },
            },
        },
    }
}

fn entry_for(slot: &Slot, values: &Vec<Argument>) -> (r: Result<HeaderEntry, BindError>)
    ensures
        view_result(r) == entry_of(slot@, views(values@)),
{
    match &slot.value {
        Source::Fixed(value) => Ok(HeaderEntry { name: slot.name.clone(), value: value.clone() }),
        Source::Param(param) => match crate::template::value_of(values, param.as_str()) {
            None => Err(BindError::MissingValue(param.clone())),
            Some(v) => {
                let text = v.external();
                if crate::header::valid_value(text.as_str()) {
                    Ok(HeaderEntry { name: slot.name.clone(), value: text })
                } else {
                    Err(BindError::InvalidHeaderValue(slot.name.clone()))
                }
            },
        },
    }
}

/// Brings compiled headers into wire entries for one call.
pub fn entries_for(slots: &Vec<Slot>, values: &Vec<Argument>) -> (r: Result<HeaderSet, BindError>)
    ensures
        view_result(r) == entries_of(views(slots@), views(values@)),
{
    let mut set = HeaderSet::new();
    let mut i: usize = 0;
    let ghost all = views(slots@);
    while i < slots.len()
        invariant
            i <= slots.len(),
            all == views(slots@),
            entries_of(all.take(i as int), views(values@)) == Ok::<
                Seq<HeaderEntryView>,
                BindErrorView,
            >(set@),
        decreases slots.len() - i,
    {
        proof {
            assert(all.take(i + 1).drop_last() == all.take(i as int));
            assert(all.take(i + 1).last() == slots@[i as int]@);
        }
        match entry_for(&slots[i], values) {
            Err(e) => {
                proof {
                    lemma_entries_of_fails(all, views(values@), i + 1);
                }
                return Err(e);
            },
            Ok(entry) => {
                set.push(entry);
            },
        }
        i += 1;
    }
    proof {
        assert(all.take(i as int) == all);
    }
    Ok(set)
}

fn override_for(entry: &HeaderEntry) -> (r: Result<HeaderEntry, BindError>)
    ensures
        view_result(r) == override_of(entry@),
{
    match crate::header::wire_name(entry.name.as_str()) {
        None => Err(BindError::InvalidHeaderName(entry.name.clone())),
        Some(wire) => {
            if crate::header::valid_value(entry.value.as_str()) {
                Ok(HeaderEntry { name: wire, value: entry.value.clone() })
            } else {
                Err(BindError::InvalidHeaderValue(wire))
            }
        },
    }
}

/// Brings the headers set for one call into wire entries.
pub fn overrides_for(entries: &Vec<HeaderEntry>) -> (r: Result<HeaderSet, BindError>)
    ensures
        view_result(r) == overrides_of(views(entries@)),
{
    let mut set = HeaderSet::new();
    let mut i: usize = 0;
    let ghost all = views(entries@);
    while i < entries.len()
        invariant
            i <= entries.len(),
            all == views(entries@),
            overrides_of(all.take(i as int)) == Ok::<Seq<HeaderEntryView>, BindErrorView>(set@),
        decreases entries.len() - i,
    {
        proof {
            assert(all.take(i + 1).drop_last() == all.take(i as int));
            assert(all.take(i + 1).last() == entries@[i as int]@);
        }
        match override_for(&entries[i]) {
            Err(e) => {
                proof {
                    lemma_overrides_of_fails(all, i + 1);
                }
                return Err(e);
            },
            Ok(entry) => {
                set.push(entry);
            },
        }
        i += 1;
    }
    proof {
        assert(all.take(i as int) == all);
    }
    Ok(set)
}

impl RequestTemplate {
    /// Binds this template to the values of one call: the outcome is the
    /// one request that the call stands for, or the first error met.
    pub fn bind(&self, base_url: &str, defaults: &Vec<Slot>, call: Invocation) -> (r: Result<
        RequestDescriptor,
        BindError,
    >)
        ensures
            view_result(r) == bound_request(self@, base_url@, views(defaults@), call@),
    {
        let path = match crate::template::resolve(self.path.as_str(), &self.args, &call.values) {
            Err(e) => {
                return Err(BindError::UnresolvedPlaceholder(e.name));
            },
            Ok(path) => path,
        };
        let default_entries = match entries_for(defaults, &call.values) {
            Err(e) => {
                return Err(e);
            },
            Ok(set) => set,
        };
        let method_entries = match entries_for(&self.headers, &call.values) {
            Err(e) => {
                return Err(e);
            },
            Ok(set) => set,
        };
        let call_entries = match overrides_for(&call.headers) {
            Err(e) => {
                return Err(e);
            },
            Ok(set) => set,
        };
        let mut url = base_url.to_owned();
        url.append(path.as_str());
        match crate::encode::apply(self.encode.kind, url, call.payload) {
            None => Err(BindError::PayloadMismatch),
            Some((url, body)) => Ok(
                RequestDescriptor {
                    verb: self.verb.clone(),
                    url,
                    headers: HeaderSet::compose(&default_entries, &method_entries, &call_entries),
                    body,
                },
            ),
        }
    }
}

impl RequestTemplate {
    /// Decodes a response to a call of this method, under the method's
    /// decode strategy.
    pub fn decode(&self, response: Response) -> (r: Result<Decoded, Cause>)
        ensures
            view_result(r) == decoded(self@.decode, returns_value(self@.output), response@),
    {
        crate::response::decode(&self.decode, self.output.has_value(), response)
    }
}

/// A call that failed: the verb and the URL of its request, and why it
/// failed.
#[derive(Debug, PartialEq, Eq)]
pub struct CallFailure {
    pub verb: Verb,
    pub url: String,
    pub cause: Cause,
}

pub struct CallFailureView {
    pub verb: VerbView,
    pub url: Seq<char>,
    pub cause: CauseView,
}

impl View for CallFailure {
    type V = CallFailureView;

    open spec fn view(&self) -> CallFailureView {
        CallFailureView { verb: self.verb@, url: self.url@, cause: self.cause@ }
    }
}

impl RequestDescriptor {
    /// The failure of this request's call, for the given cause.
    pub fn failure(&self, cause: Cause) -> (r: CallFailure)
        ensures
            r@ == (CallFailureView { verb: self@.verb, url: self@.url, cause: cause@ }),
    {
        CallFailure { verb: self.verb.clone(), url: self.url.clone(), cause }
    }
}

/// Whether a value is passed for each of the parameters.
pub open spec fn covers(values: Seq<ArgumentView>, params: Seq<Seq<char>>) -> bool {
    forall|p: Seq<char>| params.contains(p) ==> lookup(values, p) is Some
}

/// Whether an error is one that a header's value or name can cause, or a
/// payload that does not fit.
pub open spec fn is_fault_of_the_call(error: BindErrorView) -> bool {
    ||| error is InvalidHeaderValue
    ||| error is InvalidHeaderName
    ||| error is PayloadMismatch
}

proof fn lemma_entries_of_covered(
    slots: Seq<SlotView>,
    params: Seq<Seq<char>>,
    values: Seq<ArgumentView>,
)
    requires
        slots_well_formed(slots, params),
        covers(values, params),
    ensures
        entries_of(slots, values) matches Err(e) ==> e is InvalidHeaderValue,
    decreases slots.len(),
{
    if slots.len() > 0 {
        let init = slots.drop_last();
        assert forall|k: int| 0 <= k < init.len() implies (#[trigger] init[k]).well_formed(
            params,
        ) by {
            assert(init[k] == slots[k]);
        }
        lemma_entries_of_covered(init, params, values);
        assert(slots[slots.len() - 1].well_formed(params));
    }
}

proof fn lemma_overrides_of_faults(entries: Seq<HeaderEntryView>)
    ensures
        overrides_of(entries) matches Err(e) ==> e is InvalidHeaderValue || e is InvalidHeaderName,
    decreases entries.len(),
{
    if entries.len() > 0 {
        lemma_overrides_of_faults(entries.drop_last());
    }
}

/// A well-formed template binds at every call that passes a value for each
/// parameter of the method, unless a header of the call is at fault or the
/// payload does not fit: a placeholder without a binding and a header
/// without a parameter are found when the method is compiled, never when
/// it is called.
pub proof fn law_well_formed_template_binds(
    template: RequestTemplateView,
    base_url: Seq<char>,
    defaults: Seq<SlotView>,
    call: InvocationView,
)
    requires
        template.well_formed(),
        slots_well_formed(defaults, Seq::empty()),
        covers(call.values, template.params),
    ensures
        expand(template.path, bindings(template.args, call.values)) is Ok,
        bound_request(template, base_url, defaults, call) matches Err(e)
            ==> is_fault_of_the_call(e),
{
    crate::template::law_checked_template_resolves(
        template.path,
        template.args,
        template.params,
        call.values,
    );
    assert forall|k: int| 0 <= k < defaults.len() implies (#[trigger] defaults[k]).well_formed(
        template.params,
    ) by {
        assert(defaults[k].well_formed(Seq::empty()));
        if let SourceView::Param(p) = defaults[k].value {
            assert(Seq::<Seq<char>>::empty().contains(p));
        }
    }
    lemma_entries_of_covered(defaults, template.params, call.values);
    lemma_entries_of_covered(template.headers, template.params, call.values);
    lemma_overrides_of_faults(call.headers);
}

/// A JSON document passes through the library unchanged in both
/// directions: the bytes that the serializer made of a value are the body
/// of the request, under the JSON content type, and the bytes of a
/// successful response are what the serializer is given to read. So a
/// value that the serializer reads back from its own bytes comes back
/// from a server that echoes the body.
pub proof fn law_json_document_passes_unchanged(
    url: Seq<char>,
    document: Seq<u8>,
    status: u16,
    headers: Seq<HeaderEntryView>,
)
    requires
        crate::response::is_success(status),
    ensures
        encoded(EncodeKind::Json, url, PayloadView::Json(document)) == Some(
            (
                url,
                BodyView::Bytes { content_type: Some(crate::encode::json_type()), data: document },
            ),
        ),
        decoded(DecodeSpecView::Json, true, ResponseView { status, headers, body: document })
            == Ok::<DecodedView, CauseView>(DecodedView::Json(document)),
{
}

} // verus!
