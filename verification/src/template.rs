//! Path templates: finding the placeholders of a template and replacing
//! them by values.

use vstd::prelude::*;

use crate::error::{DefinitionError, DefinitionErrorView};
use crate::meta::{external_form, views, Expr, ExprView, Value, ValueView};
use crate::request::{Arg, ArgView};
use crate::text::{chars_of, same_text};

verus! {

/// A character that a placeholder's name may hold: an ASCII letter, a
/// digit or an underscore.
pub open spec fn is_name_char(c: char) -> bool {
    ||| ('a' <= c && c <= 'z')
    ||| ('A' <= c && c <= 'Z')
    ||| ('0' <= c && c <= '9')
    ||| c == '_'
}

/// A placeholder's name: one character or more, each of them a name
/// character.
pub open spec fn is_name(name: Seq<char>) -> bool {
    &&& name.len() > 0
    &&& forall|i: int| 0 <= i < name.len() ==> is_name_char(#[trigger] name[i])
}

/// The first position at or after `from` that holds no name character; the
/// template's length if there is none.
pub open spec fn name_end(t: Seq<char>, from: int) -> int
    decreases t.len() - from,
{
    if 0 <= from < t.len() && is_name_char(t[from]) {
        name_end(t, from + 1)
    } else {
        from
    }
}

/// The first position at or after `from` that holds a closing brace; the
/// template's length if there is none.
pub open spec fn close_from(t: Seq<char>, from: int) -> int
    decreases t.len() - from,
{
    if 0 <= from < t.len() && t[from] != '}' {
        close_from(t, from + 1)
    } else {
        from
    }
}

/// The placeholder that starts at position `i`, as its name and the
/// position behind its closing brace. A placeholder is an opening brace, a
/// name, then either a closing brace, or a colon and a format that runs up
/// to the next closing brace.
pub open spec fn placeholder_at(t: Seq<char>, i: int) -> Option<(Seq<char>, int)> {
    if 0 <= i < t.len() && t[i] == '{' {
        let j = name_end(t, i + 1);
        if j == i + 1 || j >= t.len() {
            None
        } else if t[j] == '}' {
            Some((t.subrange(i + 1, j), j + 1))
        } else if t[j] == ':' {
            let k = close_from(t, j + 1);
            if k < t.len() {
                Some((t.subrange(i + 1, j), k + 1))
            } else {
                None
            }
        } else {
            None
        }
    } else {
        None
    }
}

/// The names of the placeholders that a scan from position `i` meets, from
/// left to right, each as often as it occurs. (A placeholder ends behind
/// its start, so the scan always goes on behind it.)
pub open spec fn names_from(t: Seq<char>, i: int) -> Seq<Seq<char>>
    decreases t.len() - i,
{
    if i < 0 || i >= t.len() {
        Seq::empty()
    } else {
        match placeholder_at(t, i) {
            Some((name, end)) => if end > i {
                seq![name] + names_from(t, end)
            } else {
                Seq::empty()
            },
            None => names_from(t, i + 1),
        }
    }
}

/// The names of a template's placeholders, from left to right.
pub open spec fn names(t: Seq<char>) -> Seq<Seq<char>> {
    names_from(t, 0)
}

/// The text that a scan from position `i` yields when each placeholder is
/// replaced by what `env` binds to its name; the name of the leftmost
/// placeholder that `env` leaves unbound. (A placeholder ends behind its
/// start, so the scan always goes on behind it.)
pub open spec fn expand_from(
    t: Seq<char>,
    i: int,
    env: spec_fn(Seq<char>) -> Option<Seq<char>>,
) -> Result<Seq<char>, Seq<char>>
    decreases t.len() - i,
{
    if i < 0 || i >= t.len() {
        Ok(Seq::empty())
    } else {
        match placeholder_at(t, i) {
            Some((name, end)) => if end > i {
                match env(name) {
                    None => Err(name),
                    Some(value) => match expand_from(t, end, env) {
                        Err(e) => Err(e),
                        Ok(rest) => Ok(value + rest),
                    },
                }
            } else {
                Ok(Seq::empty())
            },
            None => match expand_from(t, i + 1, env) {
                Err(e) => Err(e),
                Ok(rest) => Ok(seq![t[i]] + rest),
            },
        }
    }
}

/// The template with each placeholder replaced by what `env` binds to its
/// name; the name of the leftmost placeholder that `env` leaves unbound.
pub open spec fn expand(t: Seq<char>, env: spec_fn(Seq<char>) -> Option<Seq<char>>) -> Result<
    Seq<char>,
    Seq<char>,
> {
    expand_from(t, 0, env)
}

/// The end of a name lies between its start and the template's end, and
/// every position before it holds a name character.
pub proof fn lemma_name_end(t: Seq<char>, from: int)
    requires
        0 <= from <= t.len(),
    ensures
        from <= name_end(t, from) <= t.len(),
        forall|k: int| from <= k < name_end(t, from) ==> is_name_char(#[trigger] t[k]),
        name_end(t, from) < t.len() ==> !is_name_char(t[name_end(t, from)]),
    decreases t.len() - from,
{
    if from < t.len() && is_name_char(t[from]) {
        lemma_name_end(t, from + 1);
    }
}

/// The closing brace lies between the start and the template's end, and no
/// position before it holds one.
pub proof fn lemma_close_from(t: Seq<char>, from: int)
    requires
        0 <= from <= t.len(),
    ensures
        from <= close_from(t, from) <= t.len(),
        forall|k: int| from <= k < close_from(t, from) ==> #[trigger] t[k] != '}',
        close_from(t, from) < t.len() ==> t[close_from(t, from)] == '}',
    decreases t.len() - from,
{
    if from < t.len() && t[from] != '}' {
        lemma_close_from(t, from + 1);
    }
}

/// A placeholder has a name and ends behind its start, within the template.
pub proof fn lemma_placeholder_at(t: Seq<char>, i: int)
    ensures
        placeholder_at(t, i) matches Some((name, end)) ==> {
            &&& is_name(name)
            &&& i + name.len() + 2 <= end <= t.len()
            &&& name == t.subrange(i + 1, i + 1 + name.len())
            &&& t[end - 1] == '}'
        },
{
    if 0 <= i < t.len() && t[i] == '{' {
        lemma_name_end(t, i + 1);
        let j = name_end(t, i + 1);
        if j != i + 1 && j < t.len() && t[j] == ':' {
            lemma_close_from(t, j + 1);
        }
    }
}

fn name_char(c: char) -> (r: bool)
    ensures
        r == is_name_char(c),
{
    (c >= 'a' && c <= 'z') || (c >= 'A' && c <= 'Z') || (c >= '0' && c <= '9') || c == '_'
}

fn scan_name(t: &Vec<char>, from: usize) -> (j: usize)
    requires
        from <= t.len(),
    ensures
        j == name_end(t@, from as int),
        from <= j <= t.len(),
{
    let mut j = from;
    while j < t.len() && name_char(t[j])
        invariant
            from <= j <= t.len(),
            name_end(t@, from as int) == name_end(t@, j as int),
        decreases t.len() - j,
    {
        j += 1;
    }
    j
}

fn scan_close(t: &Vec<char>, from: usize) -> (k: usize)
    requires
        from <= t.len(),
    ensures
        k == close_from(t@, from as int),
        from <= k <= t.len(),
{
    let mut k = from;
    while k < t.len() && t[k] != '}'
        invariant
            from <= k <= t.len(),
            close_from(t@, from as int) == close_from(t@, k as int),
        decreases t.len() - k,
    {
        k += 1;
    }
    k
}

/// The placeholder that starts at position `i`, as the position behind its
/// name and the position behind its closing brace.
fn placeholder(t: &Vec<char>, i: usize) -> (r: Option<(usize, usize)>)
    requires
        i < t.len(),
    ensures
        match r {
            Some((j, end)) => {
                &&& placeholder_at(t@, i as int) == Some((t@.subrange(i + 1, j as int), end as int))
                &&& i + 1 < j < end <= t.len()
            },
            None => placeholder_at(t@, i as int) is None,
        },
{
    if t[i] != '{' {
        return None;
    }
    let j = scan_name(t, i + 1);
    if j == i + 1 || j >= t.len() {
        None
    } else if t[j] == '}' {
        Some((j, j + 1))
    } else if t[j] == ':' {
        let k = scan_close(t, j + 1);
        if k < t.len() {
            Some((j, k + 1))
        } else {
            None
        }
    } else {
        None
    }
}

/// The names of a template's placeholders, from left to right, each as
/// often as it occurs.
pub fn scan_names(t: &Vec<char>) -> (r: Vec<String>)
    ensures
        views(r@) == names(t@),
{
    let mut found: Vec<String> = Vec::new();
    let mut i: usize = 0;
    proof {
        assert(views(found@) == Seq::<Seq<char>>::empty());
    }
    while i < t.len()
        invariant
            i <= t.len(),
            names(t@) == views(found@) + names_from(t@, i as int),
        decreases t.len() - i,
    {
        match placeholder(t, i) {
            Some((j, end)) => {
                let name = crate::text::substring(t, i + 1, j);
                proof {
                    assert(views(found@.push(name)) == views(found@).push(name@));
                    assert(views(found@).push(name@) + names_from(t@, end as int) == views(found@)
                        + (seq![name@] + names_from(t@, end as int)));
                }
                found.push(name);
                i = end;
            },
            None => {
                i += 1;
            },
        }
    }
    proof {
        assert(views(found@) + Seq::<Seq<char>>::empty() == views(found@));
    }
    found
}

/// Whether a list of texts holds the given text.
pub fn holds(items: &Vec<String>, name: &str) -> (r: bool)
    ensures
        r == views(items@).contains(name@),
{
    let mut i: usize = 0;
    while i < items.len()
        invariant
            i <= items.len(),
            forall|k: int| 0 <= k < i ==> views(items@)[k] != name@,
        decreases items.len() - i,
    {
        if same_text(items[i].as_str(), name) {
            assert(views(items@)[i as int] == name@);
            return true;
        }
        i += 1;
    }
    false
}

/// The names of a template's placeholders, each once, in the order in
/// which they first occur.
pub fn placeholders(template: &str) -> (r: Vec<String>)
    ensures
        views(r@).no_duplicates(),
        forall|name: Seq<char>| views(r@).contains(name) <==> names(template@).contains(name),
{
    let t = chars_of(template);
    let all = scan_names(&t);
    let mut found: Vec<String> = Vec::new();
    let mut i: usize = 0;
    let ghost every = views(all@);
    while i < all.len()
        invariant
            i <= all.len(),
            every == views(all@),
            views(found@).no_duplicates(),
            forall|name: Seq<char>|
                #[trigger] views(found@).contains(name) <==> every.take(i as int).contains(name),
        decreases all.len() - i,
    {
        let ghost before = views(found@);
        let ghost name = all@[i as int]@;
        let known = holds(&found, all[i].as_str());
        if !known {
            let fresh = all[i].clone();
            found.push(fresh);
        }
        proof {
            let after = views(found@);
            assert(every.take(i + 1) == every.take(i as int).push(name));
            if !known {
                assert(after == before.push(name));
            }
            let next = every.take(i + 1);
            assert forall|other: Seq<char>| #[trigger]
                after.contains(other) <==> next.contains(other) by {
                let seen = every.take(i as int);
                if after.contains(other) {
                    let k = choose|k: int| 0 <= k < after.len() && after[k] == other;
                    if k < before.len() {
                        assert(before[k] == other);
                        assert(before.contains(other));
                        assert(seen.contains(other));
                        let m = choose|m: int| 0 <= m < seen.len() && seen[m] == other;
                        assert(next[m] == other);
                    } else {
                        assert(other == name);
                        assert(next[i as int] == other);
                    }
                }
                if next.contains(other) {
                    let m = choose|m: int| 0 <= m < next.len() && next[m] == other;
                    if m < i {
                        assert(seen[m] == other);
                        assert(seen.contains(other));
                        assert(before.contains(other));
                        let k = choose|k: int| 0 <= k < before.len() && before[k] == other;
                        assert(after[k] == other);
                    } else {
                        assert(other == name);
                        if known {
                            assert(before.contains(name));
                        } else {
                            assert(after[before.len() as int] == other);
                        }
                    }
                }
            }
        }
        i += 1;
    }
    proof {
        assert(every.take(i as int) == every);
    }
    found
}

/// The value that a caller passes for a parameter, under the parameter's
/// name.
#[derive(Debug, PartialEq, Eq)]
pub struct Argument {
    pub name: String,
    pub value: Value,
}

pub struct ArgumentView {
    pub name: Seq<char>,
    pub value: ValueView,
}

impl View for Argument {
    type V = ArgumentView;

    open spec fn view(&self) -> ArgumentView {
        ArgumentView { name: self.name@, value: self.value@ }
    }
}

/// The value of the first argument at or after position `i` that bears the
/// name.
pub open spec fn lookup_from(values: Seq<ArgumentView>, name: Seq<char>, i: int) -> Option<
    ValueView,
>
    decreases values.len() - i,
{
    if i < 0 || i >= values.len() {
        None
    } else if values[i].name == name {
        Some(values[i].value)
    } else {
        lookup_from(values, name, i + 1)
    }
}

/// The value passed under the name: that of the first argument that bears
/// it.
pub open spec fn lookup(values: Seq<ArgumentView>, name: Seq<char>) -> Option<ValueView> {
    lookup_from(values, name, 0)
}

/// The first declared argument at or after position `i` that bears the
/// name.
pub open spec fn find_arg_from(args: Seq<ArgView>, name: Seq<char>, i: int) -> Option<ArgView>
    decreases args.len() - i,
{
    if i < 0 || i >= args.len() {
        None
    } else if args[i].ident == name {
        Some(args[i])
    } else {
        find_arg_from(args, name, i + 1)
    }
}

/// The declared argument of the name: the first that bears it.
pub open spec fn find_arg(args: Seq<ArgView>, name: Seq<char>) -> Option<ArgView> {
    find_arg_from(args, name, 0)
}

/// The external form of a value that was found, if one was.
pub open spec fn form_of(value: Option<ValueView>) -> Option<Seq<char>> {
    match value {
        Some(v) => Some(external_form(v)),
        None => None,
    }
}

/// The text bound to a name for one call. A declared argument of that name
/// decides: its literal, or the value passed for the parameter that it
/// refers to (the parameter of its own name where it has no expression).
/// Without a declared argument, the value passed for the parameter of that
/// name.
pub open spec fn bound_text(
    args: Seq<ArgView>,
    values: Seq<ArgumentView>,
    name: Seq<char>,
) -> Option<Seq<char>> {
    match find_arg(args, name) {
        Some(arg) => match arg.expr {
            None => form_of(lookup(values, name)),
            Some(ExprView::Literal(v)) => Some(external_form(v)),
            Some(ExprView::Name(param)) => form_of(lookup(values, param)),
            Some(ExprView::Call { .. }) => None,
        },
        None => form_of(lookup(values, name)),
    }
}

/// The binding of names to texts for one call.
pub open spec fn bindings(args: Seq<ArgView>, values: Seq<ArgumentView>) -> spec_fn(
    Seq<char>,
) -> Option<Seq<char>> {
    |name: Seq<char>| bound_text(args, values, name)
}

/// The value passed under the name.
pub fn value_of<'a>(values: &'a Vec<Argument>, name: &str) -> (r: Option<&'a Value>)
    ensures
        match r {
            Some(v) => lookup(views(values@), name@) == Some(v@),
            None => lookup(views(values@), name@) is None,
        },
{
    let mut i: usize = 0;
    while i < values.len()
        invariant
            i <= values.len(),
            lookup(views(values@), name@) == lookup_from(views(values@), name@, i as int),
        decreases values.len() - i,
    {
        assert(views(values@)[i as int] == values@[i as int]@);
        if same_text(values[i].name.as_str(), name) {
            return Some(&values[i].value);
        }
        i += 1;
    }
    None
}

/// The declared argument of the name.
pub fn arg_of<'a>(args: &'a Vec<Arg>, name: &str) -> (r: Option<&'a Arg>)
    ensures
        match r {
            Some(a) => find_arg(views(args@), name@) == Some(a@),
            None => find_arg(views(args@), name@) is None,
        },
{
    let mut i: usize = 0;
    while i < args.len()
        invariant
            i <= args.len(),
            find_arg(views(args@), name@) == find_arg_from(views(args@), name@, i as int),
        decreases args.len() - i,
    {
        assert(views(args@)[i as int] == args@[i as int]@);
        if same_text(args[i].ident.as_str(), name) {
            return Some(&args[i]);
        }
        i += 1;
    }
    None
}

fn passed_form(values: &Vec<Argument>, name: &str) -> (r: Option<String>)
    ensures
        match r {
            Some(text) => form_of(lookup(views(values@), name@)) == Some(text@),
            None => form_of(lookup(views(values@), name@)) is None,
        },
{
    match value_of(values, name) {
        Some(v) => Some(v.external()),
        None => None,
    }
}

/// The text bound to a name for one call.
pub fn bound(args: &Vec<Arg>, values: &Vec<Argument>, name: &str) -> (r: Option<String>)
    ensures
        match r {
            Some(text) => bound_text(views(args@), views(values@), name@) == Some(text@),
            None => bound_text(views(args@), views(values@), name@) is None,
        },
{
    match arg_of(args, name) {
        Some(arg) => match &arg.expr {
            None => passed_form(values, name),
            Some(Expr::Literal(v)) => Some(v.external()),
            Some(Expr::Name(param)) => passed_form(values, param.as_str()),
            Some(Expr::Call { .. }) => None,
        },
        None => passed_form(values, name),
    }
}

/// A placeholder to which a call binds nothing.
#[derive(Debug, PartialEq, Eq)]
pub struct Unresolved {
    pub name: String,
}

/// A text before the outcome of what follows it.
pub open spec fn prepend(head: Seq<char>, tail: Result<Seq<char>, Seq<char>>) -> Result<
    Seq<char>,
    Seq<char>,
> {
    match tail {
        Ok(rest) => Ok(head + rest),
        Err(e) => Err(e),
    }
}

/// Replaces each placeholder of the template by the text bound to its name
/// for this call. Fails on the leftmost placeholder to which nothing is
/// bound.
pub fn resolve(template: &str, args: &Vec<Arg>, values: &Vec<Argument>) -> (r: Result<
    String,
    Unresolved,
>)
    ensures
        match r {
            Ok(path) => expand(template@, bindings(views(args@), views(values@))) == Ok::<
                Seq<char>,
                Seq<char>,
            >(path@),
            Err(e) => expand(template@, bindings(views(args@), views(values@))) == Err::<
                Seq<char>,
                Seq<char>,
            >(e.name@),
        },
{
    let t = chars_of(template);
    let ghost env = bindings(views(args@), views(values@));
    let mut out = String::new();
    let mut i: usize = 0;
    proof {
        assert(Seq::<char>::empty() + expand_from(t@, 0, env)->Ok_0 == expand_from(t@, 0, env)->Ok_0);
    }
    while i < t.len()
        invariant
            i <= t.len(),
            t@ == template@,
            env == bindings(views(args@), views(values@)),
            expand(t@, env) == prepend(out@, expand_from(t@, i as int, env)),
        decreases t.len() - i,
    {
        let ghost before = out@;
        match placeholder(&t, i) {
            Some((j, end)) => {
                let name = crate::text::substring(&t, i + 1, j);
                match bound(args, values, name.as_str()) {
                    None => {
                        return Err(Unresolved { name });
                    },
                    Some(text) => {
                        out.append(text.as_str());
                        proof {
                            let rest = expand_from(t@, end as int, env);
                            if rest is Ok {
                                assert(before + (text@ + rest->Ok_0) == (before + text@)
                                    + rest->Ok_0);
                            }
                        }
                        i = end;
                    },
                }
            },
            None => {
                out.push(t[i]);
                proof {
                    let rest = expand_from(t@, i + 1, env);
                    if rest is Ok {
                        assert(before + (seq![t@[i as int]] + rest->Ok_0) == before.push(
                            t@[i as int],
                        ) + rest->Ok_0);
                    }
                }
                i += 1;
            },
        }
    }
    proof {
        assert(out@ + Seq::<char>::empty() == out@);
    }
    Ok(out)
}

/// How many of the declared arguments bear the name.
pub open spec fn count_args(args: Seq<ArgView>, name: Seq<char>) -> nat
    decreases args.len(),
{
    if args.len() == 0 {
        0
    } else if args.last().ident == name {
        count_args(args.drop_last(), name) + 1
    } else {
        count_args(args.drop_last(), name)
    }
}

/// Whether a placeholder of the name can be resolved from the declared
/// arguments and the method's parameters.
pub open spec fn resolvable(args: Seq<ArgView>, params: Seq<Seq<char>>, name: Seq<char>) -> bool {
    match find_arg(args, name) {
        Some(arg) => match arg.expr {
            None => params.contains(name),
            Some(ExprView::Literal(_)) => true,
            Some(ExprView::Name(param)) => params.contains(param),
            Some(ExprView::Call { .. }) => false,
        },
        None => params.contains(name),
    }
}

/// What is wrong with a placeholder of the name, if anything: two declared
/// arguments bear its name, or nothing resolves it.
pub open spec fn check_name(args: Seq<ArgView>, params: Seq<Seq<char>>, name: Seq<char>) -> Result<
    (),
    DefinitionErrorView,
> {
    if count_args(args, name) >= 2 {
        Err(DefinitionErrorView::AmbiguousPlaceholder(name))
    } else if !resolvable(args, params, name) {
        Err(DefinitionErrorView::UnresolvedPlaceholder(name))
    } else {
        Ok(())
    }
}

/// What is wrong with the first of the names at or after position `i`
/// with which something is wrong.
pub open spec fn check_names_from(
    names: Seq<Seq<char>>,
    i: int,
    args: Seq<ArgView>,
    params: Seq<Seq<char>>,
) -> Result<(), DefinitionErrorView>
    decreases names.len() - i,
{
    if i < 0 || i >= names.len() {
        Ok(())
    } else {
        match check_name(args, params, names[i]) {
            Err(e) => Err(e),
            Ok(_) => check_names_from(names, i + 1, args, params),
        }
    }
}

/// What is wrong with a template's placeholders, from left to right, given
/// the declared arguments and the method's parameters.
pub open spec fn check_template(
    t: Seq<char>,
    args: Seq<ArgView>,
    params: Seq<Seq<char>>,
) -> Result<(), DefinitionErrorView> {
    check_names_from(names(t), 0, args, params)
}

fn count_of(args: &Vec<Arg>, name: &str) -> (r: usize)
    ensures
        r == count_args(views(args@), name@),
{
    let mut n: usize = 0;
    let mut i: usize = 0;
    let ghost all = views(args@);
    while i < args.len()
        invariant
            i <= args.len(),
            all == views(args@),
            n == count_args(all.take(i as int), name@),
            n <= i,
        decreases args.len() - i,
    {
        proof {
            assert(all.take(i + 1).drop_last() == all.take(i as int));
            assert(all.take(i + 1).last() == args@[i as int]@);
        }
        if same_text(args[i].ident.as_str(), name) {
            n += 1;
        }
        i += 1;
    }
    proof {
        assert(all.take(i as int) == all);
    }
    n
}

fn is_resolvable(args: &Vec<Arg>, params: &Vec<String>, name: &str) -> (r: bool)
    ensures
        r == resolvable(views(args@), views(params@), name@),
{
    match arg_of(args, name) {
        Some(arg) => match &arg.expr {
            None => holds(params, name),
            Some(Expr::Literal(_)) => true,
            Some(Expr::Name(param)) => holds(params, param.as_str()),
            Some(Expr::Call { .. }) => false,
        },
        None => holds(params, name),
    }
}

/// Checks that each placeholder of the template can be resolved, by one
/// declared argument at most or else by a parameter.
pub fn check(template: &str, args: &Vec<Arg>, params: &Vec<String>) -> (r: Result<
    (),
    DefinitionError,
>)
    ensures
        match r {
            Ok(_) => check_template(template@, views(args@), views(params@)) is Ok,
            Err(e) => check_template(template@, views(args@), views(params@)) == Err::<
                (),
                DefinitionErrorView,
            >(e@),
        },
{
    let t = chars_of(template);
    let found = scan_names(&t);
    let ghost all = views(found@);
    let mut i: usize = 0;
    while i < found.len()
        invariant
            i <= found.len(),
            all == views(found@),
            all == names(template@),
            check_template(template@, views(args@), views(params@)) == check_names_from(
                all,
                i as int,
                views(args@),
                views(params@),
            ),
        decreases found.len() - i,
    {
        assert(all[i as int] == found@[i as int]@);
        if count_of(args, found[i].as_str()) >= 2 {
            return Err(DefinitionError::AmbiguousPlaceholder(found[i].clone()));
        }
        if !is_resolvable(args, params, found[i].as_str()) {
            return Err(DefinitionError::UnresolvedPlaceholder(found[i].clone()));
        }
        i += 1;
    }
    Ok(())
}

/// Resolution succeeds exactly where something is bound to the name of
/// every placeholder; where it fails, it names a placeholder to which
/// nothing is bound.
pub proof fn lemma_expand_from_bound(
    t: Seq<char>,
    i: int,
    env: spec_fn(Seq<char>) -> Option<Seq<char>>,
)
    ensures
        expand_from(t, i, env) is Ok <==> (forall|k: int|
            0 <= k < names_from(t, i).len() ==> env(#[trigger] names_from(t, i)[k]) is Some),
        expand_from(t, i, env) matches Err(name) ==> names_from(t, i).contains(name) && env(
            name,
        ) is None,
    decreases t.len() - i,
{
    if 0 <= i < t.len() {
        lemma_placeholder_at(t, i);
        match placeholder_at(t, i) {
            Some((name, end)) => {
                lemma_expand_from_bound(t, end, env);
                let rest = names_from(t, end);
                let all = names_from(t, i);
                assert(all == seq![name] + rest);
                assert(all[0] == name);
                assert forall|k: int| 0 <= k < rest.len() implies rest[k] == all[k + 1] by {}
                if expand_from(t, i, env) is Ok {
                    assert forall|k: int| 0 <= k < all.len() implies env(#[trigger] all[k])
                        is Some by {
                        if k > 0 {
                            assert(all[k] == rest[k - 1]);
                        }
                    }
                }
                if forall|k: int| 0 <= k < all.len() ==> env(#[trigger] all[k]) is Some {
                    assert(env(all[0]) is Some);
                    assert forall|k: int| 0 <= k < rest.len() implies env(#[trigger] rest[k])
                        is Some by {
                        assert(env(all[k + 1]) is Some);
                    }
                }
                if let Err(e) = expand_from(t, i, env) {
                    if env(name) is None {
                        assert(all[0] == e);
                    } else {
                        let k = choose|k: int| 0 <= k < rest.len() && rest[k] == e;
                        assert(all[k + 1] == e);
                    }
                }
            },
            None => {
                lemma_expand_from_bound(t, i + 1, env);
            },
        }
    }
}

/// Resolving a template succeeds exactly where something is bound to the
/// name of each of its placeholders. Where it fails, the name it gives is
/// that of a placeholder of the template to which nothing is bound.
pub proof fn law_resolves_iff_bound(t: Seq<char>, env: spec_fn(Seq<char>) -> Option<Seq<char>>)
    ensures
        expand(t, env) is Ok <==> (forall|k: int|
            0 <= k < names(t).len() ==> env(#[trigger] names(t)[k]) is Some),
        expand(t, env) matches Err(name) ==> names(t).contains(name) && env(name) is None,
{
    lemma_expand_from_bound(t, 0, env);
}

/// A name between braces: the plain form of a placeholder.
pub open spec fn braced(name: Seq<char>) -> Seq<char> {
    seq!['{'] + name + seq!['}']
}

/// Whether the pattern stands in the text at position `i`.
pub open spec fn occurs_at(t: Seq<char>, i: int, pattern: Seq<char>) -> bool {
    &&& 0 <= i
    &&& i + pattern.len() <= t.len()
    &&& t.subrange(i, i + pattern.len()) == pattern
}

/// The text from position `i` on, with every occurrence of the pattern
/// replaced, from left to right.
pub open spec fn replace_from(t: Seq<char>, i: int, pattern: Seq<char>, by: Seq<char>) -> Seq<char>
    decreases t.len() - i,
{
    if i < 0 || i >= t.len() {
        Seq::empty()
    } else if pattern.len() > 0 && occurs_at(t, i, pattern) {
        by + replace_from(t, i + pattern.len(), pattern, by)
    } else {
        seq![t[i]] + replace_from(t, i + 1, pattern, by)
    }
}

/// The text with every occurrence of the pattern replaced.
pub open spec fn replace_all(t: Seq<char>, pattern: Seq<char>, by: Seq<char>) -> Seq<char> {
    replace_from(t, 0, pattern, by)
}

/// Whether every placeholder of the template is the plain placeholder of
/// the one name: that name between braces, without a format.
pub open spec fn only_placeholder(t: Seq<char>, x: Seq<char>) -> bool {
    forall|i: int|
        (#[trigger] placeholder_at(t, i)) is Some ==> placeholder_at(t, i) == Some(
            (x, i + x.len() + 2),
        )
}

proof fn lemma_name_end_is(t: Seq<char>, from: int, e: int)
    requires
        0 <= from <= e <= t.len(),
        forall|k: int| from <= k < e ==> is_name_char(#[trigger] t[k]),
        e == t.len() || !is_name_char(t[e]),
    ensures
        name_end(t, from) == e,
    decreases e - from,
{
    if from < e {
        lemma_name_end_is(t, from + 1, e);
    }
}

/// Where a name between braces stands in a template, a placeholder of
/// that name starts.
pub proof fn lemma_braced_is_placeholder(t: Seq<char>, i: int, x: Seq<char>)
    requires
        is_name(x),
        occurs_at(t, i, braced(x)),
    ensures
        placeholder_at(t, i) == Some((x, i + x.len() + 2)),
{
    let b = braced(x);
    let e = i + 1 + x.len();
    assert(b.len() == x.len() + 2);
    assert(t[i] == t.subrange(i, i + b.len())[0]);
    assert(b[0] == '{');
    let last = e - i;
    assert(t[e] == t.subrange(i, i + b.len())[last]);
    assert(b[last] == '}');
    assert forall|k: int| i + 1 <= k < e implies is_name_char(#[trigger] t[k]) by {
        assert(t[k] == t.subrange(i, i + b.len())[k - i]);
        assert(b[k - i] == x[k - i - 1]);
    }
    lemma_name_end_is(t, i + 1, e);
    assert forall|k: int| 0 <= k < x.len() implies t.subrange(i + 1, e)[k] == x[k] by {
        assert(t[i + 1 + k] == t.subrange(i, i + b.len())[k + 1]);
        assert(b[k + 1] == x[k]);
    }
    assert(t.subrange(i + 1, e) == x);
}

/// Where a plain placeholder starts, its name stands between braces.
pub proof fn lemma_placeholder_is_braced(t: Seq<char>, i: int, x: Seq<char>)
    requires
        placeholder_at(t, i) == Some((x, i + x.len() + 2)),
    ensures
        occurs_at(t, i, braced(x)),
{
    lemma_placeholder_at(t, i);
    let b = braced(x);
    assert(b.len() == x.len() + 2);
    assert forall|k: int| 0 <= k < b.len() implies t.subrange(i, i + b.len())[k] == b[k] by {
        if 0 < k <= x.len() {
            assert(t.subrange(i + 1, i + 1 + x.len())[k - 1] == t[i + k]);
        }
    }
    assert(t.subrange(i, i + b.len()) == b);
}

proof fn lemma_expand_replaces(
    t: Seq<char>,
    i: int,
    x: Seq<char>,
    value: Seq<char>,
    env: spec_fn(Seq<char>) -> Option<Seq<char>>,
)
    requires
        is_name(x),
        only_placeholder(t, x),
        env(x) == Some(value),
    ensures
        expand_from(t, i, env) == Ok::<Seq<char>, Seq<char>>(
            replace_from(t, i, braced(x), value),
        ),
    decreases t.len() - i,
{
    if 0 <= i < t.len() {
        let b = braced(x);
        assert(b.len() == x.len() + 2);
        if placeholder_at(t, i) is Some {
            lemma_placeholder_is_braced(t, i, x);
            lemma_expand_replaces(t, i + b.len(), x, value, env);
        } else {
            if occurs_at(t, i, b) {
                lemma_braced_is_placeholder(t, i, x);
            }
            lemma_expand_replaces(t, i + 1, x, value, env);
        }
    }
}

proof fn lemma_expand_fails_before(
    t: Seq<char>,
    k: int,
    at: int,
    x: Seq<char>,
    env: spec_fn(Seq<char>) -> Option<Seq<char>>,
)
    requires
        is_name(x),
        only_placeholder(t, x),
        occurs_at(t, at, braced(x)),
        0 <= k <= at,
        env(x) is None,
    ensures
        expand_from(t, k, env) == Err::<Seq<char>, Seq<char>>(x),
    decreases at - k,
{
    assert(braced(x).len() == x.len() + 2);
    lemma_braced_is_placeholder(t, at, x);
    if placeholder_at(t, k) is None {
        lemma_expand_fails_before(t, k + 1, at, x, env);
    }
}

/// Where `{x}` is the only kind of placeholder in a template and stands in
/// it somewhere, resolving the template with a text bound to `x` gives the
/// template with every occurrence of `{x}` replaced by that text, and
/// resolving it with nothing bound to `x` fails on `x`.
pub proof fn law_placeholder_replaced(
    t: Seq<char>,
    x: Seq<char>,
    env: spec_fn(Seq<char>) -> Option<Seq<char>>,
)
    requires
        is_name(x),
        only_placeholder(t, x),
        exists|i: int| occurs_at(t, i, braced(x)),
    ensures
        env(x) matches Some(value) ==> expand(t, env) == Ok::<Seq<char>, Seq<char>>(
            replace_all(t, braced(x), value),
        ),
        env(x) is None ==> expand(t, env) == Err::<Seq<char>, Seq<char>>(x),
{
    match env(x) {
        Some(value) => {
            lemma_expand_replaces(t, 0, x, value, env);
        },
        None => {
            let at = choose|i: int| occurs_at(t, i, braced(x));
            lemma_expand_fails_before(t, 0, at, x, env);
        },
    }
}

/// A template without placeholders resolves to itself.
pub proof fn law_plain_template_resolves_to_itself(
    t: Seq<char>,
    env: spec_fn(Seq<char>) -> Option<Seq<char>>,
)
    requires
        forall|i: int| (#[trigger] placeholder_at(t, i)) is None,
    ensures
        expand(t, env) == Ok::<Seq<char>, Seq<char>>(t),
{
    lemma_expand_plain(t, 0, env);
    assert(t.subrange(0, t.len() as int) == t);
}

proof fn lemma_expand_plain(t: Seq<char>, i: int, env: spec_fn(Seq<char>) -> Option<Seq<char>>)
    requires
        forall|k: int| (#[trigger] placeholder_at(t, k)) is None,
        0 <= i <= t.len(),
    ensures
        expand_from(t, i, env) == Ok::<Seq<char>, Seq<char>>(t.subrange(i, t.len() as int)),
    decreases t.len() - i,
{
    if i < t.len() {
        lemma_expand_plain(t, i + 1, env);
        assert(placeholder_at(t, i) is None);
        assert(seq![t[i]] + t.subrange(i + 1, t.len() as int) == t.subrange(i, t.len() as int));
    } else {
        assert(t.subrange(i, t.len() as int) == Seq::<char>::empty());
    }
}

proof fn lemma_check_names_ok(
    names: Seq<Seq<char>>,
    i: int,
    args: Seq<ArgView>,
    params: Seq<Seq<char>>,
)
    requires
        0 <= i,
        check_names_from(names, i, args, params) is Ok,
    ensures
        forall|k: int| i <= k < names.len() ==> check_name(args, params, #[trigger] names[k]) is Ok,
    decreases names.len() - i,
{
    if i < names.len() {
        lemma_check_names_ok(names, i + 1, args, params);
    }
}

/// A template that passed the check when its method was compiled resolves
/// at every call that passes a value for each parameter of the method.
pub proof fn law_checked_template_resolves(
    t: Seq<char>,
    args: Seq<ArgView>,
    params: Seq<Seq<char>>,
    values: Seq<ArgumentView>,
)
    requires
        check_template(t, args, params) is Ok,
        forall|p: Seq<char>| params.contains(p) ==> lookup(values, p) is Some,
    ensures
        expand(t, bindings(args, values)) is Ok,
{
    let env = bindings(args, values);
    lemma_check_names_ok(names(t), 0, args, params);
    assert forall|k: int| 0 <= k < names(t).len() implies env(#[trigger] names(t)[k]) is Some by {
        let name = names(t)[k];
        assert(check_name(args, params, name) is Ok);
        assert(resolvable(args, params, name));
    }
    law_resolves_iff_bound(t, env);
}

} // verus!
