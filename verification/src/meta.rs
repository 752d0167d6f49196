//! The metadata model: plain values that describe one annotated interface.

use vstd::prelude::*;

use crate::text::{decimal, push_decimal, push_signed_decimal, same_text, signed_decimal};

verus! {

/// The views of the items of a sequence, in order.
pub open spec fn views<T: View>(items: Seq<T>) -> Seq<T::V> {
    Seq::new(items.len(), |i: int| items[i]@)
}

/// A plain value: what a literal in a declaration holds, and what a caller
/// passes for a parameter.
#[derive(Debug, PartialEq, Eq)]
pub enum Value {
    Text(String),
    Unsigned(u64),
    Signed(i64),
    Flag(bool),
    Absent,
}

pub enum ValueView {
    Text(Seq<char>),
    Unsigned(u64),
    Signed(i64),
    Flag(bool),
    Absent,
}

impl View for Value {
    type V = ValueView;

    open spec fn view(&self) -> ValueView {
        match self {
            Value::Text(s) => ValueView::Text(s@),
            Value::Unsigned(n) => ValueView::Unsigned(*n),
            Value::Signed(n) => ValueView::Signed(*n),
            Value::Flag(b) => ValueView::Flag(*b),
            Value::Absent => ValueView::Absent,
        }
    }
}

impl Clone for Value {
    fn clone(&self) -> (r: Self)
        ensures
            r@ == self@,
    {
        match self {
            Value::Text(s) => Value::Text(s.clone()),
            Value::Unsigned(n) => Value::Unsigned(*n),
            Value::Signed(n) => Value::Signed(*n),
            Value::Flag(b) => Value::Flag(*b),
            Value::Absent => Value::Absent,
        }
    }
}

/// The external text form of a value: a text stands for itself, a number
/// is written in decimal, a flag as `true` or `false`, and an absent value
/// as the empty text.
pub open spec fn external_form(value: ValueView) -> Seq<char> {
    match value {
        ValueView::Text(s) => s,
        ValueView::Unsigned(n) => decimal(n as nat),
        ValueView::Signed(n) => signed_decimal(n as int),
        ValueView::Flag(b) => if b {
            "true"@
        } else {
            "false"@
        },
        ValueView::Absent => Seq::empty(),
    }
}

impl Value {
    /// The external text form of this value.
    pub fn external(&self) -> (r: String)
        ensures
            r@ == external_form(self@),
    {
        match self {
            Value::Text(s) => s.clone(),
            Value::Unsigned(n) => {
                let mut out = String::new();
                push_decimal(&mut out, *n);
                assert(Seq::<char>::empty() + decimal(*n as nat) == decimal(*n as nat));
                out
            },
            Value::Signed(n) => {
                let mut out = String::new();
                push_signed_decimal(&mut out, *n);
                assert(Seq::<char>::empty() + signed_decimal(*n as int) == signed_decimal(
                    *n as int,
                ));
                out
            },
            Value::Flag(b) => if *b {
                "true".to_owned()
            } else {
                "false".to_owned()
            },
            Value::Absent => String::new(),
        }
    }
}

pub fn clone_values(items: &Vec<Value>) -> (r: Vec<Value>)
    ensures
        views(r@) == views(items@),
{
    let mut r: Vec<Value> = Vec::new();
    let mut i: usize = 0;
    while i < items.len()
        invariant
            i <= items.len(),
            r@.len() == i,
            forall|k: int| 0 <= k < i ==> r@[k]@ == items@[k]@,
        decreases items.len() - i,
    {
        r.push(items[i].clone());
        i += 1;
    }
    assert(views(r@) =~= views(items@));
    r
}

pub fn clone_strings(items: &Vec<String>) -> (r: Vec<String>)
    ensures
        views(r@) == views(items@),
{
    let mut r: Vec<String> = Vec::new();
    let mut i: usize = 0;
    while i < items.len()
        invariant
            i <= items.len(),
            r@.len() == i,
            forall|k: int| 0 <= k < i ==> r@[k]@ == items@[k]@,
        decreases items.len() - i,
    {
        r.push(items[i].clone());
        i += 1;
    }
    assert(views(r@) =~= views(items@));
    r
}

/// The right-hand side of an entry: a literal, a reference to a parameter by
/// name, or a call of a named operation on literals.
#[derive(Debug, PartialEq, Eq)]
pub enum Expr {
    Literal(Value),
    Name(String),
    Call { name: String, args: Vec<Value> },
}

pub enum ExprView {
    Literal(ValueView),
    Name(Seq<char>),
    Call { name: Seq<char>, args: Seq<ValueView> },
}

impl View for Expr {
    type V = ExprView;

    open spec fn view(&self) -> ExprView {
        match self {
            Expr::Literal(v) => ExprView::Literal(v@),
            Expr::Name(n) => ExprView::Name(n@),
            Expr::Call { name, args } => ExprView::Call { name: name@, args: views(args@) },
        }
    }
}

impl Clone for Expr {
    fn clone(&self) -> (r: Self)
        ensures
            r@ == self@,
    {
        match self {
            Expr::Literal(v) => Expr::Literal(v.clone()),
            Expr::Name(n) => Expr::Name(n.clone()),
            Expr::Call { name, args } => Expr::Call { name: name.clone(), args: clone_values(args) },
        }
    }
}

/// One comma-separated entry between an annotation's parentheses: an
/// expression alone, or `name = expression`.
#[derive(Debug, PartialEq, Eq)]
pub enum Entry {
    Bare(Expr),
    Assign { name: String, value: Expr },
}

pub enum EntryView {
    Bare(ExprView),
    Assign { name: Seq<char>, value: ExprView },
}

impl View for Entry {
    type V = EntryView;

    open spec fn view(&self) -> EntryView {
        match self {
            Entry::Bare(e) => EntryView::Bare(e@),
            Entry::Assign { name, value } => EntryView::Assign { name: name@, value: value@ },
        }
    }
}

/// An annotation on an interface or on one of its methods: the path that
/// names it and the entries between its parentheses.
#[derive(Debug, PartialEq, Eq)]
pub struct Attribute {
    pub path: Vec<String>,
    pub entries: Vec<Entry>,
}

pub struct AttributeView {
    pub path: Seq<Seq<char>>,
    pub entries: Seq<EntryView>,
}

impl View for Attribute {
    type V = AttributeView;

    open spec fn view(&self) -> AttributeView {
        AttributeView { path: views(self.path@), entries: views(self.entries@) }
    }
}

/// The crate name under which an annotation may be written in full.
pub open spec fn crate_name() -> Seq<char> {
    "retrofit"@
}

/// Whether a path names the annotation `name`: either `name` alone, or
/// `name` below the crate's own name.
pub open spec fn path_names(path: Seq<Seq<char>>, name: Seq<char>) -> bool {
    ||| path == seq![name]
    ||| path == seq![crate_name(), name]
}

impl Attribute {
    pub fn is_named(&self, name: &str) -> (r: bool)
        ensures
            r == path_names(self@.path, name@),
    {
        let n = self.path.len();
        proof {
            assert(self@.path.len() == n);
            assert(seq![name@].len() == 1);
            assert(seq![crate_name(), name@].len() == 2);
        }
        if n == 1 {
            let r = same_text(self.path[0].as_str(), name);
            proof {
                assert(self@.path[0] == self.path@[0]@);
                assert(seq![name@][0] == name@);
                if r {
                    assert(self@.path =~= seq![name@]);
                }
            }
            r
        } else if n == 2 {
            let r = same_text(self.path[0].as_str(), "retrofit") && same_text(
                self.path[1].as_str(),
                name,
            );
            proof {
                assert(self@.path[0] == self.path@[0]@);
                assert(self@.path[1] == self.path@[1]@);
                assert(seq![crate_name(), name@][0] == crate_name());
                assert(seq![crate_name(), name@][1] == name@);
                if r {
                    assert(self@.path =~= seq![crate_name(), name@]);
                }
            }
            r
        } else {
            false
        }
    }
}

/// A type as a declaration writes it, as far as compilation reads it.
#[derive(Debug, PartialEq, Eq)]
pub enum Type {
    /// The empty tuple.
    Unit,
    /// A path, with or without generic arguments behind its last segment.
    Path { segments: Vec<String>, generic: bool },
    /// Any other type.
    Other,
}

pub enum TypeView {
    Unit,
    Path { segments: Seq<Seq<char>>, generic: bool },
    Other,
}

impl View for Type {
    type V = TypeView;

    open spec fn view(&self) -> TypeView {
        match self {
            Type::Unit => TypeView::Unit,
            Type::Path { segments, generic } => TypeView::Path {
                segments: views(segments@),
                generic: *generic,
            },
            Type::Other => TypeView::Other,
        }
    }
}

impl Clone for Type {
    fn clone(&self) -> (r: Self)
        ensures
            r@ == self@,
    {
        match self {
            Type::Unit => Type::Unit,
            Type::Path { segments, generic } => Type::Path {
                segments: clone_strings(segments),
                generic: *generic,
            },
            Type::Other => Type::Other,
        }
    }
}

/// What a method declares to return: nothing, or a type.
#[derive(Debug, PartialEq, Eq)]
pub enum ReturnType {
    Default,
    Type(Type),
}

pub enum ReturnTypeView {
    Default,
    Type(TypeView),
}

impl View for ReturnType {
    type V = ReturnTypeView;

    open spec fn view(&self) -> ReturnTypeView {
        match self {
            ReturnType::Default => ReturnTypeView::Default,
            ReturnType::Type(t) => ReturnTypeView::Type(t@),
        }
    }
}

/// A method's name, the names of its parameters in order (the receiver is
/// not one of them), and its declared return type.
#[derive(Debug, PartialEq, Eq)]
pub struct Signature {
    pub ident: String,
    pub params: Vec<String>,
    pub output: ReturnType,
}

pub struct SignatureView {
    pub ident: Seq<char>,
    pub params: Seq<Seq<char>>,
    pub output: ReturnTypeView,
}

impl View for Signature {
    type V = SignatureView;

    open spec fn view(&self) -> SignatureView {
        SignatureView { ident: self.ident@, params: views(self.params@), output: self.output@ }
    }
}

/// One method of an interface as declared: its annotations, its signature,
/// and whether the declaration provides a body of its own.
#[derive(Debug, PartialEq, Eq)]
pub struct MethodDecl {
    pub attrs: Vec<Attribute>,
    pub sig: Signature,
    pub provided: bool,
}

pub struct MethodDeclView {
    pub attrs: Seq<AttributeView>,
    pub sig: SignatureView,
    pub provided: bool,
}

impl View for MethodDecl {
    type V = MethodDeclView;

    open spec fn view(&self) -> MethodDeclView {
        MethodDeclView { attrs: views(self.attrs@), sig: self.sig@, provided: self.provided }
    }
}

/// A member of an interface: a method, or anything else (a constant, an
/// associated type).
#[derive(Debug, PartialEq, Eq)]
pub enum Member {
    Method(MethodDecl),
    Other,
}

pub enum MemberView {
    Method(MethodDeclView),
    Other,
}

impl View for Member {
    type V = MemberView;

    open spec fn view(&self) -> MemberView {
        match self {
            Member::Method(m) => MemberView::Method(m@),
            Member::Other => MemberView::Other,
        }
    }
}

/// `name = type` among the generic arguments of a bound.
#[derive(Debug, PartialEq, Eq)]
pub struct Binding {
    pub name: String,
    pub ty: Vec<String>,
}

pub struct BindingView {
    pub name: Seq<char>,
    pub ty: Seq<Seq<char>>,
}

impl View for Binding {
    type V = BindingView;

    open spec fn view(&self) -> BindingView {
        BindingView { name: self.name@, ty: views(self.ty@) }
    }
}

/// A bound on an interface: a trait, by its path and the bindings of its
/// associated types, or a lifetime.
#[derive(Debug, PartialEq, Eq)]
pub enum Bound {
    Trait { path: Vec<String>, bindings: Vec<Binding> },
    Lifetime(String),
}

pub enum BoundView {
    Trait { path: Seq<Seq<char>>, bindings: Seq<BindingView> },
    Lifetime(Seq<char>),
}

impl View for Bound {
    type V = BoundView;

    open spec fn view(&self) -> BoundView {
        match self {
            Bound::Trait { path, bindings } => BoundView::Trait {
                path: views(path@),
                bindings: views(bindings@),
            },
            Bound::Lifetime(l) => BoundView::Lifetime(l@),
        }
    }
}

/// An interface as declared: its annotations, its name, its bounds and its
/// members in order.
#[derive(Debug, PartialEq, Eq)]
pub struct Interface {
    pub attrs: Vec<Attribute>,
    pub ident: String,
    pub supertraits: Vec<Bound>,
    pub items: Vec<Member>,
}

pub struct InterfaceView {
    pub attrs: Seq<AttributeView>,
    pub ident: Seq<char>,
    pub supertraits: Seq<BoundView>,
    pub items: Seq<MemberView>,
}

impl View for Interface {
    type V = InterfaceView;

    open spec fn view(&self) -> InterfaceView {
        InterfaceView {
            attrs: views(self.attrs@),
            ident: self.ident@,
            supertraits: views(self.supertraits@),
            items: views(self.items@),
        }
    }
}

} // verus!
