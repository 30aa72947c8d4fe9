//! Declarations as plain values: attributes, patterns, parameters, generic
//! lists, signatures, functions and `impl` blocks.
//!
//! Tokens that the transformation never looks into (a visibility, a body, a
//! default expression) are held as text and copied as they stand.

use vstd::prelude::*;
use crate::syntax::{clone_all, same_text, trees, Syntax, Tree};

verus! {

/// The name of the attribute that gives an expression as default.
pub const ATTR_NAME_OPT_ARG: &'static str = "optarg";

/// The name of the attribute that gives the type's own default.
pub const ATTR_NAME_DEFAULT_ARG: &'static str = "optarg_default";

/// The name of the attribute that marks a method for transformation.
pub const ATTR_NAME_METHOD: &'static str = "optarg_method";

/// What the names of this library's attributes start with.
pub const ATTR_PREFIX: &'static str = "optarg";

/// The identifier of the receiver.
pub const SELF_VALUE: &'static str = "self";

/// The name under which a builder stores the receiver.
pub const INNER_SELF_VAR: &'static str = "_optarg_self";

/// The two names that one annotated declaration supplies.
#[derive(Debug, PartialEq, Eq)]
pub struct FnAttr {
    pub builder_struct_name: String,
    pub terminal_method_name: String,
}

/// An attribute on an item or a parameter, with what was read from its
/// arguments.
#[derive(Debug, PartialEq, Eq)]
pub struct Attribute {
    /// The path as written.
    pub path: String,
    /// Whether the path is one identifier.
    pub simple: bool,
    /// What follows the path, as written; empty where nothing follows.
    pub tokens: String,
    /// The expression that was read from the arguments, where they are one.
    pub expr: Option<String>,
    /// The two names that were read from the arguments, where they are two
    /// identifiers with a comma between them.
    pub names: Option<FnAttr>,
}

/// The forms of a parameter's pattern that are told apart.
#[derive(Clone, Copy, PartialEq, Eq, Structural, Debug)]
pub enum PatKind {
    /// One bound identifier, with or without `mut` or `ref`.
    Ident,
    /// `_`.
    Wild,
    /// Any other pattern.
    Other,
}

/// The pattern of a parameter.
#[derive(Debug, PartialEq, Eq)]
pub struct Pat {
    pub kind: PatKind,
    /// The identifier, where the pattern binds one; empty otherwise.
    pub name: String,
    /// The pattern as written.
    pub text: String,
}

/// A parameter written with a pattern and a type.
#[derive(Clone, Debug, PartialEq, Eq)]
pub struct PatType {
    pub attrs: Vec<Attribute>,
    pub pat: Pat,
    pub ty: Syntax,
}

/// A receiver written without a type: `self`, `mut self`, `&self`,
/// `&'a self`, `&mut self` or `&'a mut self`.
#[derive(Debug, PartialEq, Eq)]
pub struct Receiver {
    /// Whether it is taken by reference.
    pub reference: bool,
    /// The lifetime of the reference, where one is written.
    pub lifetime: Option<String>,
    pub mutable: bool,
}

/// One input of a signature.
#[derive(Clone, Debug, PartialEq, Eq)]
pub enum FnArg {
    Receiver(Receiver),
    Typed(PatType),
}

/// A list of generic parameters with the predicates of its where clause.
///
/// A lifetime parameter is a node of kind `Lifetime`, a type parameter one of
/// kind `TypeParam`, a predicate one of kind `PredicateType` or
/// `PredicateLifetime`.
#[derive(Debug, PartialEq, Eq)]
pub struct Generics {
    pub lifetimes: Vec<Syntax>,
    pub types: Vec<Syntax>,
    pub predicates: Vec<Syntax>,
}

/// The signature of a function or method.
#[derive(Clone, Debug, PartialEq, Eq)]
pub struct Signature {
    /// What stands before `fn` apart from `async`, as written.
    pub qualifiers: String,
    pub asyncness: bool,
    pub ident: String,
    pub generics: Generics,
    pub inputs: Vec<FnArg>,
    /// The return type, where one is written.
    pub output: Option<Syntax>,
}

/// A function or a method with its body.
#[derive(Clone, Debug, PartialEq, Eq)]
pub struct Function {
    pub attrs: Vec<Attribute>,
    /// The visibility as written; empty for none.
    pub vis: String,
    pub sig: Signature,
    /// The body as written.
    pub block: String,
}

/// An item of an `impl` block.
#[derive(Clone, Debug, PartialEq, Eq)]
pub enum ImplItem {
    Method(Function),
    /// Any other item, as written.
    Other(String),
}

/// An `impl` block.
#[derive(Clone, Debug, PartialEq, Eq)]
pub struct ItemImpl {
    pub attrs: Vec<Attribute>,
    /// What stands before `impl`, as written.
    pub qualifiers: String,
    pub generics: Generics,
    /// The trait that the block implements, as written, where it names one.
    pub trait_: Option<String>,
    pub self_ty: Syntax,
    pub items: Vec<ImplItem>,
}

/// The view of a list of generic parameters.
pub ghost struct GenericsModel {
    pub lifetimes: Seq<Tree>,
    pub types: Seq<Tree>,
    pub predicates: Seq<Tree>,
}

impl View for Generics {
    type V = GenericsModel;

    open spec fn view(&self) -> GenericsModel {
        GenericsModel {
            lifetimes: trees(self.lifetimes@),
            types: trees(self.types@),
            predicates: trees(self.predicates@),
        }
    }
}

impl Clone for Generics {
    fn clone(&self) -> (r: Self)
        ensures
            r@ == self@,
    {
        Generics {
            lifetimes: clone_all(&self.lifetimes),
            types: clone_all(&self.types),
            predicates: clone_all(&self.predicates),
        }
    }
}

/// The view of a type that may be absent.
pub open spec fn option_tree(ty: Option<Syntax>) -> Option<Tree> {
    match ty {
        Some(t) => Some(t@),
        None => None,
    }
}

/// A copy of a type that may be absent.
pub fn clone_type(ty: &Option<Syntax>) -> (r: Option<Syntax>)
    ensures
        option_tree(r) == option_tree(*ty),
{
    match ty {
        Some(t) => Some(t.clone()),
        None => None,
    }
}

/// A copy of a string that may be absent.
pub fn clone_text(text: &Option<String>) -> (r: Option<String>)
    ensures
        r == *text,
{
    match text {
        Some(t) => Some(t.clone()),
        None => None,
    }
}

impl View for FnAttr {
    type V = (Seq<char>, Seq<char>);

    /// The name of the builder type, then that of the terminal operation.
    open spec fn view(&self) -> (Seq<char>, Seq<char>) {
        (self.builder_struct_name@, self.terminal_method_name@)
    }
}

impl Clone for FnAttr {
    fn clone(&self) -> (r: Self)
        ensures
            r == *self,
    {
        FnAttr {
            builder_struct_name: self.builder_struct_name.clone(),
            terminal_method_name: self.terminal_method_name.clone(),
        }
    }
}

impl Clone for Attribute {
    fn clone(&self) -> (r: Self)
        ensures
            r == *self,
    {
        Attribute {
            path: self.path.clone(),
            simple: self.simple,
            tokens: self.tokens.clone(),
            expr: clone_text(&self.expr),
            names: match &self.names {
                Some(names) => Some(names.clone()),
                None => None,
            },
        }
    }
}

impl Clone for Pat {
    fn clone(&self) -> (r: Self)
        ensures
            r == *self,
    {
        Pat { kind: self.kind, name: self.name.clone(), text: self.text.clone() }
    }
}

impl Clone for Receiver {
    fn clone(&self) -> (r: Self)
        ensures
            r == *self,
    {
        Receiver {
            reference: self.reference,
            lifetime: clone_text(&self.lifetime),
            mutable: self.mutable,
        }
    }
}

/// A copy of each attribute of `attrs`.
pub fn clone_attrs(attrs: &Vec<Attribute>) -> (r: Vec<Attribute>)
    ensures
        r@ == attrs@,
{
    let mut r: Vec<Attribute> = Vec::new();
    let mut i: usize = 0;
    while i < attrs.len()
        invariant
            i <= attrs.len(),
            r@ == attrs@.take(i as int),
        decreases attrs.len() - i,
    {
        r.push(attrs[i].clone());
        proof {
            assert(attrs@.take(i + 1) =~= attrs@.take(i as int).push(attrs@[i as int]));
        }
        i += 1;
    }
    proof {
        assert(attrs@.take(attrs@.len() as int) =~= attrs@);
    }
    r
}

impl Attribute {
    /// Whether the attribute's path is the identifier `name`.
    pub open spec fn names_ident(self, name: Seq<char>) -> bool {
        self.simple && self.path@ == name
    }

    /// Whether nothing follows the attribute's path.
    pub open spec fn is_bare(self) -> bool {
        self.tokens@.len() == 0
    }

    /// Whether the attribute gives a parameter its default.
    pub open spec fn is_default(self) -> bool {
        self.names_ident(ATTR_NAME_OPT_ARG@) || self.names_ident(ATTR_NAME_DEFAULT_ARG@)
    }

    /// Whether the attribute's path is the identifier `name`.
    pub fn is_ident(&self, name: &str) -> (r: bool)
        ensures
            r == self.names_ident(name@),
    {
        self.simple && same_text(self.path.as_str(), name)
    }
}

impl PatType {
    /// Whether the parameter is written as `self` with a type.
    pub fn is_self(&self) -> (r: bool)
        ensures
            r == FnArg::Typed(*self).is_typed_self(),
    {
        match self.pat.kind {
            PatKind::Ident => same_text(self.pat.name.as_str(), SELF_VALUE),
            _ => false,
        }
    }
}

impl FnArg {
    /// Whether the input is a typed parameter named `self`.
    pub open spec fn is_typed_self(self) -> bool {
        match self {
            FnArg::Receiver(_) => false,
            FnArg::Typed(t) => t.pat.kind == PatKind::Ident && t.pat.name@ == SELF_VALUE@,
        }
    }

    /// Whether the input stands for the receiver.
    pub open spec fn is_self(self) -> bool {
        self is Receiver || self.is_typed_self()
    }
}

impl Signature {
    /// Whether an input is a receiver written without a type.
    pub open spec fn has_receiver(self) -> bool {
        exists|i: int| 0 <= i < self.inputs@.len() && #[trigger] self.inputs@[i] is Receiver
    }

    /// Whether each input is written with a pattern and a type.
    pub open spec fn is_free(self) -> bool {
        forall|i: int| 0 <= i < self.inputs@.len() ==> #[trigger] self.inputs@[i] is Typed
    }

    /// Whether each input is written with a pattern and a type.
    pub fn has_no_receiver(&self) -> (r: bool)
        ensures
            r == self.is_free(),
    {
        let mut i: usize = 0;
        while i < self.inputs.len()
            invariant
                i <= self.inputs.len(),
                forall|j: int| 0 <= j < i ==> #[trigger] self.inputs@[j] is Typed,
            decreases self.inputs.len() - i,
        {
            if let FnArg::Receiver(_) = &self.inputs[i] {
                return false;
            }
            i += 1;
        }
        true
    }
}

} // verus!
