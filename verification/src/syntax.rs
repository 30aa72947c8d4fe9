//! Type syntax as a tree of plain values.
//!
//! A type, a lifetime, a bound or a where-predicate is a [`Syntax`] node: what
//! the node is ([`Kind`]), the text it carries (an identifier, a lifetime's
//! name, tokens that are copied as they stand) and its parts in the order in
//! which they are written. Contracts speak of the node's view, a [`Tree`].

use vstd::prelude::*;

verus! {

/// What a node stands for, and what its text and parts are.
#[derive(Clone, Copy, PartialEq, Eq, Structural, Debug)]
pub enum Kind {
    /// A path type such as `T`, `Self` or `::std::vec::Vec<T>`. Parts: the segments.
    Path { global: bool },
    /// A path type with a qualified self such as `<T as Iterator>::Item`.
    /// Parts: the qualified type, then the segments, of which the first
    /// `position` stand inside the angle brackets.
    QualifiedPath { global: bool, position: usize },
    /// A path segment without arguments. Text: the identifier.
    Segment,
    /// A path segment with arguments in angle brackets. Text: the identifier.
    /// Parts: the arguments (lifetimes, types, bindings, constraints, constants).
    SegmentAngle,
    /// A path segment with arguments in parentheses, as in `Fn(A) -> B`.
    /// Text: the identifier. Parts: the input types, then the output if any.
    SegmentParen,
    /// A lifetime. Text: its name with the apostrophe. Parts: the lifetimes
    /// that bound it, where it stands in a list of generic parameters.
    Lifetime,
    /// `Name = Type` among generic arguments. Text: the name. Parts: the type.
    Binding,
    /// `Name: Bound` among generic arguments. Text: the name. Parts: the bounds.
    Constraint,
    /// A constant expression among generic arguments. Text: its tokens.
    Const,
    /// The type behind `->`. Parts: the type.
    Output,
    /// `&'a T` or `&'a mut T`. Parts: the lifetime if written, then the type.
    Reference { mutable: bool },
    /// `*const T` or `*mut T`. Parts: the type.
    Pointer { mutable: bool },
    /// `[T]`. Parts: the type.
    Slice,
    /// `[T; n]`. Text: the tokens of the length. Parts: the type.
    Array,
    /// `(A, B)`. Parts: the types.
    Tuple,
    /// `(T)`. Parts: the type.
    Paren,
    /// `!`.
    Never,
    /// `_`.
    Infer,
    /// `fn(A) -> B`. Text: the qualifiers before `fn`. Parts: the bound
    /// lifetimes if any, the arguments, then the output if any.
    BareFn,
    /// An argument of a bare function type. Text: its name, or empty. Parts: the type.
    Argument,
    /// `impl A + B`. Parts: the bounds.
    ImplTrait,
    /// `dyn A + B`. Parts: the bounds.
    TraitObject,
    /// Tokens that are copied as they stand. Text: the tokens.
    Verbatim,
    /// `for<'a, 'b>`. Parts: the lifetimes.
    BoundLifetimes,
    /// A trait used as a bound. Parts: the bound lifetimes if any, then the
    /// segments of the trait's path.
    TraitBound { maybe: bool, global: bool },
    /// A type parameter of a generic list. Text: its name. Parts: the bounds,
    /// then the default if any.
    TypeParam,
    /// The default of a type parameter. Parts: the type.
    DefaultType,
    /// `T: A + B` in a where clause. Parts: the bound lifetimes if any, the
    /// bounded type, then the bounds.
    PredicateType,
    /// `'a: 'b + 'c` in a where clause. Parts: the lifetime, then its bounds.
    PredicateLifetime,
}

/// A node of type syntax.
#[derive(Debug, PartialEq, Eq)]
pub struct Syntax {
    pub kind: Kind,
    pub text: String,
    pub parts: Vec<Syntax>,
}

/// The view of a [`Syntax`] node.
pub ghost struct Tree {
    pub kind: Kind,
    pub text: Seq<char>,
    pub parts: Seq<Tree>,
}

/// The views of the strings of `v`.
pub open spec fn texts(v: Seq<String>) -> Seq<Seq<char>> {
    Seq::new(v.len(), |i: int| v[i]@)
}

/// The view of one node.
pub open spec fn tree(s: Syntax) -> Tree
    decreases s,
{
    Tree { kind: s.kind, text: s.text@, parts: trees(s.parts@) }
}

/// The views of the nodes of `parts`, in order.
pub open spec fn trees(parts: Seq<Syntax>) -> Seq<Tree>
    decreases parts,
{
    if parts.len() == 0 {
        Seq::empty()
    } else {
        trees(parts.drop_last()).push(tree(parts.last()))
    }
}

impl View for Syntax {
    type V = Tree;

    open spec fn view(&self) -> Tree {
        tree(*self)
    }
}

/// `trees` maps node by node.
pub proof fn lemma_trees(parts: Seq<Syntax>)
    ensures
        trees(parts).len() == parts.len(),
        forall|i: int| 0 <= i < parts.len() ==> (#[trigger] trees(parts)[i]) == parts[i]@,
    decreases parts.len(),
{
    if parts.len() > 0 {
        lemma_trees(parts.drop_last());
    }
}

/// `trees` of a sequence with one more node.
pub proof fn lemma_trees_push(parts: Seq<Syntax>, last: Syntax)
    ensures
        trees(parts.push(last)) == trees(parts).push(last@),
{
    assert(parts.push(last).drop_last() =~= parts);
}

/// `trees` of two sequences, one after the other.
pub proof fn lemma_trees_concat(a: Seq<Syntax>, b: Seq<Syntax>)
    ensures
        trees(a + b) == trees(a) + trees(b),
{
    lemma_trees(a);
    lemma_trees(b);
    lemma_trees(a + b);
    assert(trees(a + b) =~= trees(a) + trees(b));
}

impl Tree {
    /// The identifier, where the node is a type written as one identifier:
    /// a path that does not start at the root, of one segment without arguments.
    pub open spec fn ident(self) -> Option<Seq<char>> {
        if self.kind == (Kind::Path { global: false }) && self.parts.len() == 1
            && self.parts[0].kind == Kind::Segment {
            Some(self.parts[0].text)
        } else {
            None
        }
    }

    /// A type written as the identifier `name`.
    pub open spec fn named(name: Seq<char>) -> Tree {
        Tree {
            kind: Kind::Path { global: false },
            text: Seq::empty(),
            parts: seq![Tree { kind: Kind::Segment, text: name, parts: Seq::empty() }],
        }
    }

    /// The lifetime `name`.
    pub open spec fn lifetime(name: Seq<char>) -> Tree {
        Tree { kind: Kind::Lifetime, text: name, parts: Seq::empty() }
    }

    /// A reference to `elem` with the lifetime `name`.
    pub open spec fn reference(name: Seq<char>, mutable: bool, elem: Tree) -> Tree {
        Tree {
            kind: Kind::Reference { mutable },
            text: Seq::empty(),
            parts: seq![Tree::lifetime(name), elem],
        }
    }
}

/// Whether two string slices hold the same text.
pub fn same_text(a: &str, b: &str) -> (r: bool)
    ensures
        r == (a@ == b@),
{
    a.to_owned() == b.to_owned()
}

impl Clone for Syntax {
    fn clone(&self) -> (r: Self)
        ensures
            r@ == self@,
        decreases self,
    {
        let mut parts: Vec<Syntax> = Vec::new();
        let mut i: usize = 0;
        while i < self.parts.len()
            invariant
                i <= self.parts.len(),
                parts@.len() == i,
                forall|j: int| 0 <= j < i ==> parts@[j]@ == self.parts@[j]@,
            decreases self.parts.len() - i,
        {
            parts.push(self.parts[i].clone());
            i += 1;
        }
        let r = Syntax { kind: self.kind, text: self.text.clone(), parts };
        proof {
            lemma_trees(r.parts@);
            lemma_trees(self.parts@);
            assert(r@.parts =~= self@.parts);
        }
        r
    }
}

/// A copy of each node of `v`.
pub fn clone_all(v: &Vec<Syntax>) -> (r: Vec<Syntax>)
    ensures
        trees(r@) == trees(v@),
{
    let mut r: Vec<Syntax> = Vec::new();
    let mut i: usize = 0;
    while i < v.len()
        invariant
            i <= v.len(),
            r@.len() == i,
            forall|j: int| 0 <= j < i ==> r@[j]@ == v@[j]@,
        decreases v.len() - i,
    {
        r.push(v[i].clone());
        i += 1;
    }
    proof {
        lemma_trees(r@);
        lemma_trees(v@);
        assert(trees(r@) =~= trees(v@));
    }
    r
}

/// The nodes of `a`, then those of `b`.
pub fn join(a: Vec<Syntax>, b: Vec<Syntax>) -> (r: Vec<Syntax>)
    ensures
        trees(r@) == trees(a@) + trees(b@),
{
    let mut r = a;
    let mut rest = b;
    r.append(&mut rest);
    proof {
        lemma_trees_concat(a@, b@);
    }
    r
}

impl Syntax {
    /// A node of the given kind, text and parts.
    pub fn new(kind: Kind, text: &str, parts: Vec<Syntax>) -> (r: Syntax)
        ensures
            r@ == (Tree { kind, text: text@, parts: trees(parts@) }),
    {
        Syntax { kind, text: text.to_owned(), parts }
    }

    /// A node without parts.
    pub fn leaf(kind: Kind, text: &str) -> (r: Syntax)
        ensures
            r@ == (Tree { kind, text: text@, parts: Seq::empty() }),
    {
        Syntax { kind, text: text.to_owned(), parts: Vec::new() }
    }

    /// The type written as the identifier `name`.
    pub fn named(name: &str) -> (r: Syntax)
        ensures
            r@ == Tree::named(name@),
    {
        let mut parts: Vec<Syntax> = Vec::new();
        parts.push(Syntax::leaf(Kind::Segment, name));
        let r = Syntax { kind: Kind::Path { global: false }, text: String::new(), parts };
        proof {
            lemma_trees(r.parts@);
            assert(r@.parts =~= Tree::named(name@).parts);
        }
        r
    }

    /// The path type `name<args>`.
    pub fn generic(name: &str, args: Vec<Syntax>) -> (r: Syntax)
        ensures
            r@ == (Tree {
                kind: Kind::Path { global: false },
                text: Seq::empty(),
                parts: seq![Tree { kind: Kind::SegmentAngle, text: name@, parts: trees(args@) }],
            }),
    {
        let mut parts: Vec<Syntax> = Vec::new();
        parts.push(Syntax { kind: Kind::SegmentAngle, text: name.to_owned(), parts: args });
        let r = Syntax { kind: Kind::Path { global: false }, text: String::new(), parts };
        proof {
            lemma_trees(r.parts@);
            assert(r@.parts =~= seq![
                Tree { kind: Kind::SegmentAngle, text: name@, parts: trees(args@) },
            ]);
        }
        r
    }

    /// The lifetime `name`, written with its apostrophe.
    pub fn lifetime(name: &str) -> (r: Syntax)
        ensures
            r@ == Tree::lifetime(name@),
    {
        Syntax::leaf(Kind::Lifetime, name)
    }

    /// The reference type `&'name elem`, or `&'name mut elem`.
    pub fn reference(name: &str, mutable: bool, elem: Syntax) -> (r: Syntax)
        ensures
            r@ == Tree::reference(name@, mutable, elem@),
    {
        let mut parts: Vec<Syntax> = Vec::new();
        parts.push(Syntax::lifetime(name));
        parts.push(elem);
        let r = Syntax { kind: Kind::Reference { mutable }, text: String::new(), parts };
        proof {
            lemma_trees(r.parts@);
            assert(r@.parts =~= Tree::reference(name@, mutable, elem@).parts);
        }
        r
    }
}

} // verus!
