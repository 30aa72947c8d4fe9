//! Generic parameters: which of them a signature mentions, the list that a
//! builder carries, and the self type in place of `Self`.

use vstd::prelude::*;
use crate::signature::{FnArg, Generics, GenericsModel, Signature};
use crate::syntax::{
    clone_all, join, lemma_trees, lemma_trees_push, same_text, texts, trees, Kind, Syntax, Tree,
};

verus! {

/// The identifier that stands for the self type.
pub const SELF_TYPE: &'static str = "Self";

/// `t` with the type `Self` replaced by `self_ty`, wherever it occurs.
pub open spec fn resolve(t: Tree, self_ty: Tree) -> Tree
    decreases t,
{
    if t.ident() == Some(SELF_TYPE@) {
        self_ty
    } else {
        Tree { kind: t.kind, text: t.text, parts: resolve_all(t.parts, self_ty) }
    }
}

/// Each tree of `ts` resolved.
pub open spec fn resolve_all(ts: Seq<Tree>, self_ty: Tree) -> Seq<Tree>
    decreases ts,
{
    if ts.len() == 0 {
        Seq::empty()
    } else {
        resolve_all(ts.drop_last(), self_ty).push(resolve(ts.last(), self_ty))
    }
}

/// The name that a type starts with: the identifier of the first segment
/// of a path that does not start at the root. It is the whole type where
/// the type is written as one identifier, and the head of a longer path
/// such as `T::Item`.
pub open spec fn head(t: Tree) -> Option<Seq<char>> {
    if t.kind == (Kind::Path { global: false }) && t.parts.len() >= 1 && (t.parts[0].kind
        == Kind::Segment || t.parts[0].kind == Kind::SegmentAngle || t.parts[0].kind
        == Kind::SegmentParen) {
        Some(t.parts[0].text)
    } else {
        None
    }
}

/// The name that `t` itself starts with, as a sequence of at most one name.
pub open spec fn head_names(t: Tree) -> Seq<Seq<char>> {
    match head(t) {
        Some(name) => seq![name],
        None => Seq::empty(),
    }
}

/// The names that the types in `t` start with, in the order in which they
/// are written: that of `t` itself, then those inside its parts.
pub open spec fn type_names(t: Tree) -> Seq<Seq<char>>
    decreases t,
{
    head_names(t) + type_names_all(t.parts)
}

/// The type names of each tree of `ts`, one after the other.
pub open spec fn type_names_all(ts: Seq<Tree>) -> Seq<Seq<char>>
    decreases ts,
{
    if ts.len() == 0 {
        Seq::empty()
    } else {
        type_names_all(ts.drop_last()) + type_names(ts.last())
    }
}

/// The name of `t` itself where it is a lifetime, as a sequence of at most
/// one name.
pub open spec fn own_lifetime(t: Tree) -> Seq<Seq<char>> {
    if t.kind == Kind::Lifetime {
        seq![t.text]
    } else {
        Seq::empty()
    }
}

/// The names of the lifetimes in `t`, in the order in which they are written.
pub open spec fn lifetime_names(t: Tree) -> Seq<Seq<char>>
    decreases t,
{
    own_lifetime(t) + lifetime_names_all(t.parts)
}

/// The lifetime names of each tree of `ts`, one after the other.
pub open spec fn lifetime_names_all(ts: Seq<Tree>) -> Seq<Seq<char>>
    decreases ts,
{
    if ts.len() == 0 {
        Seq::empty()
    } else {
        lifetime_names_all(ts.drop_last()) + lifetime_names(ts.last())
    }
}

/// A segment without its arguments; any other tree as it is.
pub open spec fn bare_segment(t: Tree) -> Tree {
    if t.kind == Kind::SegmentAngle || t.kind == Kind::SegmentParen {
        Tree { kind: Kind::Segment, text: t.text, parts: Seq::empty() }
    } else {
        t
    }
}

/// A path type without the generic arguments of its segments; any other
/// type as it is.
pub open spec fn erase(t: Tree) -> Tree {
    if t.kind is Path || t.kind is QualifiedPath {
        Tree { kind: t.kind, text: t.text, parts: t.parts.map_values(|p: Tree| bare_segment(p)) }
    } else {
        t
    }
}

/// `resolve_all` maps tree by tree.
pub proof fn lemma_resolve_all(ts: Seq<Tree>, self_ty: Tree)
    ensures
        resolve_all(ts, self_ty).len() == ts.len(),
        forall|i: int|
            0 <= i < ts.len() ==> (#[trigger] resolve_all(ts, self_ty)[i]) == resolve(
                ts[i],
                self_ty,
            ),
    decreases ts.len(),
{
    if ts.len() > 0 {
        lemma_resolve_all(ts.drop_last(), self_ty);
    }
}

/// `resolve_all` of two sequences, one after the other.
pub proof fn lemma_resolve_all_concat(a: Seq<Tree>, b: Seq<Tree>, self_ty: Tree)
    ensures
        resolve_all(a + b, self_ty) == resolve_all(a, self_ty) + resolve_all(b, self_ty),
{
    lemma_resolve_all(a, self_ty);
    lemma_resolve_all(b, self_ty);
    lemma_resolve_all(a + b, self_ty);
    assert(resolve_all(a + b, self_ty) =~= resolve_all(a, self_ty) + resolve_all(b, self_ty));
}

/// `type_names_all` of two sequences, one after the other.
pub proof fn lemma_type_names_concat(a: Seq<Tree>, b: Seq<Tree>)
    ensures
        type_names_all(a + b) == type_names_all(a) + type_names_all(b),
    decreases b.len(),
{
    if b.len() == 0 {
        assert(a + b =~= a);
    } else {
        lemma_type_names_concat(a, b.drop_last());
        assert((a + b).drop_last() =~= a + b.drop_last());
        assert((a + b).last() == b.last());
        assert(type_names_all(a + b) =~= type_names_all(a) + type_names_all(b));
    }
}

/// `lifetime_names_all` of two sequences, one after the other.
pub proof fn lemma_lifetime_names_concat(a: Seq<Tree>, b: Seq<Tree>)
    ensures
        lifetime_names_all(a + b) == lifetime_names_all(a) + lifetime_names_all(b),
    decreases b.len(),
{
    if b.len() == 0 {
        assert(a + b =~= a);
    } else {
        lemma_lifetime_names_concat(a, b.drop_last());
        assert((a + b).drop_last() =~= a + b.drop_last());
        assert((a + b).last() == b.last());
        assert(lifetime_names_all(a + b) =~= lifetime_names_all(a) + lifetime_names_all(b));
    }
}

/// The names of a sequence of one tree are the names of that tree.
pub proof fn lemma_names_of_one(t: Tree)
    ensures
        type_names_all(seq![t]) == type_names(t),
        lifetime_names_all(seq![t]) == lifetime_names(t),
{
    let one = seq![t];
    assert(one.drop_last() =~= Seq::<Tree>::empty());
    assert(type_names_all(one.drop_last()) =~= Seq::<Seq<char>>::empty());
    assert(lifetime_names_all(one.drop_last()) =~= Seq::<Seq<char>>::empty());
    assert(type_names_all(one) =~= type_names(t));
    assert(lifetime_names_all(one) =~= lifetime_names(t));
}

/// The identifier of a type that is written as one identifier.
pub fn get_ident_from_type(ty: &Syntax) -> (r: Option<&String>)
    ensures
        match r {
            Some(name) => ty@.ident() == Some(name@),
            None => ty@.ident() is None,
        },
{
    proof {
        lemma_trees(ty.parts@);
    }
    match ty.kind {
        Kind::Path { global } => {
            if !global && ty.parts.len() == 1 {
                match ty.parts[0].kind {
                    Kind::Segment => Some(&ty.parts[0].text),
                    _ => None,
                }
            } else {
                None
            }
        },
        _ => None,
    }
}

/// The name that a type starts with.
pub fn get_head(ty: &Syntax) -> (r: Option<&String>)
    ensures
        match r {
            Some(name) => head(ty@) == Some(name@),
            None => head(ty@) is None,
        },
{
    proof {
        lemma_trees(ty.parts@);
    }
    match ty.kind {
        Kind::Path { global } => {
            if !global && ty.parts.len() >= 1 {
                match ty.parts[0].kind {
                    Kind::Segment | Kind::SegmentAngle | Kind::SegmentParen => Some(
                        &ty.parts[0].text,
                    ),
                    _ => None,
                }
            } else {
                None
            }
        },
        _ => None,
    }
}

/// Puts a self type in the place of `Self`.
pub struct SelfReplace<'a>(pub &'a Syntax);

impl<'a> SelfReplace<'a> {
    /// `ty` with the self type in place of each `Self`.
    pub fn fold_type(&self, ty: &Syntax) -> (r: Syntax)
        ensures
            r@ == resolve(ty@, self.0@),
        decreases ty,
    {
        if let Some(name) = get_ident_from_type(ty) {
            if same_text(name.as_str(), SELF_TYPE) {
                return self.0.clone();
            }
        }
        let mut parts: Vec<Syntax> = Vec::new();
        let mut i: usize = 0;
        while i < ty.parts.len()
            invariant
                i <= ty.parts.len(),
                parts@.len() == i,
                forall|j: int| 0 <= j < i ==> parts@[j]@ == resolve(ty.parts@[j]@, self.0@),
            decreases ty.parts.len() - i,
        {
            parts.push(self.fold_type(&ty.parts[i]));
            i += 1;
        }
        let r = Syntax { kind: ty.kind, text: ty.text.clone(), parts };
        proof {
            lemma_trees(r.parts@);
            lemma_trees(ty.parts@);
            lemma_resolve_all(ty@.parts, self.0@);
            assert(r@.parts =~= resolve_all(ty@.parts, self.0@));
        }
        r
    }

    /// Each type of `types` with the self type in place of each `Self`.
    pub fn fold_types(&self, types: &Vec<Syntax>) -> (r: Vec<Syntax>)
        ensures
            trees(r@) == resolve_all(trees(types@), self.0@),
    {
        let mut r: Vec<Syntax> = Vec::new();
        let mut i: usize = 0;
        while i < types.len()
            invariant
                i <= types.len(),
                r@.len() == i,
                forall|j: int| 0 <= j < i ==> r@[j]@ == resolve(types@[j]@, self.0@),
            decreases types.len() - i,
        {
            r.push(self.fold_type(&types[i]));
            i += 1;
        }
        proof {
            lemma_trees(r@);
            lemma_trees(types@);
            lemma_resolve_all(trees(types@), self.0@);
            assert(trees(r@) =~= resolve_all(trees(types@), self.0@));
        }
        r
    }

    /// A return type with the self type in place of each `Self`.
    pub fn fold_return_type(&self, output: &Option<Syntax>) -> (r: Option<Syntax>)
        ensures
            match *output {
                Some(ty) => r is Some && r->0@ == resolve(ty@, self.0@),
                None => r is None,
            },
    {
        match output {
            Some(ty) => Some(self.fold_type(ty)),
            None => None,
        }
    }
}

/// The types of the typed inputs among `inputs`, in order.
pub open spec fn input_types(inputs: Seq<FnArg>) -> Seq<Tree>
    decreases inputs.len(),
{
    if inputs.len() == 0 {
        Seq::empty()
    } else {
        match inputs.last() {
            FnArg::Typed(t) => input_types(inputs.drop_last()).push(t.ty@),
            FnArg::Receiver(_) => input_types(inputs.drop_last()),
        }
    }
}

/// The return type as a sequence of at most one tree.
pub open spec fn output_types(output: Option<Syntax>) -> Seq<Tree> {
    match output {
        Some(ty) => seq![ty@],
        None => Seq::empty(),
    }
}

/// What is looked through for the names that a signature mentions: the
/// types of its typed inputs, its return type and the predicates of its
/// where clause. Its own list of generic parameters is not among them.
pub open spec fn walked(sig: Signature) -> Seq<Tree> {
    input_types(sig.inputs@) + output_types(sig.output) + trees(sig.generics.predicates@)
}

/// The type names that `sig` mentions once `Self` is replaced by `self_ty`:
/// a name is mentioned where a type is written as that name or as a path
/// that starts with it.
pub open spec fn mentioned_types(sig: Signature, self_ty: Tree) -> Seq<Seq<char>> {
    type_names_all(resolve_all(walked(sig), self_ty))
}

/// The lifetimes that `sig` mentions once `Self` is replaced by `self_ty`.
pub open spec fn mentioned_lifetimes(sig: Signature, self_ty: Tree) -> Seq<Seq<char>> {
    lifetime_names_all(resolve_all(walked(sig), self_ty))
}

/// The names that a signature mentions, and whether it has a receiver that
/// is written without a type.
#[derive(Clone, Debug)]
pub struct TypeFilter {
    pub types: Vec<String>,
    pub lifetimes: Vec<String>,
    pub has_receiver: bool,
}

impl TypeFilter {
    /// Notes a lifetime.
    pub fn fold_lifetime(&mut self, lifetime: &String)
        ensures
            final(self).types == old(self).types,
            texts(final(self).lifetimes@) == texts(old(self).lifetimes@) + seq![lifetime@],
            final(self).has_receiver == old(self).has_receiver,
    {
        self.lifetimes.push(lifetime.clone());
        proof {
            assert(texts(self.lifetimes@) =~= texts(old(self).lifetimes@) + seq![lifetime@]);
        }
    }

    /// Notes a receiver.
    pub fn fold_receiver(&mut self)
        ensures
            final(self).types == old(self).types,
            final(self).lifetimes == old(self).lifetimes,
            final(self).has_receiver,
    {
        self.has_receiver = true;
    }

    /// Notes the names that the types in `ty` start with, and its lifetimes.
    pub fn fold_type(&mut self, ty: &Syntax)
        ensures
            texts(final(self).types@) == texts(old(self).types@) + type_names(ty@),
            texts(final(self).lifetimes@) == texts(old(self).lifetimes@) + lifetime_names(ty@),
            final(self).has_receiver == old(self).has_receiver,
        decreases ty,
    {
        if let Some(name) = get_head(ty) {
            self.types.push(name.clone());
        }
        if let Kind::Lifetime = ty.kind {
            self.fold_lifetime(&ty.text);
        }
        let ghost first_types = texts(self.types@);
        let ghost first_lifetimes = texts(self.lifetimes@);
        proof {
            assert(first_types =~= texts(old(self).types@) + head_names(ty@));
            assert(first_lifetimes =~= texts(old(self).lifetimes@) + own_lifetime(ty@));
        }
        let mut i: usize = 0;
        while i < ty.parts.len()
            invariant
                i <= ty.parts.len(),
                texts(self.types@) == first_types + type_names_all(ty@.parts.take(i as int)),
                texts(self.lifetimes@) == first_lifetimes + lifetime_names_all(
                    ty@.parts.take(i as int),
                ),
                self.has_receiver == old(self).has_receiver,
            decreases ty.parts.len() - i,
        {
            self.fold_type(&ty.parts[i]);
            proof {
                lemma_trees(ty.parts@);
                let next = ty@.parts.take(i + 1);
                assert(next.drop_last() =~= ty@.parts.take(i as int));
                assert(next.last() == ty.parts@[i as int]@);
                assert(texts(self.types@) =~= first_types + type_names_all(next));
                assert(texts(self.lifetimes@) =~= first_lifetimes + lifetime_names_all(next));
            }
            i += 1;
        }
        proof {
            lemma_trees(ty.parts@);
            assert(ty@.parts.take(ty.parts@.len() as int) =~= ty@.parts);
            assert(texts(self.types@) =~= texts(old(self).types@) + type_names(ty@));
            assert(texts(self.lifetimes@) =~= texts(old(self).lifetimes@) + lifetime_names(ty@));
        }
    }

    /// Notes the type names and the lifetimes of each type of `types`, with
    /// the self type in place of `Self`.
    fn fold_resolved(&mut self, types: &Vec<Syntax>, replace: &SelfReplace)
        ensures
            texts(final(self).types@) == texts(old(self).types@) + type_names_all(
                resolve_all(trees(types@), replace.0@),
            ),
            texts(final(self).lifetimes@) == texts(old(self).lifetimes@) + lifetime_names_all(
                resolve_all(trees(types@), replace.0@),
            ),
            final(self).has_receiver == old(self).has_receiver,
    {
        let ghost all = resolve_all(trees(types@), replace.0@);
        let mut i: usize = 0;
        while i < types.len()
            invariant
                i <= types.len(),
                all == resolve_all(trees(types@), replace.0@),
                texts(self.types@) == texts(old(self).types@) + type_names_all(all.take(i as int)),
                texts(self.lifetimes@) == texts(old(self).lifetimes@) + lifetime_names_all(
                    all.take(i as int),
                ),
                self.has_receiver == old(self).has_receiver,
            decreases types.len() - i,
        {
            let resolved = replace.fold_type(&types[i]);
            self.fold_type(&resolved);
            proof {
                lemma_trees(types@);
                lemma_resolve_all(trees(types@), replace.0@);
                let next = all.take(i + 1);
                assert(next.drop_last() =~= all.take(i as int));
                assert(next.last() == resolved@);
                assert(texts(self.types@) =~= texts(old(self).types@) + type_names_all(next));
                assert(texts(self.lifetimes@) =~= texts(old(self).lifetimes@)
                    + lifetime_names_all(next));
            }
            i += 1;
        }
        proof {
            lemma_trees(types@);
            lemma_resolve_all(trees(types@), replace.0@);
            assert(all.take(types@.len() as int) =~= all);
        }
    }

    /// The names that `sig` mentions once `Self` is replaced by the self
    /// type of `replace`.
    pub fn new(sig: &Signature, replace: &SelfReplace) -> (r: TypeFilter)
        ensures
            texts(r.types@) == mentioned_types(*sig, replace.0@),
            texts(r.lifetimes@) == mentioned_lifetimes(*sig, replace.0@),
            r.has_receiver == sig.has_receiver(),
    {
        let mut filter =
            TypeFilter { types: Vec::new(), lifetimes: Vec::new(), has_receiver: false };
        let ghost self_ty = replace.0@;
        assert(texts(filter.types@) =~= Seq::empty());
        assert(texts(filter.lifetimes@) =~= Seq::empty());
        let mut i: usize = 0;
        while i < sig.inputs.len()
            invariant
                i <= sig.inputs.len(),
                self_ty == replace.0@,
                texts(filter.types@) == type_names_all(
                    resolve_all(input_types(sig.inputs@.take(i as int)), self_ty),
                ),
                texts(filter.lifetimes@) == lifetime_names_all(
                    resolve_all(input_types(sig.inputs@.take(i as int)), self_ty),
                ),
                filter.has_receiver == (exists|j: int|
                    0 <= j < i && #[trigger] sig.inputs@[j] is Receiver),
            decreases sig.inputs.len() - i,
        {
            let ghost before = input_types(sig.inputs@.take(i as int));
            proof {
                assert(sig.inputs@.take(i + 1).drop_last() =~= sig.inputs@.take(i as int));
                assert(sig.inputs@.take(i + 1).last() == sig.inputs@[i as int]);
            }
            match &sig.inputs[i] {
                FnArg::Receiver(_) => {
                    filter.fold_receiver();
                },
                FnArg::Typed(t) => {
                    let resolved = replace.fold_type(&t.ty);
                    filter.fold_type(&resolved);
                    proof {
                        let after = input_types(sig.inputs@.take(i + 1));
                        assert(after == before.push(t.ty@));
                        assert(after.drop_last() =~= before);
                        assert(resolve_all(after, self_ty) == resolve_all(before, self_ty).push(
                            resolved@,
                        ));
                        assert(resolve_all(after, self_ty).drop_last() =~= resolve_all(
                            before,
                            self_ty,
                        ));
                    }
                },
            }
            i += 1;
        }
        proof {
            assert(sig.inputs@.take(sig.inputs@.len() as int) =~= sig.inputs@);
        }
        let ghost inputs = resolve_all(input_types(sig.inputs@), self_ty);
        let ghost output = resolve_all(output_types(sig.output), self_ty);
        match &sig.output {
            Some(ty) => {
                let resolved = replace.fold_type(ty);
                filter.fold_type(&resolved);
                proof {
                    lemma_resolve_all(output_types(sig.output), self_ty);
                    assert(output =~= seq![resolved@]);
                    lemma_names_of_one(resolved@);
                }
            },
            None => {
                proof {
                    assert(texts(filter.types@) =~= type_names_all(inputs) + type_names_all(
                        output,
                    ));
                    assert(texts(filter.lifetimes@) =~= lifetime_names_all(inputs)
                        + lifetime_names_all(output));
                }
            },
        }
        filter.fold_resolved(&sig.generics.predicates, replace);
        proof {
            let predicates = resolve_all(trees(sig.generics.predicates@), self_ty);
            lemma_resolve_all_concat(
                input_types(sig.inputs@),
                output_types(sig.output),
                self_ty,
            );
            lemma_resolve_all_concat(
                input_types(sig.inputs@) + output_types(sig.output),
                trees(sig.generics.predicates@),
                self_ty,
            );
            lemma_type_names_concat(inputs, output);
            lemma_type_names_concat(inputs + output, predicates);
            lemma_lifetime_names_concat(inputs, output);
            lemma_lifetime_names_concat(inputs + output, predicates);
        }
        filter
    }

    /// Whether the signature mentions the type `ty`.
    pub fn has_type(&self, ty: &str) -> (r: bool)
        ensures
            r == texts(self.types@).contains(ty@),
    {
        contains_text(&self.types, ty)
    }

    /// Whether the signature mentions the lifetime `lifetime`.
    pub fn has_lifetime(&self, lifetime: &str) -> (r: bool)
        ensures
            r == texts(self.lifetimes@).contains(lifetime@),
    {
        contains_text(&self.lifetimes, lifetime)
    }
}

/// Whether one of `names` is `name`.
pub fn contains_text(names: &Vec<String>, name: &str) -> (r: bool)
    ensures
        r == texts(names@).contains(name@),
{
    let mut i: usize = 0;
    while i < names.len()
        invariant
            i <= names.len(),
            forall|j: int| 0 <= j < i ==> texts(names@)[j] != name@,
        decreases names.len() - i,
    {
        if same_text(names[i].as_str(), name) {
            assert(texts(names@)[i as int] == name@);
            return true;
        }
        i += 1;
    }
    false
}

/// The parameters of `params` that a builder keeps: each of them where
/// `all` holds, otherwise those whose name is among `names`.
pub open spec fn retained(params: Seq<Tree>, all: bool, names: Seq<Seq<char>>) -> Seq<Tree>
    decreases params.len(),
{
    if params.len() == 0 {
        Seq::empty()
    } else if all || names.contains(params.last().text) {
        retained(params.drop_last(), all, names).push(params.last())
    } else {
        retained(params.drop_last(), all, names)
    }
}

/// The lifetime parameters of the builder of a declaration with the
/// signature `sig` inside an `impl` block with the generics `outer` and the
/// self type `self_ty`.
pub open spec fn merged_lifetimes(outer: Generics, sig: Signature, self_ty: Tree) -> Seq<Tree> {
    retained(trees(outer.lifetimes@), sig.has_receiver(), mentioned_lifetimes(sig, self_ty))
        + trees(sig.generics.lifetimes@)
}

/// The type parameters of that builder.
pub open spec fn merged_types(outer: Generics, sig: Signature, self_ty: Tree) -> Seq<Tree> {
    retained(trees(outer.types@), sig.has_receiver(), mentioned_types(sig, self_ty))
        + resolve_all(trees(sig.generics.types@), self_ty)
}

/// The predicates of that builder's where clause.
pub open spec fn merged_predicates(outer: Generics, sig: Signature, self_ty: Tree) -> Seq<Tree> {
    trees(outer.predicates@) + resolve_all(trees(sig.generics.predicates@), self_ty)
}

/// The generic parameters and predicates of that builder.
pub open spec fn merged(outer: Generics, sig: Signature, self_ty: Tree) -> GenericsModel {
    GenericsModel {
        lifetimes: merged_lifetimes(outer, sig, self_ty),
        types: merged_types(outer, sig, self_ty),
        predicates: merged_predicates(outer, sig, self_ty),
    }
}

/// Whether each of `params` but the last `own` has its name among `names`.
pub open spec fn only_mentioned(params: Seq<Tree>, own: nat, names: Seq<Seq<char>>) -> bool {
    forall|i: int| 0 <= i < params.len() - own ==> names.contains((#[trigger] params[i]).text)
}

/// A copy of the parameters of `params` that a builder keeps.
fn retain(params: &Vec<Syntax>, all: bool, names: &Vec<String>) -> (r: Vec<Syntax>)
    ensures
        trees(r@) == retained(trees(params@), all, texts(names@)),
{
    let mut r: Vec<Syntax> = Vec::new();
    let mut i: usize = 0;
    proof {
        lemma_trees(params@);
    }
    while i < params.len()
        invariant
            i <= params.len(),
            trees(params@).len() == params@.len(),
            forall|j: int| 0 <= j < params@.len() ==> (#[trigger] trees(params@)[j]) == params@[j]@,
            trees(r@) == retained(trees(params@).take(i as int), all, texts(names@)),
        decreases params.len() - i,
    {
        proof {
            let next = trees(params@).take(i + 1);
            assert(next.drop_last() =~= trees(params@).take(i as int));
            assert(next.last() == params@[i as int]@);
        }
        if all || contains_text(names, params[i].text.as_str()) {
            let ghost before = r@;
            let copy = params[i].clone();
            r.push(copy);
            proof {
                lemma_trees_push(before, copy);
            }
        }
        i += 1;
    }
    proof {
        assert(trees(params@).take(params@.len() as int) =~= trees(params@));
    }
    r
}

/// The generic parameters and predicates of the builder of a method.
///
/// `impl_generics` are those of the `impl` block, `method_sig` is
/// the method's signature and `self_ty` the type that the block is for. Of
/// the block's lifetimes and type parameters all stay where the method has a
/// receiver written without a type; otherwise those stay that the signature
/// mentions once `Self` is replaced. The method's own lifetimes and type
/// parameters follow, and the block's predicates stand before the method's.
///
/// So with such a receiver each parameter of the block is a parameter of
/// the builder, and without one each parameter of the builder that is not
/// the method's own is mentioned in the signature.
pub fn merge_generics(
    impl_generics: &Generics,
    method_sig: &Signature,
    self_ty: &Syntax,
) -> (g: Generics)
    ensures
        g@ == merged(*impl_generics, *method_sig, self_ty@),
        method_sig.has_receiver() ==> impl_generics@.lifetimes.is_prefix_of(g@.lifetimes)
            && impl_generics@.types.is_prefix_of(g@.types),
        !method_sig.has_receiver() ==> only_mentioned(
            g@.lifetimes,
            method_sig.generics@.lifetimes.len(),
            mentioned_lifetimes(*method_sig, self_ty@),
        ) && only_mentioned(
            g@.types,
            method_sig.generics@.types.len(),
            mentioned_types(*method_sig, self_ty@),
        ),
{
    proof {
        let all = method_sig.has_receiver();
        let lifetimes = mentioned_lifetimes(*method_sig, self_ty@);
        let types = mentioned_types(*method_sig, self_ty@);
        lemma_retained(impl_generics@.lifetimes, all, lifetimes);
        lemma_retained(impl_generics@.types, all, types);
        lemma_resolve_all(method_sig.generics@.types, self_ty@);
        if all {
            assert(impl_generics@.lifetimes.is_prefix_of(
                merged_lifetimes(*impl_generics, *method_sig, self_ty@),
            ));
            assert(impl_generics@.types.is_prefix_of(
                merged_types(*impl_generics, *method_sig, self_ty@),
            ));
        }
    }
    let self_replace = SelfReplace(self_ty);
    let filter = TypeFilter::new(method_sig, &self_replace);
    let lifetimes = join(
        retain(&impl_generics.lifetimes, filter.has_receiver, &filter.lifetimes),
        clone_all(&method_sig.generics.lifetimes),
    );
    let types = join(
        retain(&impl_generics.types, filter.has_receiver, &filter.types),
        self_replace.fold_types(&method_sig.generics.types),
    );
    let predicates = join(
        clone_all(&impl_generics.predicates),
        self_replace.fold_types(&method_sig.generics.predicates),
    );
    Generics { lifetimes, types, predicates }
}

/// Without a receiver, a parameter of the `impl` block that the signature
/// does not mention, and whose name no parameter of the method has, is not
/// among the builder's parameters.
pub proof fn law_unmentioned_parameter_is_dropped(
    outer: Generics,
    sig: Signature,
    self_ty: Tree,
    name: Seq<char>,
)
    requires
        !sig.has_receiver(),
    ensures
        !mentioned_lifetimes(sig, self_ty).contains(name) && (forall|i: int|
            0 <= i < sig.generics.lifetimes@.len() ==> (#[trigger] trees(
                sig.generics.lifetimes@,
            )[i]).text != name) ==> forall|i: int|
            0 <= i < merged_lifetimes(outer, sig, self_ty).len() ==> (#[trigger] merged_lifetimes(
                outer,
                sig,
                self_ty,
            )[i]).text != name,
        !mentioned_types(sig, self_ty).contains(name) && (forall|i: int|
            0 <= i < sig.generics.types@.len() ==> (#[trigger] resolve_all(
                trees(sig.generics.types@),
                self_ty,
            )[i]).text != name) ==> forall|i: int|
            0 <= i < merged_types(outer, sig, self_ty).len() ==> (#[trigger] merged_types(
                outer,
                sig,
                self_ty,
            )[i]).text != name,
{
    lemma_retained(trees(outer.lifetimes@), false, mentioned_lifetimes(sig, self_ty));
    lemma_retained(trees(outer.types@), false, mentioned_types(sig, self_ty));
    lemma_trees(sig.generics.lifetimes@);
    lemma_trees(sig.generics.types@);
    lemma_resolve_all(trees(sig.generics.types@), self_ty);
}

/// With a receiver that is written without a type, each parameter of the
/// `impl` block is among the builder's parameters, in its place.
pub proof fn law_receiver_keeps_each_parameter(outer: Generics, sig: Signature, self_ty: Tree)
    requires
        sig.has_receiver(),
    ensures
        merged_lifetimes(outer, sig, self_ty) == trees(outer.lifetimes@) + trees(
            sig.generics.lifetimes@,
        ),
        merged_types(outer, sig, self_ty) == trees(outer.types@) + resolve_all(
            trees(sig.generics.types@),
            self_ty,
        ),
{
    lemma_retained(trees(outer.lifetimes@), true, mentioned_lifetimes(sig, self_ty));
    lemma_retained(trees(outer.types@), true, mentioned_types(sig, self_ty));
}

/// Where the parameters of the `impl` block have names of their own, the
/// method's parameters too, and no name is on both sides, the builder has
/// no two lifetimes and no two type parameters of one name.
pub proof fn law_merged_names_are_distinct(outer: Generics, sig: Signature, self_ty: Tree)
    requires
        names_of(outer@.lifetimes).no_duplicates(),
        names_of(outer@.types).no_duplicates(),
        names_of(sig.generics@.lifetimes).no_duplicates(),
        names_of(resolve_all(sig.generics@.types, self_ty)).no_duplicates(),
        forall|i: int, j: int|
            0 <= i < outer@.lifetimes.len() && 0 <= j < sig.generics@.lifetimes.len()
                ==> outer@.lifetimes[i].text != sig.generics@.lifetimes[j].text,
        forall|i: int, j: int|
            0 <= i < outer@.types.len() && 0 <= j < sig.generics@.types.len()
                ==> outer@.types[i].text != resolve_all(sig.generics@.types, self_ty)[j].text,
    ensures
        names_of(merged_lifetimes(outer, sig, self_ty)).no_duplicates(),
        names_of(merged_types(outer, sig, self_ty)).no_duplicates(),
{
    lemma_resolve_all(sig.generics@.types, self_ty);
    lemma_joined_names_are_distinct(
        outer@.lifetimes,
        sig.has_receiver(),
        mentioned_lifetimes(sig, self_ty),
        sig.generics@.lifetimes,
    );
    lemma_joined_names_are_distinct(
        outer@.types,
        sig.has_receiver(),
        mentioned_types(sig, self_ty),
        resolve_all(sig.generics@.types, self_ty),
    );
}

/// The parameters that are kept of `params`, followed by `own`, have no
/// name twice where neither `params` nor `own` has one twice and the two
/// share none.
pub proof fn lemma_joined_names_are_distinct(
    params: Seq<Tree>,
    all: bool,
    names: Seq<Seq<char>>,
    own: Seq<Tree>,
)
    requires
        names_of(params).no_duplicates(),
        names_of(own).no_duplicates(),
        forall|i: int, j: int|
            0 <= i < params.len() && 0 <= j < own.len() ==> params[i].text != own[j].text,
    ensures
        names_of(retained(params, all, names) + own).no_duplicates(),
{
    let kept = retained(params, all, names);
    let joined = names_of(kept + own);
    lemma_retained(params, all, names);
    lemma_retained_names_are_distinct(params, all, names);
    assert forall|i: int, j: int|
        0 <= i < joined.len() && 0 <= j < joined.len() && i != j implies joined[i] != joined[j] by {
        let (a, b) = if i < j {
            (i, j)
        } else {
            (j, i)
        };
        if b < kept.len() {
            assert(names_of(kept)[a] != names_of(kept)[b]);
        } else if a >= kept.len() {
            assert(names_of(own)[a - kept.len()] != names_of(own)[b - kept.len()]);
        } else {
            assert(params.contains(kept[a]));
            let k = choose|k: int| 0 <= k < params.len() && params[k] == kept[a];
            assert(params[k].text != own[b - kept.len()].text);
        }
    }
}

/// The parameters that are kept have no name twice where `params` has none
/// twice.
pub proof fn lemma_retained_names_are_distinct(params: Seq<Tree>, all: bool, names: Seq<Seq<char>>)
    requires
        names_of(params).no_duplicates(),
    ensures
        names_of(retained(params, all, names)).no_duplicates(),
    decreases params.len(),
{
    if params.len() > 0 {
        let before = params.drop_last();
        let rest = retained(before, all, names);
        let whole = retained(params, all, names);
        assert forall|i: int, j: int|
            0 <= i < before.len() && 0 <= j < before.len() && i != j implies names_of(before)[i]
            != names_of(before)[j] by {
            assert(names_of(params)[i] != names_of(params)[j]);
        }
        lemma_retained_names_are_distinct(before, all, names);
        lemma_retained(before, all, names);
        assert forall|i: int, j: int|
            0 <= i < whole.len() && 0 <= j < whole.len() && i != j implies names_of(whole)[i]
            != names_of(whole)[j] by {
            let (a, b) = if i < j {
                (i, j)
            } else {
                (j, i)
            };
            if b < rest.len() {
                assert(names_of(rest)[a] != names_of(rest)[b]);
            } else {
                assert(before.contains(rest[a]));
                let k = choose|k: int| 0 <= k < before.len() && before[k] == rest[a];
                assert(names_of(params)[k] != names_of(params)[params.len() - 1]);
            }
        }
    }
}

/// What `retained` keeps: with `all` each parameter, and in any case only
/// parameters of `params`, of which each has its name among `names` unless
/// `all` holds.
pub proof fn lemma_retained(params: Seq<Tree>, all: bool, names: Seq<Seq<char>>)
    ensures
        all ==> retained(params, all, names) == params,
        forall|i: int|
            0 <= i < retained(params, all, names).len() ==> params.contains(
                #[trigger] retained(params, all, names)[i],
            ) && (all || names.contains(retained(params, all, names)[i].text)),
        forall|i: int|
            0 <= i < params.len() && (all || names.contains(params[i].text)) ==> retained(
                params,
                all,
                names,
            ).contains(#[trigger] params[i]),
    decreases params.len(),
{
    if params.len() > 0 {
        let rest = retained(params.drop_last(), all, names);
        let whole = retained(params, all, names);
        lemma_retained(params.drop_last(), all, names);
        if all {
            assert(whole =~= params);
        }
        assert forall|i: int| 0 <= i < whole.len() implies params.contains(#[trigger] whole[i])
            && (all || names.contains(whole[i].text)) by {
            if i < rest.len() {
                let before = params.drop_last();
                let j = choose|j: int| 0 <= j < before.len() && before[j] == rest[i];
                assert(params[j] == whole[i]);
            } else {
                assert(params[params.len() - 1] == whole[i]);
            }
        }
        assert forall|i: int|
            0 <= i < params.len() && (all || names.contains(params[i].text)) implies whole.contains(
            #[trigger] params[i],
        ) by {
            if i < params.len() - 1 {
                assert(params.drop_last()[i] == params[i]);
                let j = choose|j: int| 0 <= j < rest.len() && rest[j] == params.drop_last()[i];
                assert(whole[j] == params[i]);
            } else {
                assert(whole[whole.len() - 1] == params[i]);
            }
        }
    }
}

/// What keeps the parameters of a builder in use: the names of its
/// lifetimes and of its type parameters.
#[derive(Clone, Debug, PartialEq, Eq)]
pub struct Marker {
    pub lifetimes: Vec<String>,
    pub types: Vec<String>,
}

/// The text of each tree of `ts`.
pub open spec fn names_of(ts: Seq<Tree>) -> Seq<Seq<char>> {
    Seq::new(ts.len(), |i: int| ts[i].text)
}

/// The text of each node of `nodes`.
fn node_names(nodes: &Vec<Syntax>) -> (r: Vec<String>)
    ensures
        texts(r@) == names_of(trees(nodes@)),
{
    let mut r: Vec<String> = Vec::new();
    let mut i: usize = 0;
    proof {
        lemma_trees(nodes@);
    }
    while i < nodes.len()
        invariant
            i <= nodes.len(),
            r@.len() == i,
            forall|j: int| 0 <= j < i ==> (#[trigger] r@[j])@ == nodes@[j].text@,
        decreases nodes.len() - i,
    {
        r.push(nodes[i].text.clone());
        i += 1;
    }
    proof {
        assert(texts(r@) =~= names_of(trees(nodes@)));
    }
    r
}

/// The marker of a builder with the generic parameters `generics`: it
/// names each lifetime and each type parameter, so that none is unused.
pub fn generate_type_holder(generics: &Generics) -> (r: Marker)
    ensures
        texts(r.lifetimes@) == names_of(generics@.lifetimes),
        texts(r.types@) == names_of(generics@.types),
{
    Marker { lifetimes: node_names(&generics.lifetimes), types: node_names(&generics.types) }
}

/// A path type without the generic arguments of its segments.
pub fn erase_generics(ty: &Syntax) -> (r: Syntax)
    ensures
        r@ == erase(ty@),
{
    match ty.kind {
        Kind::Path { .. } | Kind::QualifiedPath { .. } => {
            let mut parts: Vec<Syntax> = Vec::new();
            let mut i: usize = 0;
            while i < ty.parts.len()
                invariant
                    i <= ty.parts.len(),
                    parts@.len() == i,
                    forall|j: int| 0 <= j < i ==> parts@[j]@ == bare_segment(ty.parts@[j]@),
                decreases ty.parts.len() - i,
            {
                let part = &ty.parts[i];
                let bare = match part.kind {
                    Kind::SegmentAngle | Kind::SegmentParen => Syntax {
                        kind: Kind::Segment,
                        text: part.text.clone(),
                        parts: Vec::new(),
                    },
                    _ => part.clone(),
                };
                parts.push(bare);
                i += 1;
            }
            let r = Syntax { kind: ty.kind, text: ty.text.clone(), parts };
            proof {
                lemma_trees(r.parts@);
                lemma_trees(ty.parts@);
                assert(r@.parts =~= erase(ty@).parts);
            }
            r
        },
        _ => ty.clone(),
    }
}

} // verus!
