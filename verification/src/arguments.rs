//! Parameters: which are legal, which are required and which optional, and
//! in which order they reach the annotated function.

use vstd::prelude::*;
use vstd::string::StrSliceExecFns;
use crate::error::{Error, ErrorKind, Location};
use crate::seqs::{lemma_filter_none, lemma_filter_step, lemma_take_all, lemma_take_step};
use crate::signature::{
    Attribute, FnArg, PatKind, PatType, Signature, ATTR_NAME_DEFAULT_ARG, ATTR_NAME_OPT_ARG,
    ATTR_PREFIX, INNER_SELF_VAR,
};
use crate::syntax::{same_text, Syntax, Tree};

verus! {

/// Where the value of an optional parameter comes from when none is given.
#[derive(Debug, PartialEq, Eq)]
pub enum DefaultExpr {
    /// An expression; its tokens are copied into the terminal operation.
    Written(String),
    /// The default value of the parameter's own type.
    OfType,
}

/// The view of a default.
pub ghost enum DefaultModel {
    Written(Seq<char>),
    OfType,
}

impl View for DefaultExpr {
    type V = DefaultModel;

    open spec fn view(&self) -> DefaultModel {
        match self {
            DefaultExpr::Written(expr) => DefaultModel::Written(expr@),
            DefaultExpr::OfType => DefaultModel::OfType,
        }
    }
}

/// The view of a default that may be absent.
pub open spec fn default_view(default: Option<DefaultExpr>) -> Option<DefaultModel> {
    match default {
        Some(d) => Some(d@),
        None => None,
    }
}

/// The views of the defaults of `v`.
pub open spec fn default_views(v: Seq<DefaultExpr>) -> Seq<DefaultModel> {
    Seq::new(v.len(), |i: int| v[i]@)
}

/// A parameter with a name.
#[derive(Clone, Debug, PartialEq, Eq)]
pub struct Arg {
    pub ident: String,
    pub ty: Syntax,
    /// The default of an optional parameter; a required one has none.
    pub default_value: Option<DefaultExpr>,
}

/// A field of a builder: a name and the type of what it holds.
#[derive(Clone, Debug, PartialEq, Eq)]
pub struct Field {
    pub ident: String,
    pub ty: Syntax,
}

/// The place of a parameter's value inside a builder.
#[derive(Clone, Copy, PartialEq, Eq, Structural, Debug)]
pub enum Slot {
    /// The required field with this index.
    Required(usize),
    /// The optional field with this index.
    Optional(usize),
}

/// The parameters of a declaration, split into required and optional.
#[derive(Clone, Debug, PartialEq, Eq)]
pub struct Partition {
    /// For each parameter, in the order of the declaration, where its value
    /// stands in the builder. The inner function is called in this order.
    pub order: Vec<Slot>,
    /// The required parameters, in the order of the declaration.
    pub required: Vec<Field>,
    /// The optional parameters, in the order of the declaration.
    pub optional: Vec<Field>,
    /// The default of each optional parameter.
    pub defaults: Vec<DefaultExpr>,
}

/// The view of a parameter: its name, the view of its type, and its default
/// if it has one.
pub ghost struct Param {
    pub name: Seq<char>,
    pub ty: Tree,
    pub default: Option<DefaultModel>,
}

impl View for Field {
    type V = (Seq<char>, Tree);

    open spec fn view(&self) -> (Seq<char>, Tree) {
        (self.ident@, self.ty@)
    }
}

impl View for Arg {
    type V = Param;

    open spec fn view(&self) -> Param {
        Param { name: self.ident@, ty: self.ty@, default: default_view(self.default_value) }
    }
}

/// The views of the fields of `v`.
pub open spec fn fields(v: Seq<Field>) -> Seq<(Seq<char>, Tree)> {
    Seq::new(v.len(), |i: int| v[i]@)
}

/// The views of the parameters of `v`.
pub open spec fn params(v: Seq<Arg>) -> Seq<Param> {
    Seq::new(v.len(), |i: int| v[i]@)
}

/// Whether a parameter is required: it has no default.
pub open spec fn is_required() -> spec_fn(Param) -> bool {
    |p: Param| p.default is None
}

/// Whether a parameter is optional: it has a default.
pub open spec fn is_optional() -> spec_fn(Param) -> bool {
    |p: Param| p.default is Some
}

/// The name and type of each of `ps`.
pub open spec fn named_types(ps: Seq<Param>) -> Seq<(Seq<char>, Tree)> {
    Seq::new(ps.len(), |i: int| (ps[i].name, ps[i].ty))
}

/// The fields of a builder for the required parameters among `ps`: they keep
/// their order.
pub open spec fn required_fields(ps: Seq<Param>) -> Seq<(Seq<char>, Tree)> {
    named_types(ps.filter(is_required()))
}

/// The fields of a builder for the optional parameters among `ps`: they keep
/// their order.
pub open spec fn optional_fields(ps: Seq<Param>) -> Seq<(Seq<char>, Tree)> {
    named_types(ps.filter(is_optional()))
}

/// The default of each optional parameter among `ps`.
pub open spec fn defaults_of(ps: Seq<Param>) -> Seq<DefaultModel> {
    Seq::new(ps.filter(is_optional()).len(), |i: int| ps.filter(is_optional())[i].default->0)
}

/// The place in the builder of the last of `ps`: behind the parameters of
/// its group that stand before it.
pub open spec fn slot_of_last(ps: Seq<Param>) -> Slot {
    if ps.last().default is None {
        Slot::Required(ps.drop_last().filter(is_required()).len() as usize)
    } else {
        Slot::Optional(ps.drop_last().filter(is_optional()).len() as usize)
    }
}

/// The place in the builder of each of `ps`.
pub open spec fn order_of(ps: Seq<Param>) -> Seq<Slot> {
    Seq::new(ps.len(), |k: int| slot_of_last(ps.take(k + 1)))
}

/// The default that the attributes `attrs` give a parameter: that of the
/// first among them that is `optarg` or `optarg_default`.
pub open spec fn default_of(attrs: Seq<Attribute>) -> Option<DefaultModel>
    decreases attrs.len(),
{
    if attrs.len() == 0 {
        None
    } else if attrs.first().names_ident(ATTR_NAME_OPT_ARG@) {
        Some(DefaultModel::Written(attrs.first().expr->0@))
    } else if attrs.first().names_ident(ATTR_NAME_DEFAULT_ARG@) {
        Some(DefaultModel::OfType)
    } else {
        default_of(attrs.drop_first())
    }
}

/// Whether the default that `attrs` give can be read: for an `optarg` an
/// expression was read from its arguments, an `optarg_default` has nothing
/// behind it.
pub open spec fn default_is_readable(attrs: Seq<Attribute>) -> bool
    decreases attrs.len(),
{
    if attrs.len() == 0 {
        true
    } else if attrs.first().names_ident(ATTR_NAME_OPT_ARG@) {
        attrs.first().expr is Some
    } else if attrs.first().names_ident(ATTR_NAME_DEFAULT_ARG@) {
        attrs.first().is_bare()
    } else {
        default_is_readable(attrs.drop_first())
    }
}

/// Whether the default that `attrs` give can be read.
pub fn can_read_default(attrs: &Vec<Attribute>) -> (r: bool)
    ensures
        r == default_is_readable(attrs@),
{
    let mut i: usize = 0;
    assert(attrs@.skip(0) =~= attrs@);
    while i < attrs.len()
        invariant
            i <= attrs.len(),
            default_is_readable(attrs@) == default_is_readable(attrs@.skip(i as int)),
        decreases attrs.len() - i,
    {
        proof {
            assert(attrs@.skip(i as int).drop_first() =~= attrs@.skip(i + 1));
        }
        if attrs[i].is_ident(ATTR_NAME_OPT_ARG) {
            return attrs[i].expr.is_some();
        } else if attrs[i].is_ident(ATTR_NAME_DEFAULT_ARG) {
            return attrs[i].tokens.as_str().is_empty();
        }
        i += 1;
    }
    true
}

/// The default that the attributes of a parameter give it, if any.
pub fn parse_arg_attr(attrs: &Vec<Attribute>) -> (r: Option<DefaultExpr>)
    requires
        default_is_readable(attrs@),
    ensures
        default_view(r) == default_of(attrs@),
{
    let mut i: usize = 0;
    assert(attrs@.skip(0) =~= attrs@);
    while i < attrs.len()
        invariant
            i <= attrs.len(),
            default_is_readable(attrs@.skip(i as int)),
            default_of(attrs@) == default_of(attrs@.skip(i as int)),
        decreases attrs.len() - i,
    {
        proof {
            assert(attrs@.skip(i as int).drop_first() =~= attrs@.skip(i + 1));
        }
        if attrs[i].is_ident(ATTR_NAME_OPT_ARG) {
            return match &attrs[i].expr {
                Some(expr) => Some(DefaultExpr::Written(expr.clone())),
                None => None,
            };
        } else if attrs[i].is_ident(ATTR_NAME_DEFAULT_ARG) {
            return Some(DefaultExpr::OfType);
        }
        i += 1;
    }
    None
}

/// Whether each of `args` has a default that can be read.
pub open spec fn args_are_readable(args: Seq<PatType>) -> bool {
    forall|i: int| 0 <= i < args.len() ==> default_is_readable((#[trigger] args[i]).attrs@)
}

/// Whether each typed input of `inputs` has a default that can be read.
pub open spec fn inputs_are_readable(inputs: Seq<FnArg>) -> bool {
    forall|i: int|
        0 <= i < inputs.len() && (#[trigger] inputs[i]) is Typed ==> default_is_readable(
            inputs[i]->Typed_0.attrs@,
        )
}

/// Whether each typed input of `inputs` has a default that can be read.
pub fn can_read_inputs(inputs: &Vec<FnArg>) -> (r: bool)
    ensures
        r == inputs_are_readable(inputs@),
{
    let mut i: usize = 0;
    while i < inputs.len()
        invariant
            i <= inputs.len(),
            inputs_are_readable(inputs@.take(i as int)),
        decreases inputs.len() - i,
    {
        if let FnArg::Typed(t) = &inputs[i] {
            if !can_read_default(&t.attrs) {
                return false;
            }
        }
        proof {
            let next = inputs@.take(i + 1);
            assert forall|j: int|
                0 <= j < i + 1 && (#[trigger] next[j]) is Typed implies default_is_readable(
                next[j]->Typed_0.attrs@,
            ) by {
                if j < i {
                    assert(inputs@.take(i as int)[j] == inputs@.take(i + 1)[j]);
                }
            }
        }
        i += 1;
    }
    proof {
        lemma_take_all(inputs@);
    }
    true
}

/// Whether each typed input of `inputs` that does not stand for the
/// receiver has a default that can be read.
pub open spec fn plain_are_readable(inputs: Seq<FnArg>) -> bool {
    forall|i: int|
        0 <= i < inputs.len() && (#[trigger] inputs[i]) is Typed && !inputs[i].is_self()
            ==> default_is_readable(inputs[i]->Typed_0.attrs@)
}

/// Whether each typed input of `inputs` that does not stand for the
/// receiver has a default that can be read.
pub fn can_read_plain(inputs: &Vec<FnArg>) -> (r: bool)
    ensures
        r == plain_are_readable(inputs@),
{
    let mut i: usize = 0;
    while i < inputs.len()
        invariant
            i <= inputs.len(),
            plain_are_readable(inputs@.take(i as int)),
        decreases inputs.len() - i,
    {
        if let FnArg::Typed(t) = &inputs[i] {
            if !t.is_self() && !can_read_default(&t.attrs) {
                return false;
            }
        }
        proof {
            let next = inputs@.take(i + 1);
            assert forall|j: int|
                0 <= j < i + 1 && (#[trigger] next[j]) is Typed
                    && !next[j].is_self() implies default_is_readable(
                next[j]->Typed_0.attrs@,
            ) by {
                if j < i {
                    assert(inputs@.take(i as int)[j] == inputs@.take(i + 1)[j]);
                }
            }
        }
        i += 1;
    }
    proof {
        lemma_take_all(inputs@);
    }
    true
}

/// The view of the parameter that `arg` declares.
pub open spec fn param_of(arg: PatType) -> Param {
    Param { name: arg.pat.name@, ty: arg.ty@, default: default_of(arg.attrs@) }
}

/// One parameter with its name, its type and its default.
pub fn parse_typed_arg(arg: &PatType) -> (r: Arg)
    requires
        default_is_readable(arg.attrs@),
    ensures
        r@ == param_of(*arg),
{
    Arg {
        ident: arg.pat.name.clone(),
        ty: arg.ty.clone(),
        default_value: parse_arg_attr(&arg.attrs),
    }
}

/// Each parameter with its name, its type and its default.
pub fn parse_typed_args(args: &Vec<PatType>) -> (r: Vec<Arg>)
    requires
        args_are_readable(args@),
    ensures
        r@.len() == args@.len(),
        forall|i: int|
            0 <= i < args@.len() ==> (#[trigger] r@[i])@ == param_of(args@[i]),
{
    let mut r: Vec<Arg> = Vec::new();
    let mut i: usize = 0;
    while i < args.len()
        invariant
            i <= args.len(),
            args_are_readable(args@),
            r@.len() == i,
            forall|j: int| 0 <= j < i ==> (#[trigger] r@[j])@ == param_of(args@[j]),
        decreases args.len() - i,
    {
        r.push(parse_typed_arg(&args[i]));
        i += 1;
    }
    r
}

impl Clone for DefaultExpr {
    fn clone(&self) -> (r: Self)
        ensures
            r == *self,
    {
        match self {
            DefaultExpr::Written(expr) => DefaultExpr::Written(expr.clone()),
            DefaultExpr::OfType => DefaultExpr::OfType,
        }
    }
}

/// Splits the parameters into required and optional.
///
/// Within each group the parameters keep the order of the declaration;
/// `order` tells for each parameter of the declaration where its value stands.
pub fn separate_args(args: &Vec<Arg>) -> (r: Partition)
    ensures
        fields(r.required@) == required_fields(params(args@)),
        fields(r.optional@) == optional_fields(params(args@)),
        default_views(r.defaults@) == defaults_of(params(args@)),
        r.order@ == order_of(params(args@)),
{
    let mut order: Vec<Slot> = Vec::new();
    let mut required: Vec<Field> = Vec::new();
    let mut optional: Vec<Field> = Vec::new();
    let mut defaults: Vec<DefaultExpr> = Vec::new();
    let mut i: usize = 0;
    let ghost ps = params(args@);
    proof {
        lemma_filter_none(ps, is_required());
        lemma_filter_none(ps, is_optional());
        assert(fields(required@) =~= required_fields(ps.take(0)));
        assert(fields(optional@) =~= optional_fields(ps.take(0)));
        assert(default_views(defaults@) =~= defaults_of(ps.take(0)));
        assert(order@ =~= order_of(ps).take(0));
    }
    while i < args.len()
        invariant
            i <= args.len(),
            ps == params(args@),
            fields(required@) == required_fields(ps.take(i as int)),
            fields(optional@) == optional_fields(ps.take(i as int)),
            default_views(defaults@) == defaults_of(ps.take(i as int)),
            required@.len() == ps.take(i as int).filter(is_required()).len(),
            optional@.len() == ps.take(i as int).filter(is_optional()).len(),
            order@ == order_of(ps).take(i as int),
        decreases args.len() - i,
    {
        let arg = &args[i];
        proof {
            lemma_filter_step(ps, is_required(), i as int);
            lemma_filter_step(ps, is_optional(), i as int);
            lemma_take_step(ps, i as int);
            assert(ps[i as int] == arg@);
        }
        let field = Field { ident: arg.ident.clone(), ty: arg.ty.clone() };
        let ghost required_before = required@;
        let ghost optional_before = optional@;
        let ghost defaults_before = defaults@;
        match &arg.default_value {
            None => {
                order.push(Slot::Required(required.len()));
                required.push(field);
                proof {
                    let before = ps.take(i as int).filter(is_required());
                    assert(fields(required@) =~= fields(required_before).push(field@));
                    assert(named_types(before.push(arg@)) =~= named_types(before).push(
                        (arg@.name, arg@.ty),
                    ));
                }
            },
            Some(default) => {
                order.push(Slot::Optional(optional.len()));
                optional.push(field);
                defaults.push(default.clone());
                proof {
                    let before = ps.take(i as int).filter(is_optional());
                    assert(fields(optional@) =~= fields(optional_before).push(field@));
                    assert(named_types(before.push(arg@)) =~= named_types(before).push(
                        (arg@.name, arg@.ty),
                    ));
                    assert(default_views(defaults@) =~= default_views(defaults_before).push(
                        default@,
                    ));
                    assert(defaults_of(ps.take(i + 1)) =~= defaults_of(ps.take(i as int)).push(
                        default@,
                    ));
                }
            },
        }
        proof {
            assert(order@ =~= order_of(ps).take(i + 1));
        }
        i += 1;
    }
    proof {
        lemma_take_all(ps);
        lemma_take_all(order_of(ps));
    }
    Partition { order, required, optional, defaults }
}

/// The field that a slot names, among the fields `required` and `optional`.
pub open spec fn slot_field<A>(slot: Slot, required: Seq<A>, optional: Seq<A>) -> A {
    match slot {
        Slot::Required(i) => required[i as int],
        Slot::Optional(j) => optional[j as int],
    }
}

/// Whether a slot names one of `required` or `optional` fields.
pub open spec fn slot_fits(slot: Slot, required: nat, optional: nat) -> bool {
    match slot {
        Slot::Required(i) => i < required,
        Slot::Optional(j) => j < optional,
    }
}

/// The order names, for each parameter of the declaration, the field that
/// has the parameter's name and type, in a group of its own kind; an
/// optional parameter's default stands at the same index.
pub proof fn law_order_names_each_parameter(ps: Seq<Param>, k: int)
    requires
        0 <= k < ps.len(),
        ps.len() <= usize::MAX,
    ensures
        order_of(ps).len() == ps.len(),
        slot_fits(order_of(ps)[k], required_fields(ps).len(), optional_fields(ps).len()),
        slot_field(order_of(ps)[k], required_fields(ps), optional_fields(ps)) == (
            ps[k].name,
            ps[k].ty,
        ),
        ps[k].default is None <==> order_of(ps)[k] is Required,
        ps[k].default is Some ==> defaults_of(ps)[order_of(ps)[k]->Optional_0 as int]
            == ps[k].default->0,
{
    lemma_take_step(ps, k);
    lemma_filter_step(ps, is_required(), k);
    lemma_filter_step(ps, is_optional(), k);
    ps.take(k).lemma_filter_len(is_required());
    ps.take(k).lemma_filter_len(is_optional());
    assert(ps.take(k + 1).is_prefix_of(ps));
    ps.take(k + 1).lemma_filter_monotone(ps, is_required());
    ps.take(k + 1).lemma_filter_monotone(ps, is_optional());
    let upto = if ps[k].default is None {
        ps.take(k + 1).filter(is_required())
    } else {
        ps.take(k + 1).filter(is_optional())
    };
    let whole = if ps[k].default is None {
        ps.filter(is_required())
    } else {
        ps.filter(is_optional())
    };
    assert(upto.is_prefix_of(whole));
    assert(whole[upto.len() - 1] == upto[upto.len() - 1]);
}

/// Whether the attribute is one of this library's: its path is one
/// identifier that starts with `optarg`.
pub open spec fn is_ours() -> spec_fn(Attribute) -> bool {
    |attr: Attribute| attr.simple && ATTR_PREFIX@.is_prefix_of(attr.path@)
}

/// Whether the attribute is none of this library's.
pub open spec fn is_foreign() -> spec_fn(Attribute) -> bool {
    |attr: Attribute| !(attr.simple && ATTR_PREFIX@.is_prefix_of(attr.path@))
}

/// Whether the attribute gives no default.
pub open spec fn gives_no_default() -> spec_fn(Attribute) -> bool {
    |attr: Attribute| !attr.is_default()
}

/// Whether `text` starts with `prefix`.
pub fn starts_with(text: &str, prefix: &str) -> (r: bool)
    ensures
        r == prefix@.is_prefix_of(text@),
{
    let n = prefix.unicode_len();
    if text.unicode_len() < n {
        return false;
    }
    same_text(text.substring_char(0, n), prefix)
}

/// The attributes of this library among `attrs`, and the others.
pub fn separate_attrs(attrs: &Vec<Attribute>) -> (r: (Vec<Attribute>, Vec<Attribute>))
    ensures
        r.0@ == attrs@.filter(is_ours()),
        r.1@ == attrs@.filter(is_foreign()),
{
    let mut optarg_attrs: Vec<Attribute> = Vec::new();
    let mut other_attrs: Vec<Attribute> = Vec::new();
    let mut i: usize = 0;
    proof {
        lemma_filter_none(attrs@, is_ours());
        lemma_filter_none(attrs@, is_foreign());
    }
    while i < attrs.len()
        invariant
            i <= attrs.len(),
            optarg_attrs@ == attrs@.take(i as int).filter(is_ours()),
            other_attrs@ == attrs@.take(i as int).filter(is_foreign()),
        decreases attrs.len() - i,
    {
        proof {
            lemma_filter_step(attrs@, is_ours(), i as int);
            lemma_filter_step(attrs@, is_foreign(), i as int);
        }
        let attr = &attrs[i];
        if attr.simple && starts_with(attr.path.as_str(), ATTR_PREFIX) {
            optarg_attrs.push(attr.clone());
        } else {
            other_attrs.push(attr.clone());
        }
        i += 1;
    }
    proof {
        lemma_take_all(attrs@);
    }
    (optarg_attrs, other_attrs)
}

/// What a parameter looks like once the attributes that give a default are
/// taken from it.
pub open spec fn erased_arg(arg: FnArg, erased: FnArg) -> bool {
    match arg {
        FnArg::Receiver(r) => erased == arg,
        FnArg::Typed(t) => erased is Typed && erased->Typed_0.attrs@ == t.attrs@.filter(
            gives_no_default(),
        ) && erased->Typed_0.pat == t.pat && erased->Typed_0.ty@ == t.ty@,
    }
}

/// A copy of `attrs` without `optarg` and `optarg_default`.
fn erase_attrs(attrs: &Vec<Attribute>) -> (r: Vec<Attribute>)
    ensures
        r@ == attrs@.filter(gives_no_default()),
{
    let mut r: Vec<Attribute> = Vec::new();
    let mut i: usize = 0;
    proof {
        lemma_filter_none(attrs@, gives_no_default());
    }
    while i < attrs.len()
        invariant
            i <= attrs.len(),
            r@ == attrs@.take(i as int).filter(gives_no_default()),
        decreases attrs.len() - i,
    {
        proof {
            lemma_filter_step(attrs@, gives_no_default(), i as int);
        }
        let attr = &attrs[i];
        if !attr.is_ident(ATTR_NAME_DEFAULT_ARG) && !attr.is_ident(ATTR_NAME_OPT_ARG) {
            r.push(attr.clone());
        }
        i += 1;
    }
    proof {
        lemma_take_all(attrs@);
    }
    r
}

/// The inputs of a signature without the attributes that give a default.
pub fn erase_optarg_attr(inputs: &Vec<FnArg>) -> (r: Vec<FnArg>)
    ensures
        r@.len() == inputs@.len(),
        forall|i: int| 0 <= i < inputs@.len() ==> erased_arg(inputs@[i], #[trigger] r@[i]),
{
    let mut r: Vec<FnArg> = Vec::new();
    let mut i: usize = 0;
    while i < inputs.len()
        invariant
            i <= inputs.len(),
            r@.len() == i,
            forall|j: int| 0 <= j < i ==> erased_arg(inputs@[j], #[trigger] r@[j]),
        decreases inputs.len() - i,
    {
        let erased = match &inputs[i] {
            FnArg::Receiver(receiver) => FnArg::Receiver(receiver.clone()),
            FnArg::Typed(t) => FnArg::Typed(
                PatType { attrs: erase_attrs(&t.attrs), pat: t.pat.clone(), ty: t.ty.clone() },
            ),
        };
        r.push(erased);
        i += 1;
    }
    r
}

/// What is wrong with one input, if anything.
pub open spec fn offence(arg: FnArg) -> Option<ErrorKind> {
    match arg {
        FnArg::Receiver(_) => None,
        FnArg::Typed(t) => match t.pat.kind {
            PatKind::Ident => if t.pat.name@ == INNER_SELF_VAR@ {
                Some(ErrorKind::ReservedNameCollision)
            } else {
                None
            },
            PatKind::Wild => Some(ErrorKind::UnsupportedParameterPattern { wildcard: true }),
            PatKind::Other => Some(ErrorKind::UnsupportedParameterPattern { wildcard: false }),
        },
    }
}

/// Whether nothing is wrong with any of `inputs`.
pub open spec fn inputs_are_legal(inputs: Seq<FnArg>) -> bool {
    forall|i: int| 0 <= i < inputs.len() ==> offence(#[trigger] inputs[i]) is None
}

/// Whether `e` is the diagnostic of the first of `inputs` with which
/// something is wrong.
pub open spec fn is_first_offence(inputs: Seq<FnArg>, e: Error) -> bool {
    &&& e.location is Input
    &&& e.location->Input_0 < inputs.len()
    &&& offence(inputs[e.location->Input_0 as int]) == Some(e.kind)
    &&& inputs_are_legal(inputs.take(e.location->Input_0 as int))
}

/// Checks the parameters of a signature.
///
/// Each typed parameter must bind one identifier, and none may have the
/// name under which the builder stores the receiver. The diagnostic is that
/// of the first parameter that does not comply.
pub fn check_sig(sig: &Signature) -> (r: Result<(), Error>)
    ensures
        match r {
            Ok(_) => inputs_are_legal(sig.inputs@),
            Err(e) => is_first_offence(sig.inputs@, e),
        },
{
    let mut i: usize = 0;
    while i < sig.inputs.len()
        invariant
            i <= sig.inputs.len(),
            inputs_are_legal(sig.inputs@.take(i as int)),
        decreases sig.inputs.len() - i,
    {
        let found: Option<ErrorKind> = match &sig.inputs[i] {
            FnArg::Typed(t) => match t.pat.kind {
                PatKind::Ident => if same_text(t.pat.name.as_str(), INNER_SELF_VAR) {
                    Some(ErrorKind::ReservedNameCollision)
                } else {
                    None
                },
                PatKind::Wild => Some(ErrorKind::UnsupportedParameterPattern { wildcard: true }),
                PatKind::Other => Some(
                    ErrorKind::UnsupportedParameterPattern { wildcard: false },
                ),
            },
            FnArg::Receiver(_) => None,
        };
        if let Some(kind) = found {
            return Err(Error { kind, location: Location::Input(i) });
        }
        proof {
            lemma_take_step(sig.inputs@, i as int);
            assert forall|j: int| 0 <= j < i + 1 implies offence(
                #[trigger] sig.inputs@.take(i + 1)[j],
            ) is None by {
                if j < i {
                    assert(sig.inputs@.take(i as int)[j] == sig.inputs@.take(i + 1)[j]);
                }
            }
        }
        i += 1;
    }
    proof {
        lemma_take_all(sig.inputs@);
    }
    Ok(())
}

} // verus!
