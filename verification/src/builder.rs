//! What is laid out for one declaration: the builder, its constructor, its
//! setters and its terminal operation.

use vstd::prelude::*;
use vstd::string::StringExecFns;
use crate::arguments::{
    args_are_readable, can_read_inputs, can_read_plain, check_sig, default_is_readable,
    default_of, offence, plain_are_readable,
    default_views, defaults_of, erase_optarg_attr,
    erased_arg, fields, inputs_are_legal, inputs_are_readable, is_first_offence, is_foreign,
    is_ours, optional_fields, order_of, param_of, params, parse_typed_arg, parse_typed_args,
    required_fields, separate_args,
    separate_attrs, Arg, DefaultExpr, Field, Param, Partition, Slot,
};
use crate::doc::{builder_doc, generate_doc, setter_doc, terminal_doc, DocAttrs};
use crate::error::{Error, ErrorKind, Location};
use crate::generics::{
    erase, erase_generics, generate_type_holder, merge_generics, merged, names_of, resolve,
    resolve_all, Marker, SelfReplace,
};
use crate::receiver::{
    accepts_receiver, has_elided_receiver, is_plain_arg, is_receiver_error, pat_types,
    plain_args, receiver_is_accepted, receives,
    separate_receiver, ReceiverKind, Separated,
};
use crate::seqs::{lemma_take_all, lemma_take_step};
use crate::signature::{
    clone_attrs, clone_type, option_tree, Attribute, FnArg, FnAttr, Function, Generics,
    GenericsModel, ImplItem, ItemImpl, Pat, PatType, Signature, ATTR_NAME_METHOD,
};
use crate::syntax::{clone_all, texts, Syntax, Tree};

verus! {

/// The name of the inner function of a function: the annotated function
/// itself, which stands inside the terminal operation.
pub const INNER_FUNCTION: &'static str = "_optarg_inner_func";

/// What the name of the inner function of a method starts with; the
/// method's own name follows.
pub const INNER_METHOD_PREFIX: &'static str = "_optarg_inner_";

/// The builder type.
///
/// It has a field for the receiver if there is one, one for each required
/// parameter, one for each optional parameter, which holds a value or
/// none, and a marker.
#[derive(Clone, Debug, PartialEq, Eq)]
pub struct Builder {
    pub struct_name: String,
    pub generics: Generics,
    pub receiver_field: Option<Field>,
    pub required_fields: Vec<Field>,
    /// The optional parameters with their declared types.
    pub optional_fields: Vec<Field>,
    pub marker_field: Marker,
}

/// The operation that makes a builder. It has the name of the annotated
/// function and takes the receiver, if any, and the required parameters.
#[derive(Clone, Debug, PartialEq, Eq)]
pub struct Constructor {
    pub attrs: Vec<Attribute>,
    pub name: String,
    /// The generic parameters of the declaration itself.
    pub generics: Generics,
    pub receiver: ReceiverKind,
}

/// The operation that consumes the builder and calls the inner function.
#[derive(Clone, Debug, PartialEq, Eq)]
pub struct Terminal {
    pub name: String,
    /// Whether it awaits the inner function, and is itself asynchronous.
    pub asyncness: bool,
    pub output: Option<Syntax>,
    /// The default of each optional field. The defaults of the fields that
    /// were not set are evaluated in this order, when the operation runs.
    pub defaults: Vec<DefaultExpr>,
    /// The arguments of the call, after the receiver: for each parameter of
    /// the declaration, in its order, the field that holds the value.
    pub order: Vec<Slot>,
    /// The type on which the inner function of a method is called: the self type
    /// without generic arguments. A function has none.
    pub target: Option<Syntax>,
    /// The name of the inner function.
    pub inner_name: String,
}

/// The inner function: the annotated function under its new name.
#[derive(Clone, Debug, PartialEq, Eq)]
pub enum Inner {
    /// A function, which stands inside the terminal operation, without the
    /// attributes that give a default and without a visibility.
    Function { attrs: Vec<Attribute>, sig: Signature, block: String },
    /// A method, which stands beside the constructor. It takes the receiver
    /// as the constructor does and the parameters in their order, and has the
    /// terminal operation's return type.
    Method { block: String },
}

/// What is laid out for one declaration.
#[derive(Clone, Debug, PartialEq, Eq)]
pub struct Expansion {
    /// The visibility of the builder and of its operations, as written.
    pub vis: String,
    pub docs: DocAttrs,
    pub builder: Builder,
    pub constructor: Constructor,
    pub terminal: Terminal,
    pub inner: Inner,
}

/// What is laid out for an `impl` block.
#[derive(Clone, Debug, PartialEq, Eq)]
pub struct ImplExpansion {
    /// The indices of the items that stay as they are, in order.
    pub kept: Vec<usize>,
    /// The indices of the marked methods, in order.
    pub marked: Vec<usize>,
    /// What comes of each marked method, whatever comes of the others: its
    /// expansion, whose constructor and inner function stand in the block
    /// behind the items that stay, or its diagnostic.
    pub outcomes: Vec<Result<Expansion, Error>>,
}

/// The views of inputs that are all written with a pattern and a type.
pub open spec fn typed_args(inputs: Seq<FnArg>) -> Seq<(Seq<Attribute>, Pat, Tree)> {
    Seq::new(inputs.len(), |i: int| inputs[i]->Typed_0@)
}

/// The type `ty` as a builder holds it: with `self_ty`, where there is
/// one, in place of `Self`.
pub open spec fn held_type(ty: Tree, self_ty: Option<Tree>) -> Tree {
    match self_ty {
        Some(s) => resolve(ty, s),
        None => ty,
    }
}

/// The parameters that `args` declare.
pub open spec fn declared(args: Seq<(Seq<Attribute>, Pat, Tree)>, self_ty: Option<Tree>) -> Seq<
    Param,
> {
    Seq::new(
        args.len(),
        |i: int|
            Param {
                name: args[i].1.name@,
                ty: held_type(args[i].2, self_ty),
                default: default_of(args[i].0),
            },
    )
}

/// What holds of the expansion of any declaration with the name `subject`
/// and the parameters `ps`, for which `names` are supplied.
pub open spec fn lays_out(
    x: Expansion,
    names: (Seq<char>, Seq<char>),
    subject: Seq<char>,
    ps: Seq<Param>,
) -> bool {
    &&& x.builder.struct_name@ == names.0
    &&& fields(x.builder.required_fields@) == required_fields(ps)
    &&& fields(x.builder.optional_fields@) == optional_fields(ps)
    &&& texts(x.builder.marker_field.lifetimes@) == names_of(x.builder.generics@.lifetimes)
    &&& texts(x.builder.marker_field.types@) == names_of(x.builder.generics@.types)
    &&& x.constructor.name@ == subject
    &&& x.terminal.name@ == names.1
    &&& default_views(x.terminal.defaults@) == defaults_of(ps)
    &&& x.terminal.order@ == order_of(ps)
    &&& x.docs.doc_builder_struct@ == builder_doc(subject)
    &&& x.docs.doc_terminal_method@ == terminal_doc(subject)
    &&& x.docs.doc_setter@.len() == optional_fields(ps).len()
    &&& forall|j: int|
        0 <= j < optional_fields(ps).len() ==> (#[trigger] x.docs.doc_setter@[j])@ == setter_doc(
            optional_fields(ps)[j].0,
        )
}

/// Whether `x` is the expansion of the function `item` for which `attr` is
/// supplied.
pub open spec fn expands_function(attr: FnAttr, item: Function, x: Expansion) -> bool {
    &&& lays_out(x, attr@, item.sig.ident@, declared(typed_args(item.sig.inputs@), None))
    &&& x.vis == item.vis
    &&& x.builder.generics@ == item.sig.generics@
    &&& x.builder.receiver_field is None
    &&& x.constructor.attrs@ == item.attrs@
    &&& x.constructor.generics@ == item.sig.generics@
    &&& x.constructor.receiver is Absent
    &&& x.terminal.asyncness == item.sig.asyncness
    &&& option_tree(x.terminal.output) == option_tree(item.sig.output)
    &&& x.terminal.target is None
    &&& x.terminal.inner_name@ == INNER_FUNCTION@
    &&& match x.inner {
        Inner::Function { attrs, sig, block } => {
            &&& attrs@ == item.attrs@
            &&& block == item.block
            &&& sig.qualifiers == item.sig.qualifiers
            &&& sig.asyncness == item.sig.asyncness
            &&& sig.ident@ == INNER_FUNCTION@
            &&& sig.generics@ == item.sig.generics@
            &&& option_tree(sig.output) == option_tree(item.sig.output)
            &&& sig.inputs@.len() == item.sig.inputs@.len()
            &&& forall|i: int|
                0 <= i < item.sig.inputs@.len() ==> erased_arg(
                    item.sig.inputs@[i],
                    #[trigger] sig.inputs@[i],
                )
        },
        Inner::Method { .. } => false,
    }
}

/// Whether the attributes of a method supply the two names: they were read
/// from the arguments of the first of this library's attributes among them.
pub open spec fn has_config(attrs: Seq<Attribute>) -> bool {
    attrs.filter(is_ours()).len() > 0 && attrs.filter(is_ours())[0].names is Some
}

/// The two names that the attributes of a method supply.
pub open spec fn config_of(attrs: Seq<Attribute>) -> (Seq<char>, Seq<char>) {
    attrs.filter(is_ours())[0].names->0@
}

/// The generic parameters of a method itself as its constructor has them:
/// with the self type in place of `Self`.
pub open spec fn own_generics(sig: Signature, self_ty: Tree) -> GenericsModel {
    GenericsModel {
        lifetimes: sig.generics@.lifetimes,
        types: resolve_all(sig.generics@.types, self_ty),
        predicates: resolve_all(sig.generics@.predicates, self_ty),
    }
}

/// Whether the attributes of a method supply the two names.
pub fn supplies_names(attrs: &Vec<Attribute>) -> (r: bool)
    ensures
        r == has_config(attrs@),
{
    let (optarg_attrs, _) = separate_attrs(attrs);
    optarg_attrs.len() > 0 && optarg_attrs[0].names.is_some()
}

/// Whether `x` is the expansion of the method `input` of an `impl` block
/// with the generic parameters `outer` for the type `self_ty`.
pub open spec fn expands_method(
    input: Function,
    outer: Generics,
    self_ty: Tree,
    x: Expansion,
) -> bool {
    &&& lays_out(
        x,
        config_of(input.attrs@),
        input.sig.ident@,
        declared(plain_args(input.sig.inputs@), Some(self_ty)),
    )
    &&& x.vis == input.vis
    &&& x.builder.generics@ == merged(outer, input.sig, self_ty)
    &&& receives(input.sig.inputs@, self_ty, x.constructor.receiver, x.builder.receiver_field)
    &&& x.constructor.attrs@ == input.attrs@.filter(is_foreign())
    &&& x.constructor.generics@ == own_generics(input.sig, self_ty)
    &&& x.terminal.asyncness == input.sig.asyncness
    &&& option_tree(x.terminal.output) == match input.sig.output {
        Some(ty) => Some(resolve(ty@, self_ty)),
        None => None,
    }
    &&& x.terminal.target is Some
    &&& x.terminal.target->0@ == erase(self_ty)
    &&& x.terminal.inner_name@ == INNER_METHOD_PREFIX@ + input.sig.ident@
    &&& x.inner == (Inner::Method { block: input.block })
}

/// Whether `e` is the diagnostic of a method with the inputs `inputs`: that
/// of its first parameter that is not legal, or else that of its receiver.
pub open spec fn is_method_error(inputs: Seq<FnArg>, e: Error) -> bool {
    is_first_offence(inputs, e) || (inputs_are_legal(inputs) && is_receiver_error(inputs, e))
}

/// Whether `r` is what comes of the function `item` for which `attr` is
/// supplied: its expansion, or the diagnostic of its first parameter that
/// is not legal.
pub open spec fn is_function_outcome(
    attr: FnAttr,
    item: Function,
    r: Result<Expansion, Error>,
) -> bool {
    match r {
        Ok(x) => inputs_are_legal(item.sig.inputs@) && expands_function(attr, item, x),
        Err(e) => is_first_offence(item.sig.inputs@, e),
    }
}

/// Whether `r` is what comes of the method `input` of an `impl` block with
/// the generic parameters `outer` for the type `self_ty`: its expansion, or
/// its diagnostic. A method whose parameters are legal and whose one
/// receiver is a reference without a lifetime has that diagnostic, and
/// nothing is laid out for it.
pub open spec fn is_method_outcome(
    input: Function,
    outer: Generics,
    self_ty: Tree,
    r: Result<Expansion, Error>,
) -> bool {
    &&& match r {
        Ok(x) => inputs_are_legal(input.sig.inputs@) && expands_method(input, outer, self_ty, x),
        Err(e) => is_method_error(input.sig.inputs@, e),
    }
    &&& inputs_are_legal(input.sig.inputs@) && has_elided_receiver(input.sig.inputs@) ==> r is Err
        && r->Err_0.kind == ErrorKind::ExplicitLifetimeRequired
}

/// Whether what the layout of the function `item` needs was read. Where
/// its parameters are legal, it has no receiver and the default of each
/// parameter can be read; nothing is needed of a function with a
/// parameter that is not legal.
pub open spec fn function_is_readable(item: Function) -> bool {
    inputs_are_legal(item.sig.inputs@) ==> item.sig.is_free() && inputs_are_readable(
        item.sig.inputs@,
    )
}

/// Whether what the layout of the method `input` needs was read. Where its
/// parameters are legal, its attributes supply the two names; where its
/// receiver can be stored as well, the default of each parameter can be
/// read.
pub open spec fn method_is_readable(input: Function) -> bool {
    inputs_are_legal(input.sig.inputs@) ==> has_config(input.attrs@) && (receiver_is_accepted(
        input.sig.inputs@,
    ) ==> plain_are_readable(input.sig.inputs@))
}

/// Whether what the layout of the function `item` needs was read.
pub fn can_read_function(item: &Function) -> (r: bool)
    ensures
        r == function_is_readable(*item),
{
    match check_sig(&item.sig) {
        Err(e) => {
            assert(offence(item.sig.inputs@[e.location->Input_0 as int]) is Some);
            true
        },
        Ok(_) => item.sig.has_no_receiver() && can_read_inputs(&item.sig.inputs),
    }
}

/// Whether what the layout of the method `input` needs was read.
pub fn can_read_method(input: &Function) -> (r: bool)
    ensures
        r == method_is_readable(*input),
{
    match check_sig(&input.sig) {
        Err(e) => {
            assert(offence(input.sig.inputs@[e.location->Input_0 as int]) is Some);
            true
        },
        Ok(_) => supplies_names(&input.attrs) && (!accepts_receiver(&input.sig.inputs)
            || can_read_plain(&input.sig.inputs)),
    }
}

/// The names of the fields of `v`.
fn field_names(v: &Vec<Field>) -> (r: Vec<String>)
    ensures
        r@.len() == v@.len(),
        forall|i: int| 0 <= i < v@.len() ==> (#[trigger] r@[i])@ == v@[i].ident@,
{
    let mut r: Vec<String> = Vec::new();
    let mut i: usize = 0;
    while i < v.len()
        invariant
            i <= v.len(),
            r@.len() == i,
            forall|j: int| 0 <= j < i ==> (#[trigger] r@[j])@ == v@[j].ident@,
        decreases v.len() - i,
    {
        r.push(v[i].ident.clone());
        i += 1;
    }
    r
}

/// The parameters of a function, whose inputs are all written with a
/// pattern and a type.
fn function_args(inputs: &Vec<FnArg>) -> (r: Vec<Arg>)
    requires
        inputs_are_readable(inputs@),
        forall|i: int| 0 <= i < inputs@.len() ==> #[trigger] inputs@[i] is Typed,
    ensures
        params(r@) == declared(typed_args(inputs@), None),
{
    let mut r: Vec<Arg> = Vec::new();
    let mut i: usize = 0;
    while i < inputs.len()
        invariant
            i <= inputs.len(),
            inputs_are_readable(inputs@),
            forall|j: int| 0 <= j < inputs@.len() ==> #[trigger] inputs@[j] is Typed,
            r@.len() == i,
            forall|j: int|
                0 <= j < i ==> (#[trigger] r@[j])@ == declared(typed_args(inputs@), None)[j],
        decreases inputs.len() - i,
    {
        match &inputs[i] {
            FnArg::Typed(t) => {
                r.push(parse_typed_arg(t));
            },
            FnArg::Receiver(_) => {
                assert(false);
            },
        }
        i += 1;
    }
    proof {
        assert(params(r@) =~= declared(typed_args(inputs@), None));
    }
    r
}

/// The parameters of a method with the self type in place of `Self`.
fn method_args(args: &Vec<PatType>, replace: &SelfReplace) -> (r: Vec<Arg>)
    requires
        args_are_readable(args@),
    ensures
        params(r@) == declared(pat_types(args@), Some(replace.0@)),
{
    let parsed = parse_typed_args(args);
    let mut r: Vec<Arg> = Vec::new();
    let mut i: usize = 0;
    while i < parsed.len()
        invariant
            i <= parsed.len(),
            parsed@.len() == args@.len(),
            forall|j: int| 0 <= j < args@.len() ==> (#[trigger] parsed@[j])@ == param_of(args@[j]),
            r@.len() == i,
            forall|j: int|
                0 <= j < i ==> (#[trigger] r@[j])@ == declared(
                    pat_types(args@),
                    Some(replace.0@),
                )[j],
        decreases parsed.len() - i,
    {
        let arg = &parsed[i];
        r.push(
            Arg {
                ident: arg.ident.clone(),
                ty: replace.fold_type(&arg.ty),
                default_value: match &arg.default_value {
                    Some(default) => Some(default.clone()),
                    None => None,
                },
            },
        );
        i += 1;
    }
    proof {
        assert(params(r@) =~= declared(pat_types(args@), Some(replace.0@)));
    }
    r
}

/// The expansion of a declaration from its pieces.
fn assemble(
    names: &FnAttr,
    vis: &String,
    name: &String,
    attrs: Vec<Attribute>,
    generics: Generics,
    own: Generics,
    kind: ReceiverKind,
    storage: Option<Field>,
    args: &Vec<Arg>,
    asyncness: bool,
    output: Option<Syntax>,
    target: Option<Syntax>,
    inner_name: String,
    inner: Inner,
) -> (x: Expansion)
    ensures
        lays_out(x, names@, name@, params(args@)),
        x.vis == *vis,
        x.builder.generics == generics,
        x.builder.receiver_field == storage,
        x.constructor.attrs == attrs,
        x.constructor.generics == own,
        x.constructor.receiver == kind,
        x.terminal.asyncness == asyncness,
        x.terminal.output == output,
        x.terminal.target == target,
        x.terminal.inner_name == inner_name,
        x.inner == inner,
{
    let marker_field = generate_type_holder(&generics);
    let Partition { order, required, optional, defaults } = separate_args(args);
    let docs = generate_doc(name.as_str(), &field_names(&optional));
    proof {
        let ps = params(args@);
        assert forall|j: int| 0 <= j < optional_fields(ps).len() implies (
        #[trigger] docs.doc_setter@[j])@ == setter_doc(optional_fields(ps)[j].0) by {
            assert(fields(optional@)[j] == optional@[j]@);
        }
        assert(fields(optional@).len() == optional@.len());
    }
    Expansion {
        vis: vis.clone(),
        docs,
        builder: Builder {
            struct_name: names.builder_struct_name.clone(),
            generics,
            receiver_field: storage,
            required_fields: required,
            optional_fields: optional,
            marker_field,
        },
        constructor: Constructor { attrs, name: name.clone(), generics: own, receiver: kind },
        terminal: Terminal {
            name: names.terminal_method_name.clone(),
            asyncness,
            output,
            defaults,
            order,
            target,
            inner_name,
        },
        inner,
    }
}

/// Lays out the builder of a function.
///
/// `attr` names the builder type and the terminal operation. A parameter
/// that is not legal is refused, and nothing is laid out. Of a function
/// whose parameters are legal it is required that it has no receiver and
/// that the default of each parameter can be read.
pub fn optarg_fn(attr: &FnAttr, item: &Function) -> (r: Result<Expansion, Error>)
    requires
        function_is_readable(*item),
    ensures
        is_function_outcome(*attr, *item, r),
{
    match check_sig(&item.sig) {
        Err(e) => {
            return Err(e);
        },
        Ok(_) => {},
    }
    let args = function_args(&item.sig.inputs);
    let inner = Inner::Function {
        attrs: clone_attrs(&item.attrs),
        sig: Signature {
            qualifiers: item.sig.qualifiers.clone(),
            asyncness: item.sig.asyncness,
            ident: INNER_FUNCTION.to_owned(),
            generics: item.sig.generics.clone(),
            inputs: erase_optarg_attr(&item.sig.inputs),
            output: clone_type(&item.sig.output),
        },
        block: item.block.clone(),
    };
    Ok(
        assemble(
            attr,
            &item.vis,
            &item.sig.ident,
            clone_attrs(&item.attrs),
            item.sig.generics.clone(),
            item.sig.generics.clone(),
            ReceiverKind::Absent,
            None,
            &args,
            item.sig.asyncness,
            clone_type(&item.sig.output),
            None,
            INNER_FUNCTION.to_owned(),
            inner,
        ),
    )
}

/// Lays out the builder of a method.
///
/// The first of this library's attributes on the method names the builder
/// type and the terminal operation. A parameter that is not legal is
/// refused, then a receiver that cannot be stored, and nothing is laid out.
/// The two names are required of a method whose parameters are legal, and
/// defaults that can be read of one whose receiver can be stored as well.
pub fn optarg_method(input: &Function, impl_generics: &Generics, self_ty: &Syntax) -> (r:
    Result<Expansion, Error>)
    requires
        method_is_readable(*input),
    ensures
        is_method_outcome(*input, *impl_generics, self_ty@, r),
{
    match check_sig(&input.sig) {
        Err(e) => {
            return Err(e);
        },
        Ok(_) => {},
    }
    let (optarg_attrs, other_attrs) = separate_attrs(&input.attrs);
    let names = optarg_attrs[0].names.as_ref().unwrap().clone();
    let self_replace = SelfReplace(self_ty);
    let return_type = self_replace.fold_return_type(&input.sig.output);
    let merged_generics = merge_generics(impl_generics, &input.sig, self_ty);
    let Separated { kind, storage, args } = match separate_receiver(&input.sig, self_ty) {
        Err(e) => {
            return Err(e);
        },
        Ok(separated) => separated,
    };
    proof {
        let inputs = input.sig.inputs@;
        let plain = inputs.filter(is_plain_arg());
        assert(pat_types(args@).len() == args@.len());
        assert(plain_args(inputs).len() == plain.len());
        assert forall|i: int| 0 <= i < args@.len() implies default_is_readable(
            (#[trigger] args@[i]).attrs@,
        ) by {
            assert(pat_types(args@)[i] == plain_args(inputs)[i]);
            inputs.lemma_filter_pred(is_plain_arg(), i);
            assert(plain.contains(plain[i]));
            inputs.lemma_filter_contains_rev(is_plain_arg(), plain[i]);
            let k = choose|k: int| 0 <= k < inputs.len() && inputs[k] == plain[i];
            assert(inputs[k] is Typed && !inputs[k].is_self());
        }
    }
    let args = method_args(&args, &self_replace);
    let own = Generics {
        lifetimes: clone_all(&input.sig.generics.lifetimes),
        types: self_replace.fold_types(&input.sig.generics.types),
        predicates: self_replace.fold_types(&input.sig.generics.predicates),
    };
    let inner_name = INNER_METHOD_PREFIX.to_owned().concat(input.sig.ident.as_str());
    Ok(
        assemble(
            &names,
            &input.vis,
            &input.sig.ident,
            other_attrs,
            merged_generics,
            own,
            kind,
            storage,
            &args,
            input.sig.asyncness,
            return_type,
            Some(erase_generics(self_ty)),
            inner_name,
            Inner::Method { block: input.block.clone() },
        ),
    )
}

/// Lays out the builder of a function, where what that needs was read.
pub fn try_optarg_fn(attr: &FnAttr, item: &Function) -> (r: Option<Result<Expansion, Error>>)
    ensures
        r is Some <==> function_is_readable(*item),
        r is Some ==> is_function_outcome(*attr, *item, r->0),
{
    if can_read_function(item) {
        Some(optarg_fn(attr, item))
    } else {
        None
    }
}

/// Lays out the builder of a method, where what that needs was read.
pub fn try_optarg_method(
    input: &Function,
    impl_generics: &Generics,
    self_ty: &Syntax,
) -> (r: Option<Result<Expansion, Error>>)
    ensures
        r is Some <==> method_is_readable(*input),
        r is Some ==> is_method_outcome(*input, *impl_generics, self_ty@, r->0),
{
    if can_read_method(input) {
        Some(optarg_method(input, impl_generics, self_ty))
    } else {
        None
    }
}

/// Whether an item of an `impl` block is a method marked for
/// transformation: one of its attributes is `optarg_method`.
pub open spec fn is_marked(item: ImplItem) -> bool {
    item is Method && exists|i: int|
        0 <= i < item->Method_0.attrs@.len() && (#[trigger] item->Method_0.attrs@[i]).names_ident(
            ATTR_NAME_METHOD@,
        )
}

/// The indices of the items among `items` that are not marked, in order.
pub open spec fn kept_of(items: Seq<ImplItem>) -> Seq<usize>
    decreases items.len(),
{
    if items.len() == 0 {
        Seq::empty()
    } else if is_marked(items.last()) {
        kept_of(items.drop_last())
    } else {
        kept_of(items.drop_last()).push((items.len() - 1) as usize)
    }
}

/// The indices of the items among `items` that are marked, in order.
pub open spec fn marked_of(items: Seq<ImplItem>) -> Seq<usize>
    decreases items.len(),
{
    if items.len() == 0 {
        Seq::empty()
    } else if is_marked(items.last()) {
        marked_of(items.drop_last()).push((items.len() - 1) as usize)
    } else {
        marked_of(items.drop_last())
    }
}

/// Whether what the layout of each marked method of the block needs was
/// read.
pub open spec fn methods_are_readable(items: Seq<ImplItem>) -> bool {
    forall|i: int|
        0 <= i < items.len() && is_marked(#[trigger] items[i]) ==> method_is_readable(
            items[i]->Method_0,
        )
}

/// Whether `r` is what comes of the item of the block `item` with the
/// index `i`, which is a marked method.
pub open spec fn is_outcome_at(item: ItemImpl, i: usize, r: Result<Expansion, Error>) -> bool {
    &&& i < item.items@.len()
    &&& is_marked(item.items@[i as int])
    &&& is_method_outcome(item.items@[i as int]->Method_0, item.generics, item.self_ty@, r)
}

/// Whether `x` is the expansion of the `impl` block `item`: each marked
/// method has its own outcome.
pub open spec fn expands_impl(item: ItemImpl, x: ImplExpansion) -> bool {
    &&& x.kept@ == kept_of(item.items@)
    &&& x.marked@ == marked_of(item.items@)
    &&& x.outcomes@.len() == x.marked@.len()
    &&& forall|j: int|
        0 <= j < x.marked@.len() ==> is_outcome_at(item, x.marked@[j], #[trigger] x.outcomes@[j])
}

/// Whether `r` is what comes of the `impl` block `item`: the diagnostic of
/// the trait that it implements, or else its expansion.
pub open spec fn is_impl_outcome(item: ItemImpl, r: Result<ImplExpansion, Error>) -> bool {
    match r {
        Ok(x) => item.trait_ is None && expands_impl(item, x),
        Err(e) => item.trait_ is Some && e == (Error {
            kind: ErrorKind::TraitImplementationUnsupported,
            location: Location::Trait,
        }),
    }
}

/// Each item of a block is either kept or marked: its index stands in one
/// of the two lists, by whether it is a marked method.
pub proof fn law_each_item_is_kept_or_marked(items: Seq<ImplItem>, i: int)
    requires
        0 <= i < items.len(),
        items.len() <= usize::MAX,
    ensures
        is_marked(items[i]) <==> marked_of(items).contains(i as usize),
        !is_marked(items[i]) <==> kept_of(items).contains(i as usize),
        forall|j: int|
            0 <= j < marked_of(items).len() ==> (#[trigger] marked_of(items)[j]) < items.len(),
        forall|j: int|
            0 <= j < kept_of(items).len() ==> (#[trigger] kept_of(items)[j]) < items.len(),
    decreases items.len(),
{
    let before = items.drop_last();
    let last = (items.len() - 1) as usize;
    if i < items.len() - 1 {
        law_each_item_is_kept_or_marked(before, i);
        assert(before[i] == items[i]);
        if marked_of(before).contains(i as usize) {
            let j = choose|j: int| 0 <= j < marked_of(before).len() && marked_of(before)[j] == i;
            assert(marked_of(items)[j] == i as usize);
        }
        if kept_of(before).contains(i as usize) {
            let j = choose|j: int| 0 <= j < kept_of(before).len() && kept_of(before)[j] == i;
            assert(kept_of(items)[j] == i as usize);
        }
    } else {
        if before.len() > 0 {
            law_each_item_is_kept_or_marked(before, 0);
        }
        if is_marked(items[i]) {
            assert(marked_of(items)[marked_of(items).len() - 1] == last);
        } else {
            assert(kept_of(items)[kept_of(items).len() - 1] == last);
        }
    }
}

/// Whether one of `attrs` is `optarg_method`.
fn has_method_attr(attrs: &Vec<Attribute>) -> (r: bool)
    ensures
        r == exists|i: int|
            0 <= i < attrs@.len() && (#[trigger] attrs@[i]).names_ident(ATTR_NAME_METHOD@),
{
    let mut i: usize = 0;
    while i < attrs.len()
        invariant
            i <= attrs.len(),
            forall|j: int| 0 <= j < i ==> !(#[trigger] attrs@[j]).names_ident(ATTR_NAME_METHOD@),
        decreases attrs.len() - i,
    {
        if attrs[i].is_ident(ATTR_NAME_METHOD) {
            return true;
        }
        i += 1;
    }
    false
}

/// Whether what the layout of each marked method of the block needs was
/// read.
pub fn can_read_methods(items: &Vec<ImplItem>) -> (r: bool)
    ensures
        r == methods_are_readable(items@),
{
    let mut i: usize = 0;
    while i < items.len()
        invariant
            i <= items.len(),
            forall|j: int|
                0 <= j < i && is_marked(#[trigger] items@[j]) ==> method_is_readable(
                    items@[j]->Method_0,
                ),
        decreases items.len() - i,
    {
        if let ImplItem::Method(method) = &items[i] {
            if has_method_attr(&method.attrs) && !can_read_method(method) {
                assert(is_marked(items@[i as int]));
                return false;
            }
        }
        i += 1;
    }
    true
}

/// Lays out the builders of the marked methods of an `impl` block.
///
/// A block that implements a trait is refused. The items that are not
/// marked stay. Each marked method has an outcome of its own: it is
/// replaced by its constructor and its inner function and gets a builder,
/// or it has its diagnostic, and neither touches what comes of the other
/// methods.
pub fn optarg_impl(item: &ItemImpl) -> (r: Result<ImplExpansion, Error>)
    requires
        item.trait_ is None ==> methods_are_readable(item.items@),
    ensures
        is_impl_outcome(*item, r),
{
    if item.trait_.is_some() {
        return Err(
            Error { kind: ErrorKind::TraitImplementationUnsupported, location: Location::Trait },
        );
    }
    let mut kept: Vec<usize> = Vec::new();
    let mut marked: Vec<usize> = Vec::new();
    let mut outcomes: Vec<Result<Expansion, Error>> = Vec::new();
    let mut i: usize = 0;
    let ghost items = item.items@;
    while i < item.items.len()
        invariant
            i <= item.items.len(),
            items == item.items@,
            item.trait_ is None,
            methods_are_readable(items),
            kept@ == kept_of(items.take(i as int)),
            marked@ == marked_of(items.take(i as int)),
            outcomes@.len() == marked@.len(),
            forall|j: int|
                0 <= j < marked@.len() ==> is_outcome_at(
                    *item,
                    marked@[j],
                    #[trigger] outcomes@[j],
                ),
        decreases item.items.len() - i,
    {
        proof {
            lemma_take_step(items, i as int);
        }
        let is_method = match &item.items[i] {
            ImplItem::Method(method) => has_method_attr(&method.attrs),
            ImplItem::Other(_) => false,
        };
        if is_method {
            if let ImplItem::Method(method) = &item.items[i] {
                let ghost before = outcomes@;
                let ghost marked_before = marked@;
                let outcome = optarg_method(method, &item.generics, &item.self_ty);
                marked.push(i);
                outcomes.push(outcome);
                proof {
                    assert(is_marked(items[i as int]));
                    assert(is_outcome_at(*item, i, outcome));
                    assert forall|j: int| 0 <= j < marked@.len() implies is_outcome_at(
                        *item,
                        marked@[j],
                        #[trigger] outcomes@[j],
                    ) by {
                        if j < before.len() {
                            assert(outcomes@[j] == before[j]);
                            assert(marked@[j] == marked_before[j]);
                        }
                    }
                }
            }
        } else {
            kept.push(i);
            proof {
                assert(!is_marked(items[i as int]));
            }
        }
        i += 1;
    }
    proof {
        lemma_take_all(items);
    }
    Ok(ImplExpansion { kept, marked, outcomes })
}

/// Lays out the builders of the marked methods of an `impl` block, where
/// what that needs was read: where the block implements a trait, or what
/// the layout of each marked method needs was read.
pub fn try_optarg_impl(item: &ItemImpl) -> (r: Option<Result<ImplExpansion, Error>>)
    ensures
        r is Some <==> (item.trait_ is None ==> methods_are_readable(item.items@)),
        r is Some ==> is_impl_outcome(*item, r->0),
{
    if item.trait_.is_some() || can_read_methods(&item.items) {
        Some(optarg_impl(item))
    } else {
        None
    }
}

} // verus!
