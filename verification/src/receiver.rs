//! The receiver of a method: how it is taken, and as what a builder stores it.

use vstd::prelude::*;
use crate::arguments::Field;
use crate::error::{Error, ErrorKind, Location};
use crate::generics::{resolve, SelfReplace};
use crate::seqs::{lemma_filter_none, lemma_filter_step, lemma_take_all};
use crate::signature::{clone_attrs, Attribute, FnArg, Pat, PatType, Signature, INNER_SELF_VAR};
use crate::syntax::{Syntax, Tree};

verus! {

/// How a declaration takes its receiver.
#[derive(Clone, Debug, PartialEq, Eq)]
pub enum ReceiverKind {
    /// It has none.
    Absent,
    /// `self` or `mut self`.
    ByValue { mutable: bool },
    /// `&'a self`, with the lifetime.
    ByRef(String),
    /// `&'a mut self`, with the lifetime.
    ByMutRef(String),
    /// `self: Type`, with the pattern as written and the type, in which the
    /// self type stands in place of `Self`.
    Typed { pattern: String, ty: Syntax },
}

/// A signature's receiver and its other parameters.
#[derive(Clone, Debug, PartialEq, Eq)]
pub struct Separated {
    pub kind: ReceiverKind,
    /// The field in which a builder stores the receiver, where there is one.
    pub storage: Option<Field>,
    /// The parameters that do not stand for the receiver, in order.
    pub args: Vec<PatType>,
}

impl View for PatType {
    type V = (Seq<Attribute>, Pat, Tree);

    open spec fn view(&self) -> (Seq<Attribute>, Pat, Tree) {
        (self.attrs@, self.pat, self.ty@)
    }
}

/// The views of the parameters of `v`.
pub open spec fn pat_types(v: Seq<PatType>) -> Seq<(Seq<Attribute>, Pat, Tree)> {
    Seq::new(v.len(), |i: int| v[i]@)
}

/// Whether an input stands for the receiver.
pub open spec fn is_self_arg() -> spec_fn(FnArg) -> bool {
    |arg: FnArg| arg.is_self()
}

/// Whether an input does not stand for the receiver.
pub open spec fn is_plain_arg() -> spec_fn(FnArg) -> bool {
    |arg: FnArg| !arg.is_self()
}

/// The views of the inputs that do not stand for the receiver, in order.
pub open spec fn plain_args(inputs: Seq<FnArg>) -> Seq<(Seq<Attribute>, Pat, Tree)> {
    Seq::new(
        inputs.filter(is_plain_arg()).len(),
        |i: int| inputs.filter(is_plain_arg())[i]->Typed_0@,
    )
}

/// Whether an input is a reference receiver without a lifetime.
pub open spec fn is_elided(arg: FnArg) -> bool {
    arg is Receiver && arg->Receiver_0.reference && arg->Receiver_0.lifetime is None
}

/// Whether one input stands for the receiver and is a reference without a
/// lifetime.
pub open spec fn has_elided_receiver(inputs: Seq<FnArg>) -> bool {
    inputs.filter(is_self_arg()).len() == 1 && is_elided(inputs.filter(is_self_arg())[0])
}

/// Whether `kind` and `storage` are how the receiver `arg`, which is no
/// reference without a lifetime, is taken and stored, for the self type
/// `self_ty`.
pub open spec fn classifies(arg: FnArg, self_ty: Tree, kind: ReceiverKind, storage: Field) -> bool {
    &&& storage.ident@ == INNER_SELF_VAR@
    &&& match arg {
        FnArg::Receiver(r) => if !r.reference {
            kind == (ReceiverKind::ByValue { mutable: r.mutable }) && storage.ty@ == self_ty
        } else if r.mutable {
            kind == ReceiverKind::ByMutRef(r.lifetime->0) && storage.ty@ == Tree::reference(
                r.lifetime->0@,
                true,
                self_ty,
            )
        } else {
            kind == ReceiverKind::ByRef(r.lifetime->0) && storage.ty@ == Tree::reference(
                r.lifetime->0@,
                false,
                self_ty,
            )
        },
        FnArg::Typed(t) => kind is Typed && kind->pattern == t.pat.text && kind->ty@ == resolve(
            t.ty@,
            self_ty,
        ) && storage.ty@ == resolve(t.ty@, self_ty),
    }
}

/// Whether `e` is the diagnostic for the receiver of `inputs`: more than
/// one input stands for the receiver, and `e` points at the second; or the
/// one that does is a reference without a lifetime, and `e` points at it.
pub open spec fn is_receiver_error(inputs: Seq<FnArg>, e: Error) -> bool {
    &&& e.location is Input
    &&& e.location->Input_0 < inputs.len()
    &&& inputs[e.location->Input_0 as int].is_self()
    &&& match e.kind {
        ErrorKind::MultipleReceiverParameters => inputs.take(e.location->Input_0 as int).filter(
            is_self_arg(),
        ).len() == 1,
        ErrorKind::ExplicitLifetimeRequired => inputs.filter(is_self_arg()).len() == 1
            && is_elided(inputs[e.location->Input_0 as int]),
        _ => false,
    }
}

/// Whether the receiver of `inputs` can be stored: at most one input stands
/// for it, and that one is no reference without a lifetime.
pub open spec fn receiver_is_accepted(inputs: Seq<FnArg>) -> bool {
    let selves = inputs.filter(is_self_arg());
    selves.len() == 0 || (selves.len() == 1 && !is_elided(selves[0]))
}

/// Whether `kind` and `storage` are how the receiver of `inputs` is taken
/// and stored, for the self type `self_ty`.
pub open spec fn receives(
    inputs: Seq<FnArg>,
    self_ty: Tree,
    kind: ReceiverKind,
    storage: Option<Field>,
) -> bool {
    let selves = inputs.filter(is_self_arg());
    &&& receiver_is_accepted(inputs)
    &&& selves.len() == 0 ==> kind is Absent && storage is None
    &&& selves.len() == 1 ==> storage is Some && classifies(selves[0], self_ty, kind, storage->0)
}

/// Whether `s` is what the inputs `inputs` separate into, for the self type
/// `self_ty`.
pub open spec fn separates(inputs: Seq<FnArg>, self_ty: Tree, s: Separated) -> bool {
    &&& receives(inputs, self_ty, s.kind, s.storage)
    &&& pat_types(s.args@) == plain_args(inputs)
}

/// Whether the receiver of `inputs` can be stored.
pub fn accepts_receiver(inputs: &Vec<FnArg>) -> (r: bool)
    ensures
        r == receiver_is_accepted(inputs@),
{
    let mut found: Option<usize> = None;
    let mut i: usize = 0;
    proof {
        lemma_filter_none(inputs@, is_self_arg());
    }
    while i < inputs.len()
        invariant
            i <= inputs.len(),
            match found {
                Some(k) => k < i && inputs@.take(i as int).filter(is_self_arg())
                    == seq![inputs@[k as int]],
                None => inputs@.take(i as int).filter(is_self_arg()).len() == 0,
            },
        decreases inputs.len() - i,
    {
        proof {
            lemma_filter_step(inputs@, is_self_arg(), i as int);
        }
        let is_self = match &inputs[i] {
            FnArg::Receiver(_) => true,
            FnArg::Typed(t) => t.is_self(),
        };
        if is_self {
            if found.is_some() {
                proof {
                    assert(inputs@.take(i + 1).is_prefix_of(inputs@));
                    inputs@.take(i + 1).lemma_filter_monotone(inputs@, is_self_arg());
                }
                return false;
            }
            found = Some(i);
            proof {
                assert(inputs@.take(i + 1).filter(is_self_arg()) =~= seq![inputs@[i as int]]);
            }
        }
        i += 1;
    }
    proof {
        lemma_take_all(inputs@);
    }
    match found {
        None => true,
        Some(k) => {
            assert(inputs@.filter(is_self_arg())[0] == inputs@[k as int]);
            match &inputs[k] {
                FnArg::Receiver(receiver) => !(receiver.reference && receiver.lifetime.is_none()),
                FnArg::Typed(_) => true,
            }
        },
    }
}

/// The field in which a builder stores a receiver of the type `ty`.
fn storage_field(ty: Syntax) -> (r: Field)
    ensures
        r.ident@ == INNER_SELF_VAR@,
        r.ty == ty,
{
    Field { ident: INNER_SELF_VAR.to_owned(), ty }
}

/// Tells the receiver of a signature from its other parameters.
///
/// A receiver is `self` with or without a type. Without one it is taken by
/// value, by reference or by mutable reference, and a reference needs a
/// lifetime: the builder has to name it. More than one receiver is refused.
pub fn separate_receiver(sig: &Signature, self_ty: &Syntax) -> (r: Result<Separated, Error>)
    ensures
        match r {
            Ok(s) => separates(sig.inputs@, self_ty@, s),
            Err(e) => is_receiver_error(sig.inputs@, e),
        },
        has_elided_receiver(sig.inputs@) ==> r is Err && r->Err_0.kind
            == ErrorKind::ExplicitLifetimeRequired,
{
    let mut found: Option<usize> = None;
    let mut args: Vec<PatType> = Vec::new();
    let mut i: usize = 0;
    let ghost inputs = sig.inputs@;
    proof {
        lemma_filter_none(inputs, is_self_arg());
        lemma_filter_none(inputs, is_plain_arg());
        assert(pat_types(args@) =~= plain_args(inputs.take(0)));
    }
    while i < sig.inputs.len()
        invariant
            i <= sig.inputs.len(),
            inputs == sig.inputs@,
            match found {
                Some(k) => k < i && inputs[k as int].is_self() && inputs.take(i as int).filter(
                    is_self_arg(),
                ) == seq![inputs[k as int]],
                None => inputs.take(i as int).filter(is_self_arg()).len() == 0,
            },
            pat_types(args@) == plain_args(inputs.take(i as int)),
        decreases sig.inputs.len() - i,
    {
        proof {
            lemma_filter_step(inputs, is_self_arg(), i as int);
            lemma_filter_step(inputs, is_plain_arg(), i as int);
        }
        let is_self = match &sig.inputs[i] {
            FnArg::Receiver(_) => true,
            FnArg::Typed(t) => t.is_self(),
        };
        if is_self {
            if found.is_some() {
                proof {
                    assert(inputs.take(i + 1).is_prefix_of(inputs));
                    inputs.take(i + 1).lemma_filter_monotone(inputs, is_self_arg());
                }
                return Err(
                    Error {
                        kind: ErrorKind::MultipleReceiverParameters,
                        location: Location::Input(i),
                    },
                );
            }
            found = Some(i);
            proof {
                assert(inputs.take(i + 1).filter(is_self_arg()) =~= seq![inputs[i as int]]);
            }
        } else {
            match &sig.inputs[i] {
                FnArg::Typed(t) => {
                    let ghost before = args@;
                    let copy = PatType {
                        attrs: clone_attrs(&t.attrs),
                        pat: t.pat.clone(),
                        ty: t.ty.clone(),
                    };
                    args.push(copy);
                    proof {
                        assert(pat_types(args@) =~= pat_types(before).push(t@));
                        assert(plain_args(inputs.take(i + 1)) =~= plain_args(
                            inputs.take(i as int),
                        ).push(t@));
                    }
                },
                FnArg::Receiver(_) => {},
            }
        }
        i += 1;
    }
    proof {
        lemma_take_all(inputs);
    }
    let replace = SelfReplace(self_ty);
    match found {
        None => Ok(Separated { kind: ReceiverKind::Absent, storage: None, args }),
        Some(k) => {
            assert(inputs.filter(is_self_arg())[0] == inputs[k as int]);
            match &sig.inputs[k] {
                FnArg::Receiver(receiver) => {
                    if receiver.reference {
                        match &receiver.lifetime {
                            None => Err(
                                Error {
                                    kind: ErrorKind::ExplicitLifetimeRequired,
                                    location: Location::Input(k),
                                },
                            ),
                            Some(lifetime) => {
                                let ty = Syntax::reference(
                                    lifetime.as_str(),
                                    receiver.mutable,
                                    self_ty.clone(),
                                );
                                let kind = if receiver.mutable {
                                    ReceiverKind::ByMutRef(lifetime.clone())
                                } else {
                                    ReceiverKind::ByRef(lifetime.clone())
                                };
                                Ok(Separated { kind, storage: Some(storage_field(ty)), args })
                            },
                        }
                    } else {
                        Ok(
                            Separated {
                                kind: ReceiverKind::ByValue { mutable: receiver.mutable },
                                storage: Some(storage_field(self_ty.clone())),
                                args,
                            },
                        )
                    }
                },
                FnArg::Typed(t) => {
                    Ok(
                        Separated {
                            kind: ReceiverKind::Typed {
                                pattern: t.pat.text.clone(),
                                ty: replace.fold_type(&t.ty),
                            },
                            storage: Some(storage_field(replace.fold_type(&t.ty))),
                            args,
                        },
                    )
                },
            }
        },
    }
}

} // verus!
