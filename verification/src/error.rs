//! The diagnostics of a declaration that cannot be transformed.

use vstd::prelude::*;

verus! {

/// Why a declaration cannot be transformed.
#[derive(Clone, Copy, PartialEq, Eq, Structural, Debug)]
pub enum ErrorKind {
    /// The `impl` block implements a trait.
    TraitImplementationUnsupported,
    /// A reference receiver is written without a lifetime.
    ExplicitLifetimeRequired,
    /// A parameter has the name under which the builder stores the receiver.
    ReservedNameCollision,
    /// A parameter is bound by `_` (`wildcard`) or by a pattern that is not
    /// one identifier.
    UnsupportedParameterPattern { wildcard: bool },
    /// More than one parameter stands for the receiver.
    MultipleReceiverParameters,
}

/// Where in its declaration the offending piece stands.
#[derive(Clone, Copy, PartialEq, Eq, Structural, Debug)]
pub enum Location {
    /// The trait named in the header of an `impl` block.
    Trait,
    /// The input of a signature with this index.
    Input(usize),
}

/// One diagnostic.
#[derive(Clone, Copy, PartialEq, Eq, Structural, Debug)]
pub struct Error {
    pub kind: ErrorKind,
    pub location: Location,
}

pub const ERR_MSG_TRAIT_IMPL: &'static str = "(optarg2chain) impl for traits is not supported";

pub const ERR_MSG_IMPLICIT_LIFETIME: &'static str = "(optarg2chain) explicit lifetime is neeeded";

pub const ERR_MSG_UNDERSCORE_ARG: &'static str =
    "(optarg2chain) `_` cannot be used for this argument name";

pub const ERR_MSG_UNUSABLE_PAT: &'static str = "(optarg2chain) unusable pattern found";

pub const ERR_MSG_RESERVED_NAME: &'static str = "(optarg2chain) _optarg_self is reserved name";

pub const ERR_MSG_MULTIPLE_SELF: &'static str = "(optarg2chain) more than one receiver found";

impl ErrorKind {
    /// The message that belongs to each kind.
    pub open spec fn text(self) -> Seq<char> {
        match self {
            ErrorKind::TraitImplementationUnsupported => ERR_MSG_TRAIT_IMPL@,
            ErrorKind::ExplicitLifetimeRequired => ERR_MSG_IMPLICIT_LIFETIME@,
            ErrorKind::ReservedNameCollision => ERR_MSG_RESERVED_NAME@,
            ErrorKind::UnsupportedParameterPattern { wildcard } => if wildcard {
                ERR_MSG_UNDERSCORE_ARG@
            } else {
                ERR_MSG_UNUSABLE_PAT@
            },
            ErrorKind::MultipleReceiverParameters => ERR_MSG_MULTIPLE_SELF@,
        }
    }

    /// The message for a reader.
    pub fn message(&self) -> (r: &'static str)
        ensures
            r@ == self.text(),
    {
        match self {
            ErrorKind::TraitImplementationUnsupported => ERR_MSG_TRAIT_IMPL,
            ErrorKind::ExplicitLifetimeRequired => ERR_MSG_IMPLICIT_LIFETIME,
            ErrorKind::ReservedNameCollision => ERR_MSG_RESERVED_NAME,
            ErrorKind::UnsupportedParameterPattern { wildcard } => if *wildcard {
                ERR_MSG_UNDERSCORE_ARG
            } else {
                ERR_MSG_UNUSABLE_PAT
            },
            ErrorKind::MultipleReceiverParameters => ERR_MSG_MULTIPLE_SELF,
        }
    }
}

impl Error {
    /// The message for a reader.
    pub fn message(&self) -> (r: &'static str)
        ensures
            r@ == self.kind.text(),
    {
        self.kind.message()
    }
}

} // verus!
