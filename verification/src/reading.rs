//! What is read from the arguments of an attribute: an expression that
//! gives a default, or the two names of a builder.
//!
//! The tokens are read by `syn`. Nothing is claimed of what it reads from
//! given tokens; what is done with what was read is stated where it is done.

use vstd::prelude::*;
use crate::signature::{Attribute, FnAttr};
use crate::syntax::texts;

verus! {

/// What stands between the delimiters of a group of tokens.
///
/// Makes the call `syn::parse_str` for `proc_macro2::Group`, which reads
/// one group in parentheses, brackets or braces from the whole text, and
/// gives the tokens inside the group as a string. Nothing is claimed of
/// what comes back.
#[verifier::external_body]
fn group_contents(tokens: &str) -> (r: Option<String>) {
    let group = syn::parse_str::<proc_macro2::Group>(tokens).ok()?;
    Some(group.stream().to_string())
}

/// The expression that tokens spell.
///
/// Makes the call `syn::parse_str` for `syn::Expr`, which reads one
/// expression from the whole text, and gives the tokens of that expression
/// as a string. Nothing is claimed of what comes back.
#[verifier::external_body]
fn read_expr(tokens: &str) -> (r: Option<String>) {
    let expr = syn::parse_str::<syn::Expr>(tokens).ok()?;
    Some(quote::ToTokens::to_token_stream(&expr).to_string())
}

/// The identifiers that tokens spell.
///
/// Makes the call `syn::punctuated::Punctuated::parse_separated_nonempty`
/// for identifiers and commas, run on the whole text by
/// `syn::parse::Parser::parse_str`, and gives each identifier as a string.
/// Nothing is claimed of what comes back.
#[verifier::external_body]
fn read_idents(tokens: &str) -> (r: Option<Vec<String>>) {
    let parser =
        syn::punctuated::Punctuated::<syn::Ident, syn::token::Comma>::parse_separated_nonempty;
    let idents = syn::parse::Parser::parse_str(parser, tokens).ok()?;
    Some(idents.iter().map(|ident| ident.to_string()).collect())
}

/// The two names that identifiers give: there are two of them.
pub open spec fn two_names(idents: Seq<Seq<char>>) -> Option<(Seq<char>, Seq<char>)> {
    if idents.len() == 2 {
        Some((idents[0], idents[1]))
    } else {
        None
    }
}

/// The view of two names that may be absent.
pub open spec fn names_view(names: Option<FnAttr>) -> Option<(Seq<char>, Seq<char>)> {
    match names {
        Some(n) => Some(n@),
        None => None,
    }
}

impl FnAttr {
    /// The two names that a list of identifiers gives: the name of the
    /// builder type, then that of the terminal operation. A list of any
    /// other length gives none.
    pub fn from_idents(idents: &Vec<String>) -> (r: Option<FnAttr>)
        ensures
            names_view(r) == two_names(texts(idents@)),
    {
        if idents.len() == 2 {
            Some(
                FnAttr {
                    builder_struct_name: idents[0].clone(),
                    terminal_method_name: idents[1].clone(),
                },
            )
        } else {
            None
        }
    }

    /// The two names that `tokens` spell, where they are read as an
    /// identifier, a comma and an identifier.
    pub fn parse(tokens: &str) -> (r: Option<FnAttr>) {
        match read_idents(tokens) {
            Some(idents) => FnAttr::from_idents(&idents),
            None => None,
        }
    }
}

impl Attribute {
    /// The attribute with the path `path` and with `tokens` behind it,
    /// together with what is read from its arguments. Where the tokens are
    /// not read as one group nothing is read from them.
    pub fn new(path: String, simple: bool, tokens: String) -> (r: Attribute)
        ensures
            r.path == path,
            r.simple == simple,
            r.tokens == tokens,
    {
        match group_contents(tokens.as_str()) {
            Some(args) => {
                let expr = read_expr(args.as_str());
                let names = FnAttr::parse(args.as_str());
                Attribute { path, simple, tokens, expr, names }
            },
            None => Attribute { path, simple, tokens, expr: None, names: None },
        }
    }
}

} // verus!
