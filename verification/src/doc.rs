//! The documentation of what is laid out for a declaration.

use vstd::prelude::*;
use vstd::string::StringExecFns;

verus! {

/// The documentation of a builder, of its setters and of its terminal
/// operation.
#[derive(Clone, Debug, PartialEq, Eq)]
pub struct DocAttrs {
    pub doc_builder_struct: String,
    /// One text for each optional parameter.
    pub doc_setter: Vec<String>,
    pub doc_terminal_method: String,
}

/// What the documentation of the builder of `name` says.
pub open spec fn builder_doc(name: Seq<char>) -> Seq<char> {
    "Argument builder struct for `"@ + name + "`."@
}

/// What the documentation of the setter of `name` says.
pub open spec fn setter_doc(name: Seq<char>) -> Seq<char> {
    "Sets optional argument `"@ + name + "`."@
}

/// What the documentation of the terminal operation for `name` says.
pub open spec fn terminal_doc(name: Seq<char>) -> Seq<char> {
    "Executes `"@ + name + "` and get the result."@
}

/// `name` between `before` and `after`.
fn surround(before: &str, name: &str, after: &str) -> (r: String)
    ensures
        r@ == before@ + name@ + after@,
{
    before.to_owned().concat(name).concat(after)
}

/// The documentation for the builder of the function `func_name` with the
/// optional parameters `opt_ident`.
pub fn generate_doc(func_name: &str, opt_ident: &Vec<String>) -> (r: DocAttrs)
    ensures
        r.doc_builder_struct@ == builder_doc(func_name@),
        r.doc_terminal_method@ == terminal_doc(func_name@),
        r.doc_setter@.len() == opt_ident@.len(),
        forall|i: int|
            0 <= i < opt_ident@.len() ==> (#[trigger] r.doc_setter@[i])@ == setter_doc(
                opt_ident@[i]@,
            ),
{
    let doc_builder_struct = surround("Argument builder struct for `", func_name, "`.");
    let mut doc_setter: Vec<String> = Vec::new();
    let mut i: usize = 0;
    while i < opt_ident.len()
        invariant
            i <= opt_ident.len(),
            doc_setter@.len() == i,
            forall|j: int|
                0 <= j < i ==> (#[trigger] doc_setter@[j])@ == setter_doc(opt_ident@[j]@),
        decreases opt_ident.len() - i,
    {
        doc_setter.push(surround("Sets optional argument `", opt_ident[i].as_str(), "`."));
        i += 1;
    }
    let doc_terminal_method = surround("Executes `", func_name, "` and get the result.");
    DocAttrs { doc_builder_struct, doc_setter, doc_terminal_method }
}

} // verus!
