//! Reading an enumeration declaration, done by the `syn` crate.

use vstd::prelude::*;

verus! {

/// What `syn::parse_str::<syn::ItemEnum>` makes of `source`: the names of the
/// enumeration's alternatives in the order in which they are declared, each
/// as `Ident::to_string` gives it (a raw identifier keeps its `r#`); or, where
/// `source` is no enumeration declaration, the message of the `syn::Error`.
pub uninterp spec fn syn_enum_variants(source: Seq<char>) -> Result<Seq<Seq<char>>, Seq<char>>;

/// The views of a list of names, in order.
pub open spec fn names_view(names: Seq<String>) -> Seq<Seq<char>> {
    Seq::new(names.len(), |i: int| names[i]@)
}

/// The outcome of reading an enumeration, seen as sequences of characters.
pub open spec fn parse_view(parsed: Result<Vec<String>, String>) -> Result<
    Seq<Seq<char>>,
    Seq<char>,
> {
    match parsed {
        Ok(names) => Ok(names_view(names@)),
        Err(diagnostic) => Err(diagnostic@),
    }
}

/// Parses `source` with `syn::parse_str` as a `syn::ItemEnum` and hands out
/// the identifier of each alternative as text, or the error's message.
/// Nothing is claimed of the outcome but that it is the one
/// `syn_enum_variants` names: the same source always reads the same.
#[verifier::external_body]
pub(crate) fn parse_enum_variants(source: &str) -> (parsed: Result<Vec<String>, String>)
    ensures
        parse_view(parsed) == syn_enum_variants(source@),
{
    match syn::parse_str::<syn::ItemEnum>(source) {
        Ok(item) => {
            let mut names: Vec<String> = Vec::new();
            for variant in item.variants.iter() {
                names.push(variant.ident.to_string());
            }
            Ok(names)
        },
        Err(error) => Err(error.to_string()),
    }
}

} // verus!
