//! The whole generation: the root type, the marker types and the rewritten
//! parser, put together into one unit of source text.
//!
//! pest is run by the caller, once for each of the two sources. Everything
//! here is a function of the texts it is given.

use crate::rewrite::{enum_dispatch_generated_enum_hooker, hooked, RewriteError};
use crate::rules::{enum_dispatch_tag_generator, tags_generated, ExtractError, ExtractFailure};
use vstd::prelude::*;
use vstd::string::StringExecFns;

verus! {

/// Why no unit was generated.
#[derive(Debug, PartialEq, Eq)]
pub enum GenerateError {
    /// The marker types could not be made.
    Extract(ExtractError),
    /// The parser could not be rewritten.
    Rewrite(RewriteError),
}

/// A `GenerateError` with its diagnostic as a sequence of characters.
pub enum GenerateFailure {
    Extract(ExtractFailure),
    Rewrite(RewriteError),
}

impl View for GenerateError {
    type V = GenerateFailure;

    open spec fn view(&self) -> GenerateFailure {
        match self {
            GenerateError::Extract(error) => GenerateFailure::Extract(error@),
            GenerateError::Rewrite(error) => GenerateFailure::Rewrite(*error),
        }
    }
}

/// The declaration of the root type: the unit struct `name` that the
/// attribute stands on, with its visibility.
pub open spec fn root_declaration(visibility: Seq<char>, name: Seq<char>) -> Seq<char> {
    visibility + " struct "@ + name + ";\n"@
}

/// The unit: the root type, then the marker types, then the rewritten parser.
pub open spec fn unit_assembled(root: Seq<char>, tags: Seq<char>, parser: Seq<char>) -> Seq<char> {
    root + tags + parser
}

/// The unit generated for the root type `name` from pest's two outputs:
/// `enumeration_source`, from which the rules are read, and `full_source`,
/// which is rewritten for the trait `interface`. The marker types are made
/// first, so their failure comes first.
pub open spec fn unit_generated(
    visibility: Seq<char>,
    name: Seq<char>,
    enumeration_source: Seq<char>,
    full_source: Seq<char>,
    interface: Seq<char>,
) -> Result<Seq<char>, GenerateFailure> {
    match tags_generated(enumeration_source) {
        Ok(tags) => match hooked(full_source, interface) {
            Ok(parser) => Ok(unit_assembled(root_declaration(visibility, name), tags, parser)),
            Err(error) => Err(GenerateFailure::Rewrite(error)),
        },
        Err(failure) => Err(GenerateFailure::Extract(failure)),
    }
}

/// Generation is a function of its sources: from the same root type, the
/// same two outputs of pest and the same interface come the same marker
/// types, the same rewritten parser and the same unit, however often it
/// runs.
pub proof fn lemma_generation_is_deterministic(
    visibility: Seq<char>,
    name: Seq<char>,
    enumeration_source: Seq<char>,
    full_source: Seq<char>,
    interface: Seq<char>,
    visibility_again: Seq<char>,
    name_again: Seq<char>,
    enumeration_source_again: Seq<char>,
    full_source_again: Seq<char>,
    interface_again: Seq<char>,
)
    requires
        visibility == visibility_again,
        name == name_again,
        enumeration_source == enumeration_source_again,
        full_source == full_source_again,
        interface == interface_again,
    ensures
        tags_generated(enumeration_source) == tags_generated(enumeration_source_again),
        hooked(full_source, interface) == hooked(full_source_again, interface_again),
        unit_generated(visibility, name, enumeration_source, full_source, interface)
            == unit_generated(
            visibility_again,
            name_again,
            enumeration_source_again,
            full_source_again,
            interface_again,
        ),
{
}

/// Writes the declaration of the root type.
pub fn root_declaration_text(visibility: &str, name: &str) -> (text: String)
    ensures
        text@ == root_declaration(visibility@, name@),
{
    let mut text = String::from_str(visibility);
    text.append(" struct ");
    text.append(name);
    text.append(";\n");
    text
}

/// Puts the unit together: the root type, the marker types, the parser.
pub fn assemble_unit(root: &str, tags: &str, parser: &str) -> (unit: String)
    ensures
        unit@ == unit_assembled(root@, tags@, parser@),
{
    let mut unit = String::from_str(root);
    unit.append(tags);
    unit.append(parser);
    unit
}

/// Generates the unit for the root type `name` from pest's two outputs.
///
/// Fails where the marker types cannot be made from `enumeration_source`,
/// and, if they can, where `full_source` cannot be rewritten.
pub fn generate_unit(
    visibility: &str,
    name: &str,
    enumeration_source: &str,
    full_source: &str,
    interface: &str,
) -> (out: Result<String, GenerateError>)
    ensures
        match out {
            Ok(unit) => unit_generated(
                visibility@,
                name@,
                enumeration_source@,
                full_source@,
                interface@,
            ) == Ok::<Seq<char>, GenerateFailure>(unit@),
            Err(error) => unit_generated(
                visibility@,
                name@,
                enumeration_source@,
                full_source@,
                interface@,
            ) == Err::<Seq<char>, GenerateFailure>(error@),
        },
{
    let tags = match enum_dispatch_tag_generator(enumeration_source) {
        Ok(tags) => tags,
        Err(error) => {
            return Err(GenerateError::Extract(error));
        },
    };
    let parser = match enum_dispatch_generated_enum_hooker(full_source, interface) {
        Ok(parser) => parser,
        Err(error) => {
            return Err(GenerateError::Rewrite(error));
        },
    };
    let root = root_declaration_text(visibility, name);
    Ok(assemble_unit(root.as_str(), tags.as_str(), parser.as_str()))
}

} // verus!
