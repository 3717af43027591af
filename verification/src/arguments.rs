//! The arguments of the attribute: `grammar = "..."` and `interface = "..."`,
//! in either order.

use crate::text::same_text;
use vstd::prelude::*;

verus! {

/// One argument `key = value` of the attribute, as far as the attribute
/// looks at it.
#[derive(Debug, PartialEq, Eq)]
pub struct MacroArgument {
    /// The name left of `=`, where a single identifier stands there.
    pub key: Option<String>,
    /// The text of the string literal right of `=`, where one stands there.
    pub value: Option<String>,
}

impl View for MacroArgument {
    type V = (Option<Seq<char>>, Option<Seq<char>>);

    open spec fn view(&self) -> (Option<Seq<char>>, Option<Seq<char>>) {
        (
            match self.key {
                Some(key) => Some(key@),
                None => None,
            },
            match self.value {
                Some(value) => Some(value@),
                None => None,
            },
        )
    }
}

/// What the attribute was asked for.
#[derive(Debug, PartialEq, Eq)]
pub struct ParserOptions {
    /// The path of the grammar file.
    pub grammar: String,
    /// The name of the trait that every marker type is to implement.
    pub interface: String,
}

impl View for ParserOptions {
    type V = (Seq<char>, Seq<char>);

    /// The grammar, then the interface.
    open spec fn view(&self) -> (Seq<char>, Seq<char>) {
        (self.grammar@, self.interface@)
    }
}

/// Why the arguments were turned down.
#[derive(Debug, PartialEq, Eq)]
pub enum ArgumentError {
    /// There are not two arguments, but this many.
    WrongCount(usize),
    /// The key of an argument is no identifier.
    KeyNotIdentifier,
    /// The value of an argument is no string literal.
    ValueNotStringLiteral,
    /// The two keys, in the order given, are not `grammar` and `interface`.
    UnexpectedKeys(String, String),
}

/// An `ArgumentError` with its keys as sequences of characters.
pub enum ArgumentFailure {
    WrongCount(nat),
    KeyNotIdentifier,
    ValueNotStringLiteral,
    UnexpectedKeys(Seq<char>, Seq<char>),
}

impl View for ArgumentError {
    type V = ArgumentFailure;

    open spec fn view(&self) -> ArgumentFailure {
        match self {
            ArgumentError::WrongCount(count) => ArgumentFailure::WrongCount(*count as nat),
            ArgumentError::KeyNotIdentifier => ArgumentFailure::KeyNotIdentifier,
            ArgumentError::ValueNotStringLiteral => ArgumentFailure::ValueNotStringLiteral,
            ArgumentError::UnexpectedKeys(first, second) => ArgumentFailure::UnexpectedKeys(
                first@,
                second@,
            ),
        }
    }
}

/// The views of a list of arguments, in order.
pub open spec fn arguments_view(arguments: Seq<MacroArgument>) -> Seq<
    (Option<Seq<char>>, Option<Seq<char>>),
> {
    Seq::new(arguments.len(), |i: int| arguments[i]@)
}

/// Key and value of one argument. The key is looked at first.
pub open spec fn argument_read(argument: (Option<Seq<char>>, Option<Seq<char>>)) -> Result<
    (Seq<char>, Seq<char>),
    ArgumentFailure,
> {
    match argument.0 {
        Some(key) => match argument.1 {
            Some(value) => Ok((key, value)),
            None => Err(ArgumentFailure::ValueNotStringLiteral),
        },
        None => Err(ArgumentFailure::KeyNotIdentifier),
    }
}

/// Grammar and interface as the arguments give them: there are two
/// arguments, each reads as key and value, and one key is `grammar` and the
/// other `interface`. The values go by their keys, not by their places.
pub open spec fn arguments_resolved(
    arguments: Seq<(Option<Seq<char>>, Option<Seq<char>>)>,
) -> Result<(Seq<char>, Seq<char>), ArgumentFailure> {
    if arguments.len() != 2 {
        Err(ArgumentFailure::WrongCount(arguments.len()))
    } else {
        match argument_read(arguments[0]) {
            Ok(first) => match argument_read(arguments[1]) {
                Ok(second) => if first.0 == "grammar"@ && second.0 == "interface"@ {
                    Ok((first.1, second.1))
                } else if first.0 == "interface"@ && second.0 == "grammar"@ {
                    Ok((second.1, first.1))
                } else {
                    Err(ArgumentFailure::UnexpectedKeys(first.0, second.0))
                },
                Err(failure) => Err(failure),
            },
            Err(failure) => Err(failure),
        }
    }
}

/// The order of the two arguments does not matter: where one order is
/// accepted, so is the other, with the same grammar and the same interface.
pub proof fn lemma_argument_order_is_irrelevant(
    a: (Option<Seq<char>>, Option<Seq<char>>),
    b: (Option<Seq<char>>, Option<Seq<char>>),
)
    requires
        arguments_resolved(seq![a, b]) is Ok,
    ensures
        arguments_resolved(seq![b, a]) == arguments_resolved(seq![a, b]),
{
    reveal_strlit("grammar");
    reveal_strlit("interface");
    assert("grammar"@.len() != "interface"@.len());
}

/// Only the key set of `grammar` and `interface` is accepted: with any
/// other count of arguments, or any other pair of keys, there is no result.
pub proof fn lemma_only_grammar_and_interface_are_accepted(
    arguments: Seq<(Option<Seq<char>>, Option<Seq<char>>)>,
)
    requires
        arguments_resolved(arguments) is Ok,
    ensures
        arguments.len() == 2,
        arguments[0].0 is Some && arguments[1].0 is Some,
        arguments[0].1 is Some && arguments[1].1 is Some,
        (arguments[0].0->0 == "grammar"@ && arguments[1].0->0 == "interface"@) || (arguments[0].0->0
            == "interface"@ && arguments[1].0->0 == "grammar"@),
{
}

/// Reads one argument as key and value. Fails where the key is no
/// identifier, and, if it is one, where the value is no string literal.
pub fn get_pest_parser_argument(arg: &MacroArgument) -> (out: Result<(String, String), ArgumentError>)
    ensures
        match out {
            Ok(pair) => argument_read(arg@) == Ok::<(Seq<char>, Seq<char>), ArgumentFailure>(
                (pair.0@, pair.1@),
            ),
            Err(error) => argument_read(arg@) == Err::<(Seq<char>, Seq<char>), ArgumentFailure>(
                error@,
            ),
        },
{
    match &arg.key {
        Some(key) => match &arg.value {
            Some(value) => Ok((key.clone(), value.clone())),
            None => Err(ArgumentError::ValueNotStringLiteral),
        },
        None => Err(ArgumentError::KeyNotIdentifier),
    }
}

/// Checks the arguments of the attribute and tells grammar and interface
/// apart by their keys.
///
/// Fails where there are not exactly two arguments, where one of them does
/// not read as key and value (the first one is looked at first), and where
/// the keys are not `grammar` and `interface`, in either order.
pub fn pest_parser_arguments(args: &Vec<MacroArgument>) -> (out: Result<
    ParserOptions,
    ArgumentError,
>)
    ensures
        match out {
            Ok(options) => arguments_resolved(arguments_view(args@)) == Ok::<
                (Seq<char>, Seq<char>),
                ArgumentFailure,
            >(options@),
            Err(error) => arguments_resolved(arguments_view(args@)) == Err::<
                (Seq<char>, Seq<char>),
                ArgumentFailure,
            >(error@),
        },
{
    let ghost views = arguments_view(args@);
    if args.len() != 2 {
        return Err(ArgumentError::WrongCount(args.len()));
    }
    assert(views[0] == args@[0]@ && views[1] == args@[1]@);
    let first = match get_pest_parser_argument(&args[0]) {
        Ok(pair) => pair,
        Err(error) => {
            return Err(error);
        },
    };
    let second = match get_pest_parser_argument(&args[1]) {
        Ok(pair) => pair,
        Err(error) => {
            return Err(error);
        },
    };
    let (first_key, first_value) = first;
    let (second_key, second_value) = second;
    if same_text(first_key.as_str(), "grammar") && same_text(second_key.as_str(), "interface") {
        Ok(ParserOptions { grammar: first_value, interface: second_value })
    } else if same_text(first_key.as_str(), "interface") && same_text(
        second_key.as_str(),
        "grammar",
    ) {
        Ok(ParserOptions { grammar: second_value, interface: first_value })
    } else {
        Err(ArgumentError::UnexpectedKeys(first_key, second_key))
    }
}

} // verus!
