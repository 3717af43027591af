//! The rule set of a grammar and the marker types made from it.
//!
//! The rule set is cut out of pest's generated enumeration `Rule`. It holds
//! the name of every grammar rule in the order of the grammar, and the
//! end-of-input rule `EOI`, which pest adds by itself.

use crate::syntax::{names_view, parse_enum_variants, parse_view, syn_enum_variants};
use crate::text::{
    chars_of, find_from, first_occurrence, occurs_at, push_range, same_text, string_of,
};
use vstd::prelude::*;
use vstd::string::StringExecFns;

verus! {

/// The name of the end-of-input rule. Unlike the rules of the grammar it is
/// no raw identifier.
pub open spec fn sentinel() -> Seq<char> {
    "EOI"@
}

/// The attribute list that goes before pest's rule enumeration, by which the
/// enumeration is found.
pub open spec fn enum_marker() -> Seq<char> {
    "#[allow(dead_code, non_camel_case_types, clippy :: upper_case_acronyms)]"@
}

/// What makes a list of names a rule set: no name occurs twice, and the
/// end-of-input rule is among them.
pub open spec fn is_rule_set(names: Seq<Seq<char>>) -> bool {
    &&& names.no_duplicates()
    &&& names.contains(sentinel())
}

/// Why no rule set could be had from pest's output.
#[derive(Debug, PartialEq, Eq)]
pub enum ExtractError {
    /// The attribute list that goes before the rule enumeration is not there.
    MarkerMissing,
    /// No `}` follows the marker.
    ClosingDelimiterMissing,
    /// What was cut out is no enumeration declaration; with the diagnostic.
    Parse(String),
    /// The enumeration has no end-of-input rule.
    SentinelMissing,
    /// The enumeration names a rule twice.
    DuplicateRule,
}

/// An `ExtractError` with its diagnostic as a sequence of characters.
pub enum ExtractFailure {
    MarkerMissing,
    ClosingDelimiterMissing,
    Parse(Seq<char>),
    SentinelMissing,
    DuplicateRule,
}

impl View for ExtractError {
    type V = ExtractFailure;

    open spec fn view(&self) -> ExtractFailure {
        match self {
            ExtractError::MarkerMissing => ExtractFailure::MarkerMissing,
            ExtractError::ClosingDelimiterMissing => ExtractFailure::ClosingDelimiterMissing,
            ExtractError::Parse(diagnostic) => ExtractFailure::Parse(diagnostic@),
            ExtractError::SentinelMissing => ExtractFailure::SentinelMissing,
            ExtractError::DuplicateRule => ExtractFailure::DuplicateRule,
        }
    }
}

/// The names of a grammar's rules in the order of the grammar, the
/// end-of-input rule among them, and none twice.
#[derive(Debug, PartialEq, Eq)]
pub struct RuleSet {
    names: Vec<String>,
}

impl View for RuleSet {
    type V = Seq<Seq<char>>;

    closed spec fn view(&self) -> Seq<Seq<char>> {
        names_view(self.names@)
    }
}

/// A marker type for one rule: a public unit struct of the rule's name with
/// the derives of the rule enumeration itself.
#[derive(Debug, PartialEq, Eq)]
pub struct NominalTypeDecl {
    name: String,
}

impl View for NominalTypeDecl {
    type V = Seq<char>;

    closed spec fn view(&self) -> Seq<char> {
        self.name@
    }
}

/// The names of a list of declarations, in order.
pub open spec fn declared_names(declarations: Seq<NominalTypeDecl>) -> Seq<Seq<char>> {
    Seq::new(declarations.len(), |i: int| declarations[i]@)
}

/// The source text of the marker type for the rule `name`.
pub open spec fn declaration_text(name: Seq<char>) -> Seq<char> {
    "#[derive(Clone, Copy, Debug, Eq, Hash, Ord, PartialEq, PartialOrd)] pub struct "@ + name
        + ";\n"@
}

/// The source text of the marker types for `names`, one after the other.
pub open spec fn declarations_text(names: Seq<Seq<char>>) -> Seq<char>
    decreases names.len(),
{
    if names.len() == 0 {
        Seq::empty()
    } else {
        declarations_text(names.drop_last()) + declaration_text(names.last())
    }
}

/// The part of `source` from the marker of the rule enumeration up to and
/// with the first `}` behind it.
pub open spec fn rule_enum_cut(source: Seq<char>) -> Result<Seq<char>, ExtractFailure> {
    match first_occurrence(source, enum_marker(), 0) {
        Some(start) => match first_occurrence(source, "}"@, start) {
            Some(end) => Ok(source.subrange(start, end + 1)),
            None => Err(ExtractFailure::ClosingDelimiterMissing),
        },
        None => Err(ExtractFailure::MarkerMissing),
    }
}

/// The rule set that the alternatives `parsed` of an enumeration make.
pub open spec fn rule_set_of(parsed: Result<Seq<Seq<char>>, Seq<char>>) -> Result<
    Seq<Seq<char>>,
    ExtractFailure,
> {
    match parsed {
        Ok(names) => if !names.contains(sentinel()) {
            Err(ExtractFailure::SentinelMissing)
        } else if !names.no_duplicates() {
            Err(ExtractFailure::DuplicateRule)
        } else {
            Ok(names)
        },
        Err(diagnostic) => Err(ExtractFailure::Parse(diagnostic)),
    }
}

/// The rule set of pest's output `source`.
pub open spec fn rule_set_extracted(source: Seq<char>) -> Result<Seq<Seq<char>>, ExtractFailure> {
    match rule_enum_cut(source) {
        Ok(cut) => rule_set_of(syn_enum_variants(cut)),
        Err(failure) => Err(failure),
    }
}

/// The source text of the marker types for the rules of pest's output
/// `source`.
pub open spec fn tags_generated(source: Seq<char>) -> Result<Seq<char>, ExtractFailure> {
    match rule_set_extracted(source) {
        Ok(names) => Ok(declarations_text(names)),
        Err(failure) => Err(failure),
    }
}

/// The end-of-input rule alone is a rule set: that of a grammar without
/// rules.
pub proof fn lemma_sentinel_alone_is_a_rule_set()
    ensures
        is_rule_set(seq![sentinel()]),
{
    let names = seq![sentinel()];
    assert(names[0] == sentinel());
}

/// A rule set holds the end-of-input rule exactly once, however many rules
/// the grammar has.
pub proof fn lemma_sentinel_occurs_once(names: Seq<Seq<char>>)
    requires
        is_rule_set(names),
    ensures
        names.len() >= 1,
        exists|at: int|
            0 <= at < names.len() && #[trigger] names[at] == sentinel() && forall|other: int|
                0 <= other < names.len() && #[trigger] names[other] == sentinel() ==> other == at,
{
    // The end-of-input rule is at some index, and with no name twice at no
    // other.
    let at = choose|at: int| 0 <= at < names.len() && names[at] == sentinel();
    assert(names[at] == sentinel());
}

impl RuleSet {
    /// The names make a rule set.
    #[verifier::type_invariant]
    spec fn inv(&self) -> bool {
        is_rule_set(names_view(self.names@))
    }

    /// Makes a rule set of `names`, kept in their order. Fails where the
    /// end-of-input rule is not among them, or, if it is, where a name
    /// occurs twice.
    pub fn new(names: Vec<String>) -> (out: Result<RuleSet, ExtractError>)
        ensures
            match out {
                Ok(rules) => is_rule_set(rules@) && Ok::<Seq<Seq<char>>, ExtractFailure>(rules@)
                    == rule_set_of(Ok(names_view(names@))),
                Err(error) => Err::<Seq<Seq<char>>, ExtractFailure>(error@) == rule_set_of(
                    Ok(names_view(names@)),
                ),
            },
    {
        if !holds_name(&names, "EOI") {
            return Err(ExtractError::SentinelMissing);
        }
        if !all_distinct(&names) {
            return Err(ExtractError::DuplicateRule);
        }
        Ok(RuleSet { names })
    }

    /// The number of rules, the end-of-input rule counted.
    pub fn len(&self) -> (n: usize)
        ensures
            n == self@.len(),
            n >= 1,
    {
        proof {
            use_type_invariant(self);
            lemma_sentinel_occurs_once(self@);
        }
        self.names.len()
    }

    /// The names of the rules, in the order of the grammar.
    pub fn names(&self) -> (names: &Vec<String>)
        ensures
            names_view(names@) == self@,
            is_rule_set(self@),
    {
        proof {
            use_type_invariant(self);
        }
        &self.names
    }

    /// Whether `name` is a rule of the set.
    pub fn contains(&self, name: &str) -> (found: bool)
        ensures
            found == self@.contains(name@),
    {
        holds_name(&self.names, name)
    }
}

/// Whether `name` is among `names`.
pub fn holds_name(names: &Vec<String>, name: &str) -> (found: bool)
    ensures
        found == names_view(names@).contains(name@),
{
    let ghost views = names_view(names@);
    let mut i: usize = 0;
    while i < names.len()
        invariant
            i <= names.len(),
            views == names_view(names@),
            forall|j: int| 0 <= j < i ==> views[j] != name@,
        decreases names.len() - i,
    {
        if same_text(names[i].as_str(), name) {
            assert(views[i as int] == name@);
            return true;
        }
        i = i + 1;
    }
    false
}

/// Whether no name occurs twice in `names`.
pub fn all_distinct(names: &Vec<String>) -> (distinct: bool)
    ensures
        distinct == names_view(names@).no_duplicates(),
{
    let ghost views = names_view(names@);
    let mut i: usize = 0;
    while i < names.len()
        invariant
            i <= names.len(),
            views == names_view(names@),
            forall|a: int, b: int| 0 <= a < b < i ==> views[a] != views[b],
        decreases names.len() - i,
    {
        let mut j: usize = 0;
        while j < i
            invariant
                j <= i < names.len(),
                views == names_view(names@),
                forall|a: int| 0 <= a < j ==> views[a] != views[i as int],
            decreases i - j,
        {
            if same_text(names[j].as_str(), names[i].as_str()) {
                assert(views[j as int] == views[i as int]);
                return false;
            }
            j = j + 1;
        }
        i = i + 1;
    }
    assert forall|a: int, b: int|
        0 <= a < views.len() && 0 <= b < views.len() && a != b implies views[a] != views[b] by {
        // The loop has compared every pair, the smaller index first.
        assert(a < b || b < a);
    }
    true
}

impl NominalTypeDecl {
    /// The marker type for the rule `name`.
    pub fn new(name: &str) -> (declaration: NominalTypeDecl)
        ensures
            declaration@ == name@,
    {
        NominalTypeDecl { name: String::from_str(name) }
    }

    /// The name of the type, which is the name of its rule.
    pub fn name(&self) -> (name: &String)
        ensures
            name@ == self@,
    {
        &self.name
    }

    /// The source text of the declaration.
    pub fn render(&self) -> (text: String)
        ensures
            text@ == declaration_text(self@),
    {
        let mut text = String::from_str(
            "#[derive(Clone, Copy, Debug, Eq, Hash, Ord, PartialEq, PartialOrd)] pub struct ",
        );
        text.append(self.name.as_str());
        text.append(";\n");
        text
    }
}

/// Cuts the declaration of the rule enumeration out of pest's output: from
/// its marker up to and with the first `}` behind the marker.
pub fn cut_rule_enum(source: &str) -> (out: Result<String, ExtractError>)
    ensures
        match out {
            Ok(cut) => rule_enum_cut(source@) == Ok::<Seq<char>, ExtractFailure>(cut@),
            Err(error) => rule_enum_cut(source@) == Err::<Seq<char>, ExtractFailure>(error@),
        },
{
    let text = chars_of(source);
    let marker = chars_of(
        "#[allow(dead_code, non_camel_case_types, clippy :: upper_case_acronyms)]",
    );
    let closing = chars_of("}");
    match find_from(&text, &marker, 0) {
        Some(start) => match find_from(&text, &closing, start) {
            Some(end) => {
                assert(end + 1 <= text.len()) by {
                }
                let mut cut: Vec<char> = Vec::new();
                push_range(&mut cut, &text, start, end + 1);
                Ok(string_of(&cut))
            },
            None => Err(ExtractError::ClosingDelimiterMissing),
        },
        None => Err(ExtractError::MarkerMissing),
    }
}

/// Makes the rule set of what `syn` read of the enumeration: its
/// alternatives in their order, or the diagnostic.
pub fn rule_set_from_parse(parsed: Result<Vec<String>, String>) -> (out: Result<
    RuleSet,
    ExtractError,
>)
    ensures
        match out {
            Ok(rules) => is_rule_set(rules@) && rule_set_of(parse_view(parsed)) == Ok::<
                Seq<Seq<char>>,
                ExtractFailure,
            >(rules@),
            Err(error) => rule_set_of(parse_view(parsed)) == Err::<Seq<Seq<char>>, ExtractFailure>(
                error@,
            ),
        },
{
    match parsed {
        Ok(names) => RuleSet::new(names),
        Err(diagnostic) => Err(ExtractError::Parse(diagnostic)),
    }
}

/// The rule set of pest's output `source`, in the order of the grammar.
///
/// Fails where the marker of the rule enumeration or the `}` behind it is
/// missing, where what stands between them is no enumeration declaration,
/// and where the enumeration lacks the end-of-input rule or names a rule
/// twice.
pub fn extract_rule_set(source: &str) -> (out: Result<RuleSet, ExtractError>)
    ensures
        match out {
            Ok(rules) => is_rule_set(rules@) && rule_set_extracted(source@) == Ok::<
                Seq<Seq<char>>,
                ExtractFailure,
            >(rules@),
            Err(error) => rule_set_extracted(source@) == Err::<Seq<Seq<char>>, ExtractFailure>(
                error@,
            ),
        },
{
    match cut_rule_enum(source) {
        Ok(cut) => rule_set_from_parse(parse_enum_variants(cut.as_str())),
        Err(error) => Err(error),
    }
}

/// One marker type for each rule of `rules`, in the order of the rules and
/// under the rule's name. No two of them are alike.
pub fn synthesize_nominal_types(rules: &RuleSet) -> (declarations: Vec<NominalTypeDecl>)
    ensures
        declarations.len() == rules@.len(),
        forall|i: int| 0 <= i < declarations.len() ==> declarations[i]@ == rules@[i],
        declared_names(declarations@) == rules@,
        declared_names(declarations@).no_duplicates(),
{
    let names = rules.names();
    let mut declarations: Vec<NominalTypeDecl> = Vec::new();
    let mut i: usize = 0;
    while i < names.len()
        invariant
            i <= names.len(),
            names_view(names@) == rules@,
            declarations.len() == i,
            forall|j: int| 0 <= j < i ==> declarations[j]@ == rules@[j],
        decreases names.len() - i,
    {
        declarations.push(NominalTypeDecl::new(names[i].as_str()));
        i = i + 1;
    }
    assert(declared_names(declarations@) =~= rules@);
    declarations
}

/// The source text of `declarations`, one after the other.
pub fn render_declarations(declarations: &Vec<NominalTypeDecl>) -> (text: String)
    ensures
        text@ == declarations_text(declared_names(declarations@)),
{
    let ghost names = declared_names(declarations@);
    let mut text = String::new();
    let mut i: usize = 0;
    while i < declarations.len()
        invariant
            i <= declarations.len(),
            names == declared_names(declarations@),
            text@ == declarations_text(names.take(i as int)),
        decreases declarations.len() - i,
    {
        let one = declarations[i].render();
        text.append(one.as_str());
        i = i + 1;
        assert(names.take(i as int).drop_last() =~= names.take(i - 1));
    }
    assert(names.take(i as int) =~= names);
    text
}

/// Writes one marker type for each alternative of the rule enumeration in
/// pest's output `raw_codes`: a public unit struct of the alternative's
/// name, in the order of the enumeration.
///
/// Fails as `extract_rule_set` does.
pub fn enum_dispatch_tag_generator(raw_codes: &str) -> (out: Result<String, ExtractError>)
    ensures
        match out {
            Ok(text) => tags_generated(raw_codes@) == Ok::<Seq<char>, ExtractFailure>(text@),
            Err(error) => tags_generated(raw_codes@) == Err::<Seq<char>, ExtractFailure>(error@),
        },
{
    match extract_rule_set(raw_codes) {
        Ok(rules) => Ok(render_declarations(&synthesize_nominal_types(&rules))),
        Err(error) => Err(error),
    }
}

} // verus!
