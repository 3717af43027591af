//! The control-flow rewriter: turns the unit alternatives of pest's rule
//! enumeration into alternatives that carry a marker type, and keeps the
//! dispatcher and the rule-listing function in step with it.
//!
//! The rewrite is textual and layered. Each pass works on what the passes
//! before it left, so their order matters.

use crate::pattern::{regex_replace_all, replace_matches};
use crate::text::{
    chars_of, find_from, first_occurrence, occurs_at, replace_all, replaced, splice, spliced,
    string_of,
};
use vstd::prelude::*;
use vstd::string::StringExecFns;

verus! {

/// One pass of the rewriter: every match of `pattern`, a regular expression
/// in the syntax of the `regex` crate, is replaced by `replacement`, in which
/// `$n` stands for the capture group named `n`.
#[derive(Debug, PartialEq, Eq)]
pub struct RewriteRule {
    pub pattern: String,
    pub replacement: String,
}

impl View for RewriteRule {
    type V = (Seq<char>, Seq<char>);

    open spec fn view(&self) -> (Seq<char>, Seq<char>) {
        (self.pattern@, self.replacement@)
    }
}

/// Why the rewriter gave up.
#[derive(Clone, Copy, Debug, PartialEq, Eq, Structural)]
pub enum RewriteError {
    /// The source holds no derive-attribute list to put the annotation before.
    DeriveListMissing,
    /// The `regex` crate refused the pattern of the pass with this index.
    PatternRejected(usize),
}

/// The views of a list of rules, in order.
pub open spec fn rules_view(rules: Seq<RewriteRule>) -> Seq<(Seq<char>, Seq<char>)> {
    Seq::new(rules.len(), |i: int| rules[i]@)
}

/// A `Result` of text, seen as a sequence of characters.
pub open spec fn text_result<E>(r: Result<String, E>) -> Result<Seq<char>, E> {
    match r {
        Ok(text) => Ok(text@),
        Err(e) => Err(e),
    }
}

/// The annotation that asks `enum_dispatch` to bind the enumeration to the
/// trait `interface`, with the line break that follows it.
pub open spec fn dispatch_annotation(interface: Seq<char>) -> Seq<char> {
    "#[enum_dispatch("@ + interface + ")]\r\n"@
}

/// `source` with the dispatch annotation put in directly before its first
/// derive-attribute list, or `None` where it has no such list.
pub open spec fn annotated(source: Seq<char>, interface: Seq<char>) -> Option<Seq<char>> {
    match first_occurrence(source, "#[derive("@, 0) {
        Some(at) => Some(spliced(source, at, dispatch_annotation(interface))),
        None => None,
    }
}

/// `source` with every `=>` turned into `(_) =>`, so that each arm of the
/// dispatcher matches an alternative with a payload and discards it.
pub open spec fn arms_bound(source: Seq<char>) -> Seq<char> {
    replaced(source, "=>"@, "(_) =>"@)
}

/// The passes that give each alternative its payload, in the order in which
/// they run:
/// the references `Rule::r#name,` of the listing function, which become
/// values; the alternatives `r#name,` of the declaration, which get a payload
/// type; the same two for the end-of-input rule `EOI`, whose name has no
/// `r#`; and the same two for the last reference, closed by `]`, and the last
/// alternative, closed by `}`, which no comma follows.
pub open spec fn payload_rules() -> Seq<(Seq<char>, Seq<char>)> {
    seq![
        (
            r"(?x) Rule[[:blank:]]*::[[:blank:]]*r[[:blank:]]*\#[[:blank:]]* (?P<n>(\w+|r\#\w+)),"@,
            "Rule::r#$n(crate::r#$n {}), "@,
        ),
        (r"(?x) r[[:blank:]]*\#[[:blank:]]* (?P<n>(\w+|r\#\w+)),"@, "r#$n(crate::r#$n), "@),
        (r"(?x) Rule[[:blank:]]*::[[:blank:]]*EOI,"@, "Rule::EOI(crate::EOI {}), "@),
        (r"(?x) EOI[[:blank:]]*\,"@, "EOI(crate::EOI), "@),
        (
            r"(?x) Rule[[:blank:]]*::[[:blank:]]*r[[:blank:]]*\#[[:blank:]]* (?P<n>(\w+|r\#\w+))\s*\]"@,
            "Rule::r#$n(crate::r#$n {})]"@,
        ),
        (r"(?x) r[[:blank:]]*\#[[:blank:]]* (?P<n>(\w+|r\#\w+))\s*\}"@, "r#$n(crate::r#$n)}"@),
    ]
}

/// `source` after the passes `rules[from..]`, each run on the result of the
/// one before, or the first pass whose pattern is refused.
pub open spec fn rules_applied(
    source: Seq<char>,
    rules: Seq<(Seq<char>, Seq<char>)>,
    from: int,
) -> Result<Seq<char>, RewriteError>
    decreases rules.len() - from,
{
    if from < 0 || from >= rules.len() {
        Ok(source)
    } else {
        match regex_replace_all(rules[from].0, source, rules[from].1) {
            Some(next) => rules_applied(next, rules, from + 1),
            None => Err(RewriteError::PatternRejected(from as usize)),
        }
    }
}

/// The whole rewrite of pest's full output: the annotation, the arms, then
/// the payload passes.
pub open spec fn hooked(source: Seq<char>, interface: Seq<char>) -> Result<
    Seq<char>,
    RewriteError,
> {
    match annotated(source, interface) {
        Some(with_annotation) => rules_applied(arms_bound(with_annotation), payload_rules(), 0),
        None => Err(RewriteError::DeriveListMissing),
    }
}

/// After the arms are bound no arm is left without a binding pattern: every
/// `=>` of the result is the end of a `(_) =>`.
pub proof fn lemma_every_arm_binds_its_payload(source: Seq<char>)
    ensures
        forall|at: int|
            occurs_at(arms_bound(source), "=>"@, at) ==> occurs_at(
                arms_bound(source),
                "(_) =>"@,
                at - 4,
            ),
    decreases source.len(),
{
    reveal_strlit("=>");
    reveal_strlit("(_) =>");
    let arrow = "=>"@;
    let bound = "(_) =>"@;
    let out = arms_bound(source);
    if source.len() < 2 {
        // Nothing is replaced, and the text is too short to hold an arrow.
    } else if occurs_at(source, arrow, 0) {
        // The result is `(_) =>` and then the rest, with its arms bound.
        let tail = arms_bound(source.skip(2));
        lemma_every_arm_binds_its_payload(source.skip(2));
        assert forall|at: int| occurs_at(out, arrow, at) implies occurs_at(out, bound, at - 4) by {
            let window = out.subrange(at, at + 2);
            assert(window[0] == '=' && window[1] == '>');
            if at < 6 {
                // Of `(_) =>` only index 4 holds a `=`.
                assert(out.subrange(0, 6) =~= bound);
            } else {
                assert(tail.subrange(at - 6, at - 4) =~= window);
                assert(occurs_at(tail, arrow, at - 6));
                assert(out.subrange(at - 4, at + 2) =~= tail.subrange(at - 10, at - 4));
            }
        }
    } else {
        // The result is the first character and then the rest, with its
        // arms bound.
        let rest = source.skip(1);
        let tail = arms_bound(rest);
        lemma_every_arm_binds_its_payload(rest);
        assert forall|at: int| occurs_at(out, arrow, at) implies occurs_at(out, bound, at - 4) by {
            let window = out.subrange(at, at + 2);
            assert(window[0] == '=' && window[1] == '>');
            if at == 0 {
                // The source starts with `=` but not with `=>`, so no `>`
                // comes next; and the bound rest starts as the rest does, or
                // with `(`. So no arrow stands here.
                if source[1] == '>' {
                    assert(source.subrange(0, 2) =~= arrow);
                }
                if occurs_at(rest, arrow, 0) {
                    assert(tail[0] == '(');
                }
            } else {
                assert(tail.subrange(at - 1, at + 1) =~= window);
                assert(occurs_at(tail, arrow, at - 1));
                assert(out.subrange(at - 4, at + 2) =~= tail.subrange(at - 5, at + 1));
            }
        }
    }
}

/// Builds the dispatch annotation for the trait `interface`.
pub fn dispatch_annotation_text(interface: &str) -> (annotation: String)
    ensures
        annotation@ == dispatch_annotation(interface@),
{
    let mut annotation = String::from_str("#[enum_dispatch(");
    annotation.append(interface);
    annotation.append(")]\r\n");
    annotation
}

/// Puts the dispatch annotation for `interface` directly before the first
/// derive-attribute list of `source`. `None` where `source` has none.
pub fn annotate_rule_enum(source: &str, interface: &str) -> (out: Option<String>)
    ensures
        match out {
            Some(text) => annotated(source@, interface@) == Some(text@),
            None => annotated(source@, interface@) is None,
        },
{
    let text = chars_of(source);
    let marker = chars_of("#[derive(");
    match find_from(&text, &marker, 0) {
        Some(at) => {
            let annotation = chars_of(dispatch_annotation_text(interface).as_str());
            Some(string_of(&splice(&text, at, &annotation)))
        },
        None => None,
    }
}

/// Turns every `=>` of `source` into `(_) =>`.
pub fn bind_dispatch_arms(source: &str) -> (out: String)
    ensures
        out@ == arms_bound(source@),
{
    let text = chars_of(source);
    let arrow = chars_of("=>");
    let bound = chars_of("(_) =>");
    string_of(&replace_all(&text, &arrow, &bound))
}

/// Runs the passes `rules` on `source`, in order, each on the result of the
/// one before. Stops at the first pass whose pattern is refused.
pub fn apply_rewrite_rules(source: &str, rules: &Vec<RewriteRule>) -> (out: Result<
    String,
    RewriteError,
>)
    ensures
        text_result(out) == rules_applied(source@, rules_view(rules@), 0),
{
    let ghost views = rules_view(rules@);
    let mut current = String::from_str(source);
    let mut i: usize = 0;
    while i < rules.len()
        invariant
            i <= rules.len(),
            views == rules_view(rules@),
            rules_applied(source@, views, 0) == rules_applied(current@, views, i as int),
        decreases rules.len() - i,
    {
        let rule = &rules[i];
        assert(views[i as int] == rule@);
        match replace_matches(rule.pattern.as_str(), current.as_str(), rule.replacement.as_str()) {
            Some(next) => {
                current = next;
            },
            None => {
                return Err(RewriteError::PatternRejected(i));
            },
        }
        i = i + 1;
    }
    Ok(current)
}

fn rule(pattern: &str, replacement: &str) -> (r: RewriteRule)
    ensures
        r@ == (pattern@, replacement@),
{
    RewriteRule {
        pattern: String::from_str(pattern),
        replacement: String::from_str(replacement),
    }
}

/// The passes that give each alternative its payload, in running order.
pub fn payload_rewrite_rules() -> (rules: Vec<RewriteRule>)
    ensures
        rules_view(rules@) == payload_rules(),
{
    let mut rules: Vec<RewriteRule> = Vec::new();
    rules.push(
        rule(
            r"(?x) Rule[[:blank:]]*::[[:blank:]]*r[[:blank:]]*\#[[:blank:]]* (?P<n>(\w+|r\#\w+)),",
            "Rule::r#$n(crate::r#$n {}), ",
        ),
    );
    rules.push(rule(r"(?x) r[[:blank:]]*\#[[:blank:]]* (?P<n>(\w+|r\#\w+)),", "r#$n(crate::r#$n), "));
    rules.push(rule(r"(?x) Rule[[:blank:]]*::[[:blank:]]*EOI,", "Rule::EOI(crate::EOI {}), "));
    rules.push(rule(r"(?x) EOI[[:blank:]]*\,", "EOI(crate::EOI), "));
    rules.push(
        rule(
            r"(?x) Rule[[:blank:]]*::[[:blank:]]*r[[:blank:]]*\#[[:blank:]]* (?P<n>(\w+|r\#\w+))\s*\]",
            "Rule::r#$n(crate::r#$n {})]",
        ),
    );
    rules.push(rule(r"(?x) r[[:blank:]]*\#[[:blank:]]* (?P<n>(\w+|r\#\w+))\s*\}", "r#$n(crate::r#$n)}"));
    assert(rules_view(rules@) =~= payload_rules());
    rules
}

/// Rewrites pest's full output `raw_codes` for dispatch through the trait
/// `interface`: puts the dispatch annotation before the derive-attribute list
/// of the rule enumeration, makes every dispatcher arm discard a payload, and
/// gives every alternative and every listed rule its payload.
///
/// Fails where `raw_codes` has no derive-attribute list, or where a pattern
/// of the payload passes is refused. A pass whose pattern matches nothing
/// leaves the text as it is.
pub fn enum_dispatch_generated_enum_hooker(raw_codes: &str, interface: &str) -> (out: Result<
    String,
    RewriteError,
>)
    ensures
        text_result(out) == hooked(raw_codes@, interface@),
{
    match annotate_rule_enum(raw_codes, interface) {
        Some(with_annotation) => {
            let bound = bind_dispatch_arms(with_annotation.as_str());
            let rules = payload_rewrite_rules();
            apply_rewrite_rules(bound.as_str(), &rules)
        },
        None => Err(RewriteError::DeriveListMissing),
    }
}

} // verus!
