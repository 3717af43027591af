use enum_dispatch_pest_parser::rules::{
    all_distinct, cut_rule_enum, enum_dispatch_tag_generator, extract_rule_set, holds_name,
    render_declarations, rule_set_from_parse, synthesize_nominal_types, ExtractError,
    NominalTypeDecl, RuleSet,
};

const MARKER: &str = "#[allow(dead_code, non_camel_case_types, clippy :: upper_case_acronyms)]";

const ENUMERATION: &str = "#[allow(dead_code, non_camel_case_types, clippy :: upper_case_acronyms)] #[derive(Clone, Copy, Debug, Eq, Hash, Ord, PartialEq, PartialOrd)] pub enum Rule { #[doc = \"End-of-input\"] EOI, r#Statement, r#Expression } impl Rule { pub fn all_rules() -> & 'static [Rule] { & [Rule :: r#Statement, Rule :: r#Expression] } }";

const DERIVES: &str = "#[derive(Clone, Copy, Debug, Eq, Hash, Ord, PartialEq, PartialOrd)]";

fn names(list: &[&str]) -> Vec<String> {
    list.iter().map(|name| name.to_string()).collect()
}

fn names_of(rules: &RuleSet) -> Vec<String> {
    rules.names().clone()
}

#[test]
fn the_cut_runs_from_the_marker_to_the_first_closing_brace() {
    let cut = cut_rule_enum(ENUMERATION).unwrap();
    assert_eq!(
        cut,
        "#[allow(dead_code, non_camel_case_types, clippy :: upper_case_acronyms)] #[derive(Clone, Copy, Debug, Eq, Hash, Ord, PartialEq, PartialOrd)] pub enum Rule { #[doc = \"End-of-input\"] EOI, r#Statement, r#Expression }"
    );
}

#[test]
fn the_cut_skips_what_stands_before_the_marker() {
    let source = format!("mod x {{ }} {} enum E {{ EOI }} tail }}", MARKER);
    assert_eq!(cut_rule_enum(&source), Ok(format!("{} enum E {{ EOI }}", MARKER)));
}

#[test]
fn the_cut_fails_without_the_marker() {
    assert_eq!(cut_rule_enum("pub enum Rule { EOI }"), Err(ExtractError::MarkerMissing));
    assert_eq!(cut_rule_enum(""), Err(ExtractError::MarkerMissing));
}

#[test]
fn the_cut_fails_without_a_closing_brace_behind_the_marker() {
    let source = format!("{{ }} {} pub enum Rule {{ EOI", MARKER);
    assert_eq!(cut_rule_enum(&source), Err(ExtractError::ClosingDelimiterMissing));
}

#[test]
fn the_rule_set_keeps_the_order_of_the_grammar() {
    let rules = extract_rule_set(ENUMERATION).unwrap();
    assert_eq!(rules.len(), 3);
    assert_eq!(names_of(&rules), names(&["EOI", "r#Statement", "r#Expression"]));
}

#[test]
fn the_rule_set_of_a_grammar_without_rules_is_the_end_of_input_rule() {
    let source = format!("{} {} pub enum Rule {{ #[doc = \"End-of-input\"] EOI, }}", MARKER, DERIVES);
    let rules = extract_rule_set(&source).unwrap();
    assert_eq!(rules.len(), 1);
    assert_eq!(names_of(&rules), names(&["EOI"]));
}

#[test]
fn the_end_of_input_rule_is_there_exactly_once() {
    let rules = extract_rule_set(ENUMERATION).unwrap();
    let count = names_of(&rules).iter().filter(|name| name.as_str() == "EOI").count();
    assert_eq!(count, 1);
    assert!(rules.contains("EOI"));
    assert!(rules.contains("r#Statement"));
    assert!(!rules.contains("Statement"));
}

#[test]
fn extraction_fails_without_the_marker() {
    assert_eq!(
        extract_rule_set("pub enum Rule { EOI, r#a }"),
        Err(ExtractError::MarkerMissing)
    );
}

#[test]
fn extraction_fails_on_what_is_no_enumeration() {
    let source = format!("{} pub struct Rule {{ a: u8 }}", MARKER);
    match extract_rule_set(&source) {
        Err(ExtractError::Parse(diagnostic)) => assert!(!diagnostic.is_empty()),
        other => panic!("expected a parse error, got {:?}", other),
    }
}

#[test]
fn extraction_fails_without_the_end_of_input_rule() {
    let source = format!("{} pub enum Rule {{ r#a, r#b }}", MARKER);
    assert_eq!(extract_rule_set(&source), Err(ExtractError::SentinelMissing));
}

#[test]
fn extraction_fails_on_a_rule_named_twice() {
    let source = format!("{} pub enum Rule {{ EOI, r#a, r#b, r#a }}", MARKER);
    assert_eq!(extract_rule_set(&source), Err(ExtractError::DuplicateRule));
}

#[test]
fn a_rule_set_is_made_of_what_was_read() {
    let rules = rule_set_from_parse(Ok(names(&["r#a", "EOI", "r#b"]))).unwrap();
    assert_eq!(names_of(&rules), names(&["r#a", "EOI", "r#b"]));
}

#[test]
fn a_diagnostic_becomes_a_parse_error() {
    assert_eq!(
        rule_set_from_parse(Err("expected `enum`".to_string())),
        Err(ExtractError::Parse("expected `enum`".to_string()))
    );
}

#[test]
fn a_rule_set_needs_the_end_of_input_rule() {
    assert_eq!(RuleSet::new(names(&["r#a"])), Err(ExtractError::SentinelMissing));
    assert_eq!(RuleSet::new(Vec::new()), Err(ExtractError::SentinelMissing));
    assert_eq!(RuleSet::new(names(&["r#EOI"])), Err(ExtractError::SentinelMissing));
}

#[test]
fn a_rule_set_takes_no_name_twice() {
    assert_eq!(RuleSet::new(names(&["EOI", "EOI"])), Err(ExtractError::DuplicateRule));
    assert_eq!(RuleSet::new(names(&["r#a", "EOI", "r#a"])), Err(ExtractError::DuplicateRule));
}

#[test]
fn a_missing_end_of_input_rule_comes_before_a_duplicate() {
    assert_eq!(RuleSet::new(names(&["r#a", "r#a"])), Err(ExtractError::SentinelMissing));
}

#[test]
fn holds_name_looks_for_the_whole_name() {
    let list = names(&["EOI", "r#ab"]);
    assert!(holds_name(&list, "EOI"));
    assert!(holds_name(&list, "r#ab"));
    assert!(!holds_name(&list, "r#a"));
    assert!(!holds_name(&list, ""));
    assert!(!holds_name(&Vec::new(), "EOI"));
}

#[test]
fn all_distinct_finds_a_repeated_name() {
    assert!(all_distinct(&names(&[])));
    assert!(all_distinct(&names(&["a"])));
    assert!(all_distinct(&names(&["a", "b", "c"])));
    assert!(!all_distinct(&names(&["a", "b", "a"])));
    assert!(!all_distinct(&names(&["a", "b", "b"])));
}

#[test]
fn there_is_one_marker_type_for_each_rule_in_order() {
    let rules = RuleSet::new(names(&["EOI", "r#Statement", "r#Expression"])).unwrap();
    let declarations = synthesize_nominal_types(&rules);
    assert_eq!(declarations.len(), 3);
    let declared: Vec<&str> = declarations.iter().map(|d| d.name().as_str()).collect();
    assert_eq!(declared, vec!["EOI", "r#Statement", "r#Expression"]);
}

#[test]
fn no_two_marker_types_are_alike() {
    let rules = RuleSet::new(names(&["r#c", "r#a", "EOI", "r#b"])).unwrap();
    let declarations = synthesize_nominal_types(&rules);
    assert_eq!(declarations.len(), 4);
    for i in 0..declarations.len() {
        for j in 0..i {
            assert_ne!(declarations[i], declarations[j]);
        }
    }
}

#[test]
fn a_marker_type_is_a_public_unit_struct_with_the_derives() {
    let declaration = NominalTypeDecl::new("r#Statement");
    assert_eq!(declaration.name(), "r#Statement");
    assert_eq!(
        declaration.render(),
        "#[derive(Clone, Copy, Debug, Eq, Hash, Ord, PartialEq, PartialOrd)] pub struct r#Statement;\n"
    );
}

#[test]
fn declarations_are_written_one_after_the_other() {
    let declarations = vec![NominalTypeDecl::new("EOI"), NominalTypeDecl::new("r#a")];
    assert_eq!(
        render_declarations(&declarations),
        format!("{} pub struct EOI;\n{} pub struct r#a;\n", DERIVES, DERIVES)
    );
    assert_eq!(render_declarations(&Vec::new()), "");
}

#[test]
fn the_marker_types_of_a_small_grammar() {
    assert_eq!(
        enum_dispatch_tag_generator(ENUMERATION),
        Ok(format!(
            "{} pub struct EOI;\n{} pub struct r#Statement;\n{} pub struct r#Expression;\n",
            DERIVES, DERIVES, DERIVES
        ))
    );
}

#[test]
fn the_marker_types_of_a_grammar_without_rules() {
    let source = format!("{} {} pub enum Rule {{ EOI }}", MARKER, DERIVES);
    assert_eq!(
        enum_dispatch_tag_generator(&source),
        Ok(format!("{} pub struct EOI;\n", DERIVES))
    );
}

#[test]
fn the_marker_types_are_the_same_each_time() {
    assert_eq!(enum_dispatch_tag_generator(ENUMERATION), enum_dispatch_tag_generator(ENUMERATION));
}

#[test]
fn no_marker_types_without_the_marker() {
    assert_eq!(enum_dispatch_tag_generator("enum Rule { EOI }"), Err(ExtractError::MarkerMissing));
}
