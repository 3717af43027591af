use enum_dispatch_pest_parser::pipeline::{
    assemble_unit, generate_unit, root_declaration_text, GenerateError,
};
use enum_dispatch_pest_parser::rewrite::RewriteError;
use enum_dispatch_pest_parser::rules::ExtractError;

const SOURCE: &str = "#[allow(dead_code, non_camel_case_types, clippy :: upper_case_acronyms)] #[derive(Clone, Copy, Debug, Eq, Hash, Ord, PartialEq, PartialOrd)] pub enum Rule { #[doc = \"End-of-input\"] EOI, r#Statement, r#Expression } impl Rule { pub fn all_rules() -> & 'static [Rule] { & [Rule :: r#Statement, Rule :: r#Expression] } } fn parse(rule : Rule) { match rule { Rule :: r#Statement => rules :: r#Statement(state), Rule :: r#Expression => rules :: r#Expression(state), Rule :: EOI => rules :: EOI(state) } }";

const UNIT: &str = "pub struct LanguageParser;\n#[derive(Clone, Copy, Debug, Eq, Hash, Ord, PartialEq, PartialOrd)] pub struct EOI;\n#[derive(Clone, Copy, Debug, Eq, Hash, Ord, PartialEq, PartialOrd)] pub struct r#Statement;\n#[derive(Clone, Copy, Debug, Eq, Hash, Ord, PartialEq, PartialOrd)] pub struct r#Expression;\n#[allow(dead_code, non_camel_case_types, clippy :: upper_case_acronyms)] #[enum_dispatch(ParserInterface)]\r\n#[derive(Clone, Copy, Debug, Eq, Hash, Ord, PartialEq, PartialOrd)] pub enum Rule { #[doc = \"End-of-input\"] EOI(crate::EOI),  r#Statement(crate::r#Statement),  r#Expression(crate::r#Expression)} impl Rule { pub fn all_rules() -> & 'static [Rule] { & [Rule::r#Statement(crate::r#Statement {}),  Rule::r#Expression(crate::r#Expression {})] } } fn parse(rule : Rule) { match rule { Rule :: r#Statement (_) => rules :: r#Statement(state), Rule :: r#Expression (_) => rules :: r#Expression(state), Rule :: EOI (_) => rules :: EOI(state) } }";

#[test]
fn the_root_type_is_a_unit_struct_with_its_visibility() {
    assert_eq!(root_declaration_text("pub", "LanguageParser"), "pub struct LanguageParser;\n");
    assert_eq!(root_declaration_text("pub(crate)", "P"), "pub(crate) struct P;\n");
    assert_eq!(root_declaration_text("", "P"), " struct P;\n");
}

#[test]
fn the_unit_is_root_then_marker_types_then_parser() {
    assert_eq!(assemble_unit("a;", "b;", "c;"), "a;b;c;");
    assert_eq!(assemble_unit("", "", ""), "");
}

#[test]
fn statement_and_expression_from_end_to_end() {
    let unit = generate_unit("pub", "LanguageParser", SOURCE, SOURCE, "ParserInterface");
    assert_eq!(unit, Ok(UNIT.to_string()));
}

#[test]
fn the_unit_holds_three_marker_types_and_three_alternatives() {
    let unit = generate_unit("pub", "LanguageParser", SOURCE, SOURCE, "ParserInterface").unwrap();
    assert_eq!(unit.matches(" pub struct ").count(), 3);
    assert!(unit.contains("pub struct EOI;"));
    assert!(unit.contains("pub struct r#Statement;"));
    assert!(unit.contains("pub struct r#Expression;"));
    assert!(unit.contains("EOI(crate::EOI)"));
    assert!(unit.contains("r#Statement(crate::r#Statement)"));
    assert!(unit.contains("r#Expression(crate::r#Expression)"));
    assert!(unit.contains("Rule :: r#Statement (_) => rules :: r#Statement(state)"));
    assert!(unit.contains(
        "[Rule::r#Statement(crate::r#Statement {}),  Rule::r#Expression(crate::r#Expression {})]"
    ));
}

#[test]
fn the_unit_is_the_same_each_time() {
    let first = generate_unit("pub", "LanguageParser", SOURCE, SOURCE, "ParserInterface");
    let second = generate_unit("pub", "LanguageParser", SOURCE, SOURCE, "ParserInterface");
    assert_eq!(first, second);
}

#[test]
fn a_failure_of_the_marker_types_comes_first() {
    assert_eq!(
        generate_unit("pub", "P", "nothing", "nothing", "I"),
        Err(GenerateError::Extract(ExtractError::MarkerMissing))
    );
}

#[test]
fn a_failure_of_the_rewrite_comes_after_the_marker_types() {
    assert_eq!(
        generate_unit("pub", "P", SOURCE, "nothing", "I"),
        Err(GenerateError::Rewrite(RewriteError::DeriveListMissing))
    );
}
