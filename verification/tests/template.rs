use scaf::argmap::ArgMap;
use scaf::language::Language;
use scaf::step::{Condition, ConditionOperator, Conditions, LogicalOperator, StepType, TemplateStep};
use scaf::Template;

fn create_test_template() -> Template {
    Template {
        schema: Some("test-schema".to_string()),
        name: "Test Template".to_string(),
        version: "1.0.0".to_string(),
        description: "Test Description".to_string(),
        author: "Test Author".to_string(),
        language: Language::Rust,
        tags: vec!["test".to_string(), "template".to_string()],
        args: vec![],
        extends: vec![],
        steps: vec![],
    }
}

fn directory_step(id: &str, description: &str, path: &str) -> TemplateStep {
    TemplateStep {
        id: id.to_string(),
        description: description.to_string(),
        path: path.to_string(),
        step_type: StepType::Directory,
        content: None,
        conditions: None,
        line_number: None,
        modification_type: None,
        source: None,
        url: None,
        branch: None,
        package_manager: None,
        dependencies: None,
        dev_dependencies: None,
        template_engine: None,
        variables: None,
    }
}

#[test]
fn test_template_basic_info() {
    let template = create_test_template();
    assert_eq!(template.name, "Test Template");
    assert_eq!(template.version, "1.0.0");
    assert_eq!(template.description, "Test Description");
    assert_eq!(template.author, "Test Author");
    assert_eq!(template.tags, vec!["test", "template"]);
}

#[test]
fn test_template_with_steps() {
    let mut template = create_test_template();
    template.steps = vec![directory_step("test-step", "Test Step", "./test")];

    let args = ArgMap::new();
    let (executed, skipped) = template.run_summary(&args);
    assert_eq!(executed, 1);
    assert_eq!(skipped, 0);
}

#[test]
fn test_template_with_conditions() {
    let mut template = create_test_template();
    let mut conditions = ArgMap::new();
    conditions.insert("test_condition".to_string(), "true".to_string());

    let mut step = directory_step("conditional-step", "Conditional Step", "./test");
    step.conditions = Some(Conditions {
        operator: LogicalOperator::And,
        conditions: vec![Condition {
            field: "test_condition".to_string(),
            operator: ConditionOperator::Equals,
            value: "true".to_string(),
        }],
    });
    template.steps = vec![step];

    let (executed, skipped) = template.run_summary(&conditions);
    assert_eq!(executed, 1);
    assert_eq!(skipped, 0);
}

#[test]
fn test_run_summary_counts_unmet_condition_as_skipped() {
    let mut template = create_test_template();
    let mut step = directory_step("never", "Never Step", "./test");
    step.conditions = Some(Conditions {
        operator: LogicalOperator::And,
        conditions: vec![Condition {
            field: "missing".to_string(),
            operator: ConditionOperator::Equals,
            value: "true".to_string(),
        }],
    });
    template.steps = vec![step];

    let args = ArgMap::new();
    let (executed, skipped) = template.run_summary(&args);
    assert_eq!(executed, 1);
    assert_eq!(skipped, 1);
}

#[test]
fn test_info_lines() {
    let template = create_test_template();
    let lines = template.info_lines();
    assert_eq!(
        lines,
        vec![
            "Name        : Test Template",
            "Version     : 1.0.0",
            "Description : Test Description",
            "Author      : Test Author",
            "Language    : Rust",
            "Tags        : test, template",
        ]
    );
}

#[test]
fn test_deps_gate_prompting() {
    let template = create_test_template();
    let arg = scaf::args::TemplateArg {
        name: "A".to_string(),
        key: "a".to_string(),
        description: None,
        long_description: None,
        arg_type: scaf::args::ArgType::String,
        default: "".to_string(),
        values: None,
        required: false,
        pattern: None,
        group: None,
        depends_on: Some(vec!["first".to_string()]),
        multiple: false,
        delimiter: None,
    };
    let mut values = ArgMap::new();
    assert!(!template.deps_satisfied(&arg, &values));
    values.insert("first".to_string(), "x".to_string());
    assert!(template.deps_satisfied(&arg, &values));
}

#[test]
fn test_language_parse_and_name() {
    assert!(matches!(Language::parse("RUST"), Language::Rust));
    assert!(matches!(Language::parse("typescript"), Language::TypeScript));
    assert_eq!(Language::parse("csharp").display_name(), "C#");
    assert_eq!(Language::parse("cpp").display_name(), "C++");
    match Language::parse("Zig") {
        Language::Other(tag) => assert_eq!(tag, "zig"),
        _ => panic!("an unknown tag is kept, lowered"),
    }
    assert_eq!(Language::Rust.display_name(), "Rust");
}
