use scaf::argmap::ArgMap;
use scaf::step::{
    Condition, ConditionOperator, Conditions, LogicalOperator, ModificationType, StepAction,
    StepType, TemplateStep,
};

fn plain_step(id: &str, description: &str, path: &str, step_type: StepType) -> TemplateStep {
    TemplateStep {
        id: id.to_string(),
        description: description.to_string(),
        path: path.to_string(),
        step_type,
        content: None,
        conditions: None,
        line_number: None,
        modification_type: None,
        source: None,
        url: None,
        branch: None,
        package_manager: None,
        dependencies: None,
        dev_dependencies: None,
        template_engine: None,
        variables: None,
    }
}

#[test]
fn test_directory_step() {
    let step = plain_step("test-dir", "Test Directory Creation", "test_dir", StepType::Directory);
    let args = ArgMap::new();
    assert!(step.check_condition(&args));
    assert!(matches!(step.action(&args), StepAction::CreateDir { path } if path == "test_dir"));
}

#[test]
fn test_file_step() {
    let mut step = plain_step("test-file", "Test File Creation", "test.txt", StepType::File);
    step.content = Some("test content".to_string());
    let args = ArgMap::new();
    assert!(step.check_condition(&args));
    match step.action(&args) {
        StepAction::WriteFile { path, content } => {
            assert_eq!(path, "test.txt");
            assert_eq!(content, "test content");
        },
        _ => panic!("a File step with content plans a write"),
    }
}

#[test]
fn test_modify_step() {
    let mut step = plain_step("test-modify", "Test File Modification", "modify.txt", StepType::Modify);
    step.content = Some("new content".to_string());
    step.modification_type = Some(ModificationType::Append);
    let args = ArgMap::new();
    assert!(matches!(step.action(&args), StepAction::PatchFile { path } if path == "modify.txt"));
    let content = step.patched_content("original content\n", &args);
    assert!(content.contains("original content"));
    assert!(content.contains("new content"));
}

#[test]
fn test_conditional_step() {
    let mut step = plain_step(
        "test-conditional",
        "Test Conditional Step",
        "conditional.txt",
        StepType::File,
    );
    step.content = Some("conditional content".to_string());
    step.conditions = Some(Conditions {
        operator: LogicalOperator::And,
        conditions: vec![Condition {
            field: "test_flag".to_string(),
            operator: ConditionOperator::Equals,
            value: "true".to_string(),
        }],
    });

    let mut args = ArgMap::new();
    args.insert("test_flag".to_string(), "false".to_string());
    assert!(!step.check_condition(&args));

    args.insert("test_flag".to_string(), "true".to_string());
    assert!(step.check_condition(&args));
    match step.action(&args) {
        StepAction::WriteFile { path, content } => {
            assert_eq!(path, "conditional.txt");
            assert_eq!(content, "conditional content");
        },
        _ => panic!("a met condition plans the write"),
    }
}

#[test]
fn test_missing_field_is_false_for_every_operator() {
    let args = ArgMap::new();
    let operators = [
        ConditionOperator::Equals,
        ConditionOperator::NotEquals,
        ConditionOperator::Contains,
        ConditionOperator::StartsWith,
        ConditionOperator::EndsWith,
        ConditionOperator::In,
        ConditionOperator::NotIn,
    ];
    for operator in operators {
        let condition = Condition {
            field: "absent".to_string(),
            operator,
            value: "anything".to_string(),
        };
        assert!(!condition.evaluate(&args));
    }
}

#[test]
fn test_and_or_combination() {
    let mut args = ArgMap::new();
    args.insert("a".to_string(), "1".to_string());
    args.insert("b".to_string(), "2".to_string());
    let leaf = |field: &str, value: &str| Condition {
        field: field.to_string(),
        operator: ConditionOperator::Equals,
        value: value.to_string(),
    };
    let both = Conditions {
        operator: LogicalOperator::And,
        conditions: vec![leaf("a", "1"), leaf("b", "2")],
    };
    assert!(both.evaluate(&args));
    let one_wrong = Conditions {
        operator: LogicalOperator::And,
        conditions: vec![leaf("a", "1"), leaf("b", "3")],
    };
    assert!(!one_wrong.evaluate(&args));
    let either = Conditions {
        operator: LogicalOperator::Or,
        conditions: vec![leaf("a", "9"), leaf("b", "2")],
    };
    assert!(either.evaluate(&args));
    let neither = Conditions {
        operator: LogicalOperator::Or,
        conditions: vec![leaf("a", "9"), leaf("b", "9")],
    };
    assert!(!neither.evaluate(&args));
}

#[test]
fn test_string_operators() {
    let mut args = ArgMap::new();
    args.insert("name".to_string(), "hello world".to_string());
    let check = |operator: ConditionOperator, value: &str| {
        Condition { field: "name".to_string(), operator, value: value.to_string() }.evaluate(&args)
    };
    assert!(check(ConditionOperator::Contains, "lo wo"));
    assert!(!check(ConditionOperator::Contains, "low"));
    assert!(check(ConditionOperator::StartsWith, "hello"));
    assert!(!check(ConditionOperator::StartsWith, "world"));
    assert!(check(ConditionOperator::EndsWith, "world"));
    assert!(!check(ConditionOperator::EndsWith, "hello"));
    assert!(check(ConditionOperator::NotEquals, "hello"));
    assert!(check(ConditionOperator::Equals, "hello world"));
}

#[test]
fn test_membership_splits_on_commas_and_trims() {
    let mut args = ArgMap::new();
    args.insert("list".to_string(), "alpha, beta ,gamma".to_string());
    let check = |operator: ConditionOperator, value: &str| {
        Condition { field: "list".to_string(), operator, value: value.to_string() }.evaluate(&args)
    };
    assert!(check(ConditionOperator::In, "beta"));
    assert!(check(ConditionOperator::In, "alpha"));
    assert!(!check(ConditionOperator::In, "delta"));
    assert!(check(ConditionOperator::NotIn, "delta"));
    assert!(!check(ConditionOperator::NotIn, "gamma"));
}

#[test]
fn test_steps_substitute_placeholders() {
    let mut args = ArgMap::new();
    args.insert("project".to_string(), "demo".to_string());
    let mut dir = plain_step("d", "dir", "{{ project }}/src", StepType::Directory);
    assert!(matches!(dir.action(&args), StepAction::CreateDir { path } if path == "demo/src"));
    dir.step_type = StepType::Git;
    dir.branch = Some("main".to_string());
    match dir.action(&args) {
        StepAction::GitInit { path, branch } => {
            assert_eq!(path, "demo/src");
            assert_eq!(branch, Some("main".to_string()));
        },
        _ => panic!("a Git step plans repository initialisation"),
    }

    let mut download = plain_step("f", "fetch", "{{ project }}/a.bin", StepType::Download);
    download.url = Some("https://example.com/{{ project }}".to_string());
    match download.action(&args) {
        StepAction::Fetch { url, path } => {
            assert_eq!(url, "https://example.com/demo");
            assert_eq!(path, "demo/a.bin");
        },
        _ => panic!("a Download step with a url plans a fetch"),
    }

    let mut command = plain_step("c", "cmd", ".", StepType::Command);
    command.content = Some("echo {{ project }}".to_string());
    assert!(matches!(
        command.action(&args),
        StepAction::RunShell { command } if command == "echo demo"
    ));
}

#[test]
fn test_steps_without_content_or_url_plan_nothing() {
    let args = ArgMap::new();
    let file = plain_step("f", "file", "x.txt", StepType::File);
    assert!(matches!(file.action(&args), StepAction::Nothing));
    let download = plain_step("d", "download", "x.bin", StepType::Download);
    assert!(matches!(download.action(&args), StepAction::Nothing));
    let command = plain_step("c", "command", ".", StepType::Command);
    assert!(matches!(command.action(&args), StepAction::Nothing));
}
