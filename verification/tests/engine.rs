use scaf::argmap::ArgMap;
use scaf::locate::manifest_url;
use scaf::report::format_log_message;
use scaf::step::{ModificationType, StepType, TemplateStep};
use scaf::subst::replace_args;
use scaf::text::apply_patch;

fn modify_step(content: &str, mt: ModificationType, line_number: Option<usize>) -> TemplateStep {
    TemplateStep {
        id: "m".to_string(),
        description: "modify".to_string(),
        path: "f.txt".to_string(),
        step_type: StepType::Modify,
        content: Some(content.to_string()),
        conditions: None,
        line_number,
        modification_type: Some(mt),
        source: None,
        url: None,
        branch: None,
        package_manager: None,
        dependencies: None,
        dev_dependencies: None,
        template_engine: None,
        variables: None,
    }
}

#[test]
fn test_append_separates_old_and_new() {
    let args = ArgMap::new();
    let step = modify_step("new content", ModificationType::Append, None);
    let out = step.patched_content("original content\n", &args);
    assert_eq!(out, "original content\n\nnew content");
    let lines: Vec<&str> = out.lines().collect();
    assert_eq!(lines, vec!["original content", "", "new content"]);
}

#[test]
fn test_append_to_empty_content() {
    assert_eq!(apply_patch("", "x", &ModificationType::Append, None), "x");
}

#[test]
fn test_prepend() {
    assert_eq!(apply_patch("a\nb", "x", &ModificationType::Prepend, None), "x\n\na\nb");
    assert_eq!(apply_patch("", "x", &ModificationType::Prepend, None), "x");
}

#[test]
fn test_replace_line_two_of_three() {
    let out = apply_patch("l1\nl2\nl3", "X", &ModificationType::Replace, Some(2));
    assert_eq!(out, "l1\nX\nl3");
}

#[test]
fn test_replace_out_of_range_is_unchanged() {
    assert_eq!(apply_patch("l1\nl2", "X", &ModificationType::Replace, Some(5)), "l1\nl2");
    assert_eq!(apply_patch("l1\nl2", "X", &ModificationType::Replace, Some(0)), "l1\nl2");
}

#[test]
fn test_replace_without_line_number_replaces_whole_file() {
    assert_eq!(apply_patch("l1\nl2", "X", &ModificationType::Replace, None), "X");
}

#[test]
fn test_insert_after() {
    assert_eq!(apply_patch("a\nb\nc", "X", &ModificationType::InsertAfter, Some(1)), "a\nX\nb\nc");
    assert_eq!(apply_patch("a\nb\nc", "X", &ModificationType::InsertAfter, None), "a\nb\nc\nX");
}

#[test]
fn test_insert_before() {
    assert_eq!(apply_patch("a\nb\nc", "X", &ModificationType::InsertBefore, Some(2)), "a\nX\nb\nc");
    assert_eq!(apply_patch("a\nb\nc", "X", &ModificationType::InsertBefore, None), "X\na\nb\nc");
}

#[test]
fn test_line_number_zero_inserts_nothing() {
    assert_eq!(apply_patch("a\nb", "X", &ModificationType::InsertAfter, Some(0)), "a\nb");
    assert_eq!(apply_patch("a\nb", "X", &ModificationType::InsertBefore, Some(0)), "a\nb");
}

#[test]
fn test_modify_without_kind_empties_the_file() {
    let args = ArgMap::new();
    let mut step = modify_step("new", ModificationType::Append, None);
    step.modification_type = None;
    assert_eq!(step.patched_content("old\ntext", &args), "");
}

#[test]
fn test_modify_substitutes_placeholders_in_content() {
    let mut args = ArgMap::new();
    args.insert("name".to_string(), "demo".to_string());
    let step = modify_step("hello {{ name }}", ModificationType::Append, None);
    assert_eq!(step.patched_content("", &args), "hello demo");
}

#[test]
fn test_substitution_replaces_bound_tokens() {
    let mut args = ArgMap::new();
    args.insert("a".to_string(), "1".to_string());
    args.insert("b".to_string(), "2".to_string());
    assert_eq!(replace_args("{{ a }}-{{ b }}-{{ a }}", &args), "1-2-1");
    assert_eq!(replace_args("plain text", &args), "plain text");
}

#[test]
fn test_substitution_leaves_unbound_tokens_verbatim() {
    let mut args = ArgMap::new();
    args.insert("a".to_string(), "1".to_string());
    assert_eq!(replace_args("{{ a }} and {{ missing }}", &args), "1 and {{ missing }}");
}

#[test]
fn test_substitution_requires_exact_padding() {
    let mut args = ArgMap::new();
    args.insert("a".to_string(), "1".to_string());
    assert_eq!(replace_args("{{a}} {{ a}} {{a }}", &args), "{{a}} {{ a}} {{a }}");
}

#[test]
fn test_substitution_is_single_pass() {
    let mut args = ArgMap::new();
    args.insert("a".to_string(), "{{ b }}".to_string());
    args.insert("b".to_string(), "2".to_string());
    assert_eq!(replace_args("{{ a }}", &args), "{{ b }}");
}

#[test]
fn test_argmap_insert_overwrites() {
    let mut args = ArgMap::new();
    args.insert("k".to_string(), "v1".to_string());
    args.insert("k".to_string(), "v2".to_string());
    assert_eq!(args.get("k"), Some("v2".to_string()));
    assert_eq!(args.get("other"), None);
    assert!(args.contains_key("k"));
    assert!(!args.contains_key("other"));
}

#[test]
fn test_manifest_url_routing() {
    assert_eq!(
        manifest_url("http://example.com/t.json"),
        Some("http://example.com/t.json".to_string())
    );
    assert_eq!(manifest_url("demo"), Some("https://scaf.pages.dev/api/scaf/demo".to_string()));
    assert_eq!(manifest_url("owner/demo"), Some("https://scaf.pages.dev/api/owner/demo".to_string()));
    assert_eq!(manifest_url("a/b/c"), None);
}

#[test]
fn test_log_message_markers() {
    assert_eq!(format_log_message("ready", "INFO"), "┃ 🔹 ready");
    assert_eq!(format_log_message("careful", "WARN"), "┃ ⚠️  careful");
    assert_eq!(format_log_message("broken", "ERROR"), "┃ ❌ broken");
    assert_eq!(format_log_message("note", "DEBUG"), "┃   note");
}
