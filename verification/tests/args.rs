use scaf::args::{ArgType, ArgValue, TemplateArg};

fn plain_arg(name: &str, key: &str, desc: &str, arg_type: ArgType, default: &str) -> TemplateArg {
    TemplateArg {
        name: name.to_string(),
        key: key.to_string(),
        description: Some(desc.to_string()),
        long_description: None,
        arg_type,
        default: default.to_string(),
        values: None,
        required: true,
        pattern: None,
        group: None,
        depends_on: None,
        multiple: false,
        delimiter: None,
    }
}

#[test]
fn test_string_argument() {
    let mut arg = plain_arg("Test Arg", "test_key", "Test Description", ArgType::String, "default");
    arg.pattern = Some("^[a-z]+$".to_string());

    assert!(arg.validate_value("test").is_ok());
    assert!(arg.validate_value("TEST").is_err());
    assert!(arg.validate_value("test123").is_err());
}

#[test]
fn test_number_argument() {
    let arg = plain_arg("Number Arg", "number_key", "Test Number", ArgType::Number, "42");

    assert!(arg.validate_value("42").is_ok());
    assert!(arg.validate_value("3.14").is_ok());
    assert!(arg.validate_value("not_a_number").is_err());
}

#[test]
fn test_enum_argument() {
    let mut arg = plain_arg("Enum Arg", "enum_key", "Test Enum", ArgType::Enum, "option1");
    arg.values = Some(vec![
        ArgValue {
            value: "option1".to_string(),
            description: "Option 1".to_string(),
            details: None,
        },
        ArgValue {
            value: "option2".to_string(),
            description: "Option 2".to_string(),
            details: None,
        },
    ]);

    assert!(arg.validate_value("option1").is_ok());
    assert!(arg.validate_value("option2").is_ok());
    assert!(arg.validate_value("option3").is_err());
}

#[test]
fn test_multiple_argument() {
    let mut arg = plain_arg(
        "Multiple Arg",
        "multiple_key",
        "Test Multiple",
        ArgType::Enum,
        "option1,option2",
    );
    arg.values = Some(vec![
        ArgValue {
            value: "option1".to_string(),
            description: "Option 1".to_string(),
            details: None,
        },
        ArgValue {
            value: "option2".to_string(),
            description: "Option 2".to_string(),
            details: None,
        },
    ]);
    arg.multiple = true;
    arg.delimiter = Some(",".to_string());

    assert!(arg.validate_value("option1,option2").is_ok());
    assert!(arg.validate_value("option1").is_ok());
    assert!(arg.validate_value("option1,invalid").is_err());
}

#[test]
fn test_email_argument() {
    let arg = plain_arg("Email Arg", "email_key", "Test Email", ArgType::Email, "test@example.com");

    assert!(arg.validate_value("test@example.com").is_ok());
    assert!(arg.validate_value("invalid-email").is_err());
}

#[test]
fn test_url_argument() {
    let arg = plain_arg("URL Arg", "url_key", "Test URL", ArgType::Url, "https://example.com");

    assert!(arg.validate_value("https://example.com").is_ok());
    assert!(arg.validate_value("http://example.com").is_ok());
    assert!(arg.validate_value("invalid-url").is_err());
}

#[test]
fn test_path_argument() {
    let arg = plain_arg("Path Arg", "path_key", "Test Path", ArgType::Path, "./test");

    assert!(arg.validate_value("./test").is_ok());
    assert!(arg.validate_value("/test").is_ok());
    assert!(arg.validate_value("../test").is_err());
}

#[test]
fn test_number_grammar_accepts_float_forms() {
    let arg = plain_arg("Number Arg", "number_key", "Test Number", ArgType::Number, "0");
    for good in ["0", "-1", "+3", "3.14", ".5", "5.", "1e5", "1E-3", "2.5e+4", "inf", "INFINITY", "NaN", "-inf"] {
        assert!(arg.validate_value(good).is_ok(), "{} should validate", good);
    }
    for bad in ["", ".", "1e", "--5", "1.2.3", "nan2", "0x10", "1_000", " 1", "1 "] {
        assert!(arg.validate_value(bad).is_err(), "{} should fail", bad);
    }
}

#[test]
fn test_boolean_argument_case_insensitive() {
    let arg = plain_arg("Bool Arg", "bool_key", "Test Bool", ArgType::Boolean, "true");
    assert!(arg.validate_value("true").is_ok());
    assert!(arg.validate_value("FALSE").is_ok());
    assert!(arg.validate_value("TrUe").is_ok());
    assert!(arg.validate_value("yes").is_err());
    assert_eq!(arg.validate_value("maybe").unwrap_err(), "Value must be true or false");
}

#[test]
fn test_error_messages_name_the_rule() {
    let number = plain_arg("N", "n", "d", ArgType::Number, "0");
    assert_eq!(number.validate_value("x").unwrap_err(), "Value must be a number");
    let email = plain_arg("E", "e", "d", ArgType::Email, "a@b");
    assert_eq!(email.validate_value("nope").unwrap_err(), "Invalid email address");
    let url = plain_arg("U", "u", "d", ArgType::Url, "http://x");
    assert_eq!(url.validate_value("ftp://x").unwrap_err(), "Invalid URL");
    let path = plain_arg("P", "p", "d", ArgType::Path, "x");
    assert_eq!(path.validate_value("a/../b").unwrap_err(), "Path cannot contain ..");

    let mut patterned = plain_arg("S", "s", "d", ArgType::String, "x");
    patterned.pattern = Some("^a+$".to_string());
    assert_eq!(
        patterned.validate_value("bbb").unwrap_err(),
        "Value does not match pattern: ^a+$"
    );
    patterned.pattern = Some("(unclosed".to_string());
    assert_eq!(patterned.validate_value("x").unwrap_err(), "Invalid regex pattern");
}

#[test]
fn test_enum_error_lists_choices() {
    let mut arg = plain_arg("Enum Arg", "enum_key", "Test Enum", ArgType::Enum, "option1");
    arg.values = Some(vec![
        ArgValue {
            value: "option1".to_string(),
            description: "Option 1".to_string(),
            details: None,
        },
        ArgValue {
            value: "option2".to_string(),
            description: "Option 2".to_string(),
            details: None,
        },
    ]);
    assert_eq!(
        arg.validate_value("option3").unwrap_err(),
        "Value must be one of:\noption1 (Option 1)\noption2 (Option 2)"
    );
}

#[test]
fn test_multiple_trims_pieces_and_keeps_raw_value() {
    let mut arg = plain_arg("M", "m", "d", ArgType::Enum, "option1");
    arg.values = Some(vec![ArgValue {
        value: "option1".to_string(),
        description: "Option 1".to_string(),
        details: None,
    }]);
    arg.multiple = true;
    let validated = arg.validate_value("option1 , option1").unwrap();
    assert_eq!(validated, "option1 , option1");
}

#[test]
fn test_choice_helpers() {
    let mut arg = plain_arg("Enum Arg", "enum_key", "Test Enum", ArgType::Enum, "option2");
    arg.values = Some(vec![
        ArgValue {
            value: "option1".to_string(),
            description: "Option 1".to_string(),
            details: None,
        },
        ArgValue {
            value: "option2".to_string(),
            description: "Option 2".to_string(),
            details: None,
        },
    ]);
    assert_eq!(arg.choice_items(), vec!["option1: Option 1", "option2: Option 2"]);
    assert_eq!(arg.default_choice_index(), 1);
    assert_eq!(arg.default_choice_flags(), vec![false, true]);
    arg.default = "option1 , option2".to_string();
    assert_eq!(arg.default_choice_flags(), vec![true, true]);
    arg.default = "other".to_string();
    assert_eq!(arg.default_choice_index(), 0);
    assert_eq!(arg.effective_delimiter(), ",");
    arg.delimiter = Some(";".to_string());
    assert_eq!(arg.effective_delimiter(), ";");
}

#[test]
fn test_prompt_and_details() {
    let mut arg = plain_arg("Test Arg", "test_key", "Test Description", ArgType::String, "x");
    assert_eq!(arg.get_prompt(), "Test Arg (Test Description)");
    arg.multiple = true;
    assert_eq!(arg.get_prompt(), "Test Arg (Test Description) (Select multiple with space)");
    arg.description = None;
    assert_eq!(arg.get_prompt(), "Test Arg (Select multiple with space)");
    assert_eq!(arg.get_details(), None);
    arg.long_description = Some("More".to_string());
    assert_eq!(arg.get_details(), Some("More".to_string()));
}
