use ptconductor::domain::{InputDefinition, InputKind};
use ptconductor::error::EngineError;
use ptconductor::resolver::VariableResolver;
use ptconductor::values::{InputValue, ValueMap};

fn input(name: &str, kind: InputKind, required: bool) -> InputDefinition {
    InputDefinition {
        name: name.to_owned(),
        label: name.to_owned(),
        kind,
        required,
        description: None,
        default: None,
    }
}

fn one(name: &str, value: InputValue) -> ValueMap {
    let mut map = ValueMap::new();
    map.insert(name.to_owned(), value);
    map
}

#[test]
fn renders_and_redacts_secrets() {
    let definitions = vec![
        input("TARGET", InputKind::Url, true),
        input("TOKEN", InputKind::Secret, true),
    ];
    let mut supplied = ValueMap::new();
    supplied.insert(
        "TARGET".to_owned(),
        InputValue::String("https://example.test".to_owned()),
    );
    supplied.insert("TOKEN".to_owned(), InputValue::String("secret".to_owned()));

    let resolved = VariableResolver::resolve(&definitions, supplied, &Vec::new()).unwrap();
    assert_eq!(
        resolved.render("Review <TARGET> using <TOKEN>").unwrap(),
        "Review https://example.test using secret"
    );
    assert_eq!(
        resolved.redacted_values().get("TOKEN"),
        Some(&InputValue::String("***REDACTED***".to_owned()))
    );
    assert_eq!(
        resolved
            .render_redacted("Review <TARGET> using <TOKEN>")
            .unwrap(),
        "Review https://example.test using ***REDACTED***"
    );
}

#[test]
fn rejects_empty_required_text_and_invalid_urls() {
    let empty = VariableResolver::resolve(
        &vec![input("NAME", InputKind::Text, true)],
        one("NAME", InputValue::String("  ".to_owned())),
        &Vec::new(),
    );
    assert!(empty.is_err());

    let url = VariableResolver::resolve(
        &vec![input("TARGET", InputKind::Url, true)],
        one("TARGET", InputValue::String("https:///missing-host".to_owned())),
        &Vec::new(),
    );
    assert!(url.is_err());
}

#[test]
fn typed_values_render_as_json_text() {
    let definitions = vec![
        input("COUNT", InputKind::Number, true),
        input("ENABLED", InputKind::Boolean, true),
        input("NOTE", InputKind::Text, false),
    ];
    let mut supplied = ValueMap::new();
    supplied.insert("COUNT".to_owned(), InputValue::Number("4".to_owned()));
    supplied.insert("ENABLED".to_owned(), InputValue::Bool(true));
    let resolved = VariableResolver::resolve(&definitions, supplied, &Vec::new()).unwrap();
    assert_eq!(
        resolved.render("<COUNT> items, enabled=<ENABLED>, note=[<NOTE>]").unwrap(),
        "4 items, enabled=true, note=[]"
    );
    assert_eq!(resolved.redacted_values().get("NOTE"), Some(&InputValue::Null));
}

#[test]
fn defaults_fill_missing_values_and_missing_required_values_fail() {
    let mut with_default = input("DEPTH", InputKind::Number, true);
    with_default.default = Some(InputValue::Number("2".to_owned()));
    let resolved =
        VariableResolver::resolve(&vec![with_default], ValueMap::new(), &Vec::new()).unwrap();
    assert_eq!(resolved.render("depth <DEPTH>").unwrap(), "depth 2");

    let missing = VariableResolver::resolve(
        &vec![input("TARGET", InputKind::Url, true)],
        ValueMap::new(),
        &Vec::new(),
    );
    assert_eq!(
        missing.unwrap_err(),
        EngineError::InvalidInput {
            name: "TARGET".to_owned(),
            reason: "required value is missing".to_owned(),
        }
    );
}

#[test]
fn each_kind_reports_its_reason() {
    let wrong = VariableResolver::resolve(
        &vec![input("COUNT", InputKind::Number, true)],
        one("COUNT", InputValue::String("four".to_owned())),
        &Vec::new(),
    );
    assert_eq!(
        wrong.unwrap_err(),
        EngineError::InvalidInput {
            name: "COUNT".to_owned(),
            reason: "value does not match Number".to_owned(),
        }
    );
    let file = VariableResolver::resolve(
        &vec![input("EVIDENCE", InputKind::File, true)],
        one("EVIDENCE", InputValue::String("/tmp/missing".to_owned())),
        &Vec::new(),
    );
    assert_eq!(
        file.unwrap_err(),
        EngineError::InvalidInput {
            name: "EVIDENCE".to_owned(),
            reason: "expected a path to an existing file".to_owned(),
        }
    );
    let present = VariableResolver::resolve(
        &vec![input("EVIDENCE", InputKind::File, true)],
        one("EVIDENCE", InputValue::String("/tmp/present".to_owned())),
        &vec!["/tmp/present".to_owned()],
    );
    assert!(present.is_ok());
}

#[test]
fn an_unresolved_placeholder_is_refused() {
    let resolved = VariableResolver::resolve(&Vec::new(), ValueMap::new(), &Vec::new()).unwrap();
    assert_eq!(
        resolved.render("keep <UNKNOWN> here"),
        Err(EngineError::UnresolvedVariable("UNKNOWN".to_owned()))
    );
    assert_eq!(resolved.render("a < b").unwrap(), "a < b");
    assert_eq!(resolved.render("a > b < c").unwrap(), "a > b < c");
}

#[test]
fn urls_need_a_host_after_the_scheme() {
    for (value, ok) in [
        ("http://example.test", true),
        ("https://example.test/path", true),
        ("ftp://example.test", false),
        ("https://", false),
        ("https:///x", false),
        ("https://exa mple.test", false),
        ("example.test", false),
    ] {
        let result = VariableResolver::resolve(
            &vec![input("TARGET", InputKind::Url, true)],
            one("TARGET", InputValue::String(value.to_owned())),
            &Vec::new(),
        );
        assert_eq!(result.is_ok(), ok, "{}", value);
    }
}

#[test]
fn values_with_brackets_render_literally() {
    let resolved = VariableResolver::resolve(
        &vec![input("HTML", InputKind::Textarea, false)],
        one("HTML", InputValue::String("<html><title>Test</title></html>".to_owned())),
        &Vec::new(),
    )
    .unwrap();
    assert_eq!(
        resolved.render("Analyze <HTML>").unwrap(),
        "Analyze <html><title>Test</title></html>"
    );
    assert_eq!(
        resolved.render("<html> is a reference"),
        Err(EngineError::UnresolvedVariable("html".to_owned()))
    );
    assert_eq!(
        resolved.render("< <HTML> >"),
        Err(EngineError::UnresolvedVariable(" <html><title>Test</title></html> ".to_owned()))
    );
    assert_eq!(
        resolved.render("<HTML><MISSING>"),
        Err(EngineError::UnresolvedVariable("MISSING".to_owned()))
    );
}
