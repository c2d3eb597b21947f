use ptconductor::cli::{
    check_remote_consent, check_report_format, default_model, parse_field, parse_input_entry,
    parse_inputs,
};
use ptconductor::domain::InputKind;
use ptconductor::values::InputValue;

#[test]
fn parses_typed_field_definitions() {
    let field = parse_field("TARGET:url:required:Target URL").unwrap();
    assert_eq!(field.name, "TARGET");
    assert_eq!(field.kind, InputKind::Url);
    assert!(field.required);
}

#[test]
fn parses_json_scalar_inputs() {
    let values = parse_inputs(vec![
        "COUNT=4".to_owned(),
        "ENABLED=true".to_owned(),
        "LABEL=scan".to_owned(),
    ])
    .unwrap();
    assert_eq!(values.get("COUNT"), Some(&InputValue::Number("4".to_owned())));
    assert_eq!(values.get("ENABLED"), Some(&InputValue::Bool(true)));
    assert_eq!(values.get("LABEL"), Some(&InputValue::String("scan".to_owned())));
}

#[test]
fn later_inputs_replace_earlier_ones_and_json_keeps_its_text() {
    let values = parse_inputs(vec![
        "LIST=[1, 2]".to_owned(),
        "NOTE=null".to_owned(),
        "LIST={\"b\":1,\"a\":2.5}".to_owned(),
        "QUOTED=\"x y\"".to_owned(),
        "HALF={".to_owned(),
    ])
    .unwrap();
    assert_eq!(values.len(), 4);
    assert_eq!(values.key_at(0), "HALF");
    assert_eq!(values.get("LIST"), Some(&InputValue::Composite("{\"a\":2.5,\"b\":1}".to_owned())));
    assert_eq!(values.get("NOTE"), Some(&InputValue::Null));
    assert_eq!(values.get("QUOTED"), Some(&InputValue::String("x y".to_owned())));
    assert_eq!(values.get("HALF"), Some(&InputValue::String("{".to_owned())));
    assert_eq!(
        parse_inputs(vec!["A=1".to_owned(), "broken".to_owned()]).unwrap_err(),
        "invalid input `broken`; expected NAME=VALUE"
    );
}

#[test]
fn field_labels_keep_later_colons_and_kinds_ignore_case() {
    let field = parse_field("DEPTH:NUMBER:optional:Depth: how far").unwrap();
    assert_eq!(field.kind, InputKind::Number);
    assert!(!field.required);
    assert_eq!(field.label, "Depth: how far");
    assert!(field.description.is_none());
    assert!(field.default.is_none());
}

#[test]
fn malformed_fields_are_refused() {
    assert_eq!(
        parse_field("TARGET:url:required").unwrap_err(),
        "invalid field `TARGET:url:required`; expected NAME:TYPE:REQUIRED:LABEL"
    );
    assert_eq!(
        parse_field("TARGET:link:required:Target").unwrap_err(),
        "unknown input type `link`"
    );
    assert_eq!(
        parse_field("TARGET:url:maybe:Target").unwrap_err(),
        "invalid required flag `maybe`; use required or optional"
    );
    assert!(parse_field("TOKEN:secret:YES:Token").unwrap().required);
}

#[test]
fn inputs_split_at_the_first_equals_sign() {
    assert_eq!(
        parse_input_entry("QUERY=a=b").unwrap(),
        ("QUERY".to_owned(), "a=b".to_owned())
    );
    assert_eq!(
        parse_input_entry("NOVALUE").unwrap_err(),
        "invalid input `NOVALUE`; expected NAME=VALUE"
    );
}

#[test]
fn remote_runs_need_consent_and_models_have_defaults() {
    assert_eq!(
        check_remote_consent("openai", false).unwrap_err(),
        "OpenAI-compatible provider transmits workflow inputs externally; pass --allow-remote to confirm"
    );
    assert!(check_remote_consent("openai", true).is_ok());
    assert!(check_remote_consent("ollama", false).is_ok());
    assert_eq!(default_model("openai"), "gpt-4o-mini");
    assert_eq!(default_model("ollama"), "llama3.2");
    assert_eq!(default_model("mock"), "mock");
    assert!(check_report_format("markdown").is_ok());
    assert_eq!(
        check_report_format("html").unwrap_err(),
        "report format `html` is not implemented yet"
    );
}
