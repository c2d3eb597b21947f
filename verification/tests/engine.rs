use ptconductor::clock::Timestamp;
use ptconductor::domain::{
    InputDefinition, InputKind, OutputFormat, RunStatus, StepDefinition, WorkflowDefinition,
    RUN_SCHEMA_VERSION, WORKFLOW_SCHEMA_VERSION,
};
use ptconductor::engine::{prepare_workflow, AiResponse, RunExecution, WorkflowEngine};
use ptconductor::error::EngineError;
use ptconductor::validation::{template_variables, validate_workflow};
use ptconductor::values::{InputValue, ValueMap};

fn workflow() -> WorkflowDefinition {
    WorkflowDefinition {
        schema_version: WORKFLOW_SCHEMA_VERSION.to_owned(),
        id: "endpoint-review".to_owned(),
        version: "1.0.0".to_owned(),
        name: "Endpoint review".to_owned(),
        description: None,
        inputs: vec![InputDefinition {
            name: "TARGET".to_owned(),
            label: "Target".to_owned(),
            kind: InputKind::Url,
            required: true,
            description: None,
            default: None,
        }],
        steps: vec![StepDefinition::AiPrompt {
            id: "review".to_owned(),
            name: "Review".to_owned(),
            prompt: "Review <TARGET>".to_owned(),
            provider: None,
            output_format: OutputFormat::Text,
        }],
    }
}

fn set_prompt(definition: &mut WorkflowDefinition, text: &str) {
    let StepDefinition::AiPrompt { prompt, .. } = &mut definition.steps[0];
    *prompt = text.to_owned();
}

fn values(pairs: &[(&str, &str)]) -> ValueMap {
    let mut map = ValueMap::new();
    for (name, value) in pairs {
        map.insert((*name).to_owned(), InputValue::String((*value).to_owned()));
    }
    map
}

fn at(seconds: i64) -> Timestamp {
    Timestamp::from_unix(seconds, 0).unwrap()
}

fn invalid_message(result: Result<(), EngineError>) -> String {
    match result {
        Err(EngineError::InvalidWorkflow(message)) => message,
        other => panic!("expected an invalid workflow, got {:?}", other),
    }
}

#[test]
fn validates_declared_template_variables() {
    assert!(validate_workflow(&workflow()).is_ok());
    let mut invalid = workflow();
    set_prompt(&mut invalid, "Review <MISSING>");
    assert!(validate_workflow(&invalid).is_err());
}

#[test]
fn prepares_a_redacted_preview() {
    let mut definition = workflow();
    definition.inputs.push(InputDefinition {
        name: "TOKEN".to_owned(),
        label: "Token".to_owned(),
        kind: InputKind::Secret,
        required: true,
        description: None,
        default: None,
    });
    set_prompt(&mut definition, "Review <TARGET> with <TOKEN>");
    let prepared = prepare_workflow(
        &definition,
        values(&[("TARGET", "https://example.test"), ("TOKEN", "super-secret")]),
        &Vec::new(),
    )
    .unwrap();
    assert!(!prepared.steps[0].prompt_preview.contains("super-secret"));
    assert_eq!(
        prepared.inputs.get("TOKEN"),
        Some(&InputValue::String("***REDACTED***".to_owned()))
    );
}

#[test]
fn validation_reports_each_rule_in_order() {
    let mut w = workflow();
    w.schema_version = "other".to_owned();
    assert_eq!(
        validate_workflow(&w),
        Err(EngineError::UnsupportedSchema("other".to_owned()))
    );

    let mut w = workflow();
    w.id = "Bad--id".to_owned();
    assert_eq!(
        invalid_message(validate_workflow(&w)),
        "workflow id must use lowercase letters, numbers, and single hyphens"
    );

    let mut w = workflow();
    w.name = "  ".to_owned();
    assert_eq!(invalid_message(validate_workflow(&w)), "workflow name must not be empty");

    let mut w = workflow();
    w.version = "1.0".to_owned();
    assert_eq!(
        invalid_message(validate_workflow(&w)),
        "workflow version must contain three numeric components, such as 1.0.0"
    );

    let mut w = workflow();
    w.steps.clear();
    assert_eq!(
        invalid_message(validate_workflow(&w)),
        "workflow must contain at least one step"
    );

    let mut w = workflow();
    w.inputs[0].name = "target".to_owned();
    assert_eq!(
        invalid_message(validate_workflow(&w)),
        "input name `target` must use uppercase letters, numbers, and underscores"
    );

    let mut w = workflow();
    let duplicate = w.inputs[0].clone();
    w.inputs.push(duplicate);
    assert_eq!(invalid_message(validate_workflow(&w)), "duplicate input name: TARGET");

    let mut w = workflow();
    w.inputs[0].label = String::new();
    assert_eq!(invalid_message(validate_workflow(&w)), "input `TARGET` must have a label");

    let mut w = workflow();
    w.inputs[0].kind = InputKind::Secret;
    w.inputs[0].default = Some(InputValue::String("x".to_owned()));
    assert_eq!(
        invalid_message(validate_workflow(&w)),
        "secret input `TARGET` cannot define a default value"
    );

    let mut w = workflow();
    w.inputs[0].default = Some(InputValue::String("ftp://host".to_owned()));
    assert_eq!(
        invalid_message(validate_workflow(&w)),
        "default for input `TARGET` is invalid: invalid input `TARGET`: expected a valid http:// or https:// URL"
    );

    let mut w = workflow();
    let StepDefinition::AiPrompt { id, .. } = &mut w.steps[0];
    *id = "Review".to_owned();
    assert_eq!(
        invalid_message(validate_workflow(&w)),
        "step id `Review` must use lowercase letters, numbers, and single hyphens"
    );

    let mut w = workflow();
    let step = w.steps[0].clone();
    w.steps.push(step);
    assert_eq!(invalid_message(validate_workflow(&w)), "duplicate step id: review");

    let mut w = workflow();
    set_prompt(&mut w, " ");
    assert_eq!(
        invalid_message(validate_workflow(&w)),
        "step `review` must have a name and prompt"
    );

    let mut w = workflow();
    set_prompt(&mut w, "Use <TARGET> and <OTHER>");
    assert_eq!(
        invalid_message(validate_workflow(&w)),
        "step `review` references undeclared input `OTHER`"
    );
}

#[test]
fn template_variables_are_read_in_order() {
    assert_eq!(
        template_variables("a <ONE> <lower> <TWO_2> <3X> < <THREE>"),
        vec!["ONE".to_owned(), "TWO_2".to_owned()]
    );
    assert_eq!(template_variables("<A><B>"), vec!["A".to_owned(), "B".to_owned()]);
    assert!(template_variables("no variables <").is_empty());
}

#[test]
fn prepare_reports_an_undeclared_input() {
    let result = prepare_workflow(
        &workflow(),
        values(&[("TARGET", "https://example.test"), ("EXTRA", "x")]),
        &Vec::new(),
    );
    assert_eq!(
        result.unwrap_err(),
        EngineError::InvalidInput {
            name: "EXTRA".to_owned(),
            reason: "input is not declared by this workflow".to_owned(),
        }
    );
}

#[test]
fn a_run_records_each_step_and_completes() {
    let mut definition = workflow();
    definition.steps.push(StepDefinition::AiPrompt {
        id: "summarize".to_owned(),
        name: "Summarize".to_owned(),
        prompt: "Summarize <TARGET>".to_owned(),
        provider: None,
        output_format: OutputFormat::Json,
    });
    let mut run = RunExecution::start(
        &definition,
        values(&[("TARGET", "https://example.test")]),
        "sha256:abc".to_owned(),
        7,
        at(100),
        &Vec::new(),
    )
    .unwrap();
    assert_eq!(run.run().status, RunStatus::Running);
    assert_eq!(run.run().schema_version, RUN_SCHEMA_VERSION);
    assert_eq!(run.run().workflow.content_hash, "sha256:abc");
    assert_eq!(run.run().workflow.version, "1.0.0");

    let first = run.next_request().unwrap().unwrap();
    assert_eq!(first.prompt, "Review https://example.test");
    assert_eq!(first.step_id, "review");
    assert_eq!(first.output_format, OutputFormat::Text);
    run.record_completion(
        at(101),
        at(102),
        AiResponse { provider: "mock".to_owned(), model: None, content: "one".to_owned() },
    )
    .unwrap();
    let second = run.next_request().unwrap().unwrap();
    assert_eq!(second.prompt, "Summarize https://example.test");
    assert_eq!(second.output_format, OutputFormat::Json);
    run.record_completion(
        at(103),
        at(104),
        AiResponse { provider: "mock".to_owned(), model: None, content: "{\"summary\":\"two\"}\n".to_owned() },
    )
    .unwrap();
    assert!(run.next_request().is_none());
    run.finish(at(105));
    let record = run.into_run();
    assert_eq!(record.status, RunStatus::Completed);
    assert_eq!(record.completed_at, Some(at(105)));
    assert_eq!(record.steps.len(), 2);
    assert_eq!(record.steps[1].id, "summarize");
    assert_eq!(record.steps[1].output, "{\"summary\":\"two\"}\n");
    assert_eq!(record.started_at, at(100));
    assert!(record.findings.is_empty());
    assert_eq!(record.steps[0].status, RunStatus::Completed);
}

#[test]
fn a_provider_failure_fails_the_run() {
    let definition = workflow();
    let mut run = RunExecution::start(
        &definition,
        values(&[("TARGET", "https://example.test")]),
        "sha256:abc".to_owned(),
        1,
        at(10),
        &Vec::new(),
    )
    .unwrap();
    let error = EngineError::Provider("Ollama server error (HTTP 500)".to_owned());
    run.record_failure(at(11), at(12), at(13), "ollama", &error);
    let record = run.into_run();
    assert_eq!(record.status, RunStatus::Failed);
    assert_eq!(record.completed_at, Some(at(13)));
    assert_eq!(record.steps.len(), 1);
    assert_eq!(record.steps[0].status, RunStatus::Failed);
    assert_eq!(record.steps[0].output, "");
    assert_eq!(record.steps[0].provider, "ollama");
    assert_eq!(
        record.steps[0].error.as_deref(),
        Some("provider error: Ollama server error (HTTP 500)")
    );
}

#[test]
fn a_run_stores_redacted_inputs() {
    let mut definition = workflow();
    definition.inputs.push(InputDefinition {
        name: "TOKEN".to_owned(),
        label: "Token".to_owned(),
        kind: InputKind::Secret,
        required: true,
        description: None,
        default: None,
    });
    set_prompt(&mut definition, "Review <TARGET> with <TOKEN>");
    let run = RunExecution::start(
        &definition,
        values(&[("TARGET", "https://example.test"), ("TOKEN", "hunter2")]),
        "sha256:abc".to_owned(),
        2,
        at(0),
        &Vec::new(),
    )
    .unwrap();
    assert_eq!(
        run.run().inputs.get("TOKEN"),
        Some(&InputValue::String("***REDACTED***".to_owned()))
    );
    let request = run.next_request().unwrap().unwrap();
    assert_eq!(request.prompt, "Review https://example.test with hunter2");
}

#[test]
fn an_engine_holds_its_parts() {
    let engine = WorkflowEngine::new(3u8, "runs".to_owned());
    assert_eq!(engine.provider, 3);
    assert_eq!(engine.runs, "runs");
}

fn json_workflow() -> WorkflowDefinition {
    let mut definition = workflow();
    definition.inputs.push(InputDefinition {
        name: "HTML".to_owned(),
        label: "HTML".to_owned(),
        kind: InputKind::Textarea,
        required: false,
        description: None,
        default: None,
    });
    let StepDefinition::AiPrompt { output_format, prompt, .. } = &mut definition.steps[0];
    *output_format = OutputFormat::Json;
    *prompt = "Analyze <HTML> of <TARGET>".to_owned();
    definition
}

#[test]
fn a_json_step_that_gets_prose_fails_the_run() {
    let definition = json_workflow();
    let mut run = RunExecution::start(
        &definition,
        values(&[("TARGET", "https://example.test")]),
        "sha256:abc".to_owned(),
        3,
        at(20),
        &Vec::new(),
    )
    .unwrap();
    assert!(run.next_request().unwrap().is_ok());
    let error = run
        .record_completion(
            at(21),
            at(22),
            AiResponse {
                provider: "codex".to_owned(),
                model: None,
                content: "The site runs nginx.".to_owned(),
            },
        )
        .unwrap_err();
    assert_eq!(
        error,
        EngineError::Provider("response for a JSON step was not a JSON object".to_owned())
    );
    assert!(run.next_request().is_none());
    let record = run.into_run();
    assert_eq!(record.status, RunStatus::Failed);
    assert_eq!(record.completed_at, Some(at(22)));
    assert_eq!(record.steps.len(), 1);
    assert_eq!(record.steps[0].status, RunStatus::Failed);
    assert_eq!(record.steps[0].provider, "codex");
    assert_eq!(
        record.steps[0].error.as_deref(),
        Some("provider error: response for a JSON step was not a JSON object")
    );
    assert_eq!(record.started_at, at(20));
}

#[test]
fn a_json_array_is_not_a_json_object() {
    let definition = json_workflow();
    let mut run = RunExecution::start(
        &definition,
        values(&[("TARGET", "https://example.test")]),
        "sha256:abc".to_owned(),
        3,
        at(20),
        &Vec::new(),
    )
    .unwrap();
    let outcome = Ok(AiResponse { provider: "mock".to_owned(), model: None, content: "[1]".to_owned() });
    assert!(run.record_outcome(at(21), at(22), "mock", outcome).is_err());
    assert_eq!(run.run().status, RunStatus::Failed);
}

#[test]
fn the_provider_error_is_returned_and_nothing_more_is_requested() {
    let definition = workflow();
    let mut run = RunExecution::start(
        &definition,
        values(&[("TARGET", "https://example.test")]),
        "sha256:abc".to_owned(),
        4,
        at(30),
        &Vec::new(),
    )
    .unwrap();
    let error = EngineError::Provider("Ollama request timed out".to_owned());
    let returned = run.record_outcome(at(31), at(32), "ollama", Err(error.clone()));
    assert_eq!(returned, Err(error));
    assert!(run.next_request().is_none());
    let record = run.into_run();
    assert_eq!(record.status, RunStatus::Failed);
    assert_eq!(record.completed_at, Some(at(32)));
    assert_eq!(record.steps[0].completed_at, Some(at(32)));
    assert_eq!(record.steps[0].error.as_deref(), Some("provider error: Ollama request timed out"));
}

#[test]
fn supplied_html_is_inserted_literally() {
    let definition = json_workflow();
    let run = RunExecution::start(
        &definition,
        values(&[("TARGET", "https://example.test"), ("HTML", "<html><title>Test</title></html>")]),
        "sha256:abc".to_owned(),
        5,
        at(40),
        &Vec::new(),
    )
    .unwrap();
    let request = run.next_request().unwrap().unwrap();
    assert_eq!(request.prompt, "Analyze <html><title>Test</title></html> of https://example.test");
    let prepared = prepare_workflow(
        &definition,
        values(&[("TARGET", "https://<TARGET>.test"), ("HTML", "<HTML>")]),
        &Vec::new(),
    )
    .unwrap();
    assert_eq!(prepared.steps[0].prompt_preview, "Analyze <HTML> of https://<TARGET>.test");
}

#[test]
fn bracketed_template_text_that_names_no_input_is_unresolved() {
    let mut definition = workflow();
    set_prompt(&mut definition, "Compare <html> and <TARGET>");
    assert!(validate_workflow(&definition).is_ok());
    let run = RunExecution::start(
        &definition,
        values(&[("TARGET", "https://x.test")]),
        "sha256:abc".to_owned(),
        6,
        at(50),
        &Vec::new(),
    )
    .unwrap();
    assert_eq!(
        run.next_request().unwrap().unwrap_err(),
        EngineError::UnresolvedVariable("html".to_owned())
    );
    let mut spaced = workflow();
    set_prompt(&mut spaced, "x < <TARGET>");
    let run = RunExecution::start(
        &spaced,
        values(&[("TARGET", "https://x.test")]),
        "sha256:abc".to_owned(),
        7,
        at(50),
        &Vec::new(),
    )
    .unwrap();
    assert_eq!(run.next_request().unwrap().unwrap().prompt, "x < https://x.test");
}
