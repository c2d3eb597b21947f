use ptconductor::clock::Timestamp;
use ptconductor::domain::{OutputFormat, RunStatus, StepDefinition, WorkflowDefinition, WORKFLOW_SCHEMA_VERSION};
use ptconductor::error::{repository_error, EngineError};
use ptconductor::hashing::content_hash;
use ptconductor::persistence::{
    find_by_id, may_store, save_target, sort_by_name, workflow_exists_error, workflow_file_name, FileWorkflowRepository,
    JsonRunRepository, LoadedWorkflow,
};

fn workflow(id: &str, name: &str) -> WorkflowDefinition {
    WorkflowDefinition {
        schema_version: WORKFLOW_SCHEMA_VERSION.to_owned(),
        id: id.to_owned(),
        version: "1.0.0".to_owned(),
        name: name.to_owned(),
        description: None,
        inputs: Vec::new(),
        steps: vec![StepDefinition::AiPrompt {
            id: "review".to_owned(),
            name: "Review".to_owned(),
            prompt: "Review the supplied context".to_owned(),
            provider: None,
            output_format: OutputFormat::Text,
        }],
    }
}

fn loaded(id: &str, name: &str, path: &str) -> LoadedWorkflow {
    LoadedWorkflow::from_contents(path.to_owned(), workflow(id, name), b"{}").unwrap()
}

#[test]
fn loads_and_hashes_workflow_contents() {
    let loaded = LoadedWorkflow::from_contents(
        "created-workflow.json".to_owned(),
        workflow("created-workflow", "Created workflow"),
        b"",
    )
    .unwrap();
    assert_eq!(loaded.definition.id, "created-workflow");
    assert!(loaded.content_hash.starts_with("sha256:"));
    assert_eq!(
        loaded.content_hash,
        "sha256:e3b0c44298fc1c149afbf4c8996fb92427ae41e4649b934ca495991b7852b855"
    );
    assert_eq!(
        content_hash(b"abc"),
        "sha256:ba7816bf8f01cfea414140de5dae2223b00361a396177a9cb410ff61f20015ad"
    );
    let invalid = LoadedWorkflow::from_contents(
        "x.json".to_owned(),
        workflow("Bad Id", "Bad"),
        b"",
    );
    assert!(invalid.is_err());
}

#[test]
fn new_workflows_are_named_by_id_and_never_overwritten() {
    assert_eq!(
        workflow_file_name(&workflow("created-workflow", "Created")).unwrap(),
        "created-workflow.json"
    );
    assert!(workflow_file_name(&workflow("-bad", "Bad")).is_err());
    assert_eq!(
        workflow_exists_error("/w/created-workflow.json"),
        EngineError::Repository("workflow already exists: /w/created-workflow.json".to_owned())
    );
    assert_eq!(
        repository_error("disk full").message(),
        "repository error: disk full"
    );
}

#[test]
fn discovered_workflows_sort_by_name_stably() {
    let sorted = sort_by_name(vec![
        loaded("b-one", "Beta", "1.json"),
        loaded("a-one", "Alpha", "2.json"),
        loaded("b-two", "Beta", "3.json"),
        loaded("a-two", "Alpha", "4.json"),
    ]);
    let ids: Vec<&str> = sorted.iter().map(|l| l.definition.id.as_str()).collect();
    assert_eq!(ids, vec!["a-one", "a-two", "b-one", "b-two"]);
}

#[test]
fn workflows_are_found_by_id() {
    let found = find_by_id(
        vec![workflow("one", "One"), workflow("two", "Two"), workflow("two", "Again")],
        "two",
    );
    assert_eq!(found.unwrap().name, "Two");
    assert!(find_by_id(vec![workflow("one", "One")], "three").is_none());
}

#[test]
fn repositories_keep_their_roots_and_name_run_files() {
    assert_eq!(FileWorkflowRepository::new("workflows".to_owned()).root, "workflows");
    let runs = JsonRunRepository::new("runs".to_owned());
    assert_eq!(runs.root, "runs");
    assert_eq!(
        runs.file_name_for(0xa1a2a3a4b1b2c1c2d1d2d3d4d5d6d7d8),
        "a1a2a3a4-b1b2-c1c2-d1d2-d3d4d5d6d7d8.json"
    );
}

#[test]
fn ids_and_instants_display_as_their_crates_do() {
    let runs = JsonRunRepository::new("runs".to_owned());
    assert_eq!(runs.file_name_for(0), "00000000-0000-0000-0000-000000000000.json");
    assert_eq!(runs.file_name_for(1), "00000000-0000-0000-0000-000000000001.json");
    assert_eq!(
        Timestamp::from_unix(947638923, 4_000_000).unwrap().display(),
        "2000-01-12 01:02:03.004 UTC"
    );
    assert_eq!(Timestamp::from_unix(0, 0).unwrap().display(), "1970-01-01 00:00:00 UTC");
    assert!(Timestamp::from_unix(i64::MAX, 0).is_none());
    assert!(Timestamp::from_unix(0, 2_000_000_000).is_none());
    let t = Timestamp::from_unix(5, 6).unwrap();
    assert_eq!((t.seconds(), t.nanos()), (5, 6));
}

#[test]
fn new_workflows_are_checked_before_any_file_is_written() {
    let good = workflow("created-workflow", "Created");
    assert!(save_target(&good, "/w/created-workflow.json", false).is_ok());
    assert_eq!(
        save_target(&good, "/w/created-workflow.json", true).unwrap_err(),
        EngineError::Repository("workflow already exists: /w/created-workflow.json".to_owned())
    );
    let bad = workflow("Bad Id", "Bad");
    assert!(matches!(
        save_target(&bad, "/w/x.json", true).unwrap_err(),
        EngineError::InvalidWorkflow(_)
    ));
}

#[test]
fn completed_runs_are_never_stored_again() {
    assert!(may_store(1, None).is_ok());
    assert!(may_store(1, Some(RunStatus::Running)).is_ok());
    assert!(may_store(1, Some(RunStatus::Failed)).is_ok());
    assert_eq!(
        may_store(1, Some(RunStatus::Completed)).unwrap_err(),
        EngineError::Repository(
            "completed run cannot be changed: 00000000-0000-0000-0000-000000000001".to_owned()
        )
    );
}
