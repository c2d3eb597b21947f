use ptconductor::clock::Timestamp;
use ptconductor::domain::{
    Finding, RunRecord, RunStatus, Severity, StepRun, WorkflowReference, RUN_SCHEMA_VERSION,
};
use ptconductor::reporting::{MarkdownRenderer, ReportRenderer};
use ptconductor::values::ValueMap;

fn run(findings: Vec<Finding>) -> RunRecord {
    let at = Timestamp::from_unix(947638923, 4_000_000).unwrap();
    RunRecord {
        schema_version: RUN_SCHEMA_VERSION.to_owned(),
        id: 0xa1a2a3a4b1b2c1c2d1d2d3d4d5d6d7d8,
        workflow: WorkflowReference {
            id: "endpoint-review".to_owned(),
            version: "1.0.0".to_owned(),
            content_hash: "sha256:00".to_owned(),
        },
        status: RunStatus::Completed,
        started_at: at,
        completed_at: Some(at),
        inputs: ValueMap::new(),
        steps: vec![StepRun {
            id: "review".to_owned(),
            status: RunStatus::Completed,
            started_at: at,
            completed_at: Some(at),
            provider: "mock".to_owned(),
            output: "All good".to_owned(),
            error: None,
        }],
        findings,
    }
}

#[test]
fn markdown_reports_are_deterministic() {
    let renderer = MarkdownRenderer;
    assert_eq!(renderer.media_type(), "text/markdown");
    assert_eq!(
        renderer.render(&run(Vec::new())),
        "# PTConductor Run a1a2a3a4-b1b2-c1c2-d1d2-d3d4d5d6d7d8\n\n- Workflow: `endpoint-review` v1.0.0\n- Status: `Completed`\n- Started: 2000-01-12 01:02:03.004 UTC\n\n## Step: review\n\nProvider: `mock`\n\nAll good\n"
    );
}

#[test]
fn findings_get_their_own_section() {
    let report = MarkdownRenderer.render(&run(vec![Finding {
        id: "f1".to_owned(),
        title: "Verbose header".to_owned(),
        severity: Severity::Low,
        description: "Server header reveals nginx".to_owned(),
        evidence: Vec::new(),
        recommendation: "Hide the version".to_owned(),
    }]));
    assert!(report.ends_with(
        "All good\n\n## Findings\n\n### Verbose header (Low)\n\nServer header reveals nginx\n\n**Recommendation:** Hide the version\n"
    ));
}
