//! Preparation of workflows and the decisions of a workflow run.
//!
//! A run alternates provider calls and artifact saves. The decisions live here, in
//! `RunExecution`: what to ask the provider next, and how each answer or failure changes
//! the run record. The caller performs the calls and saves.
use vstd::prelude::*;

use crate::clock::Timestamp;
use crate::domain::{
    OutputFormat, RunRecord, RunStatus, StepDefinition, StepRun, WorkflowDefinition,
    WorkflowReference, RUN_SCHEMA_VERSION,
};
use crate::error::{error_text, EngineError, ErrorView};
use crate::resolver::{
    rendered, resolution, secret_set, ResolvedInputs, VariableResolver,
    REDACTED,
};
use crate::json::{is_json_object, json_object_text};
use crate::text::opt_view;
use crate::validation::{validate_workflow, workflow_error};
use crate::values::{replace_listed, InputValueView, ValueMap};

verus! {

/// A request to an AI provider for one step.
#[derive(Debug, Clone, PartialEq)]
pub struct AiRequest {
    pub workflow_id: String,
    pub step_id: String,
    pub prompt: String,
    pub output_format: OutputFormat,
}

/// An AI provider's answer.
#[derive(Debug, Clone, PartialEq)]
pub struct AiResponse {
    pub provider: String,
    pub model: Option<String>,
    pub content: String,
}

/// The engine, composed of a provider and a run repository.
pub struct WorkflowEngine<P, R> {
    pub provider: P,
    pub runs: R,
}

impl<P, R> WorkflowEngine<P, R> {
    pub fn new(provider: P, runs: R) -> (e: Self)
        ensures
            e.provider == provider,
            e.runs == runs,
    {
        WorkflowEngine { provider, runs }
    }
}

/// A validated workflow with resolved inputs and redacted prompt previews.
#[derive(Debug, PartialEq)]
pub struct PreparedWorkflow {
    pub workflow_id: String,
    pub workflow_version: String,
    pub inputs: ValueMap,
    pub steps: Vec<PreparedStep>,
}

#[derive(Debug, Clone, PartialEq)]
pub struct PreparedStep {
    pub id: String,
    pub name: String,
    pub provider: Option<String>,
    pub prompt_preview: String,
}

/// Values as runs and previews show them: every secret replaced by the marker.
pub open spec fn redacted(
    values: Seq<(Seq<char>, InputValueView)>,
    secrets: Set<Seq<char>>,
) -> Seq<(Seq<char>, InputValueView)> {
    replace_listed(values, secrets, InputValueView::String(REDACTED@))
}

/// The first step, from position `k` on, whose redacted preview fails to render.
pub open spec fn preview_error_from(
    steps: Seq<StepDefinition>,
    k: int,
    values: Seq<(Seq<char>, InputValueView)>,
    secrets: Set<Seq<char>>,
) -> Option<ErrorView>
    decreases steps.len() - k,
{
    if k < 0 || k >= steps.len() {
        None
    } else {
        match rendered(steps[k].spec_prompt(), values, secrets, true) {
            Err(e) => Some(e),
            Ok(_) => preview_error_from(steps, k + 1, values, secrets),
        }
    }
}

/// The outcome of preparing a workflow: validation, then resolution, then every preview.
/// On success, the resolved values.
pub open spec fn preparation(
    w: &WorkflowDefinition,
    values: Seq<(Seq<char>, InputValueView)>,
    files: Seq<String>,
) -> Result<Seq<(Seq<char>, InputValueView)>, ErrorView> {
    match workflow_error(w) {
        Some(e) => Err(e),
        None => match resolution(w.inputs@, values, files) {
            Err(e) => Err(e),
            Ok(vals) => match preview_error_from(w.steps@, 0, vals, secret_set(w.inputs@)) {
                Some(e) => Err(e),
                None => Ok(vals),
            },
        },
    }
}

/// A prepared step shows the step's id, name, provider and redacted rendered prompt.
pub open spec fn step_prepared(
    ps: PreparedStep,
    s: StepDefinition,
    values: Seq<(Seq<char>, InputValueView)>,
    secrets: Set<Seq<char>>,
) -> bool {
    &&& ps.id@ == s.spec_id()
    &&& ps.name@ == s.spec_name()
    &&& opt_view(ps.provider) == s.spec_provider()
    &&& rendered(s.spec_prompt(), values, secrets, true) == Ok::<Seq<char>, ErrorView>(ps.prompt_preview@)
}

/// `p` is the preparation of `w` with resolved values `values`.
pub open spec fn prepared_from(
    p: &PreparedWorkflow,
    w: &WorkflowDefinition,
    values: Seq<(Seq<char>, InputValueView)>,
) -> bool {
    &&& p.workflow_id@ == w.id@
    &&& p.workflow_version@ == w.version@
    &&& p.inputs@ == redacted(values, secret_set(w.inputs@))
    &&& p.steps@.len() == w.steps@.len()
    &&& forall|k: int|
        0 <= k < w.steps@.len() ==> step_prepared(
            #[trigger] p.steps@[k],
            w.steps@[k],
            values,
            secret_set(w.inputs@),
        )
}

/// Validates a workflow, resolves its inputs and renders a redacted preview of every
/// step, without calling a provider. Paths in `existing_files` are the file paths that
/// exist.
pub fn prepare_workflow(
    workflow: &WorkflowDefinition,
    values: ValueMap,
    existing_files: &Vec<String>,
) -> (r: Result<PreparedWorkflow, EngineError>)
    ensures
        match preparation(workflow, values@, existing_files@) {
            Ok(vals) => r matches Ok(p) && prepared_from(&p, workflow, vals),
            Err(e) => r matches Err(x) && x@ == e,
        },
{
    match validate_workflow(workflow) {
        Ok(()) => {},
        Err(e) => {
            return Err(e);
        },
    }
    let inputs = match VariableResolver::resolve(&workflow.inputs, values, existing_files) {
        Ok(inputs) => inputs,
        Err(e) => {
            return Err(e);
        },
    };
    let ghost vals = inputs.values_view();
    let ghost secrets = secret_set(workflow.inputs@);
    let mut steps: Vec<PreparedStep> = Vec::new();
    let mut k: usize = 0;
    while k < workflow.steps.len()
        invariant
            workflow_error(workflow) is None,
            resolution(workflow.inputs@, values@, existing_files@) == Ok::<
                Seq<(Seq<char>, InputValueView)>,
                ErrorView,
            >(vals),
            inputs.values_view() == vals,
            inputs.secrets() == secrets,
            secrets == secret_set(workflow.inputs@),
            k <= workflow.steps@.len(),
            steps@.len() == k,
            preview_error_from(workflow.steps@, 0, vals, secrets) == preview_error_from(
                workflow.steps@,
                k as int,
                vals,
                secrets,
            ),
            forall|j: int|
                0 <= j < k ==> step_prepared(#[trigger] steps@[j], workflow.steps@[j], vals, secrets),
        decreases workflow.steps.len() - k,
    {
        let step = &workflow.steps[k];
        let preview = match inputs.render_redacted(step.prompt()) {
            Ok(p) => p,
            Err(e) => {
                return Err(e);
            },
        };
        let prepared = PreparedStep {
            id: step.id().to_owned(),
            name: step.name().to_owned(),
            provider: step.provider(),
            prompt_preview: preview,
        };
        steps.push(prepared);
        k = k + 1;
    }
    let p = PreparedWorkflow {
        workflow_id: workflow.id.clone(),
        workflow_version: workflow.version.clone(),
        inputs: inputs.redacted_values(),
        steps,
    };
    Ok(p)
}

/// The state of one workflow execution: the run record so far and the next step.
pub struct RunExecution<'a> {
    workflow: &'a WorkflowDefinition,
    inputs: ResolvedInputs,
    run: RunRecord,
    next: usize,
}

/// The initial record of a run: running, no steps yet, inputs redacted.
pub open spec fn run_started(
    run: &RunRecord,
    w: &WorkflowDefinition,
    values: Seq<(Seq<char>, InputValueView)>,
    content_hash: Seq<char>,
    run_id: u128,
    started_at: Timestamp,
) -> bool {
    &&& run.schema_version@ == RUN_SCHEMA_VERSION@
    &&& run.id == run_id
    &&& run.workflow.id@ == w.id@
    &&& run.workflow.version@ == w.version@
    &&& run.workflow.content_hash@ == content_hash
    &&& run.status == RunStatus::Running
    &&& run.started_at == started_at
    &&& run.completed_at is None
    &&& run.inputs@ == redacted(values, secret_set(w.inputs@))
    &&& run.steps@.len() == 0
    &&& run.findings@.len() == 0
}

/// Step record `s` is the successful run of the step with id `id`.
pub open spec fn step_completed(s: StepRun, id: Seq<char>) -> bool {
    s.id@ == id && s.status == RunStatus::Completed && s.error is None && s.completed_at is Some
}

/// The steps recorded so far follow the workflow's steps, all completed.
pub open spec fn steps_completed(run: &RunRecord, w: &WorkflowDefinition, n: int) -> bool {
    &&& run.steps@.len() == n
    &&& forall|i: int| 0 <= i < n ==> step_completed(#[trigger] run.steps@[i], w.steps@[i].spec_id())
}

/// What a step of a run leaves as it was: the schema, id, workflow reference, start
/// time, stored inputs and findings of the record.
pub open spec fn record_kept(before: RunRecord, after: RunRecord) -> bool {
    &&& after.schema_version == before.schema_version
    &&& after.id == before.id
    &&& after.workflow == before.workflow
    &&& after.started_at == before.started_at
    &&& after.inputs@ == before.inputs@
    &&& after.findings@ == before.findings@
}

/// The error for a JSON step whose answer is not a JSON object.
pub open spec fn not_json_view() -> ErrorView {
    ErrorView::Provider("response for a JSON step was not a JSON object"@)
}

fn not_json_error() -> (e: EngineError)
    ensures
        e@ == not_json_view(),
{
    EngineError::Provider("response for a JSON step was not a JSON object".to_owned())
}

/// An answer that a step of the given format accepts: a JSON step needs a JSON object.
pub open spec fn answer_accepted(format: OutputFormat, content: Seq<char>) -> bool {
    format == OutputFormat::Json ==> json_object_text(content)
}

/// `after` is `before` with its next step failed by `error`, reported by `provider`: the
/// step is recorded failed with the error's text and no output, and the run fails.
pub open spec fn failure_recorded<'a>(
    before: &RunExecution<'a>,
    after: &RunExecution<'a>,
    step_started: Timestamp,
    step_completed_at: Timestamp,
    run_completed_at: Timestamp,
    provider: Seq<char>,
    error: ErrorView,
) -> bool {
    let s = after.spec_run().steps@.last();
    &&& after.consistent()
    &&& after.spec_workflow() == before.spec_workflow()
    &&& after.spec_values() == before.spec_values()
    &&& after.spec_secrets() == before.spec_secrets()
    &&& after.spec_next() == before.spec_next()
    &&& after.spec_run().status == RunStatus::Failed
    &&& after.spec_run().completed_at == Some(run_completed_at)
    &&& after.spec_run().steps@ == before.spec_run().steps@.push(s)
    &&& s.id@ == before.spec_workflow().steps@[before.spec_next()].spec_id()
    &&& s.status == RunStatus::Failed
    &&& s.started_at == step_started
    &&& s.completed_at == Some(step_completed_at)
    &&& s.provider@ == provider
    &&& s.output@ == Seq::<char>::empty()
    &&& opt_view(s.error) == Some(error_text(error))
    &&& record_kept(before.spec_run(), after.spec_run())
}

/// `after` is `before` with the answer `response` recorded for its next step, and `r`
/// what the recording returned: an accepted answer completes the step and the run goes
/// on; a JSON step's answer that is not a JSON object fails the step and the run.
pub open spec fn completion_recorded<'a>(
    before: &RunExecution<'a>,
    after: &RunExecution<'a>,
    step_started: Timestamp,
    completed_at: Timestamp,
    response: AiResponse,
    r: Result<(), EngineError>,
) -> bool {
    let step = before.spec_workflow().steps@[before.spec_next()];
    let s = after.spec_run().steps@.last();
    if answer_accepted(step.spec_output_format(), response.content@) {
        &&& r is Ok
        &&& after.consistent()
        &&& after.spec_workflow() == before.spec_workflow()
        &&& after.spec_values() == before.spec_values()
        &&& after.spec_secrets() == before.spec_secrets()
        &&& after.spec_next() == before.spec_next() + 1
        &&& after.spec_run().status == RunStatus::Running
        &&& after.spec_run().completed_at == before.spec_run().completed_at
        &&& after.spec_run().steps@ == before.spec_run().steps@.push(s)
        &&& s.id@ == step.spec_id()
        &&& s.status == RunStatus::Completed
        &&& s.started_at == step_started
        &&& s.completed_at == Some(completed_at)
        &&& s.provider@ == response.provider@
        &&& s.output@ == response.content@
        &&& s.error is None
        &&& record_kept(before.spec_run(), after.spec_run())
    } else {
        &&& r matches Err(x) && x@ == not_json_view()
        &&& failure_recorded(before, after, step_started, completed_at, completed_at, response.provider@, not_json_view())
    }
}

impl<'a> RunExecution<'a> {
    pub closed spec fn spec_workflow(&self) -> &'a WorkflowDefinition {
        self.workflow
    }

    pub closed spec fn spec_run(&self) -> RunRecord {
        self.run
    }

    /// The position of the next step to run.
    pub closed spec fn spec_next(&self) -> int {
        self.next as int
    }

    /// The resolved input values.
    pub closed spec fn spec_values(&self) -> Seq<(Seq<char>, InputValueView)> {
        self.inputs.values_view()
    }

    /// The names of the secret inputs.
    pub closed spec fn spec_secrets(&self) -> Set<Seq<char>> {
        self.inputs.secrets()
    }

    /// What every state of a run keeps: the record names the workflow's id and version
    /// and stores the resolved inputs with secrets redacted; the completed steps are the
    /// workflow's first steps in order; a running or completed run has no failed step, a
    /// failed run ends with exactly one failed step.
    pub open spec fn consistent(&self) -> bool {
        let run = self.spec_run();
        let w = self.spec_workflow();
        let n = self.spec_next();
        &&& run.schema_version@ == RUN_SCHEMA_VERSION@
        &&& run.workflow.id@ == w.id@
        &&& run.workflow.version@ == w.version@
        &&& self.spec_secrets() == secret_set(w.inputs@)
        &&& run.inputs@ == redacted(self.spec_values(), self.spec_secrets())
        &&& 0 <= n <= w.steps@.len()
        &&& run.status == RunStatus::Running ==> steps_completed(&run, w, n) && run.completed_at is None
        &&& run.status == RunStatus::Completed ==> steps_completed(&run, w, n) && n == w.steps@.len() && run.completed_at is Some
        &&& run.status == RunStatus::Failed ==> {
            &&& n < w.steps@.len()
            &&& run.steps@.len() == n + 1
            &&& forall|i: int| 0 <= i < n ==> step_completed(#[trigger] run.steps@[i], w.steps@[i].spec_id())
            &&& run.steps@[n].id@ == w.steps@[n].spec_id()
            &&& run.steps@[n].status == RunStatus::Failed
            &&& run.completed_at is Some
        }
        &&& run.status == RunStatus::Running || run.status == RunStatus::Completed || run.status == RunStatus::Failed
    }

    /// Starts a run: validates the workflow, resolves its inputs and builds the initial
    /// record. Paths in `existing_files` are the file paths that exist.
    pub fn start(
        workflow: &'a WorkflowDefinition,
        values: ValueMap,
        content_hash: String,
        run_id: u128,
        started_at: Timestamp,
        existing_files: &Vec<String>,
    ) -> (r: Result<RunExecution<'a>, EngineError>)
        ensures
            match workflow_error(workflow) {
                Some(e) => r matches Err(x) && x@ == e,
                None => match resolution(workflow.inputs@, values@, existing_files@) {
                    Err(e) => r matches Err(x) && x@ == e,
                    Ok(vals) => r matches Ok(x) && {
                        &&& x.spec_workflow() == workflow
                        &&& x.spec_values() == vals
                        &&& x.spec_secrets() == secret_set(workflow.inputs@)
                        &&& x.spec_next() == 0
                        &&& x.consistent()
                        &&& run_started(&x.spec_run(), workflow, vals, content_hash@, run_id, started_at)
                    },
                },
            },
    {
        match validate_workflow(workflow) {
            Ok(()) => {},
            Err(e) => {
                return Err(e);
            },
        }
        let inputs = match VariableResolver::resolve(&workflow.inputs, values, existing_files) {
            Ok(inputs) => inputs,
            Err(e) => {
                return Err(e);
            },
        };
        let run = RunRecord {
            schema_version: RUN_SCHEMA_VERSION.to_owned(),
            id: run_id,
            workflow: WorkflowReference {
                id: workflow.id.clone(),
                version: workflow.version.clone(),
                content_hash,
            },
            status: RunStatus::Running,
            started_at,
            completed_at: None,
            inputs: inputs.redacted_values(),
            steps: Vec::new(),
            findings: Vec::new(),
        };
        Ok(RunExecution { workflow, inputs, run, next: 0 })
    }

    /// The run record so far.
    pub fn run(&self) -> (r: &RunRecord)
        ensures
            *r == self.spec_run(),
    {
        &self.run
    }

    /// The position of the next step to run.
    pub fn next_index(&self) -> (r: usize)
        ensures
            r == self.spec_next(),
    {
        self.next
    }

    /// The request for the next step, rendered with the real input values; `None` once
    /// the run has stopped (every step ran, or a step failed), and the rendering error if
    /// the prompt names an unknown input.
    pub fn next_request(&self) -> (r: Option<Result<AiRequest, EngineError>>)
        requires
            self.consistent(),
        ensures
            self.spec_run().status != RunStatus::Running ==> r is None,
            self.spec_next() >= self.spec_workflow().steps@.len() ==> r is None,
            self.spec_run().status == RunStatus::Running && self.spec_next() < self.spec_workflow().steps@.len() ==> {
                let step = self.spec_workflow().steps@[self.spec_next()];
                match rendered(step.spec_prompt(), self.spec_values(), self.spec_secrets(), false) {
                    Ok(prompt) => r matches Some(Ok(req)) && {
                        &&& req.workflow_id@ == self.spec_workflow().id@
                        &&& req.step_id@ == step.spec_id()
                        &&& req.prompt@ == prompt
                        &&& req.output_format == step.spec_output_format()
                    },
                    Err(e) => r matches Some(Err(x)) && x@ == e,
                }
            },
    {
        match self.run.status {
            RunStatus::Running => {},
            _ => {
                return None;
            },
        }
        if self.next >= self.workflow.steps.len() {
            return None;
        }
        let step = &self.workflow.steps[self.next];
        match self.inputs.render(step.prompt()) {
            Ok(prompt) => Some(
                Ok(
                    AiRequest {
                        workflow_id: self.workflow.id.clone(),
                        step_id: step.id().to_owned(),
                        prompt,
                        output_format: step.output_format(),
                    },
                ),
            ),
            Err(e) => Some(Err(e)),
        }
    }

    /// Records the provider's answer for the next step. An answer to a JSON step must be
    /// a JSON object: otherwise the step and the run fail with an error, as
    /// `record_failure` records it. Any other answer completes the step and the run moves
    /// on.
    pub fn record_completion(&mut self, step_started: Timestamp, completed_at: Timestamp, response: AiResponse) -> (r: Result<(), EngineError>)
        requires
            old(self).consistent(),
            old(self).spec_run().status == RunStatus::Running,
            old(self).spec_next() < old(self).spec_workflow().steps@.len(),
        ensures
            completion_recorded(old(self), final(self), step_started, completed_at, response, r),
    {
        let step = &self.workflow.steps[self.next];
        let format = step.output_format();
        let acceptable = match format {
            OutputFormat::Json => is_json_object(response.content.as_str()),
            OutputFormat::Text => true,
        };
        if !acceptable {
            let error = not_json_error();
            self.record_failure(step_started, completed_at, completed_at, response.provider.as_str(), &error);
            return Err(error);
        }
        let record = StepRun {
            id: step.id().to_owned(),
            status: RunStatus::Completed,
            started_at: step_started,
            completed_at: Some(completed_at),
            provider: response.provider,
            output: response.content,
            error: None,
        };
        self.run.steps.push(record);
        let count = self.workflow.steps.len();
        assert(self.next < count);
        self.next = self.next + 1;
        Ok(())
    }

    /// Records the provider's failure on the next step; the run fails.
    pub fn record_failure(
        &mut self,
        step_started: Timestamp,
        step_completed_at: Timestamp,
        run_completed_at: Timestamp,
        provider_id: &str,
        error: &EngineError,
    )
        requires
            old(self).consistent(),
            old(self).spec_run().status == RunStatus::Running,
            old(self).spec_next() < old(self).spec_workflow().steps@.len(),
        ensures
            failure_recorded(
                old(self),
                final(self),
                step_started,
                step_completed_at,
                run_completed_at,
                provider_id@,
                error@,
            ),
    {
        let step = &self.workflow.steps[self.next];
        let record = StepRun {
            id: step.id().to_owned(),
            status: RunStatus::Failed,
            started_at: step_started,
            completed_at: Some(step_completed_at),
            provider: provider_id.to_owned(),
            output: String::new(),
            error: Some(error.message()),
        };
        self.run.steps.push(record);
        self.run.status = RunStatus::Failed;
        self.run.completed_at = Some(run_completed_at);
    }

    /// Records what the provider gave for the next step: its answer, as
    /// `record_completion` does, or its error, as `record_failure` does with `finished_at`
    /// as the time the step and the run ended. The error that stops the run is returned.
    pub fn record_outcome(
        &mut self,
        step_started: Timestamp,
        finished_at: Timestamp,
        provider_id: &str,
        outcome: Result<AiResponse, EngineError>,
    ) -> (r: Result<(), EngineError>)
        requires
            old(self).consistent(),
            old(self).spec_run().status == RunStatus::Running,
            old(self).spec_next() < old(self).spec_workflow().steps@.len(),
        ensures
            match outcome {
                Ok(response) => completion_recorded(old(self), final(self), step_started, finished_at, response, r),
                Err(e) => r == Err::<(), EngineError>(e) && failure_recorded(
                    old(self),
                    final(self),
                    step_started,
                    finished_at,
                    finished_at,
                    provider_id@,
                    e@,
                ),
            },
    {
        match outcome {
            Ok(response) => self.record_completion(step_started, finished_at, response),
            Err(e) => {
                self.record_failure(step_started, finished_at, finished_at, provider_id, &e);
                Err(e)
            },
        }
    }

    /// Completes a run whose every step has succeeded.
    pub fn finish(&mut self, completed_at: Timestamp)
        requires
            old(self).consistent(),
            old(self).spec_run().status == RunStatus::Running,
            old(self).spec_next() == old(self).spec_workflow().steps@.len(),
        ensures
            final(self).consistent(),
            final(self).spec_workflow() == old(self).spec_workflow(),
            final(self).spec_next() == old(self).spec_next(),
            final(self).spec_run().status == RunStatus::Completed,
            final(self).spec_run().completed_at == Some(completed_at),
            final(self).spec_run().steps@ == old(self).spec_run().steps@,
            record_kept(old(self).spec_run(), final(self).spec_run()),
    {
        self.run.status = RunStatus::Completed;
        self.run.completed_at = Some(completed_at);
    }

    /// The final run record.
    pub fn into_run(self) -> (r: RunRecord)
        ensures
            r == self.spec_run(),
    {
        self.run
    }
}

} // verus!
