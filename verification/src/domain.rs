//! Versioned workflow and run models. They hold data and its invariants, no I/O.
use vstd::prelude::*;

use crate::clock::Timestamp;
use crate::text::opt_view;
use crate::values::{InputValue, ValueMap};

verus! {

pub const WORKFLOW_SCHEMA_VERSION: &'static str = "ptconductor.dev/workflow/v1alpha1";

pub const RUN_SCHEMA_VERSION: &'static str = "ptconductor.dev/run/v1alpha1";

/// A reusable, versioned workflow: typed inputs and the steps that use them.
#[derive(Debug, Clone, PartialEq)]
pub struct WorkflowDefinition {
    pub schema_version: String,
    pub id: String,
    pub version: String,
    pub name: String,
    pub description: Option<String>,
    pub inputs: Vec<InputDefinition>,
    pub steps: Vec<StepDefinition>,
}

/// A typed input that a workflow declares.
#[derive(Debug, Clone, PartialEq)]
pub struct InputDefinition {
    pub name: String,
    pub label: String,
    pub kind: InputKind,
    pub required: bool,
    pub description: Option<String>,
    pub default: Option<InputValue>,
}

#[derive(Debug, Clone, Copy, PartialEq, Eq, Structural)]
pub enum InputKind {
    Text,
    Textarea,
    Url,
    Number,
    Boolean,
    File,
    Secret,
}

/// The form in which a step asks its provider to answer.
#[derive(Debug, Clone, Copy, PartialEq, Eq, Structural)]
pub enum OutputFormat {
    Text,
    Json,
}

/// A workflow step. The engine supports AI prompt steps only.
#[derive(Debug, Clone, PartialEq)]
pub enum StepDefinition {
    AiPrompt {
        id: String,
        name: String,
        prompt: String,
        provider: Option<String>,
        output_format: OutputFormat,
    },
}

impl StepDefinition {
    pub open spec fn spec_id(&self) -> Seq<char> {
        match self {
            StepDefinition::AiPrompt { id, .. } => id@,
        }
    }

    pub open spec fn spec_name(&self) -> Seq<char> {
        match self {
            StepDefinition::AiPrompt { name, .. } => name@,
        }
    }

    pub open spec fn spec_prompt(&self) -> Seq<char> {
        match self {
            StepDefinition::AiPrompt { prompt, .. } => prompt@,
        }
    }

    pub open spec fn spec_provider(&self) -> Option<Seq<char>> {
        match self {
            StepDefinition::AiPrompt { provider, .. } => opt_view(*provider),
        }
    }

    pub open spec fn spec_output_format(&self) -> OutputFormat {
        match self {
            StepDefinition::AiPrompt { output_format, .. } => *output_format,
        }
    }

    /// The step's identifier.
    pub fn id(&self) -> (r: &str)
        ensures
            r@ == self.spec_id(),
    {
        match self {
            StepDefinition::AiPrompt { id, .. } => id.as_str(),
        }
    }

    /// The step's display name.
    pub fn name(&self) -> (r: &str)
        ensures
            r@ == self.spec_name(),
    {
        match self {
            StepDefinition::AiPrompt { name, .. } => name.as_str(),
        }
    }

    /// The step's prompt template.
    pub fn prompt(&self) -> (r: &str)
        ensures
            r@ == self.spec_prompt(),
    {
        match self {
            StepDefinition::AiPrompt { prompt, .. } => prompt.as_str(),
        }
    }

    /// The provider that the step names, if any.
    pub fn provider(&self) -> (r: Option<String>)
        ensures
            opt_view(r) == self.spec_provider(),
    {
        match self {
            StepDefinition::AiPrompt { provider, .. } => match provider {
                Some(p) => Some(p.clone()),
                None => None,
            },
        }
    }

    /// The step's requested output format.
    pub fn output_format(&self) -> (r: OutputFormat)
        ensures
            r == self.spec_output_format(),
    {
        match self {
            StepDefinition::AiPrompt { output_format, .. } => *output_format,
        }
    }
}

/// The stored record of one workflow execution.
#[derive(Debug, PartialEq)]
pub struct RunRecord {
    pub schema_version: String,
    pub id: u128,
    pub workflow: WorkflowReference,
    pub status: RunStatus,
    pub started_at: Timestamp,
    pub completed_at: Option<Timestamp>,
    pub inputs: ValueMap,
    pub steps: Vec<StepRun>,
    pub findings: Vec<Finding>,
}

/// The workflow a run executed, pinned to its version and content hash.
#[derive(Debug, Clone, PartialEq)]
pub struct WorkflowReference {
    pub id: String,
    pub version: String,
    pub content_hash: String,
}

#[derive(Debug, Clone, Copy, PartialEq, Eq, Structural)]
pub enum RunStatus {
    Pending,
    Running,
    Completed,
    Failed,
    Cancelled,
}

/// The record of one executed step.
#[derive(Debug, Clone, PartialEq)]
pub struct StepRun {
    pub id: String,
    pub status: RunStatus,
    pub started_at: Timestamp,
    pub completed_at: Option<Timestamp>,
    pub provider: String,
    pub output: String,
    pub error: Option<String>,
}

#[derive(Debug, Clone, PartialEq)]
pub struct Finding {
    pub id: String,
    pub title: String,
    pub severity: Severity,
    pub description: String,
    pub evidence: Vec<EvidenceReference>,
    pub recommendation: String,
}

#[derive(Debug, Clone, Copy, PartialEq, Eq, Structural)]
pub enum Severity {
    Informational,
    Low,
    Medium,
    High,
    Critical,
}

#[derive(Debug, Clone, PartialEq)]
pub struct EvidenceReference {
    pub id: String,
    pub path: String,
    pub sha256: String,
    pub media_type: String,
}

} // verus!
