//! Deterministic reports rendered from stored runs.
use vstd::prelude::*;

use crate::clock::{utc_display, Timestamp};
use crate::domain::{Finding, RunRecord, RunStatus, Severity, StepRun};
use crate::ids::{uuid_hyphenated, uuid_text};
use crate::text::join3;

verus! {

/// Renders a run record into a report document.
pub trait ReportRenderer {
    fn media_type(&self) -> &'static str;

    fn render(&self, run: &RunRecord) -> String;
}

/// Renders runs as Markdown.
#[derive(Debug, Clone, Copy, PartialEq, Eq, Default)]
pub struct MarkdownRenderer;

/// The `Debug` text of a run status.
pub open spec fn status_name(s: RunStatus) -> Seq<char> {
    match s {
        RunStatus::Pending => "Pending"@,
        RunStatus::Running => "Running"@,
        RunStatus::Completed => "Completed"@,
        RunStatus::Failed => "Failed"@,
        RunStatus::Cancelled => "Cancelled"@,
    }
}

/// The `Debug` text of a severity.
pub open spec fn severity_name(s: Severity) -> Seq<char> {
    match s {
        Severity::Informational => "Informational"@,
        Severity::Low => "Low"@,
        Severity::Medium => "Medium"@,
        Severity::High => "High"@,
        Severity::Critical => "Critical"@,
    }
}

/// How an instant is displayed.
pub open spec fn time_text(t: Timestamp) -> Seq<char> {
    match utc_display(t.spec_seconds(), t.spec_nanos()) {
        Some(s) => s,
        None => seq![],
    }
}

/// The Markdown section of one step.
pub open spec fn step_section(s: StepRun) -> Seq<char> {
    "\n## Step: "@ + s.id@ + "\n\nProvider: `"@ + s.provider@ + "`\n\n"@ + s.output@ + "\n"@
}

/// The sections of the steps, in order.
pub open spec fn steps_sections(steps: Seq<StepRun>) -> Seq<char>
    decreases steps.len(),
{
    if steps.len() == 0 {
        seq![]
    } else {
        steps_sections(steps.drop_last()) + step_section(steps.last())
    }
}

/// The Markdown entry of one finding.
pub open spec fn finding_section(f: Finding) -> Seq<char> {
    "\n### "@ + f.title@ + " ("@ + severity_name(f.severity) + ")\n\n"@ + f.description@
        + "\n\n**Recommendation:** "@ + f.recommendation@ + "\n"@
}

/// The entries of the findings, in order.
pub open spec fn findings_entries(findings: Seq<Finding>) -> Seq<char>
    decreases findings.len(),
{
    if findings.len() == 0 {
        seq![]
    } else {
        findings_entries(findings.drop_last()) + finding_section(findings.last())
    }
}

/// The Markdown report of a run: a header with the run id, workflow, status and start,
/// a section per step, and a findings section when there are findings.
pub open spec fn markdown_report(run: &RunRecord) -> Seq<char> {
    "# PTConductor Run "@ + uuid_hyphenated(run.id) + "\n\n- Workflow: `"@ + run.workflow.id@
        + "` v"@ + run.workflow.version@ + "\n- Status: `"@ + status_name(run.status)
        + "`\n- Started: "@ + time_text(run.started_at) + "\n"@ + steps_sections(run.steps@) + (
    if run.findings@.len() == 0 {
        seq![]
    } else {
        "\n## Findings\n"@ + findings_entries(run.findings@)
    })
}

fn status_name_exec(s: RunStatus) -> (r: &'static str)
    ensures
        r@ == status_name(s),
{
    match s {
        RunStatus::Pending => "Pending",
        RunStatus::Running => "Running",
        RunStatus::Completed => "Completed",
        RunStatus::Failed => "Failed",
        RunStatus::Cancelled => "Cancelled",
    }
}

fn severity_name_exec(s: Severity) -> (r: &'static str)
    ensures
        r@ == severity_name(s),
{
    match s {
        Severity::Informational => "Informational",
        Severity::Low => "Low",
        Severity::Medium => "Medium",
        Severity::High => "High",
        Severity::Critical => "Critical",
    }
}

impl MarkdownRenderer {
    pub fn markdown(&self, run: &RunRecord) -> (r: String)
        ensures
            r@ == markdown_report(run),
    {
        let id = uuid_text(run.id);
        let started = run.started_at.display();
        let mut output = join3("# PTConductor Run ", id.as_str(), "\n\n- Workflow: `");
        output.append(run.workflow.id.as_str());
        output.append("` v");
        output.append(run.workflow.version.as_str());
        output.append("\n- Status: `");
        output.append(status_name_exec(run.status));
        output.append("`\n- Started: ");
        output.append(started.as_str());
        output.append("\n");
        let ghost header = output@;
        let mut i: usize = 0;
        while i < run.steps.len()
            invariant
                i <= run.steps@.len(),
                output@ == header + steps_sections(run.steps@.subrange(0, i as int)),
            decreases run.steps.len() - i,
        {
            let step = &run.steps[i];
            output.append("\n## Step: ");
            output.append(step.id.as_str());
            output.append("\n\nProvider: `");
            output.append(step.provider.as_str());
            output.append("`\n\n");
            output.append(step.output.as_str());
            output.append("\n");
            assert(run.steps@.subrange(0, i + 1).drop_last() =~= run.steps@.subrange(0, i as int));
            i = i + 1;
        }
        assert(run.steps@.subrange(0, run.steps@.len() as int) =~= run.steps@);
        if run.findings.len() > 0 {
            output.append("\n## Findings\n");
            let ghost before = output@;
            let mut k: usize = 0;
            while k < run.findings.len()
                invariant
                    k <= run.findings@.len(),
                    output@ == before + findings_entries(run.findings@.subrange(0, k as int)),
                decreases run.findings.len() - k,
            {
                let finding = &run.findings[k];
                output.append("\n### ");
                output.append(finding.title.as_str());
                output.append(" (");
                output.append(severity_name_exec(finding.severity));
                output.append(")\n\n");
                output.append(finding.description.as_str());
                output.append("\n\n**Recommendation:** ");
                output.append(finding.recommendation.as_str());
                output.append("\n");
                assert(run.findings@.subrange(0, k + 1).drop_last() =~= run.findings@.subrange(
                    0,
                    k as int,
                ));
                k = k + 1;
            }
            assert(run.findings@.subrange(0, run.findings@.len() as int) =~= run.findings@);
        }
        output
    }
}

impl ReportRenderer for MarkdownRenderer {
    fn media_type(&self) -> (r: &'static str)
        ensures
            r@ == "text/markdown"@,
    {
        "text/markdown"
    }

    fn render(&self, run: &RunRecord) -> (r: String)
        ensures
            r@ == markdown_report(run),
    {
        self.markdown(run)
    }
}

} // verus!
