//! Workflow files and run artifacts: the decisions around loading, saving, hashing and
//! listing. Reading and writing files happens outside the library.
use vstd::prelude::*;

use crate::domain::{RunStatus, WorkflowDefinition};
use crate::error::{EngineError, ErrorView};
use crate::hashing::{content_hash, content_hash_text};
use crate::ids::{uuid_hyphenated, uuid_text};
use crate::text::join2;
use crate::validation::{validate_workflow, workflow_error};
use crate::values::seq_lt;

verus! {

/// Workflow definitions stored as JSON files below a root directory.
#[derive(Debug, Clone, PartialEq)]
pub struct FileWorkflowRepository {
    pub root: String,
}

impl FileWorkflowRepository {
    pub fn new(root: String) -> (r: Self)
        ensures
            r.root@ == root@,
    {
        FileWorkflowRepository { root }
    }
}

/// Run records stored as one JSON file per run below a root directory.
#[derive(Debug, Clone, PartialEq)]
pub struct JsonRunRepository {
    pub root: String,
}

impl JsonRunRepository {
    pub fn new(root: String) -> (r: Self)
        ensures
            r.root@ == root@,
    {
        JsonRunRepository { root }
    }

    /// The file name of a run's artifact: its id and `.json`.
    pub fn file_name_for(&self, id: u128) -> (r: String)
        ensures
            r@ == uuid_hyphenated(id) + ".json"@,
    {
        let text = uuid_text(id);
        join2(text.as_str(), ".json")
    }
}

/// A workflow read from a file, with the hash of the file's bytes.
#[derive(Debug, Clone, PartialEq)]
pub struct LoadedWorkflow {
    pub path: String,
    pub definition: WorkflowDefinition,
    pub content_hash: String,
}

impl LoadedWorkflow {
    /// A loaded workflow from a file's path, its parsed definition and its bytes. The
    /// definition must be valid.
    pub fn from_contents(path: String, definition: WorkflowDefinition, contents: &[u8]) -> (r: Result<LoadedWorkflow, EngineError>)
        ensures
            match workflow_error(&definition) {
                Some(e) => r matches Err(x) && x@ == e,
                None => r matches Ok(l) && l.path@ == path@ && l.definition == definition
                    && l.content_hash@ == content_hash_text(contents@),
            },
    {
        match validate_workflow(&definition) {
            Ok(()) => {},
            Err(e) => {
                return Err(e);
            },
        }
        let hash = content_hash(contents);
        Ok(LoadedWorkflow { path, definition, content_hash: hash })
    }
}

/// The file name under which a new workflow is saved: its id and `.json`. The workflow
/// must be valid.
pub fn workflow_file_name(workflow: &WorkflowDefinition) -> (r: Result<String, EngineError>)
    ensures
        match workflow_error(workflow) {
            Some(e) => r matches Err(x) && x@ == e,
            None => r matches Ok(n) && n@ == workflow.id@ + ".json"@,
        },
{
    match validate_workflow(workflow) {
        Ok(()) => {},
        Err(e) => {
            return Err(e);
        },
    }
    Ok(join2(workflow.id.as_str(), ".json"))
}

/// The refusal to overwrite an existing workflow file.
pub fn workflow_exists_error(path: &str) -> (e: EngineError)
    ensures
        e@ == ErrorView::Repository("workflow already exists: "@ + path@),
{
    EngineError::Repository(join2("workflow already exists: ", path))
}

/// Decides whether a new workflow may be written to `path`, where `exists` tells
/// whether a file is already there: the workflow must be valid, and an existing file is
/// never overwritten.
pub fn save_target(workflow: &WorkflowDefinition, path: &str, exists: bool) -> (r: Result<(), EngineError>)
    ensures
        match workflow_error(workflow) {
            Some(e) => r matches Err(x) && x@ == e,
            None => if exists {
                r matches Err(x) && x@ == ErrorView::Repository("workflow already exists: "@ + path@)
            } else {
                r is Ok
            },
        },
{
    match validate_workflow(workflow) {
        Ok(()) => {},
        Err(e) => {
            return Err(e);
        },
    }
    if exists {
        return Err(workflow_exists_error(path));
    }
    Ok(())
}

/// The refusal to change the stored record of a completed run.
pub open spec fn completed_run_view(id: u128) -> ErrorView {
    ErrorView::Repository("completed run cannot be changed: "@ + uuid_hyphenated(id))
}

/// Completed run artifacts are immutable: the record of run `id` may be stored unless
/// the record already stored for it, of status `existing`, is completed.
pub fn may_store(id: u128, existing: Option<RunStatus>) -> (r: Result<(), EngineError>)
    ensures
        existing == Some(RunStatus::Completed) ==> (r matches Err(x) && x@ == completed_run_view(id)),
        existing != Some(RunStatus::Completed) ==> r is Ok,
{
    match existing {
        Some(RunStatus::Completed) => {
            let text = uuid_text(id);
            Err(EngineError::Repository(join2("completed run cannot be changed: ", text.as_str())))
        },
        _ => Ok(()),
    }
}

/// The name by which discovered workflows are ordered.
pub open spec fn workflow_name(l: LoadedWorkflow) -> Seq<char> {
    l.definition.name@
}

/// `output` is `input` ordered by name, where workflows of equal name keep their order:
/// `p` maps each output position to the input position it came from.
pub open spec fn stable_order(input: Seq<LoadedWorkflow>, output: Seq<LoadedWorkflow>, p: Seq<int>) -> bool {
    &&& p.len() == input.len()
    &&& output.len() == input.len()
    &&& forall|k: int| 0 <= k < p.len() ==> 0 <= #[trigger] p[k] < input.len()
    &&& forall|k: int, l: int| 0 <= k < l < p.len() ==> #[trigger] p[k] != #[trigger] p[l]
    &&& forall|k: int| 0 <= k < output.len() ==> #[trigger] output[k] == input[p[k]]
    &&& forall|k: int, l: int|
        0 <= k < l < output.len() ==> !seq_lt(workflow_name(#[trigger] output[l]), workflow_name(#[trigger] output[k]))
    &&& forall|k: int, l: int|
        0 <= k < l < output.len() && workflow_name(output[k]) == workflow_name(output[l]) ==> #[trigger] p[k] < #[trigger] p[l]
}

/// `output` is a stable ordering of `input` by name.
pub open spec fn sorted_by_name(input: Seq<LoadedWorkflow>, output: Seq<LoadedWorkflow>) -> bool {
    exists|p: Seq<int>| stable_order(input, output, p)
}

/// Orders discovered workflows by name; workflows of equal name keep their order.
pub fn sort_by_name(workflows: Vec<LoadedWorkflow>) -> (r: Vec<LoadedWorkflow>)
    ensures
        sorted_by_name(workflows@, r@),
{
    let ghost input = workflows@;
    let mut rest = workflows;
    let mut out: Vec<LoadedWorkflow> = Vec::new();
    let ghost mut p: Seq<int> = Seq::empty();
    // `out` is the stable ordering of the input's suffix that starts at `rest.len()`.
    while rest.len() > 0
        invariant
            rest@ == input.subrange(0, rest@.len() as int),
            rest@.len() <= input.len(),
            p.len() == out@.len(),
            out@.len() + rest@.len() == input.len(),
            forall|k: int| 0 <= k < p.len() ==> rest@.len() <= #[trigger] p[k] < input.len(),
            forall|k: int, l: int| 0 <= k < l < p.len() ==> #[trigger] p[k] != #[trigger] p[l],
            forall|k: int| 0 <= k < out@.len() ==> #[trigger] out@[k] == input[p[k]],
            forall|k: int, l: int|
                0 <= k < l < out@.len() ==> !seq_lt(workflow_name(#[trigger] out@[l]), workflow_name(#[trigger] out@[k])),
            forall|k: int, l: int|
                0 <= k < l < out@.len() && workflow_name(out@[k]) == workflow_name(out@[l]) ==> #[trigger] p[k] < #[trigger] p[l],
        decreases rest.len(),
    {
        let x = rest.pop().unwrap();
        let ghost xi = rest@.len() as int;
        assert(x == input[xi]);
        assert(rest@ =~= input.subrange(0, xi));
        let xc = crate::text::chars_of(x.definition.name.as_str());
        // The first position whose name is not below `x`'s name.
        let mut j: usize = 0;
        while j < out.len()
            invariant
                xc@ == workflow_name(x),
                j <= out@.len(),
                forall|k: int| 0 <= k < j ==> seq_lt(workflow_name(#[trigger] out@[k]), xc@),
            ensures
                j <= out@.len(),
                forall|k: int| 0 <= k < j ==> seq_lt(workflow_name(#[trigger] out@[k]), xc@),
                j < out@.len() ==> !seq_lt(workflow_name(out@[j as int]), xc@),
            decreases out.len() - j,
        {
            let oc = crate::text::chars_of(out[j].definition.name.as_str());
            if crate::values::compare_chars(&oc, &xc) >= 0 {
                break;
            }
            j = j + 1;
        }
        let ghost old_out = out@;
        let ghost old_p = p;
        out.insert(j, x);
        proof {
            p = old_p.insert(j as int, xi);
            assert forall|k: int, l: int| 0 <= k < l < out@.len() implies !seq_lt(
                workflow_name(#[trigger] out@[l]),
                workflow_name(#[trigger] out@[k]),
            ) by {
                lemma_insert_order(old_out, x, j as int, k, l);
            }
            assert forall|k: int, l: int|
                0 <= k < l < out@.len() && workflow_name(out@[k]) == workflow_name(out@[l]) implies #[trigger] p[k] < #[trigger] p[l] by {
                if k < j && l == j {
                    crate::values::lemma_seq_lt_irreflexive(workflow_name(x));
                    assert(seq_lt(workflow_name(old_out[k]), workflow_name(x)));
                } else if k == j && l > j {
                    assert(p[k] == xi);
                    assert(p[l] == old_p[l - 1]);
                } else if k < j && l > j {
                    assert(p[k] == old_p[k]);
                    assert(p[l] == old_p[l - 1]);
                } else if k > j {
                    assert(p[k] == old_p[k - 1]);
                    assert(p[l] == old_p[l - 1]);
                } else {
                    assert(p[k] == old_p[k]);
                    assert(p[l] == old_p[l]);
                }
            }
            assert forall|k: int, l: int| 0 <= k < l < p.len() implies #[trigger] p[k] != #[trigger] p[l] by {
                if k == j {
                    assert(p[l] == old_p[l - 1]);
                } else if l == j {
                    if k < j { assert(p[k] == old_p[k]); }
                } else if k < j && l < j {
                    assert(p[k] == old_p[k]);
                    assert(p[l] == old_p[l]);
                } else if k < j {
                    assert(p[k] == old_p[k]);
                    assert(p[l] == old_p[l - 1]);
                } else {
                    assert(p[k] == old_p[k - 1]);
                    assert(p[l] == old_p[l - 1]);
                }
            }
            assert forall|k: int| 0 <= k < out@.len() implies #[trigger] out@[k] == input[p[k]] by {
                if k < j {
                    assert(out@[k] == old_out[k]);
                } else if k > j {
                    assert(out@[k] == old_out[k - 1]);
                }
            }
        }
    }
    proof {
        assert(stable_order(input, out@, p));
    }
    out
}

/// Inserting `x` where every earlier name is below it and the next is not keeps names
/// non-decreasing.
proof fn lemma_insert_order(s: Seq<LoadedWorkflow>, x: LoadedWorkflow, j: int, k: int, l: int)
    requires
        0 <= j <= s.len(),
        forall|a: int, b: int| 0 <= a < b < s.len() ==> !seq_lt(workflow_name(#[trigger] s[b]), workflow_name(#[trigger] s[a])),
        forall|a: int| 0 <= a < j ==> seq_lt(workflow_name(#[trigger] s[a]), workflow_name(x)),
        j < s.len() ==> !seq_lt(workflow_name(s[j]), workflow_name(x)),
        0 <= k < l < s.len() + 1,
    ensures
        !seq_lt(workflow_name(s.insert(j, x)[l]), workflow_name(s.insert(j, x)[k])),
{
    let t = s.insert(j, x);
    let nx = workflow_name(x);
    if l == j {
        assert(t[k] == s[k]);
        crate::values::lemma_seq_lt_asymmetric(workflow_name(s[k]), nx);
    } else if k == j {
        assert(t[l] == s[l - 1]);
        if l - 1 > j {
            assert(!seq_lt(workflow_name(s[l - 1]), workflow_name(s[j])));
            crate::values::lemma_seq_lt_total(workflow_name(s[j]), nx);
            crate::values::lemma_seq_lt_total(workflow_name(s[l - 1]), workflow_name(s[j]));
            if seq_lt(workflow_name(s[l - 1]), nx) {
                if workflow_name(s[j]) == nx {
                } else {
                    crate::values::lemma_seq_lt_transitive(workflow_name(s[j]), workflow_name(s[l - 1]), nx);
                }
            }
        }
    } else if k < j && l < j {
        assert(t[k] == s[k]);
        assert(t[l] == s[l]);
    } else if k < j {
        assert(t[k] == s[k]);
        assert(t[l] == s[l - 1]);
        if k < l - 1 {
        }
    } else {
        assert(t[k] == s[k - 1]);
        assert(t[l] == s[l - 1]);
    }
}

/// The first workflow with the given id.
pub fn find_by_id(workflows: Vec<WorkflowDefinition>, id: &str) -> (r: Option<WorkflowDefinition>)
    ensures
        match r {
            Some(w) => exists|i: int| 0 <= i < workflows@.len() && #[trigger] workflows@[i] == w && w.id@ == id@
                && forall|j: int| 0 <= j < i ==> workflows@[j].id@ != id@,
            None => forall|i: int| 0 <= i < workflows@.len() ==> #[trigger] workflows@[i].id@ != id@,
        },
{
    let mut i: usize = 0;
    let target = id.to_owned();
    while i < workflows.len()
        invariant
            target@ == id@,
            i <= workflows@.len(),
            forall|j: int| 0 <= j < i ==> workflows@[j].id@ != id@,
        decreases workflows.len() - i,
    {
        if workflows[i].id == target {
            let mut workflows = workflows;
            let ghost all = workflows@;
            let w = workflows.swap_remove(i);
            assert(all[i as int] == w);
            return Some(w);
        }
        i = i + 1;
    }
    None
}

} // verus!
