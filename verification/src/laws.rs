//! Properties that relate several operations of the library.
use vstd::prelude::*;

use crate::domain::{InputDefinition, InputKind, RunStatus, WorkflowDefinition};
use crate::engine::{
    preparation, prepared_from, redacted, steps_completed, PreparedWorkflow,
    RunExecution,
};
use crate::resolver::secret_set;
use crate::providers::{base_url_outcome, loopback_host, ollama_outcome, openai_outcome};
use crate::resolver::{
    chosen_value, defines, first_match_from, first_unknown, lemma_first_match, placeholder,
    reference_text, render_pieces, rendered, resolution, resolve_from, first_template_char,
    inserted, pieces_text,
    REDACTED,
};
use crate::error::ErrorView;
use crate::text::{ascii_lower_seq, contains_seq, matches_at};
use crate::cli::kind_from_name;
use crate::domain::OutputFormat;
use crate::engine::AiRequest;
use crate::json::json_quoted;
use crate::providers::ollama_body;
use crate::domain::RunRecord;
use crate::ids::uuid_hyphenated;
use crate::reporting::{findings_entries, markdown_report, status_name, steps_sections, time_text};
use crate::urls::parsed_url;
use crate::validation::{
    first_undeclared, input_declared, input_error, inputs_error_from, slug_shape, variable_name_shape,
    step_error, steps_error_from, template_vars, workflow_error,
};
use crate::values::{
    keys_sorted, map_contains, map_get, map_insert, map_remove, EntriesView,
    InputValueView,
};

verus! {

/// A value stored under a key is what a later read of that key gives back, and storing
/// under one key leaves every other key's value as it was.
pub proof fn law_map_read_after_write(
    s: Seq<(Seq<char>, InputValueView)>,
    k: Seq<char>,
    v: InputValueView,
    other: Seq<char>,
)
    requires
        keys_sorted(s),
    ensures
        map_get(map_insert(s, k, v), k) == Some(v),
        other != k ==> map_get(map_insert(s, k, v), other) == map_get(s, other),
    decreases s.len(),
{
    if s.len() > 0 && s[0].0 != k && !crate::values::seq_lt(k, s[0].0) {
        let t = s.drop_first();
        assert forall|a: int, b: int| 0 <= a < b < t.len() implies crate::values::seq_lt(
            #[trigger] t[a].0,
            #[trigger] t[b].0,
        ) by {
            assert(t[a] == s[a + 1]);
            assert(t[b] == s[b + 1]);
        }
        law_map_read_after_write(t, k, v, other);
        assert(map_insert(s, k, v)[0] == s[0]);
        assert(map_insert(s, k, v).drop_first() =~= map_insert(t, k, v));
    } else if s.len() > 0 && s[0].0 == k {
        assert(map_insert(s, k, v).drop_first() =~= s.drop_first());
        assert(map_insert(s, k, v)[0].0 == k);
    } else if s.len() > 0 {
        assert(map_insert(s, k, v).drop_first() =~= s);
        assert(map_insert(s, k, v)[0].0 == k);
    } else {
        assert(map_insert(s, k, v).drop_first() =~= s);
        assert(map_insert(s, k, v)[0].0 == k);
    }
}

/// Stored run inputs and previews hide secrets: every secret value becomes the
/// redaction marker and every other value is kept, under the same names in the same order.
pub proof fn law_secrets_redacted(values: Seq<(Seq<char>, InputValueView)>, secrets: Set<Seq<char>>)
    ensures
        redacted(values, secrets).len() == values.len(),
        forall|i: int|
            0 <= i < values.len() ==> (#[trigger] redacted(values, secrets)[i]).0 == values[i].0,
        forall|i: int|
            0 <= i < values.len() && secrets.contains(values[i].0) ==> (#[trigger] redacted(
                values,
                secrets,
            )[i]).1 == InputValueView::String(REDACTED@),
        forall|i: int|
            0 <= i < values.len() && !secrets.contains(values[i].0) ==> (#[trigger] redacted(
                values,
                secrets,
            )[i]).1 == values[i].1,
{
}

/// Two lists of values with the same names in the same order, whose references render
/// to the same text.
pub open spec fn same_references(
    a: EntriesView,
    sa: Set<Seq<char>>,
    ra: bool,
    b: EntriesView,
    sb: Set<Seq<char>>,
    rb: bool,
) -> bool {
    &&& a.len() == b.len()
    &&& forall|i: int|
        0 <= i < a.len() ==> (#[trigger] a[i]).0 == b[i].0 && reference_text(a[i].0, a[i].1, sa, ra)
            == reference_text(b[i].0, b[i].1, sb, rb)
}

proof fn lemma_first_match_same(t: Seq<char>, a: EntriesView, b: EntriesView, j: int)
    requires
        a.len() == b.len(),
        forall|i: int| 0 <= i < a.len() ==> (#[trigger] a[i]).0 == b[i].0,
    ensures
        first_match_from(t, a, j) == first_match_from(t, b, j),
    decreases a.len() - j,
{
    if 0 <= j < a.len() {
        assert(a[j].0 == b[j].0);
        lemma_first_match_same(t, a, b, j + 1);
    }
}

/// Renderings with values whose references render alike are alike.
proof fn lemma_pieces_same(
    t: Seq<char>,
    a: EntriesView,
    sa: Set<Seq<char>>,
    ra: bool,
    b: EntriesView,
    sb: Set<Seq<char>>,
    rb: bool,
)
    requires
        same_references(a, sa, ra, b, sb, rb),
    ensures
        render_pieces(t, a, sa, ra) == render_pieces(t, b, sb, rb),
        rendered(t, a, sa, ra) == rendered(t, b, sb, rb),
    decreases t.len(),
{
    if t.len() > 0 {
        lemma_first_match_same(t, a, b, 0);
        lemma_first_match(t, a, 0);
        match first_match_from(t, a, 0) {
            Some(j) => {
                assert(a[j].0 == b[j].0);
                lemma_pieces_same(t.skip(placeholder(a[j].0).len() as int), a, sa, ra, b, sb, rb);
            },
            None => {
                lemma_pieces_same(t.drop_first(), a, sa, ra, b, sb, rb);
            },
        }
    }
}

/// A redacted preview renders exactly like the plain rendering of the redacted values
/// that runs store: previews and stored inputs agree on what is hidden.
pub proof fn law_preview_renders_stored_inputs(
    t: Seq<char>,
    values: Seq<(Seq<char>, InputValueView)>,
    secrets: Set<Seq<char>>,
)
    ensures
        rendered(t, values, secrets, true) == rendered(t, redacted(values, secrets), secrets, false),
{
    let r = redacted(values, secrets);
    assert forall|i: int| 0 <= i < values.len() implies (#[trigger] values[i]).0 == r[i].0
        && reference_text(values[i].0, values[i].1, secrets, true) == reference_text(r[i].0, r[i].1, secrets, false) by {
        reveal_strlit("***REDACTED***");
    }
    lemma_pieces_same(t, values, secrets, true, r, secrets, false);
}

/// Two maps with the same names in the same order, whose values differ at most under
/// the names in `secrets`.
pub open spec fn differ_in_secrets(a: EntriesView, b: EntriesView, secrets: Set<Seq<char>>) -> bool {
    &&& a.len() == b.len()
    &&& forall|i: int|
        0 <= i < a.len() ==> (#[trigger] a[i]).0 == b[i].0 && (!secrets.contains(a[i].0) ==> a[i].1
            == b[i].1)
}

proof fn lemma_differ_tail(a: EntriesView, b: EntriesView, secrets: Set<Seq<char>>)
    requires
        differ_in_secrets(a, b, secrets),
        a.len() > 0,
    ensures
        differ_in_secrets(a.drop_first(), b.drop_first(), secrets),
        a[0].0 == b[0].0,
        !secrets.contains(a[0].0) ==> a[0].1 == b[0].1,
{
    assert forall|i: int| 0 <= i < a.drop_first().len() implies (#[trigger] a.drop_first()[i]).0
        == b.drop_first()[i].0 && (!secrets.contains(a.drop_first()[i].0) ==> a.drop_first()[i].1
        == b.drop_first()[i].1) by {
        assert(a.drop_first()[i] == a[i + 1]);
        assert(b.drop_first()[i] == b[i + 1]);
    }
}

proof fn lemma_differ_cons(
    x: (Seq<char>, InputValueView),
    y: (Seq<char>, InputValueView),
    a: EntriesView,
    b: EntriesView,
    secrets: Set<Seq<char>>,
)
    requires
        differ_in_secrets(a, b, secrets),
        x.0 == y.0,
        !secrets.contains(x.0) ==> x.1 == y.1,
    ensures
        differ_in_secrets(seq![x] + a, seq![y] + b, secrets),
{
    assert forall|i: int| 0 <= i < (seq![x] + a).len() implies (#[trigger] (seq![x] + a)[i]).0 == (
    seq![y] + b)[i].0 && (!secrets.contains((seq![x] + a)[i].0) ==> (seq![x] + a)[i].1 == (seq![y]
        + b)[i].1) by {
        if i > 0 {
            assert((seq![x] + a)[i] == a[i - 1]);
            assert((seq![y] + b)[i] == b[i - 1]);
        }
    }
}

/// Maps that differ only in secret values give the same answer for a name: both have it
/// or neither does, and under a name that is not secret the values agree.
proof fn lemma_differ_get(a: EntriesView, b: EntriesView, secrets: Set<Seq<char>>, k: Seq<char>)
    requires
        differ_in_secrets(a, b, secrets),
    ensures
        map_get(a, k) is Some <==> map_get(b, k) is Some,
        !secrets.contains(k) ==> map_get(a, k) == map_get(b, k),
    decreases a.len(),
{
    if a.len() > 0 {
        lemma_differ_tail(a, b, secrets);
        lemma_differ_get(a.drop_first(), b.drop_first(), secrets, k);
    }
}

proof fn lemma_differ_insert(
    a: EntriesView,
    b: EntriesView,
    secrets: Set<Seq<char>>,
    k: Seq<char>,
    va: InputValueView,
    vb: InputValueView,
)
    requires
        differ_in_secrets(a, b, secrets),
        !secrets.contains(k) ==> va == vb,
    ensures
        differ_in_secrets(map_insert(a, k, va), map_insert(b, k, vb), secrets),
    decreases a.len(),
{
    if a.len() == 0 {
        lemma_differ_cons((k, va), (k, vb), a, b, secrets);
        assert(map_insert(a, k, va) =~= seq![(k, va)] + a);
        assert(map_insert(b, k, vb) =~= seq![(k, vb)] + b);
    } else {
        lemma_differ_tail(a, b, secrets);
        if a[0].0 == k {
            lemma_differ_cons((k, va), (k, vb), a.drop_first(), b.drop_first(), secrets);
        } else if crate::values::seq_lt(k, a[0].0) {
            lemma_differ_cons((k, va), (k, vb), a, b, secrets);
        } else {
            lemma_differ_insert(a.drop_first(), b.drop_first(), secrets, k, va, vb);
            lemma_differ_cons(
                a[0],
                b[0],
                map_insert(a.drop_first(), k, va),
                map_insert(b.drop_first(), k, vb),
                secrets,
            );
        }
    }
}

proof fn lemma_differ_remove(a: EntriesView, b: EntriesView, secrets: Set<Seq<char>>, k: Seq<char>)
    requires
        differ_in_secrets(a, b, secrets),
    ensures
        differ_in_secrets(map_remove(a, k), map_remove(b, k), secrets),
    decreases a.len(),
{
    if a.len() > 0 {
        lemma_differ_tail(a, b, secrets);
        if a[0].0 != k {
            lemma_differ_remove(a.drop_first(), b.drop_first(), secrets, k);
            lemma_differ_cons(
                a[0],
                b[0],
                map_remove(a.drop_first(), k),
                map_remove(b.drop_first(), k),
                secrets,
            );
        }
    }
}

proof fn lemma_resolve_from_differ(
    defs: Seq<InputDefinition>,
    i: int,
    s1: EntriesView,
    s2: EntriesView,
    v1: EntriesView,
    v2: EntriesView,
    files: Seq<String>,
)
    requires
        0 <= i <= defs.len(),
        differ_in_secrets(s1, s2, secret_set(defs)),
        differ_in_secrets(v1, v2, secret_set(defs)),
        resolve_from(defs, i, s1, v1, files) is Ok,
        resolve_from(defs, i, s2, v2, files) is Ok,
    ensures
        differ_in_secrets(
            resolve_from(defs, i, s1, v1, files)->Ok_0,
            resolve_from(defs, i, s2, v2, files)->Ok_0,
            secret_set(defs),
        ),
    decreases defs.len() - i,
{
    if i < defs.len() {
        let d = defs[i];
        let secrets = secret_set(defs);
        lemma_differ_get(s1, s2, secrets, d.name@);
        lemma_differ_remove(s1, s2, secrets, d.name@);
        let c1 = chosen_value(d, s1);
        let c2 = chosen_value(d, s2);
        let n1 = match c1 {
            Some(x) => x,
            None => InputValueView::Null,
        };
        let n2 = match c2 {
            Some(x) => x,
            None => InputValueView::Null,
        };
        lemma_differ_insert(v1, v2, secrets, d.name@, n1, n2);
        lemma_resolve_from_differ(
            defs,
            i + 1,
            map_remove(s1, d.name@),
            map_remove(s2, d.name@),
            map_insert(v1, d.name@, n1),
            map_insert(v2, d.name@, n2),
            files,
        );
    }
}

/// Supplied values that differ only in secret inputs resolve, where both resolve, to
/// values that differ only in secret inputs.
pub proof fn law_resolution_keeps_secrets_apart(
    defs: Seq<InputDefinition>,
    s1: EntriesView,
    s2: EntriesView,
    files: Seq<String>,
)
    requires
        differ_in_secrets(s1, s2, secret_set(defs)),
        resolution(defs, s1, files) is Ok,
        resolution(defs, s2, files) is Ok,
    ensures
        differ_in_secrets(
            resolution(defs, s1, files)->Ok_0,
            resolution(defs, s2, files)->Ok_0,
            secret_set(defs),
        ),
{
    lemma_differ_cons_empty(secret_set(defs));
    lemma_resolve_from_differ(defs, 0, s1, s2, seq![], seq![], files);
}

proof fn lemma_differ_cons_empty(secrets: Set<Seq<char>>)
    ensures
        differ_in_secrets(Seq::empty(), Seq::empty(), secrets),
{
}

/// A redacted rendering never depends on secret values: values that differ only in
/// secrets render every template to the same text, or to the same error.
pub proof fn law_redacted_rendering_hides_secrets(
    t: Seq<char>,
    a: EntriesView,
    b: EntriesView,
    secrets: Set<Seq<char>>,
)
    requires
        differ_in_secrets(a, b, secrets),
    ensures
        rendered(t, a, secrets, true) == rendered(t, b, secrets, true),
{
    assert forall|i: int| 0 <= i < a.len() implies (#[trigger] a[i]).0 == b[i].0
        && reference_text(a[i].0, a[i].1, secrets, true) == reference_text(b[i].0, b[i].1, secrets, true) by {}
    lemma_pieces_same(t, a, secrets, true, b, secrets, true);
}

/// Stored inputs never depend on secret values: values that differ only in secrets
/// redact to the same map.
pub proof fn law_redacted_values_hide_secrets(a: EntriesView, b: EntriesView, secrets: Set<Seq<char>>)
    requires
        differ_in_secrets(a, b, secrets),
    ensures
        redacted(a, secrets) == redacted(b, secrets),
{
    assert(redacted(a, secrets) =~= redacted(b, secrets));
}

/// A preparation never reveals a secret: two preparations of a workflow from supplied
/// values that differ only in secret inputs show the same inputs and the same previews.
pub proof fn law_preparation_hides_secrets(
    w: &WorkflowDefinition,
    s1: EntriesView,
    s2: EntriesView,
    files: Seq<String>,
    p1: PreparedWorkflow,
    p2: PreparedWorkflow,
)
    requires
        differ_in_secrets(s1, s2, secret_set(w.inputs@)),
        preparation(w, s1, files) is Ok,
        preparation(w, s2, files) is Ok,
        prepared_from(&p1, w, preparation(w, s1, files)->Ok_0),
        prepared_from(&p2, w, preparation(w, s2, files)->Ok_0),
    ensures
        p1.workflow_id@ == p2.workflow_id@,
        p1.workflow_version@ == p2.workflow_version@,
        p1.inputs@ == p2.inputs@,
        p1.steps@.len() == p2.steps@.len(),
        forall|k: int|
            0 <= k < p1.steps@.len() ==> (#[trigger] p1.steps@[k]).prompt_preview@
                == p2.steps@[k].prompt_preview@ && p1.steps@[k].id@ == p2.steps@[k].id@
                && p1.steps@[k].name@ == p2.steps@[k].name@,
{
    let secrets = secret_set(w.inputs@);
    law_resolution_keeps_secrets_apart(w.inputs@, s1, s2, files);
    let v1 = preparation(w, s1, files)->Ok_0;
    let v2 = preparation(w, s2, files)->Ok_0;
    law_redacted_values_hide_secrets(v1, v2, secrets);
    assert forall|k: int| 0 <= k < p1.steps@.len() implies (#[trigger] p1.steps@[k]).prompt_preview@
        == p2.steps@[k].prompt_preview@ && p1.steps@[k].id@ == p2.steps@[k].id@
        && p1.steps@[k].name@ == p2.steps@[k].name@ by {
        law_redacted_rendering_hides_secrets(w.steps@[k].spec_prompt(), v1, v2, secrets);
    }
}

/// An accepted workflow has uniquely named inputs with variable names, uniquely
/// identified steps with slug ids, and every template variable of every step is a
/// declared input.
pub proof fn law_valid_workflow_shape(w: &WorkflowDefinition)
    requires
        workflow_error(w) is None,
    ensures
        slug_shape(w.id@),
        w.steps@.len() > 0,
        forall|i: int| 0 <= i < w.inputs@.len() ==> variable_name_shape(#[trigger] w.inputs@[i].name@),
        forall|i: int, j: int|
            0 <= i < j < w.inputs@.len() ==> #[trigger] w.inputs@[i].name@ != #[trigger] w.inputs@[j].name@,
        forall|k: int| 0 <= k < w.steps@.len() ==> slug_shape(#[trigger] w.steps@[k].spec_id()),
        forall|k: int, l: int|
            0 <= k < l < w.steps@.len() ==> #[trigger] w.steps@[k].spec_id() != #[trigger] w.steps@[l].spec_id(),
        forall|k: int, m: int|
            0 <= k < w.steps@.len() && 0 <= m < template_vars(w.steps@[k].spec_prompt()).len()
                ==> input_declared(w, #[trigger] template_vars(#[trigger] w.steps@[k].spec_prompt())[m]),
{
    assert forall|i: int| 0 <= i < w.inputs@.len() implies input_error(w, i) is None
        && variable_name_shape(#[trigger] w.inputs@[i].name@) by {
        lemma_inputs_error_none(w, 0, i);
    }
    assert forall|k: int| 0 <= k < w.steps@.len() implies step_error(w, k) is None
        && slug_shape(#[trigger] w.steps@[k].spec_id()) by {
        lemma_steps_error_none(w, 0, k);
    }
    assert forall|i: int, j: int| 0 <= i < j < w.inputs@.len() implies #[trigger] w.inputs@[i].name@
        != #[trigger] w.inputs@[j].name@ by {
        assert(input_error(w, j) is None);
        if w.inputs@[i].name@ == w.inputs@[j].name@ {
            assert(crate::validation::input_named_before(w, j, w.inputs@[j].name@));
        }
    }
    assert forall|k: int, l: int| 0 <= k < l < w.steps@.len() implies #[trigger] w.steps@[k].spec_id()
        != #[trigger] w.steps@[l].spec_id() by {
        assert(step_error(w, l) is None);
        if w.steps@[k].spec_id() == w.steps@[l].spec_id() {
            assert(crate::validation::step_id_before(w, l, w.steps@[l].spec_id()));
        }
    }
    assert forall|k: int, m: int|
        0 <= k < w.steps@.len() && 0 <= m < template_vars(w.steps@[k].spec_prompt()).len()
            implies input_declared(w, #[trigger] template_vars(#[trigger] w.steps@[k].spec_prompt())[m]) by {
        assert(step_error(w, k) is None);
        lemma_first_undeclared_none(w, template_vars(w.steps@[k].spec_prompt()), m);
    }
}

proof fn lemma_inputs_error_none(w: &WorkflowDefinition, from: int, i: int)
    requires
        0 <= from <= i < w.inputs@.len(),
        inputs_error_from(w, from) is None,
    ensures
        input_error(w, i) is None,
    decreases i - from,
{
    if from < i {
        lemma_inputs_error_none(w, from + 1, i);
    }
}

proof fn lemma_steps_error_none(w: &WorkflowDefinition, from: int, k: int)
    requires
        0 <= from <= k < w.steps@.len(),
        steps_error_from(w, from) is None,
    ensures
        step_error(w, k) is None,
    decreases k - from,
{
    if from < k {
        lemma_steps_error_none(w, from + 1, k);
    }
}

proof fn lemma_first_undeclared_none(w: &WorkflowDefinition, vars: Seq<Seq<char>>, m: int)
    requires
        first_undeclared(w, vars) is None,
        0 <= m < vars.len(),
    ensures
        input_declared(w, vars[m]),
    decreases vars.len(),
{
    if m > 0 {
        lemma_first_undeclared_none(w, vars.drop_first(), m - 1);
    }
}

/// Preparation succeeds only for workflows that validation accepts.
pub proof fn law_prepared_workflows_are_valid(
    w: &WorkflowDefinition,
    values: Seq<(Seq<char>, InputValueView)>,
    files: Seq<String>,
)
    requires
        preparation(w, values, files) is Ok,
    ensures
        workflow_error(w) is None,
        resolution(w.inputs@, values, files) is Ok,
{
}

/// A supplied value for an input that the workflow does not declare is always refused.
pub proof fn law_undeclared_input_refused(
    defs: Seq<InputDefinition>,
    values: Seq<(Seq<char>, InputValueView)>,
    files: Seq<String>,
    i: int,
)
    requires
        0 <= i < values.len(),
        !defines(defs, values[i].0),
    ensures
        resolution(defs, values, files) is Err,
{
    lemma_first_unknown_some(defs, values, i);
}

proof fn lemma_first_unknown_some(defs: Seq<InputDefinition>, s: Seq<(Seq<char>, InputValueView)>, i: int)
    requires
        0 <= i < s.len(),
        !defines(defs, s[i].0),
    ensures
        first_unknown(defs, s) is Some,
    decreases s.len(),
{
    if defines(defs, s[0].0) {
        assert(s.drop_first()[i - 1] == s[i]);
        lemma_first_unknown_some(defs, s.drop_first(), i - 1);
    }
}

/// A successful resolution holds a value for every declared input.
pub proof fn law_resolution_covers_inputs(
    defs: Seq<InputDefinition>,
    values: Seq<(Seq<char>, InputValueView)>,
    files: Seq<String>,
    i: int,
)
    requires
        0 <= i < defs.len(),
        resolution(defs, values, files) is Ok,
    ensures
        map_contains(resolution(defs, values, files)->Ok_0, defs[i].name@),
{
    lemma_resolve_from_keys(defs, 0, values, seq![], files);
}

proof fn lemma_insert_keeps_keys(s: Seq<(Seq<char>, InputValueView)>, k: Seq<char>, v: InputValueView, e: Seq<char>)
    requires
        map_contains(s, e),
    ensures
        map_contains(map_insert(s, k, v), e),
    decreases s.len(),
{
    if s.len() > 0 {
        if s[0].0 == e {
            if k == e {
                assert(map_insert(s, k, v)[0].0 == e);
            } else if crate::values::seq_lt(k, s[0].0) {
                assert(map_insert(s, k, v)[1].0 == e);
            } else {
                assert(map_insert(s, k, v)[0].0 == e);
            }
        } else {
            let t = s.drop_first();
            let m = choose|m: int| 0 <= m < s.len() && #[trigger] s[m].0 == e;
            assert(t[m - 1].0 == e);
            if s[0].0 == k {
                assert(map_insert(s, k, v)[m].0 == e);
            } else if crate::values::seq_lt(k, s[0].0) {
                assert(map_insert(s, k, v)[m + 1].0 == e);
            } else {
                lemma_insert_keeps_keys(t, k, v, e);
                let r = map_insert(t, k, v);
                let n = choose|n: int| 0 <= n < r.len() && #[trigger] r[n].0 == e;
                assert(map_insert(s, k, v)[n + 1].0 == e);
            }
        }
    }
}

proof fn lemma_insert_has_key(s: Seq<(Seq<char>, InputValueView)>, k: Seq<char>, v: InputValueView)
    ensures
        map_contains(map_insert(s, k, v), k),
    decreases s.len(),
{
    if s.len() == 0 || s[0].0 == k || crate::values::seq_lt(k, s[0].0) {
        assert(map_insert(s, k, v)[0].0 == k);
    } else {
        lemma_insert_has_key(s.drop_first(), k, v);
        let r = map_insert(s.drop_first(), k, v);
        let n = choose|n: int| 0 <= n < r.len() && #[trigger] r[n].0 == k;
        assert(map_insert(s, k, v)[n + 1].0 == k);
    }
}

proof fn lemma_resolve_from_keys(
    defs: Seq<InputDefinition>,
    i: int,
    supplied: Seq<(Seq<char>, InputValueView)>,
    values: Seq<(Seq<char>, InputValueView)>,
    files: Seq<String>,
)
    requires
        0 <= i <= defs.len(),
        resolve_from(defs, i, supplied, values, files) is Ok,
    ensures
        forall|e: Seq<char>| map_contains(values, e) ==> map_contains(resolve_from(defs, i, supplied, values, files)->Ok_0, e),
        forall|j: int| i <= j < defs.len() ==> map_contains(resolve_from(defs, i, supplied, values, files)->Ok_0, #[trigger] defs[j].name@),
    decreases defs.len() - i,
{
    if i < defs.len() {
        let d = defs[i];
        let rest = crate::values::map_remove(supplied, d.name@);
        let v = match chosen_value(d, supplied) {
            Some(x) => x,
            None => InputValueView::Null,
        };
        let next = map_insert(values, d.name@, v);
        assert(resolve_from(defs, i, supplied, values, files) == resolve_from(defs, i + 1, rest, next, files));
        lemma_resolve_from_keys(defs, i + 1, rest, next, files);
        assert forall|e: Seq<char>| map_contains(values, e) implies map_contains(resolve_from(defs, i, supplied, values, files)->Ok_0, e) by {
            lemma_insert_keeps_keys(values, d.name@, v, e);
        }
        lemma_insert_has_key(values, d.name@, v);
    }
}

/// A run that completed has recorded every step of its workflow, in order, each
/// completed; a failed run ends with its one failed step.
pub proof fn law_finished_runs(x: &RunExecution)
    requires
        x.consistent(),
    ensures
        x.spec_run().status == RunStatus::Completed ==> steps_completed(
            &x.spec_run(),
            x.spec_workflow(),
            x.spec_workflow().steps@.len() as int,
        ),
        x.spec_run().status == RunStatus::Failed ==> x.spec_run().steps@.last().status == RunStatus::Failed,
{
}

/// Every state of a run names its workflow's id and version, and its stored inputs
/// hold the redaction marker, never the value, for every secret input.
pub proof fn law_runs_pin_workflow_and_hide_secrets(x: &RunExecution)
    requires
        x.consistent(),
    ensures
        x.spec_run().workflow.id@ == x.spec_workflow().id@,
        x.spec_run().workflow.version@ == x.spec_workflow().version@,
        forall|i: int|
            0 <= i < x.spec_run().inputs@.len() && secret_set(x.spec_workflow().inputs@).contains(
                (#[trigger] x.spec_run().inputs@[i]).0,
            ) ==> x.spec_run().inputs@[i].1 == InputValueView::String(REDACTED@),
{
    law_secrets_redacted(x.spec_values(), x.spec_secrets());
}

/// A key for an OpenAI-compatible endpoint is only ever sent over HTTPS, or to this
/// machine.
pub proof fn law_openai_key_needs_tls(model: Seq<char>, base_url: Seq<char>, api_key: Seq<char>)
    requires
        openai_outcome(model, base_url, api_key) is Ok,
    ensures
        parsed_url(base_url) is Some,
        parsed_url(base_url)->0.scheme == "https"@ || loopback_host(parsed_url(base_url)->0.host),
{
    assert(base_url_outcome(base_url, true) is Ok);
}

/// Ollama is only ever contacted on this machine.
pub proof fn law_ollama_is_local(model: Seq<char>, base_url: Seq<char>)
    requires
        ollama_outcome(model, base_url) is Ok,
    ensures
        parsed_url(base_url) is Some,
        loopback_host(parsed_url(base_url)->0.host),
{
    assert(base_url_outcome(base_url, false) is Ok);
}


/// Reading a key that was just written gives the written value, whatever order the
/// entries are in.
proof fn lemma_get_insert_same(m: EntriesView, k: Seq<char>, v: InputValueView)
    ensures
        map_get(map_insert(m, k, v), k) == Some(v),
    decreases m.len(),
{
    if m.len() > 0 && m[0].0 != k && !crate::values::seq_lt(k, m[0].0) {
        lemma_get_insert_same(m.drop_first(), k, v);
        assert(map_insert(m, k, v).drop_first() =~= map_insert(m.drop_first(), k, v));
    }
}

/// Writing one key leaves every other key's value as it was, whatever order the entries
/// are in.
proof fn lemma_get_insert_other(m: EntriesView, k: Seq<char>, v: InputValueView, o: Seq<char>)
    requires
        o != k,
    ensures
        map_get(map_insert(m, k, v), o) == map_get(m, o),
    decreases m.len(),
{
    if m.len() == 0 {
        assert(map_insert(m, k, v)[0].0 == k);
        assert(map_insert(m, k, v).drop_first() =~= m);
    } else if m[0].0 == k {
        assert(map_insert(m, k, v)[0].0 == k);
        assert(map_insert(m, k, v).drop_first() =~= m.drop_first());
        assert(map_get(m, o) == map_get(m.drop_first(), o));
    } else if crate::values::seq_lt(k, m[0].0) {
        assert(map_insert(m, k, v)[0].0 == k);
        assert(map_insert(m, k, v).drop_first() =~= m);
    } else {
        lemma_get_insert_other(m.drop_first(), k, v, o);
        assert(map_insert(m, k, v).drop_first() =~= map_insert(m.drop_first(), k, v));
    }
}

/// Removing one key leaves every other key's value as it was.
proof fn lemma_get_remove_other(m: EntriesView, k: Seq<char>, o: Seq<char>)
    requires
        o != k,
    ensures
        map_get(map_remove(m, k), o) == map_get(m, o),
    decreases m.len(),
{
    if m.len() > 0 && m[0].0 != k {
        lemma_get_remove_other(m.drop_first(), k, o);
        assert(map_remove(m, k).drop_first() =~= map_remove(m.drop_first(), k));
    }
}

/// Definitions whose names are all different.
pub open spec fn names_distinct(defs: Seq<InputDefinition>) -> bool {
    forall|a: int, b: int| 0 <= a < b < defs.len() ==> #[trigger] defs[a].name@ != #[trigger] defs[b].name@
}

/// Resolving later definitions leaves the value of a name that none of them has.
proof fn lemma_resolve_from_keeps(
    defs: Seq<InputDefinition>,
    i: int,
    supplied: EntriesView,
    values: EntriesView,
    files: Seq<String>,
    n: Seq<char>,
)
    requires
        0 <= i <= defs.len(),
        forall|j: int| i <= j < defs.len() ==> (#[trigger] defs[j]).name@ != n,
        resolve_from(defs, i, supplied, values, files) is Ok,
    ensures
        map_get(resolve_from(defs, i, supplied, values, files)->Ok_0, n) == map_get(values, n),
    decreases defs.len() - i,
{
    if i < defs.len() {
        let d = defs[i];
        let v = match chosen_value(d, supplied) {
            Some(x) => x,
            None => InputValueView::Null,
        };
        lemma_get_insert_other(values, d.name@, v, n);
        lemma_resolve_from_keeps(defs, i + 1, map_remove(supplied, d.name@), map_insert(values, d.name@, v), files, n);
    }
}

/// The value that resolution gives definition `k`, when `supplied` holds what was
/// supplied for its name.
proof fn lemma_resolve_from_value(
    defs: Seq<InputDefinition>,
    i: int,
    supplied: EntriesView,
    values: EntriesView,
    files: Seq<String>,
    k: int,
)
    requires
        0 <= i <= k < defs.len(),
        names_distinct(defs),
        resolve_from(defs, i, supplied, values, files) is Ok,
    ensures
        ({
            let n = defs[k].name@;
            let r = resolve_from(defs, i, supplied, values, files)->Ok_0;
            &&& map_get(supplied, n) matches Some(v) ==> map_get(r, n) == Some(v)
            &&& map_get(supplied, n) is None ==> (defs[k].default matches Some(x) ==> map_get(r, n) == Some(x@))
            &&& map_get(supplied, n) is None ==> (defs[k].default is None ==> map_get(r, n) == Some(InputValueView::Null))
        }),
    decreases defs.len() - i,
{
    let d = defs[i];
    let n = defs[k].name@;
    let v = match chosen_value(d, supplied) {
        Some(x) => x,
        None => InputValueView::Null,
    };
    if i == k {
        lemma_get_insert_same(values, n, v);
        assert forall|j: int| i + 1 <= j < defs.len() implies (#[trigger] defs[j]).name@ != n by {
            assert(defs[k].name@ != defs[j].name@);
        }
        lemma_resolve_from_keeps(defs, i + 1, map_remove(supplied, n), map_insert(values, n, v), files, n);
    } else {
        assert(defs[i].name@ != defs[k].name@);
        lemma_get_remove_other(supplied, d.name@, n);
        lemma_resolve_from_value(defs, i + 1, map_remove(supplied, d.name@), map_insert(values, d.name@, v), files, k);
    }
}

/// A supplied value wins over the default: where resolution succeeds, each input holds
/// the value supplied for it; only an input with no supplied value takes its default,
/// and one with neither holds null.
pub proof fn law_supplied_values_win(
    defs: Seq<InputDefinition>,
    supplied: EntriesView,
    files: Seq<String>,
    k: int,
)
    requires
        0 <= k < defs.len(),
        names_distinct(defs),
        resolution(defs, supplied, files) is Ok,
    ensures
        ({
            let n = defs[k].name@;
            let r = resolution(defs, supplied, files)->Ok_0;
            &&& map_get(supplied, n) matches Some(v) ==> map_get(r, n) == Some(v)
            &&& map_get(supplied, n) is None ==> (defs[k].default matches Some(x) ==> map_get(r, n) == Some(x@))
            &&& map_get(supplied, n) is None ==> (defs[k].default is None ==> map_get(r, n) == Some(InputValueView::Null))
        }),
{
    lemma_resolve_from_value(defs, 0, supplied, seq![], files, k);
}


/// The bracketed reference `<name>` matches, at the start of the template `<name>`,
/// exactly the placeholder of `name` itself, when `name` holds no `>`.
proof fn lemma_placeholder_matches(name: Seq<char>, y: Seq<char>)
    requires
        forall|i: int| 0 <= i < name.len() ==> name[i] != '>',
    ensures
        matches_at(seq!['<'] + name + seq!['>'], 0, placeholder(y)) <==> y == name,
{
    let t = seq!['<'] + name + seq!['>'];
    if y == name {
        assert(t.subrange(0, placeholder(y).len() as int) =~= placeholder(y));
    }
    if matches_at(t, 0, placeholder(y)) {
        let p = placeholder(y);
        assert(t.subrange(0, p.len() as int) == p);
        if y.len() < name.len() {
            assert(t[y.len() as int + 1] == p[y.len() as int + 1]);
            assert(t[y.len() as int + 1] == name[y.len() as int]);
        }
        assert(y.len() == name.len());
        assert forall|i: int| 0 <= i < y.len() implies y[i] == name[i] by {
            assert(t[i + 1] == p[i + 1]);
        }
        assert(y =~= name);
    }
}

/// Inserted text holds no template character.
proof fn lemma_inserted_has_no_template_char(s: Seq<char>, c: char)
    ensures
        first_template_char(inserted(s), c) is None,
    decreases s.len(),
{
    if s.len() > 0 {
        assert(inserted(s).drop_first() =~= inserted(s.drop_first()));
        lemma_inserted_has_no_template_char(s.drop_first(), c);
    }
}

/// A boolean input renders in a prompt as its JSON text: the reference `<NAME>` to an
/// input that holds `b` becomes `true` or `false`, and nothing else.
pub proof fn law_booleans_render_as_json(
    values: EntriesView,
    name: Seq<char>,
    b: bool,
    secrets: Set<Seq<char>>,
    redact: bool,
)
    requires
        map_get(values, name) == Some(InputValueView::Bool(b)),
        forall|i: int| 0 <= i < name.len() ==> name[i] != '>',
        !(redact && secrets.contains(name)),
    ensures
        rendered(seq!['<'] + name + seq!['>'], values, secrets, redact) == Ok::<Seq<char>, ErrorView>(
            if b {
                "true"@
            } else {
                "false"@
            },
        ),
{
    let t = seq!['<'] + name + seq!['>'];
    lemma_first_match(t, values, 0);
    crate::values::lemma_map_get_some(values, name);
    match first_match_from(t, values, 0) {
        Some(m) => {
            lemma_placeholder_matches(name, values[m].0);
            assert forall|j: int| 0 <= j < m implies values[j].0 != name by {
                lemma_placeholder_matches(name, values[j].0);
                assert(!matches_at(t, 0, placeholder(values[j].0)));
            }
            crate::values::lemma_map_get_first(values, name, m);
            let text = if b { "true"@ } else { "false"@ };
            assert(t.skip(placeholder(values[m].0).len() as int) =~= Seq::<char>::empty());
            assert(render_pieces(t, values, secrets, redact) =~= inserted(text) + render_pieces(
                Seq::<char>::empty(),
                values,
                secrets,
                redact,
            ));
            assert(render_pieces(t, values, secrets, redact) =~= inserted(text));
            lemma_inserted_has_no_template_char(text, '<');
            assert(pieces_text(inserted(text)) =~= text);
        },
        None => {
            let i = choose|i: int| 0 <= i < values.len() && #[trigger] values[i].0 == name;
            lemma_placeholder_matches(name, values[i].0);
        },
    }
}


/// Where the status line stands in a report.
proof fn lemma_status_line(run: &RunRecord) -> (i: int)
    ensures
        matches_at(markdown_report(run), i, "- Status: `"@ + status_name(run.status) + "`"@),
        markdown_report(run) == markdown_report(run).take(i) + ("- Status: `"@ + status_name(run.status))
            + markdown_report(run).skip(i + ("- Status: `"@ + status_name(run.status)).len()),
        markdown_report(run).take(i) == "# PTConductor Run "@ + uuid_hyphenated(run.id) + "\n\n- Workflow: `"@
            + run.workflow.id@ + "` v"@ + run.workflow.version@ + "\n"@,
        markdown_report(run).skip(i + ("- Status: `"@ + status_name(run.status)).len()) == "`\n- Started: "@
            + time_text(run.started_at) + "\n"@ + steps_sections(run.steps@) + (if run.findings@.len() == 0 {
            seq![]
        } else {
            "\n## Findings\n"@ + findings_entries(run.findings@)
        }),
{
    reveal_strlit("\n- Status: `");
    reveal_strlit("- Status: `");
    reveal_strlit("`\n- Started: ");
    reveal_strlit("`");
    reveal_strlit("\n");
    let head = "# PTConductor Run "@ + uuid_hyphenated(run.id) + "\n\n- Workflow: `"@ + run.workflow.id@ + "` v"@
        + run.workflow.version@;
    let name = status_name(run.status);
    let tail = "`\n- Started: "@ + time_text(run.started_at) + "\n"@ + steps_sections(run.steps@) + (
    if run.findings@.len() == 0 {
        seq![]
    } else {
        "\n## Findings\n"@ + findings_entries(run.findings@)
    });
    let report = markdown_report(run);
    assert(report =~= head + "\n- Status: `"@ + name + tail);
    assert("\n- Status: `"@ =~= "\n"@ + "- Status: `"@);
    let i: int = head.len() as int + 1;
    let line = "- Status: `"@ + name;
    assert(report =~= (head + "\n"@) + line + tail);
    assert(report.take(i) =~= head + "\n"@);
    assert(report.skip(i + line.len()) =~= tail);
    assert(tail[0] == '`');
    assert(report.subrange(i, i + (line + "`"@).len()) =~= line + "`"@);
    i
}

/// The report of a run names the run's status, by the name `Debug` gives it.
pub proof fn law_report_names_the_status(run: &RunRecord)
    ensures
        run.status == RunStatus::Pending ==> contains_seq(markdown_report(run), "- Status: `Pending`"@),
        run.status == RunStatus::Running ==> contains_seq(markdown_report(run), "- Status: `Running`"@),
        run.status == RunStatus::Completed ==> contains_seq(markdown_report(run), "- Status: `Completed`"@),
        run.status == RunStatus::Failed ==> contains_seq(markdown_report(run), "- Status: `Failed`"@),
        run.status == RunStatus::Cancelled ==> contains_seq(markdown_report(run), "- Status: `Cancelled`"@),
{
    let i = lemma_status_line(run);
    reveal_strlit("- Status: `");
    reveal_strlit("`");
    reveal_strlit("Pending");
    reveal_strlit("Running");
    reveal_strlit("Completed");
    reveal_strlit("Failed");
    reveal_strlit("Cancelled");
    reveal_strlit("- Status: `Pending`");
    reveal_strlit("- Status: `Running`");
    reveal_strlit("- Status: `Completed`");
    reveal_strlit("- Status: `Failed`");
    reveal_strlit("- Status: `Cancelled`");
    let pat = "- Status: `"@ + status_name(run.status) + "`"@;
    match run.status {
        RunStatus::Pending => assert(pat =~= "- Status: `Pending`"@),
        RunStatus::Running => assert(pat =~= "- Status: `Running`"@),
        RunStatus::Completed => assert(pat =~= "- Status: `Completed`"@),
        RunStatus::Failed => assert(pat =~= "- Status: `Failed`"@),
        RunStatus::Cancelled => assert(pat =~= "- Status: `Cancelled`"@),
    }
}

/// Different statuses have different names.
proof fn lemma_status_names_distinct(a: RunStatus, b: RunStatus)
    requires
        a != b,
    ensures
        status_name(a) != status_name(b),
{
    reveal_strlit("Pending");
    reveal_strlit("Running");
    reveal_strlit("Completed");
    reveal_strlit("Failed");
    reveal_strlit("Cancelled");
    let x = status_name(a);
    let y = status_name(b);
    if x == y {
        assert(x.len() == y.len());
        assert(x[0] == y[0]);
        assert(x[1] == y[1]);
    }
}

/// Runs that differ only in their status get different reports: the report always
/// tells the statuses apart.
pub proof fn law_report_tells_statuses_apart(r1: &RunRecord, r2: &RunRecord)
    requires
        r1.id == r2.id,
        r1.workflow == r2.workflow,
        r1.started_at == r2.started_at,
        r1.steps@ == r2.steps@,
        r1.findings@ == r2.findings@,
        r1.status != r2.status,
    ensures
        markdown_report(r1) != markdown_report(r2),
{
    let i1 = lemma_status_line(r1);
    let i2 = lemma_status_line(r2);
    lemma_status_names_distinct(r1.status, r2.status);
    let a = markdown_report(r1);
    let b = markdown_report(r2);
    let n1 = status_name(r1.status);
    let n2 = status_name(r2.status);
    reveal_strlit("- Status: `");
    reveal_strlit("`");
    assert(a.take(i1) == b.take(i2));
    assert(i1 == i2);
    if a == b {
        let l1 = "- Status: `"@ + n1;
        let l2 = "- Status: `"@ + n2;
        let t1 = a.skip(i1 + l1.len());
        let t2 = b.skip(i2 + l2.len());
        assert(t1 == t2);
        assert(a.len() == i1 + l1.len() + t1.len());
        assert(b.len() == i2 + l2.len() + t2.len());
        assert(n1.len() == n2.len());
        assert forall|k: int| 0 <= k < n1.len() implies n1[k] == n2[k] by {
            assert(a[i1 + 11 + k] == l1[11 + k]);
            assert(b[i2 + 11 + k] == l2[11 + k]);
        }
        assert(n1 =~= n2);
    }
}


/// The lowercase type names, lowered, are themselves.
proof fn lemma_type_names_lowercase()
    ensures
        ascii_lower_seq("text"@) == "text"@,
        ascii_lower_seq("textarea"@) == "textarea"@,
        ascii_lower_seq("url"@) == "url"@,
        ascii_lower_seq("number"@) == "number"@,
        ascii_lower_seq("boolean"@) == "boolean"@,
        ascii_lower_seq("file"@) == "file"@,
        ascii_lower_seq("secret"@) == "secret"@,
        "text"@ != "textarea"@ && "text"@ != "url"@ && "text"@ != "number"@ && "text"@ != "boolean"@
            && "text"@ != "file"@ && "text"@ != "secret"@,
        "textarea"@ != "url"@ && "textarea"@ != "number"@ && "textarea"@ != "boolean"@
            && "textarea"@ != "file"@ && "textarea"@ != "secret"@,
        "url"@ != "number"@ && "url"@ != "boolean"@ && "url"@ != "file"@ && "url"@ != "secret"@,
        "number"@ != "boolean"@ && "number"@ != "file"@ && "number"@ != "secret"@,
        "boolean"@ != "file"@ && "boolean"@ != "secret"@,
        "file"@ != "secret"@,
{
    reveal_strlit("text");
    reveal_strlit("textarea");
    reveal_strlit("url");
    reveal_strlit("number");
    reveal_strlit("boolean");
    reveal_strlit("file");
    reveal_strlit("secret");
    assert(ascii_lower_seq("text"@) =~= "text"@);
    assert(ascii_lower_seq("textarea"@) =~= "textarea"@);
    assert(ascii_lower_seq("url"@) =~= "url"@);
    assert(ascii_lower_seq("number"@) =~= "number"@);
    assert(ascii_lower_seq("boolean"@) =~= "boolean"@);
    assert(ascii_lower_seq("file"@) =~= "file"@);
    assert(ascii_lower_seq("secret"@) =~= "secret"@);
    assert("text"@[0] != "file"@[0]);
    assert("number"@[0] != "secret"@[0]);
    assert("text"@.len() != "textarea"@.len());
}

/// Each field type names its own input kind, in any ASCII case: `text`, `textarea`,
/// `url`, `number`, `boolean`, `file` and `secret` give the kinds of the same names.
pub proof fn law_type_names_parse_to_their_kinds(s: Seq<char>)
    ensures
        ascii_lower_seq(s) == "text"@ ==> kind_from_name(s) == Some(InputKind::Text),
        ascii_lower_seq(s) == "textarea"@ ==> kind_from_name(s) == Some(InputKind::Textarea),
        ascii_lower_seq(s) == "url"@ ==> kind_from_name(s) == Some(InputKind::Url),
        ascii_lower_seq(s) == "number"@ ==> kind_from_name(s) == Some(InputKind::Number),
        ascii_lower_seq(s) == "boolean"@ ==> kind_from_name(s) == Some(InputKind::Boolean),
        ascii_lower_seq(s) == "file"@ ==> kind_from_name(s) == Some(InputKind::File),
        ascii_lower_seq(s) == "secret"@ ==> kind_from_name(s) == Some(InputKind::Secret),
{
    lemma_type_names_lowercase();
}

/// Different type names never give the same kind: two names that parse to one kind are
/// the same name up to ASCII case.
pub proof fn law_type_names_are_told_apart(a: Seq<char>, b: Seq<char>)
    requires
        kind_from_name(a) is Some,
        kind_from_name(a) == kind_from_name(b),
    ensures
        ascii_lower_seq(a) == ascii_lower_seq(b),
{
    lemma_type_names_lowercase();
}


/// An Ollama body asks for JSON output exactly when the step does: a JSON request's
/// body opens with `"format":"json"` and then the messages; any other request's body
/// opens with the messages, with no format at all.
pub proof fn law_ollama_format_only_for_json(model: Seq<char>, request: AiRequest)
    ensures
        request.output_format == OutputFormat::Json ==> matches_at(
            ollama_body(model, request),
            0,
            "{\"format\":\"json\",\"messages\":"@,
        ),
        request.output_format != OutputFormat::Json ==> matches_at(
            ollama_body(model, request),
            0,
            "{\"messages\":"@,
        ),
        request.output_format != OutputFormat::Json ==> !contains_seq(
            ollama_body(model, request).take(12),
            "format"@,
        ),
{
    reveal_strlit("{\"format\":\"json\",");
    reveal_strlit("{");
    reveal_strlit("\"messages\":[{\"content\":");
    reveal_strlit("{\"format\":\"json\",\"messages\":");
    reveal_strlit("{\"messages\":");
    reveal_strlit("format");
    let body = ollama_body(model, request);
    let rest = "\"messages\":[{\"content\":"@ + json_quoted(request.prompt@) + ",\"role\":\"user\"}],\"model\":"@
        + json_quoted(model) + ",\"stream\":false}"@;
    if request.output_format == OutputFormat::Json {
        assert(body =~= "{\"format\":\"json\","@ + rest);
        let pat = "{\"format\":\"json\",\"messages\":"@;
        assert(body.subrange(0, pat.len() as int) =~= pat);
    } else {
        assert(body =~= "{"@ + rest);
        let pat = "{\"messages\":"@;
        assert(body.subrange(0, pat.len() as int) =~= pat);
        let head = body.take(12);
        assert(head =~= pat);
        if contains_seq(head, "format"@) {
            let i = choose|i: int| matches_at(head, i, "format"@);
            assert(head.subrange(i, i + 6)[0] == 'f');
            assert(head[i] == 'f');
        }
    }
}

/// Two Ollama requests that differ only in their output format get bodies that differ
/// only in the format field: the JSON body is the other body with `"format":"json",`
/// put first.
pub proof fn law_ollama_bodies_differ_by_format(model: Seq<char>, json: AiRequest, text: AiRequest)
    requires
        json.output_format == OutputFormat::Json,
        text.output_format == OutputFormat::Text,
        json.prompt@ == text.prompt@,
    ensures
        ollama_body(model, json) == "{\"format\":\"json\","@ + ollama_body(model, text).skip(1),
{
    reveal_strlit("{");
    let rest = "\"messages\":[{\"content\":"@ + json_quoted(text.prompt@) + ",\"role\":\"user\"}],\"model\":"@
        + json_quoted(model) + ",\"stream\":false}"@;
    assert(ollama_body(model, text) =~= "{"@ + rest);
    assert(ollama_body(model, text).skip(1) =~= rest);
    assert(ollama_body(model, json) =~= "{\"format\":\"json\","@ + rest);
}

} // verus!
