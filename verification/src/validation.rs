//! Workflow validation: identifiers, versions, template variables, typed input values.
use vstd::prelude::*;

use crate::domain::{InputDefinition, InputKind, StepDefinition, WorkflowDefinition, WORKFLOW_SCHEMA_VERSION};
use crate::error::{error_text, EngineError, ErrorView};
use crate::text::{
    chars_of, find_char_from, first_index_of, has_white_space, has_white_space_str,
    is_ascii_digit, is_ascii_lower, is_ascii_upper, is_blank, is_blank_str, join2, join3, str_eq,
    lemma_first_index_of, matches_at, matches_at_exec, slice_chars, string_of,
};
use crate::values::{InputValue, InputValueView};

verus! {

/// Lowercase letters and digits in parts joined by single hyphens (`a-b2-c`).
pub open spec fn slug_shape(s: Seq<char>) -> bool {
    &&& s.len() > 0
    &&& forall|i: int|
        0 <= i < s.len() ==> is_ascii_lower(#[trigger] s[i]) || is_ascii_digit(s[i]) || s[i]
            == '-'
    &&& s[0] != '-'
    &&& s[s.len() - 1] != '-'
    &&& forall|i: int| 0 <= i < s.len() - 1 ==> !(#[trigger] s[i] == '-' && s[i + 1] == '-')
}

/// An uppercase letter followed by uppercase letters, digits and underscores.
pub open spec fn variable_name_shape(s: Seq<char>) -> bool {
    &&& s.len() > 0
    &&& is_ascii_upper(s[0])
    &&& forall|i: int|
        0 <= i < s.len() ==> is_ascii_upper(#[trigger] s[i]) || is_ascii_digit(s[i]) || s[i]
            == '_'
}

/// Three non-empty runs of digits separated by two dots (`1.0.0`).
pub open spec fn version_shape(s: Seq<char>) -> bool {
    exists|a: int, b: int| version_dots(s, a, b)
}

/// `s` is a version whose dots stand at `a` and `b`.
pub open spec fn version_dots(s: Seq<char>, a: int, b: int) -> bool {
    &&& 0 < a
    &&& a + 1 < b
    &&& b + 1 < s.len()
    &&& s[a] == '.'
    &&& s[b] == '.'
    &&& forall|k: int| 0 <= k < s.len() && k != a && k != b ==> is_ascii_digit(#[trigger] s[k])
}

/// The names written as `<NAME>` in a template, in order of appearance. Each `<` is paired
/// with the first `>` after it; a pair whose content is not a variable name is skipped.
pub open spec fn template_vars(s: Seq<char>) -> Seq<Seq<char>>
    decreases s.len(),
{
    match first_index_of(s, '<') {
        None => seq![],
        Some(st) => {
            let after = s.skip(st + 1);
            match first_index_of(after, '>') {
                None => seq![],
                Some(e) => {
                    proof {
                        lemma_first_index_of(s, '<');
                        lemma_first_index_of(after, '>');
                    }
                    let cand = after.take(e);
                    (if variable_name_shape(cand) {
                        seq![cand]
                    } else {
                        seq![]
                    }) + template_vars(after.skip(e + 1))
                },
            }
        },
    }
}

pub fn is_slug(value: &str) -> (r: bool)
    ensures
        r == slug_shape(value@),
{
    let cs = chars_of(value);
    let n = cs.len();
    if n == 0 {
        return false;
    }
    let mut i: usize = 0;
    while i < n
        invariant
            cs@ == value@,
            n == cs.len(),
            n > 0,
            i <= n,
            forall|j: int|
                0 <= j < i ==> is_ascii_lower(#[trigger] cs@[j]) || is_ascii_digit(cs@[j])
                    || cs@[j] == '-',
            i > 0 ==> cs@[0] != '-',
            forall|j: int| 0 <= j < i - 1 ==> !(#[trigger] cs@[j] == '-' && cs@[j + 1] == '-'),
            forall|j: int| 0 < j < i ==> cs@[j] == '-' ==> j != n - 1,
        decreases n - i,
    {
        let c = cs[i];
        if c == '-' {
            if i == 0 || i == n - 1 || cs[i - 1] == '-' {
                return false;
            }
        } else if !(('a' <= c && c <= 'z') || ('0' <= c && c <= '9')) {
            return false;
        }
        i = i + 1;
    }
    assert(cs@[n - 1] != '-');
    true
}

pub fn is_variable_name(value: &str) -> (r: bool)
    ensures
        r == variable_name_shape(value@),
{
    let cs = chars_of(value);
    if cs.len() == 0 {
        return false;
    }
    if !('A' <= cs[0] && cs[0] <= 'Z') {
        return false;
    }
    let mut i: usize = 0;
    while i < cs.len()
        invariant
            cs@ == value@,
            i <= cs.len(),
            forall|j: int|
                0 <= j < i ==> is_ascii_upper(#[trigger] cs@[j]) || is_ascii_digit(cs@[j])
                    || cs@[j] == '_',
        decreases cs.len() - i,
    {
        let c = cs[i];
        if !(('A' <= c && c <= 'Z') || ('0' <= c && c <= '9') || c == '_') {
            return false;
        }
        i = i + 1;
    }
    true
}

pub fn is_version(value: &str) -> (r: bool)
    ensures
        r == version_shape(value@),
{
    let cs = chars_of(value);
    let n = cs.len();
    let mut first: Option<usize> = None;
    let mut second: Option<usize> = None;
    let mut i: usize = 0;
    // Every character is a digit or a dot, and there are exactly two dots.
    while i < n
        invariant
            cs@ == value@,
            n == cs.len(),
            i <= n,
            forall|j: int| 0 <= j < i ==> is_ascii_digit(#[trigger] cs@[j]) || cs@[j] == '.',
            first is None ==> second is None,
            first is None ==> forall|j: int| 0 <= j < i ==> cs@[j] != '.',
            first matches Some(a) ==> a < i && cs@[a as int] == '.' && forall|j: int|
                0 <= j < a ==> cs@[j] != '.',
            second matches Some(b) ==> first matches Some(a) && a < b && b < i && cs@[b as int]
                == '.' && forall|j: int| 0 <= j < i && j != a && j != b ==> cs@[j] != '.',
            second is None ==> (first matches Some(a) ==> forall|j: int|
                0 <= j < i && j != a ==> cs@[j] != '.'),
        decreases n - i,
    {
        let c = cs[i];
        if c == '.' {
            if first.is_none() {
                first = Some(i);
            } else if second.is_none() {
                second = Some(i);
            } else {
                // A third dot: no split gives exactly three parts.
                proof {
                    assert forall|a: int, b: int| !version_dots(value@, a, b) by {
                        let fa = first->0 as int;
                        let sb = second->0 as int;
                        if version_dots(value@, a, b) {
                            assert(cs@[fa] == '.');
                            assert(cs@[sb] == '.');
                            assert(cs@[i as int] == '.');
                            if fa != a && fa != b {
                                assert(is_ascii_digit(cs@[fa]));
                            }
                            if sb != a && sb != b {
                                assert(is_ascii_digit(cs@[sb]));
                            }
                            if i != a && i != b {
                                assert(is_ascii_digit(cs@[i as int]));
                            }
                        }
                    }
                }
                return false;
            }
        } else if !('0' <= c && c <= '9') {
            proof {
                assert forall|a: int, b: int| !version_dots(value@, a, b) by {
                    if version_dots(value@, a, b) {
                        if i != a && i != b {
                            assert(is_ascii_digit(cs@[i as int]));
                        }
                    }
                }
            }
            return false;
        }
        i = i + 1;
    }
    match (first, second) {
        (Some(a), Some(b)) => {
            let ok = 0 < a && a + 1 < b && b + 1 < n;
            proof {
                if ok {
                    assert(version_dots(value@, a as int, b as int));
                } else {
                    assert forall|x: int, y: int| !version_dots(value@, x, y) by {
                        if version_dots(value@, x, y) {
                            assert(cs@[x] == '.');
                            assert(cs@[y] == '.');
                            assert(x == a as int || x == b as int);
                            assert(y == a as int || y == b as int);
                        }
                    }
                }
            }
            ok
        },
        _ => {
            proof {
                assert forall|x: int, y: int| !version_dots(value@, x, y) by {
                    if version_dots(value@, x, y) {
                        assert(cs@[x] == '.');
                        assert(cs@[y] == '.');
                    }
                }
            }
            false
        },
    }
}

/// The characters of each string.
pub open spec fn strings_view(s: Seq<String>) -> Seq<Seq<char>> {
    s.map_values(|v: String| v@)
}

/// The template variables of a prompt, in order of appearance.
pub fn template_variables(template: &str) -> (r: Vec<String>)
    ensures
        strings_view(r@) == template_vars(template@),
{
    let cs = chars_of(template);
    let mut vars: Vec<String> = Vec::new();
    let mut pos: usize = 0;
    assert(cs@.skip(0) =~= cs@);
    loop
        invariant
            cs@ == template@,
            pos <= cs.len(),
            strings_view(vars@) + template_vars(cs@.skip(pos as int))
                == template_vars(cs@),
        ensures
            strings_view(vars@) == template_vars(cs@),
        decreases cs.len() - pos,
    {
        let ghost rest = cs@.skip(pos as int);
        let start = match find_char_from(&cs, '<', pos) {
            Some(s) => s,
            None => {
                assert(template_vars(rest) == Seq::<Seq<char>>::empty());
                assert(strings_view(vars@) + seq![] =~= strings_view(vars@));
                break ;
            },
        };
        let ghost after = rest.skip(start - pos + 1);
        assert(after =~= cs@.skip(start + 1));
        let end = match find_char_from(&cs, '>', start + 1) {
            Some(e) => e,
            None => {
                assert(template_vars(rest) == Seq::<Seq<char>>::empty());
                assert(strings_view(vars@) + seq![] =~= strings_view(vars@));
                break ;
            },
        };
        let cand = slice_chars(&cs, start + 1, end);
        let ghost e = end - (start + 1);
        assert(cand@ =~= after.take(e));
        assert(after.skip(e + 1) =~= cs@.skip(end + 1));
        let cand_s = string_of(&cand);
        let ghost prev = vars@;
        if is_variable_name(cand_s.as_str()) {
            vars.push(cand_s);
            assert(strings_view(vars@) =~= strings_view(prev).push(
                cand@,
            ));
            assert(template_vars(rest) == seq![cand@] + template_vars(cs@.skip(end + 1)));
            assert(strings_view(vars@) + template_vars(cs@.skip(end + 1))
                =~= strings_view(prev) + template_vars(rest));
        } else {
            assert(template_vars(rest) =~= template_vars(cs@.skip(end + 1)));
        }
        pos = end + 1;
    }
    vars
}

/// `s` starts with `p`.
pub open spec fn has_prefix(s: Seq<char>, p: Seq<char>) -> bool {
    matches_at(s, 0, p)
}

/// What follows the scheme of an accepted URL: a host part that is present, does not
/// start with `/`, and holds no white space.
pub open spec fn url_rest_ok(r: Seq<char>) -> bool {
    r.len() > 0 && r[0] != '/' && !has_white_space(r)
}

/// An `http://` or `https://` URL with a host part and no white space after the scheme.
pub open spec fn url_ok(s: Seq<char>) -> bool {
    ||| has_prefix(s, "http://"@) && url_rest_ok(s.skip("http://"@.len() as int))
    ||| has_prefix(s, "https://"@) && url_rest_ok(s.skip("https://"@.len() as int))
}

/// `files` lists a path equal to `p`.
pub open spec fn file_listed(files: Seq<String>, p: Seq<char>) -> bool {
    exists|i: int| 0 <= i < files.len() && #[trigger] files[i]@ == p
}

/// A required text value is not blank.
pub open spec fn text_present(required: bool, s: Seq<char>) -> bool {
    !required || !is_blank(s)
}

/// Whether `value` is acceptable for an input of `kind`. Paths of file inputs must be
/// among `existing_files` when `check_files` is set.
pub open spec fn value_matches(
    kind: InputKind,
    required: bool,
    value: InputValueView,
    check_files: bool,
    existing_files: Seq<String>,
) -> bool {
    match kind {
        InputKind::Text | InputKind::Textarea | InputKind::Secret => match value {
            InputValueView::String(s) => text_present(required, s),
            _ => false,
        },
        InputKind::File => match value {
            InputValueView::String(s) => text_present(required, s) && (!check_files
                || file_listed(existing_files, s)),
            _ => false,
        },
        InputKind::Url => match value {
            InputValueView::String(s) => url_ok(s),
            _ => false,
        },
        InputKind::Number => value is Number,
        InputKind::Boolean => value is Bool,
    }
}

/// The `Debug` text of an input kind.
pub open spec fn kind_name(kind: InputKind) -> Seq<char> {
    match kind {
        InputKind::Text => "Text"@,
        InputKind::Textarea => "Textarea"@,
        InputKind::Url => "Url"@,
        InputKind::Number => "Number"@,
        InputKind::Boolean => "Boolean"@,
        InputKind::File => "File"@,
        InputKind::Secret => "Secret"@,
    }
}

/// Why a value was rejected for an input of `kind`.
pub open spec fn mismatch_reason(kind: InputKind, check_files: bool) -> Seq<char> {
    if kind == InputKind::File && check_files {
        "expected a path to an existing file"@
    } else if kind == InputKind::Url {
        "expected a valid http:// or https:// URL"@
    } else {
        "value does not match "@ + kind_name(kind)
    }
}

pub fn kind_name_exec(kind: InputKind) -> (r: &'static str)
    ensures
        r@ == kind_name(kind),
{
    match kind {
        InputKind::Text => "Text",
        InputKind::Textarea => "Textarea",
        InputKind::Url => "Url",
        InputKind::Number => "Number",
        InputKind::Boolean => "Boolean",
        InputKind::File => "File",
        InputKind::Secret => "Secret",
    }
}

fn starts_with_literal(cs: &Vec<char>, lit: &str) -> (r: bool)
    ensures
        r == has_prefix(cs@, lit@),
{
    let lc = chars_of(lit);
    matches_at_exec(cs, 0, &lc)
}

fn url_rest_ok_exec(cs: &Vec<char>, from: usize) -> (r: bool)
    requires
        from <= cs.len(),
    ensures
        r == url_rest_ok(cs@.skip(from as int)),
{
    let rest = slice_chars(cs, from, cs.len());
    assert(rest@ =~= cs@.skip(from as int));
    if rest.len() == 0 || rest[0] == '/' {
        return false;
    }
    let s = string_of(&rest);
    !has_white_space_str(s.as_str())
}

/// Whether a string is an acceptable `http://` or `https://` URL.
pub fn url_ok_exec(value: &str) -> (r: bool)
    ensures
        r == url_ok(value@),
{
    let cs = chars_of(value);
    let http = "http://";
    let https = "https://";
    let hc = chars_of(http);
    let sc = chars_of(https);
    if starts_with_literal(&cs, http) && url_rest_ok_exec(&cs, hc.len()) {
        return true;
    }
    if starts_with_literal(&cs, https) && url_rest_ok_exec(&cs, sc.len()) {
        return true;
    }
    false
}

fn file_listed_exec(files: &Vec<String>, p: &str) -> (r: bool)
    ensures
        r == file_listed(files@, p@),
{
    let target = p.to_owned();
    let mut i: usize = 0;
    while i < files.len()
        invariant
            target@ == p@,
            i <= files.len(),
            forall|j: int| 0 <= j < i ==> files@[j]@ != p@,
        decreases files.len() - i,
    {
        if files[i] == target {
            return true;
        }
        i = i + 1;
    }
    false
}

/// Checks a value against an input definition's type, requiredness and, when
/// `check_files` is set, the existence of file paths (paths in `existing_files` exist).
pub fn validate_input_value(
    definition: &InputDefinition,
    value: &InputValue,
    check_files: bool,
    existing_files: &Vec<String>,
) -> (r: Result<(), EngineError>)
    ensures
        r is Ok <==> value_matches(
            definition.kind,
            definition.required,
            value@,
            check_files,
            existing_files@,
        ),
        r matches Err(e) ==> e@ == (ErrorView::InvalidInput {
            name: definition.name@,
            reason: mismatch_reason(definition.kind, check_files),
        }),
{
    let valid = match definition.kind {
        InputKind::Text | InputKind::Textarea | InputKind::Secret => match value.as_str() {
            Some(s) => !definition.required || !is_blank_str(s),
            None => false,
        },
        InputKind::File => match value.as_str() {
            Some(s) => (!definition.required || !is_blank_str(s)) && (!check_files
                || file_listed_exec(existing_files, s)),
            None => false,
        },
        InputKind::Url => match value.as_str() {
            Some(s) => url_ok_exec(s),
            None => false,
        },
        InputKind::Number => matches!(value, InputValue::Number(_)),
        InputKind::Boolean => matches!(value, InputValue::Bool(_)),
    };
    if valid {
        Ok(())
    } else {
        let reason = match definition.kind {
            InputKind::File if check_files => "expected a path to an existing file".to_owned(),
            InputKind::Url => "expected a valid http:// or https:// URL".to_owned(),
            kind => join2("value does not match ", kind_name_exec(kind)),
        };
        Err(EngineError::InvalidInput { name: definition.name.clone(), reason })
    }
}

// ---------------------------------------------------------------------------------------
// Whole-workflow validation
// ---------------------------------------------------------------------------------------

/// Some input before position `i` has the name `name`.
pub open spec fn input_named_before(w: &WorkflowDefinition, i: int, name: Seq<char>) -> bool {
    exists|j: int| 0 <= j < i && #[trigger] w.inputs@[j].name@ == name
}

/// Some step before position `k` has the id `id`.
pub open spec fn step_id_before(w: &WorkflowDefinition, k: int, id: Seq<char>) -> bool {
    exists|j: int| 0 <= j < k && #[trigger] w.steps@[j].spec_id() == id
}

/// The workflow declares an input named `name`.
pub open spec fn input_declared(w: &WorkflowDefinition, name: Seq<char>) -> bool {
    input_named_before(w, w.inputs@.len() as int, name)
}

/// The first of `vars` that the workflow does not declare.
pub open spec fn first_undeclared(w: &WorkflowDefinition, vars: Seq<Seq<char>>) -> Option<
    Seq<char>,
>
    decreases vars.len(),
{
    if vars.len() == 0 {
        None
    } else if !input_declared(w, vars[0]) {
        Some(vars[0])
    } else {
        first_undeclared(w, vars.drop_first())
    }
}

/// The error that input `i` causes, given the inputs before it.
pub open spec fn input_error(w: &WorkflowDefinition, i: int) -> Option<ErrorView> {
    let input = w.inputs@[i];
    let name = input.name@;
    if !variable_name_shape(name) {
        Some(
            ErrorView::InvalidWorkflow(
                "input name `"@ + name + "` must use uppercase letters, numbers, and underscores"@,
            ),
        )
    } else if input_named_before(w, i, name) {
        Some(ErrorView::InvalidWorkflow("duplicate input name: "@ + name))
    } else if is_blank(input.label@) {
        Some(ErrorView::InvalidWorkflow("input `"@ + name + "` must have a label"@))
    } else if input.kind == InputKind::Secret && input.default is Some {
        Some(
            ErrorView::InvalidWorkflow(
                "secret input `"@ + name + "` cannot define a default value"@,
            ),
        )
    } else {
        match input.default {
            Some(d) => if !value_matches(input.kind, input.required, d@, false, seq![]) {
                Some(
                    ErrorView::InvalidWorkflow(
                        "default for input `"@ + name + "` is invalid: "@ + error_text(
                            ErrorView::InvalidInput {
                                name,
                                reason: mismatch_reason(input.kind, false),
                            },
                        ),
                    ),
                )
            } else {
                None
            },
            None => None,
        }
    }
}

/// The error that step `k` causes, given the steps before it.
pub open spec fn step_error(w: &WorkflowDefinition, k: int) -> Option<ErrorView> {
    let step = w.steps@[k];
    let id = step.spec_id();
    if !slug_shape(id) {
        Some(
            ErrorView::InvalidWorkflow(
                "step id `"@ + id + "` must use lowercase letters, numbers, and single hyphens"@,
            ),
        )
    } else if step_id_before(w, k, id) {
        Some(ErrorView::InvalidWorkflow("duplicate step id: "@ + id))
    } else if is_blank(step.spec_name()) || is_blank(step.spec_prompt()) {
        Some(ErrorView::InvalidWorkflow("step `"@ + id + "` must have a name and prompt"@))
    } else {
        match first_undeclared(w, template_vars(step.spec_prompt())) {
            Some(v) => Some(
                ErrorView::InvalidWorkflow(
                    "step `"@ + id + "` references undeclared input `"@ + v + "`"@,
                ),
            ),
            None => None,
        }
    }
}

/// The first input error from position `i` on.
pub open spec fn inputs_error_from(w: &WorkflowDefinition, i: int) -> Option<ErrorView>
    decreases w.inputs@.len() - i,
{
    if i < 0 || i >= w.inputs@.len() {
        None
    } else {
        match input_error(w, i) {
            Some(e) => Some(e),
            None => inputs_error_from(w, i + 1),
        }
    }
}

/// The first step error from position `k` on.
pub open spec fn steps_error_from(w: &WorkflowDefinition, k: int) -> Option<ErrorView>
    decreases w.steps@.len() - k,
{
    if k < 0 || k >= w.steps@.len() {
        None
    } else {
        match step_error(w, k) {
            Some(e) => Some(e),
            None => steps_error_from(w, k + 1),
        }
    }
}

/// The error that validation reports for a workflow, or `None` for a valid workflow.
/// Checks run in order: schema version, id, name, version, presence of steps, then each
/// input, then each step.
pub open spec fn workflow_error(w: &WorkflowDefinition) -> Option<ErrorView> {
    if w.schema_version@ != WORKFLOW_SCHEMA_VERSION@ {
        Some(ErrorView::UnsupportedSchema(w.schema_version@))
    } else if !slug_shape(w.id@) {
        Some(
            ErrorView::InvalidWorkflow(
                "workflow id must use lowercase letters, numbers, and single hyphens"@,
            ),
        )
    } else if is_blank(w.name@) {
        Some(ErrorView::InvalidWorkflow("workflow name must not be empty"@))
    } else if !version_shape(w.version@) {
        Some(
            ErrorView::InvalidWorkflow(
                "workflow version must contain three numeric components, such as 1.0.0"@,
            ),
        )
    } else if w.steps@.len() == 0 {
        Some(ErrorView::InvalidWorkflow("workflow must contain at least one step"@))
    } else {
        match inputs_error_from(w, 0) {
            Some(e) => Some(e),
            None => steps_error_from(w, 0),
        }
    }
}

fn invalid_workflow(message: String) -> (e: EngineError)
    ensures
        e@ == ErrorView::InvalidWorkflow(message@),
{
    EngineError::InvalidWorkflow(message)
}

fn input_name_before_exec(w: &WorkflowDefinition, i: usize) -> (r: bool)
    requires
        i < w.inputs@.len(),
    ensures
        r == input_named_before(w, i as int, w.inputs@[i as int].name@),
{
    let name = &w.inputs[i].name;
    let mut j: usize = 0;
    while j < i
        invariant
            i < w.inputs@.len(),
            *name == w.inputs@[i as int].name,
            j <= i,
            forall|m: int| 0 <= m < j ==> w.inputs@[m].name@ != name@,
        decreases i - j,
    {
        if w.inputs[j].name == *name {
            return true;
        }
        j = j + 1;
    }
    false
}

fn input_declared_exec(w: &WorkflowDefinition, name: &str) -> (r: bool)
    ensures
        r == input_declared(w, name@),
{
    let target = name.to_owned();
    let mut j: usize = 0;
    while j < w.inputs.len()
        invariant
            target@ == name@,
            j <= w.inputs@.len(),
            forall|m: int| 0 <= m < j ==> w.inputs@[m].name@ != name@,
        decreases w.inputs.len() - j,
    {
        if w.inputs[j].name == target {
            assert(w.inputs@[j as int].name@ == name@);
            return true;
        }
        j = j + 1;
    }
    false
}

fn step_id_before_exec(w: &WorkflowDefinition, k: usize) -> (r: bool)
    requires
        k < w.steps@.len(),
    ensures
        r == step_id_before(w, k as int, w.steps@[k as int].spec_id()),
{
    let id = w.steps[k].id();
    let mut j: usize = 0;
    while j < k
        invariant
            k < w.steps@.len(),
            id@ == w.steps@[k as int].spec_id(),
            j <= k,
            forall|m: int| 0 <= m < j ==> w.steps@[m].spec_id() != id@,
        decreases k - j,
    {
        if str_eq(w.steps[j].id(), id) {
            return true;
        }
        j = j + 1;
    }
    false
}

/// The first variable of `vars` that the workflow does not declare.
fn first_undeclared_exec(w: &WorkflowDefinition, vars: &Vec<String>) -> (r: Option<usize>)
    ensures
        match first_undeclared(w, strings_view(vars@)) {
            Some(v) => r matches Some(m) && m < vars@.len() && vars@[m as int]@ == v,
            None => r is None,
        },
{
    let ghost all = strings_view(vars@);
    let mut m: usize = 0;
    assert(all.skip(0) =~= all);
    while m < vars.len()
        invariant
            all == strings_view(vars@),
            m <= vars@.len(),
            first_undeclared(w, all) == first_undeclared(w, all.skip(m as int)),
        decreases vars.len() - m,
    {
        assert(all.skip(m as int)[0] == vars@[m as int]@);
        assert(all.skip(m as int).drop_first() =~= all.skip(m + 1));
        if !input_declared_exec(w, vars[m].as_str()) {
            return Some(m);
        }
        m = m + 1;
    }
    None
}

/// Checks input `i` against the inputs before it.
fn check_input(w: &WorkflowDefinition, i: usize) -> (r: Result<(), EngineError>)
    requires
        i < w.inputs@.len(),
    ensures
        match input_error(w, i as int) {
            Some(e) => r matches Err(x) && x@ == e,
            None => r is Ok,
        },
{
    let input = &w.inputs[i];
    let name = input.name.as_str();
    if !is_variable_name(name) {
        return Err(
            invalid_workflow(
                join3(
                    "input name `",
                    name,
                    "` must use uppercase letters, numbers, and underscores",
                ),
            ),
        );
    }
    if input_name_before_exec(w, i) {
        return Err(invalid_workflow(join2("duplicate input name: ", name)));
    }
    if is_blank_str(input.label.as_str()) {
        return Err(invalid_workflow(join3("input `", name, "` must have a label")));
    }
    if input.kind == InputKind::Secret && input.default.is_some() {
        return Err(
            invalid_workflow(join3("secret input `", name, "` cannot define a default value")),
        );
    }
    match &input.default {
        Some(default) => {
            let no_files: Vec<String> = Vec::new();
            assert(no_files@ =~= seq![]);
            match validate_input_value(input, default, false, &no_files) {
                Ok(()) => Ok(()),
                Err(error) => {
                    let detail = error.message();
                    let mut message = join3("default for input `", name, "` is invalid: ");
                    message.append(detail.as_str());
                    Err(invalid_workflow(message))
                },
            }
        },
        None => Ok(()),
    }
}

/// Checks step `k` against the steps before it and the declared inputs.
fn check_step(w: &WorkflowDefinition, k: usize) -> (r: Result<(), EngineError>)
    requires
        k < w.steps@.len(),
    ensures
        match step_error(w, k as int) {
            Some(e) => r matches Err(x) && x@ == e,
            None => r is Ok,
        },
{
    let step = &w.steps[k];
    let id = step.id();
    if !is_slug(id) {
        return Err(
            invalid_workflow(
                join3(
                    "step id `",
                    id,
                    "` must use lowercase letters, numbers, and single hyphens",
                ),
            ),
        );
    }
    if step_id_before_exec(w, k) {
        return Err(invalid_workflow(join2("duplicate step id: ", id)));
    }
    if is_blank_str(step.name()) || is_blank_str(step.prompt()) {
        return Err(invalid_workflow(join3("step `", id, "` must have a name and prompt")));
    }
    let vars = template_variables(step.prompt());
    match first_undeclared_exec(w, &vars) {
        Some(m) => {
            let mut message = join3("step `", id, "` references undeclared input `");
            message.append(vars[m].as_str());
            message.append("`");
            Err(invalid_workflow(message))
        },
        None => Ok(()),
    }
}

/// Validates a workflow definition. It is accepted exactly when `workflow_error` finds
/// nothing, and otherwise rejected with that error.
pub fn validate_workflow(workflow: &WorkflowDefinition) -> (r: Result<(), EngineError>)
    ensures
        match workflow_error(workflow) {
            Some(e) => r matches Err(x) && x@ == e,
            None => r is Ok,
        },
{
    let w = workflow;
    if !str_eq(w.schema_version.as_str(), WORKFLOW_SCHEMA_VERSION) {
        return Err(EngineError::UnsupportedSchema(w.schema_version.clone()));
    }
    if !is_slug(w.id.as_str()) {
        return Err(
            invalid_workflow(
                "workflow id must use lowercase letters, numbers, and single hyphens".to_owned(),
            ),
        );
    }
    if is_blank_str(w.name.as_str()) {
        return Err(invalid_workflow("workflow name must not be empty".to_owned()));
    }
    if !is_version(w.version.as_str()) {
        return Err(
            invalid_workflow(
                "workflow version must contain three numeric components, such as 1.0.0".to_owned(),
            ),
        );
    }
    if w.steps.len() == 0 {
        return Err(invalid_workflow("workflow must contain at least one step".to_owned()));
    }
    let mut i: usize = 0;
    while i < w.inputs.len()
        invariant
            w == workflow,
            w.schema_version@ == WORKFLOW_SCHEMA_VERSION@,
            slug_shape(w.id@),
            !is_blank(w.name@),
            version_shape(w.version@),
            w.steps@.len() > 0,
            i <= w.inputs@.len(),
            inputs_error_from(w, 0) == inputs_error_from(w, i as int),
        decreases w.inputs.len() - i,
    {
        match check_input(w, i) {
            Ok(()) => {},
            Err(e) => {
                assert(inputs_error_from(w, i as int) == input_error(w, i as int));
                return Err(e);
            },
        }
        i = i + 1;
    }
    let mut k: usize = 0;
    while k < w.steps.len()
        invariant
            w == workflow,
            w.schema_version@ == WORKFLOW_SCHEMA_VERSION@,
            slug_shape(w.id@),
            !is_blank(w.name@),
            version_shape(w.version@),
            w.steps@.len() > 0,
            inputs_error_from(w, 0) is None,
            k <= w.steps@.len(),
            steps_error_from(w, 0) == steps_error_from(w, k as int),
        decreases w.steps.len() - k,
    {
        match check_step(w, k) {
            Ok(()) => {},
            Err(e) => {
                assert(steps_error_from(w, k as int) == step_error(w, k as int));
                return Err(e);
            },
        }
        k = k + 1;
    }
    Ok(())
}

} // verus!
