//! Typed input resolution, template rendering and secret redaction.
use vstd::prelude::*;

use crate::domain::{InputDefinition, InputKind};
use crate::error::{EngineError, ErrorView};
use crate::text::{chars_of, extend_chars, matches_at, matches_at_exec, slice_chars, string_of};
use crate::validation::{mismatch_reason, validate_input_value, value_matches};
use crate::values::{
    bool_text, map_get, map_insert, map_remove, name_listed, names_set, replace_listed,
    string_listed, InputValue, InputValueView, ValueMap,
};

verus! {

/// The text that replaces secret values in previews and stored runs.
pub const REDACTED: &'static str = "***REDACTED***";

/// Resolves supplied values against a workflow's input definitions.
pub struct VariableResolver;

/// Validated input values, together with the names of the secret inputs.
#[derive(Debug)]
pub struct ResolvedInputs {
    values: ValueMap,
    secret_names: Vec<String>,
}

/// Some definition has the name `k`.
pub open spec fn defines(defs: Seq<InputDefinition>, k: Seq<char>) -> bool {
    exists|i: int| 0 <= i < defs.len() && #[trigger] defs[i].name@ == k
}

/// Some definition of a secret input has the name `k`.
pub open spec fn defines_secret(defs: Seq<InputDefinition>, k: Seq<char>) -> bool {
    exists|i: int| 0 <= i < defs.len() && #[trigger] defs[i].name@ == k && defs[i].kind == InputKind::Secret
}

/// The names of the secret inputs among `defs`.
pub open spec fn secret_set(defs: Seq<InputDefinition>) -> Set<Seq<char>> {
    Set::new(|k: Seq<char>| defines_secret(defs, k))
}

/// The first supplied name, in name order, that no definition declares.
pub open spec fn first_unknown(defs: Seq<InputDefinition>, s: Seq<(Seq<char>, InputValueView)>) -> Option<Seq<char>>
    decreases s.len(),
{
    if s.len() == 0 {
        None
    } else if !defines(defs, s[0].0) {
        Some(s[0].0)
    } else {
        first_unknown(defs, s.drop_first())
    }
}

/// The value for a definition: the supplied one, else its default.
pub open spec fn chosen_value(d: InputDefinition, supplied: Seq<(Seq<char>, InputValueView)>) -> Option<InputValueView> {
    match map_get(supplied, d.name@) {
        Some(v) => Some(v),
        None => match d.default {
            Some(x) => Some(x@),
            None => None,
        },
    }
}

/// Resolution of definitions `i..` in order, consuming supplied values and filling
/// `values`. A missing optional value resolves to null; a missing required value or a
/// value of the wrong type is an error. File inputs must name a path in `files`.
pub open spec fn resolve_from(
    defs: Seq<InputDefinition>,
    i: int,
    supplied: Seq<(Seq<char>, InputValueView)>,
    values: Seq<(Seq<char>, InputValueView)>,
    files: Seq<String>,
) -> Result<Seq<(Seq<char>, InputValueView)>, ErrorView>
    decreases defs.len() - i,
{
    if i < 0 || i >= defs.len() {
        Ok(values)
    } else {
        let d = defs[i];
        let rest = map_remove(supplied, d.name@);
        match chosen_value(d, supplied) {
            None => if d.required {
                Err(ErrorView::InvalidInput { name: d.name@, reason: "required value is missing"@ })
            } else {
                resolve_from(defs, i + 1, rest, map_insert(values, d.name@, InputValueView::Null), files)
            },
            Some(v) => if !value_matches(d.kind, d.required, v, true, files) {
                Err(ErrorView::InvalidInput { name: d.name@, reason: mismatch_reason(d.kind, true) })
            } else {
                resolve_from(defs, i + 1, rest, map_insert(values, d.name@, v), files)
            },
        }
    }
}

/// The outcome of resolving `supplied` against `defs`: an undeclared supplied name is
/// rejected first, then each definition is resolved in order.
pub open spec fn resolution(
    defs: Seq<InputDefinition>,
    supplied: Seq<(Seq<char>, InputValueView)>,
    files: Seq<String>,
) -> Result<Seq<(Seq<char>, InputValueView)>, ErrorView> {
    match first_unknown(defs, supplied) {
        Some(k) => Err(
            ErrorView::InvalidInput { name: k, reason: "input is not declared by this workflow"@ },
        ),
        None => resolve_from(defs, 0, supplied, seq![], files),
    }
}

/// The text a value contributes to a rendered prompt.
pub open spec fn replacement_text(v: InputValueView) -> Seq<char> {
    match v {
        InputValueView::Null => seq![],
        InputValueView::Bool(b) => bool_text(b),
        InputValueView::Number(n) => n,
        InputValueView::String(s) => s,
        InputValueView::Composite(c) => c,
    }
}

/// The text that a reference to input `name` renders to: the redaction marker for a
/// secret when redacting, otherwise the value's text.
pub open spec fn reference_text(
    name: Seq<char>,
    v: InputValueView,
    secrets: Set<Seq<char>>,
    redact: bool,
) -> Seq<char> {
    if redact && secrets.contains(name) {
        REDACTED@
    } else {
        replacement_text(v)
    }
}

/// The placeholder `<name>` of an input.
pub open spec fn placeholder(name: Seq<char>) -> Seq<char> {
    seq!['<'] + name + seq!['>']
}

/// The position, from `j` on, of the first value whose placeholder begins `t`.
pub open spec fn first_match_from(
    t: Seq<char>,
    values: Seq<(Seq<char>, InputValueView)>,
    j: int,
) -> Option<int>
    decreases values.len() - j,
{
    if j < 0 || j >= values.len() {
        None
    } else if matches_at(t, 0, placeholder(values[j].0)) {
        Some(j)
    } else {
        first_match_from(t, values, j + 1)
    }
}

pub proof fn lemma_first_match(t: Seq<char>, values: Seq<(Seq<char>, InputValueView)>, j: int)
    requires
        0 <= j,
    ensures
        first_match_from(t, values, j) matches Some(m) ==> j <= m < values.len() && 0 <= m
            && matches_at(t, 0, placeholder(values[m].0)) && forall|i: int|
            j <= i < m ==> !matches_at(t, 0, #[trigger] placeholder(values[i].0)),
        first_match_from(t, values, j) is None ==> forall|m: int|
            j <= m < values.len() && 0 <= m ==> !matches_at(t, 0, #[trigger] placeholder(values[m].0)),
    decreases values.len() - j,
{
    if j < values.len() && !matches_at(t, 0, placeholder(values[j].0)) {
        lemma_first_match(t, values, j + 1);
    }
}

/// Text inserted into a rendering, marked as not coming from the template.
pub open spec fn inserted(s: Seq<char>) -> Seq<(char, bool)> {
    s.map_values(|c: char| (c, false))
}

/// The characters of a rendered template, each marked `true` where it is template text
/// and `false` where it is inserted. The template is read once, from left to right; at
/// each position the first input, in name order, whose placeholder starts there is
/// replaced by its text, and inserted text is never read again as template text.
pub open spec fn render_pieces(
    t: Seq<char>,
    values: Seq<(Seq<char>, InputValueView)>,
    secrets: Set<Seq<char>>,
    redact: bool,
) -> Seq<(char, bool)>
    decreases t.len(),
{
    if t.len() == 0 {
        seq![]
    } else {
        match first_match_from(t, values, 0) {
            Some(j) => {
                proof {
                    lemma_first_match(t, values, 0);
                }
                inserted(reference_text(values[j].0, values[j].1, secrets, redact)) + render_pieces(
                    t.skip(placeholder(values[j].0).len() as int),
                    values,
                    secrets,
                    redact,
                )
            },
            None => seq![(t[0], true)] + render_pieces(t.drop_first(), values, secrets, redact),
        }
    }
}

/// The position of the first template character `c` among the pieces.
pub open spec fn first_template_char(p: Seq<(char, bool)>, c: char) -> Option<int>
    decreases p.len(),
{
    if p.len() == 0 {
        None
    } else if p[0] == (c, true) {
        Some(0)
    } else {
        match first_template_char(p.drop_first(), c) {
            Some(i) => Some(i + 1),
            None => None,
        }
    }
}

/// The characters of the pieces.
pub open spec fn pieces_text(p: Seq<(char, bool)>) -> Seq<char> {
    p.map_values(|x: (char, bool)| x.0)
}

/// A template rendered with the given values: every placeholder of an input replaced by
/// its text. A `<` of the template followed, later in the template, by a `>` is then an
/// unresolved reference, named by the text between them.
pub open spec fn rendered(
    t: Seq<char>,
    values: Seq<(Seq<char>, InputValueView)>,
    secrets: Set<Seq<char>>,
    redact: bool,
) -> Result<Seq<char>, ErrorView> {
    let p = render_pieces(t, values, secrets, redact);
    let out = pieces_text(p);
    match first_template_char(p, '<') {
        None => Ok(out),
        Some(a) => match first_template_char(p.skip(a), '>') {
            None => Ok(out),
            Some(b) => Err(ErrorView::UnresolvedVariable(out.subrange(a + 1, a + b))),
        },
    }
}

proof fn lemma_first_template_char(p: Seq<(char, bool)>, c: char)
    ensures
        match first_template_char(p, c) {
            Some(i) => 0 <= i < p.len() && p[i] == (c, true) && forall|j: int| 0 <= j < i ==> p[j] != (c, true),
            None => forall|j: int| 0 <= j < p.len() ==> p[j] != (c, true),
        },
    decreases p.len(),
{
    if p.len() > 0 && p[0] != (c, true) {
        lemma_first_template_char(p.drop_first(), c);
        assert forall|j: int| 0 < j < p.len() implies p[j] == p.drop_first()[j - 1] by {}
    }
}

/// The first template character `c` from position `from` on is found by a scan.
proof fn lemma_first_template_char_unique(p: Seq<(char, bool)>, c: char, i: int)
    requires
        0 <= i <= p.len(),
        forall|j: int| 0 <= j < i ==> p[j] != (c, true),
        i < p.len() ==> p[i] == (c, true),
    ensures
        first_template_char(p, c) == (if i < p.len() { Some(i) } else { None::<int> }),
    decreases p.len(),
{
    if p.len() > 0 && i > 0 {
        assert forall|j: int| 0 <= j < i - 1 implies p.drop_first()[j] != (c, true) by {
            assert(p.drop_first()[j] == p[j + 1]);
        }
        lemma_first_template_char_unique(p.drop_first(), c, i - 1);
    }
}

impl ResolvedInputs {
    /// The resolved values, in name order.
    pub closed spec fn values_view(&self) -> Seq<(Seq<char>, InputValueView)> {
        self.values@
    }

    /// The names of the secret inputs.
    pub closed spec fn secrets(&self) -> Set<Seq<char>> {
        names_set(self.secret_names@)
    }

    /// Renders a template with every value, secrets included.
    pub fn render(&self, template: &str) -> (r: Result<String, EngineError>)
        ensures
            match rendered(template@, self.values_view(), self.secrets(), false) {
                Ok(s) => r matches Ok(x) && x@ == s,
                Err(e) => r matches Err(x) && x@ == e,
            },
    {
        self.render_with_secrets(template, false)
    }

    /// Renders a template with secret values replaced by the redaction marker.
    pub fn render_redacted(&self, template: &str) -> (r: Result<String, EngineError>)
        ensures
            match rendered(template@, self.values_view(), self.secrets(), true) {
                Ok(s) => r matches Ok(x) && x@ == s,
                Err(e) => r matches Err(x) && x@ == e,
            },
    {
        self.render_with_secrets(template, true)
    }

    /// The position of the first value whose placeholder starts at `pos` in `cs`.
    fn match_at(&self, cs: &Vec<char>, pos: usize) -> (r: Option<usize>)
        requires
            pos <= cs.len(),
        ensures
            r matches Some(j) ==> first_match_from(cs@.skip(pos as int), self.values_view(), 0) == Some(j as int),
            r is None ==> first_match_from(cs@.skip(pos as int), self.values_view(), 0) is None,
    {
        let ghost t = cs@.skip(pos as int);
        let mut j: usize = 0;
        while j < self.values.len()
            invariant
                j <= self.values@.len(),
                t == cs@.skip(pos as int),
                pos <= cs.len(),
                first_match_from(t, self.values_view(), 0) == first_match_from(t, self.values_view(), j as int),
            decreases self.values@.len() - j,
        {
            let mut pattern = chars_of("<");
            let key = chars_of(self.values.key_at(j).as_str());
            extend_chars(&mut pattern, &key);
            let close = chars_of(">");
            extend_chars(&mut pattern, &close);
            proof {
                reveal_strlit("<");
                reveal_strlit(">");
                assert(pattern@ =~= placeholder(self.values@[j as int].0));
                if pos + pattern@.len() <= cs@.len() {
                    assert(t.subrange(0, pattern@.len() as int) =~= cs@.subrange(pos as int, pos + pattern@.len()));
                }
            }
            if matches_at_exec(cs, pos, &pattern) {
                return Some(j);
            }
            j = j + 1;
        }
        None
    }

    /// The text inserted for the value at position `j`.
    fn reference_chars(&self, j: usize, redact_secrets: bool) -> (r: Vec<char>)
        requires
            j < self.values_view().len(),
        ensures
            r@ == reference_text(self.values_view()[j as int].0, self.values_view()[j as int].1, self.secrets(), redact_secrets),
    {
        let name = self.values.key_at(j);
        if redact_secrets && string_listed(&self.secret_names, name) {
            chars_of(REDACTED)
        } else {
            replacement_chars(self.values.value_at(j))
        }
    }

    fn render_with_secrets(&self, template: &str, redact_secrets: bool) -> (r: Result<String, EngineError>)
        ensures
            match rendered(template@, self.values_view(), self.secrets(), redact_secrets) {
                Ok(s) => r matches Ok(x) && x@ == s,
                Err(e) => r matches Err(x) && x@ == e,
            },
    {
        let ghost vals = self.values_view();
        let ghost secrets = self.secrets();
        let cs = chars_of(template);
        let mut pieces: Vec<(char, bool)> = Vec::new();
        let mut pos: usize = 0;
        assert(cs@.skip(0) =~= cs@);
        while pos < cs.len()
            invariant
                cs@ == template@,
                vals == self.values_view(),
                secrets == self.secrets(),
                pos <= cs.len(),
                pieces@ + render_pieces(cs@.skip(pos as int), vals, secrets, redact_secrets)
                    == render_pieces(cs@, vals, secrets, redact_secrets),
            decreases cs.len() - pos,
        {
            let ghost t = cs@.skip(pos as int);
            let ghost before = pieces@;
            proof {
                lemma_first_match(t, vals, 0);
            }
            match self.match_at(&cs, pos) {
                Some(j) => {
                    let text = self.reference_chars(j, redact_secrets);
                    let mut k: usize = 0;
                    while k < text.len()
                        invariant
                            k <= text@.len(),
                            pieces@ == before + inserted(text@).subrange(0, k as int),
                        decreases text.len() - k,
                    {
                        pieces.push((text[k], false));
                        assert(inserted(text@).subrange(0, k + 1) =~= inserted(text@).subrange(0, k as int).push((text@[k as int], false)));
                        k = k + 1;
                    }
                    assert(inserted(text@).subrange(0, k as int) =~= inserted(text@));
                    let key_len = self.values.key_at(j).unicode_len();
                    proof {
                        assert(matches_at(t, 0, placeholder(vals[j as int].0)));
                        assert(placeholder(vals[j as int].0).len() == key_len + 2);
                    }
                    let width = key_len + 2;
                    proof {
                        assert(width == placeholder(vals[j as int].0).len());
                        assert(t.skip(width as int) =~= cs@.skip(pos + width));
                        assert(pieces@ + render_pieces(cs@.skip(pos + width), vals, secrets, redact_secrets)
                            =~= before + render_pieces(t, vals, secrets, redact_secrets));
                    }
                    pos = pos + width;
                },
                None => {
                    pieces.push((cs[pos], true));
                    proof {
                        assert(t[0] == cs@[pos as int]);
                        assert(t.drop_first() =~= cs@.skip(pos + 1));
                        assert(pieces@ + render_pieces(cs@.skip(pos + 1), vals, secrets, redact_secrets)
                            =~= before + render_pieces(t, vals, secrets, redact_secrets));
                    }
                    pos = pos + 1;
                },
            }
        }
        assert(cs@.skip(pos as int) =~= Seq::<char>::empty());
        assert(pieces@ =~= render_pieces(cs@, vals, secrets, redact_secrets));
        let ghost p = pieces@;
        let mut out: Vec<char> = Vec::new();
        let mut i: usize = 0;
        while i < pieces.len()
            invariant
                p == pieces@,
                i <= pieces@.len(),
                out@ == pieces_text(p).subrange(0, i as int),
            decreases pieces.len() - i,
        {
            out.push(pieces[i].0);
            assert(pieces_text(p).subrange(0, i + 1) =~= pieces_text(p).subrange(0, i as int).push(p[i as int].0));
            i = i + 1;
        }
        assert(pieces_text(p).subrange(0, i as int) =~= pieces_text(p));
        proof {
            lemma_first_template_char(p, '<');
        }
        let mut a: usize = 0;
        while a < pieces.len() && !(pieces[a].0 == '<' && pieces[a].1)
            invariant
                p == pieces@,
                a <= p.len(),
                forall|j: int| 0 <= j < a ==> p[j] != ('<', true),
            decreases pieces.len() - a,
        {
            a = a + 1;
        }
        proof {
            lemma_first_template_char_unique(p, '<', a as int);
        }
        if a == pieces.len() {
            return Ok(string_of(&out));
        }
        let mut b: usize = a;
        while b < pieces.len() && !(pieces[b].0 == '>' && pieces[b].1)
            invariant
                p == pieces@,
                a <= b <= p.len(),
                p[a as int] == ('<', true),
                forall|j: int| a <= j < b ==> p[j] != ('>', true),
            decreases pieces.len() - b,
        {
            b = b + 1;
        }
        proof {
            assert forall|j: int| 0 <= j < b - a implies p.skip(a as int)[j] != ('>', true) by {
                assert(p.skip(a as int)[j] == p[a + j]);
            }
            if b < p.len() {
                assert(p.skip(a as int)[b - a] == p[b as int]);
            }
            lemma_first_template_char_unique(p.skip(a as int), '>', b - a);
        }
        if b == pieces.len() {
            return Ok(string_of(&out));
        }
        let name = slice_chars(&out, a + 1, b);
        Err(EngineError::UnresolvedVariable(string_of(&name)))
    }

    /// The values as stored in run records: secrets replaced by the redaction marker.
    pub fn redacted_values(&self) -> (r: ValueMap)
        ensures
            r@ == replace_listed(
                self.values_view(),
                self.secrets(),
                InputValueView::String(REDACTED@),
            ),
    {
        let marker = InputValue::String(REDACTED.to_owned());
        self.values.with_listed_replaced(&self.secret_names, &marker)
    }
}

/// The characters a value contributes to a rendered prompt.
fn replacement_chars(v: &InputValue) -> (r: Vec<char>)
    ensures
        r@ == replacement_text(v@),
{
    match v {
        InputValue::Null => Vec::new(),
        InputValue::Bool(b) => if *b {
            chars_of("true")
        } else {
            chars_of("false")
        },
        InputValue::Number(n) => chars_of(n.as_str()),
        InputValue::String(s) => chars_of(s.as_str()),
        InputValue::Composite(c) => chars_of(c.as_str()),
    }
}

fn declares(definitions: &Vec<InputDefinition>, name: &String) -> (r: bool)
    ensures
        r == defines(definitions@, name@),
{
    let mut i: usize = 0;
    while i < definitions.len()
        invariant
            i <= definitions@.len(),
            forall|j: int| 0 <= j < i ==> definitions@[j].name@ != name@,
        decreases definitions.len() - i,
    {
        if definitions[i].name == *name {
            return true;
        }
        i = i + 1;
    }
    false
}

impl VariableResolver {
    /// Resolves supplied values against input definitions. Every supplied name must be
    /// declared; each definition then takes its supplied value, else its default, and the
    /// value must match the definition's type. Paths in `existing_files` are the file
    /// paths that exist.
    pub fn resolve(
        definitions: &Vec<InputDefinition>,
        supplied: ValueMap,
        existing_files: &Vec<String>,
    ) -> (r: Result<ResolvedInputs, EngineError>)
        ensures
            match resolution(definitions@, supplied@, existing_files@) {
                Ok(values) => r matches Ok(x) && x.values_view() == values && x.secrets()
                    == secret_set(definitions@),
                Err(e) => r matches Err(x) && x@ == e,
            },
    {
        let ghost given = supplied@;
        let mut remaining = supplied;
        let mut i: usize = 0;
        assert(given.skip(0) =~= given);
        while i < remaining.len()
            invariant
                remaining@ == given,
                given == supplied@,
                i <= given.len(),
                first_unknown(definitions@, given) == first_unknown(
                    definitions@,
                    given.skip(i as int),
                ),
            decreases given.len() - i,
        {
            let key = remaining.key_at(i);
            assert(given.skip(i as int)[0] == given[i as int]);
            assert(given.skip(i as int).drop_first() =~= given.skip(i + 1));
            if !declares(definitions, key) {
                return Err(
                    EngineError::InvalidInput {
                        name: key.clone(),
                        reason: "input is not declared by this workflow".to_owned(),
                    },
                );
            }
            i = i + 1;
        }
        assert(first_unknown(definitions@, given) is None);
        let mut values = ValueMap::new();
        let mut secret_names: Vec<String> = Vec::new();
        let mut d: usize = 0;
        while d < definitions.len()
            invariant
                d <= definitions@.len(),
                given == supplied@,
                resolution(definitions@, given, existing_files@) == resolve_from(
                    definitions@,
                    d as int,
                    remaining@,
                    values@,
                    existing_files@,
                ),
                forall|k: Seq<char>|
                    name_listed(secret_names@, k) <==> (exists|j: int|
                        0 <= j < d && #[trigger] definitions@[j].name@ == k
                            && definitions@[j].kind == InputKind::Secret),
            decreases definitions.len() - d,
        {
            let definition = &definitions[d];
            let ghost before = secret_names@;
            if definition.kind == InputKind::Secret {
                secret_names.push(definition.name.clone());
            }
            assert forall|k: Seq<char>|
                name_listed(secret_names@, k) <==> (exists|j: int|
                    0 <= j < d + 1 && #[trigger] definitions@[j].name@ == k
                        && definitions@[j].kind == InputKind::Secret) by {
                if name_listed(secret_names@, k) {
                    let m = choose|m: int| 0 <= m < secret_names@.len() && #[trigger] secret_names@[m]@ == k;
                    if m < before.len() {
                        assert(before[m] == secret_names@[m]);
                        assert(name_listed(before, k));
                        let j = choose|j: int|
                            0 <= j < d && #[trigger] definitions@[j].name@ == k
                                && definitions@[j].kind == InputKind::Secret;
                        assert(0 <= j < d + 1);
                    } else {
                        assert(definitions@[d as int].name@ == k);
                    }
                }
                if exists|j: int|
                    0 <= j < d + 1 && #[trigger] definitions@[j].name@ == k
                        && definitions@[j].kind == InputKind::Secret {
                    let j = choose|j: int|
                        0 <= j < d + 1 && #[trigger] definitions@[j].name@ == k
                            && definitions@[j].kind == InputKind::Secret;
                    if j < d {
                        assert(exists|jj: int|
                            0 <= jj < d && #[trigger] definitions@[jj].name@ == k
                                && definitions@[jj].kind == InputKind::Secret);
                        assert(name_listed(before, k));
                        let m = choose|m: int| 0 <= m < before.len() && #[trigger] before[m]@ == k;
                        assert(secret_names@[m] == before[m]);
                        assert(name_listed(secret_names@, k));
                    } else {
                        assert(secret_names@[before.len() as int]@ == k);
                    }
                }
            }
            let ghost supplied_before = remaining@;
            let found = remaining.remove(definition.name.as_str());
            let value = match found {
                Some(v) => Some(v),
                None => match &definition.default {
                    Some(x) => Some(x.duplicate()),
                    None => None,
                },
            };
            assert(match value {
                Some(v) => chosen_value(*definition, supplied_before) == Some(v@),
                None => chosen_value(*definition, supplied_before) is None,
            });
            match value {
                None => {
                    if definition.required {
                        return Err(
                            EngineError::InvalidInput {
                                name: definition.name.clone(),
                                reason: "required value is missing".to_owned(),
                            },
                        );
                    }
                    values.insert(definition.name.clone(), InputValue::Null);
                },
                Some(v) => {
                    match validate_input_value(definition, &v, true, existing_files) {
                        Ok(()) => {},
                        Err(e) => {
                            return Err(e);
                        },
                    }
                    values.insert(definition.name.clone(), v);
                },
            }
            d = d + 1;
        }
        let r = ResolvedInputs { values, secret_names };
        assert(r.secrets() =~= secret_set(definitions@));
        Ok(r)
    }
}

} // verus!
