//! The parsing of command-line workflow fields and `NAME=VALUE` inputs.
use vstd::prelude::*;

use crate::domain::{InputDefinition, InputKind};
use crate::json::{json_input, parse_json_input};
use crate::values::{map_insert, EntriesView, InputValue, InputValueView, ValueMap};
use crate::validation::strings_view;
use crate::text::{
    ascii_lower_exec, ascii_lower_seq, chars_eq, chars_of, find_char, find_char_from, first_index_of,
    join3, lemma_first_index_of, slice_chars, str_eq, string_of,
};

verus! {

/// `s.splitn(n, ':')`: at most `n` parts, the last holding the rest.
pub open spec fn split_colons(s: Seq<char>, n: nat) -> Seq<Seq<char>>
    decreases n,
{
    if n <= 1 {
        seq![s]
    } else {
        match first_index_of(s, ':') {
            None => seq![s],
            Some(i) => seq![s.take(i)] + split_colons(s.skip(i + 1), (n - 1) as nat),
        }
    }
}

/// Equality up to ASCII case (`eq_ignore_ascii_case`).
pub open spec fn eq_ignore_case(a: Seq<char>, b: Seq<char>) -> bool {
    ascii_lower_seq(a) == ascii_lower_seq(b)
}

/// The input kind named by `s`, ignoring ASCII case.
pub open spec fn kind_from_name(s: Seq<char>) -> Option<InputKind> {
    if eq_ignore_case(s, "text"@) {
        Some(InputKind::Text)
    } else if eq_ignore_case(s, "textarea"@) {
        Some(InputKind::Textarea)
    } else if eq_ignore_case(s, "url"@) {
        Some(InputKind::Url)
    } else if eq_ignore_case(s, "number"@) {
        Some(InputKind::Number)
    } else if eq_ignore_case(s, "boolean"@) {
        Some(InputKind::Boolean)
    } else if eq_ignore_case(s, "file"@) {
        Some(InputKind::File)
    } else if eq_ignore_case(s, "secret"@) {
        Some(InputKind::Secret)
    } else {
        None
    }
}

/// The requiredness that a flag names, ignoring ASCII case.
pub open spec fn required_from_flag(s: Seq<char>) -> Option<bool> {
    let l = ascii_lower_seq(s);
    if l == "required"@ || l == "true"@ || l == "yes"@ {
        Some(true)
    } else if l == "optional"@ || l == "false"@ || l == "no"@ {
        Some(false)
    } else {
        None
    }
}

/// What a `NAME:TYPE:REQUIRED:LABEL` field describes: name, kind, requiredness and label,
/// or the reason it is refused.
pub open spec fn field_outcome(value: Seq<char>) -> Result<(Seq<char>, InputKind, bool, Seq<char>), Seq<char>> {
    let parts = split_colons(value, 4);
    if parts.len() != 4 {
        Err("invalid field `"@ + value + "`; expected NAME:TYPE:REQUIRED:LABEL"@)
    } else {
        match kind_from_name(parts[1]) {
            None => Err("unknown input type `"@ + parts[1] + "`"@),
            Some(kind) => match required_from_flag(parts[2]) {
                None => Err("invalid required flag `"@ + parts[2] + "`; use required or optional"@),
                Some(required) => Ok((parts[0], kind, required, parts[3])),
            },
        }
    }
}

fn lower_equals(lowered: &Vec<char>, name: &str) -> (r: bool)
    ensures
        r == (lowered@ == ascii_lower_seq(name@)),
{
    let n = ascii_lower_exec(&chars_of(name));
    chars_eq(lowered, &n)
}

fn kind_from_name_exec(s: &str) -> (r: Option<InputKind>)
    ensures
        r == kind_from_name(s@),
{
    let l = ascii_lower_exec(&chars_of(s));
    if lower_equals(&l, "text") {
        Some(InputKind::Text)
    } else if lower_equals(&l, "textarea") {
        Some(InputKind::Textarea)
    } else if lower_equals(&l, "url") {
        Some(InputKind::Url)
    } else if lower_equals(&l, "number") {
        Some(InputKind::Number)
    } else if lower_equals(&l, "boolean") {
        Some(InputKind::Boolean)
    } else if lower_equals(&l, "file") {
        Some(InputKind::File)
    } else if lower_equals(&l, "secret") {
        Some(InputKind::Secret)
    } else {
        None
    }
}

fn literal_equals(lowered: &Vec<char>, lit: &str) -> (r: bool)
    ensures
        r == (lowered@ == lit@),
{
    chars_eq(lowered, &chars_of(lit))
}

fn required_from_flag_exec(s: &str) -> (r: Option<bool>)
    ensures
        r == required_from_flag(s@),
{
    let l = ascii_lower_exec(&chars_of(s));
    if literal_equals(&l, "required") || literal_equals(&l, "true") || literal_equals(&l, "yes") {
        Some(true)
    } else if literal_equals(&l, "optional") || literal_equals(&l, "false") || literal_equals(
        &l,
        "no",
    ) {
        Some(false)
    } else {
        None
    }
}

/// `value.splitn(4, ':')`.
fn split_colons4(value: &str) -> (r: Vec<String>)
    ensures
        strings_view(r@) == split_colons(value@, 4),
{
    let cs = chars_of(value);
    let mut parts: Vec<String> = Vec::new();
    let mut pos: usize = 0;
    let mut n: usize = 4;
    assert(cs@.skip(0) =~= cs@);
    loop
        invariant_except_break
            cs@ == value@,
            pos <= cs.len(),
            1 <= n <= 4,
            strings_view(parts@) + split_colons(cs@.skip(pos as int), n as nat)
                == split_colons(value@, 4),
        ensures
            strings_view(parts@) == split_colons(value@, 4),
        decreases n,
    {
        let ghost rest = cs@.skip(pos as int);
        let ghost prev = parts@;
        if n == 1 {
            let last = slice_chars(&cs, pos, cs.len());
            assert(last@ =~= rest);
            parts.push(string_of(&last));
            assert(strings_view(parts@) =~= strings_view(prev) + seq![rest]);
            break ;
        }
        match find_char_from(&cs, ':', pos) {
            None => {
                let last = slice_chars(&cs, pos, cs.len());
                assert(last@ =~= rest);
                parts.push(string_of(&last));
                assert(strings_view(parts@) =~= strings_view(prev) + seq![rest]);
                break ;
            },
            Some(i) => {
                let piece = slice_chars(&cs, pos, i);
                assert(piece@ =~= rest.take(i - pos));
                assert(rest.skip(i - pos + 1) =~= cs@.skip(i + 1));
                parts.push(string_of(&piece));
                assert(strings_view(parts@) =~= strings_view(prev).push(piece@));
                assert(strings_view(parts@) + split_colons(cs@.skip(i + 1), (n - 1) as nat)
                    =~= strings_view(prev) + split_colons(rest, n as nat));
                pos = i + 1;
                n = n - 1;
            },
        }
    }
    parts
}

/// Parses a `NAME:TYPE:REQUIRED:LABEL` field of `workflow create` into an input
/// definition without a description or default.
pub fn parse_field(value: &str) -> (r: Result<InputDefinition, String>)
    ensures
        match field_outcome(value@) {
            Ok((name, kind, required, label)) => r matches Ok(d) && d.name@ == name && d.kind == kind
                && d.required == required && d.label@ == label && d.description is None
                && d.default is None,
            Err(m) => r matches Err(x) && x@ == m,
        },
{
    let parts = split_colons4(value);
    assert(parts@.len() == split_colons(value@, 4).len());
    if parts.len() != 4 {
        return Err(join3("invalid field `", value, "`; expected NAME:TYPE:REQUIRED:LABEL"));
    }
    assert(parts@[1]@ == split_colons(value@, 4)[1]);
    assert(parts@[2]@ == split_colons(value@, 4)[2]);
    assert(parts@[0]@ == split_colons(value@, 4)[0]);
    assert(parts@[3]@ == split_colons(value@, 4)[3]);
    let kind = match kind_from_name_exec(parts[1].as_str()) {
        Some(k) => k,
        None => {
            return Err(join3("unknown input type `", parts[1].as_str(), "`"));
        },
    };
    let required = match required_from_flag_exec(parts[2].as_str()) {
        Some(b) => b,
        None => {
            return Err(
                join3("invalid required flag `", parts[2].as_str(), "`; use required or optional"),
            );
        },
    };
    Ok(
        InputDefinition {
            name: parts[0].clone(),
            label: parts[3].clone(),
            kind,
            required,
            description: None,
            default: None,
        },
    )
}

/// How a `NAME=VALUE` input splits at its first `=`, or the reason it is refused.
pub open spec fn input_entry_outcome(entry: Seq<char>) -> Result<(Seq<char>, Seq<char>), Seq<char>> {
    match first_index_of(entry, '=') {
        None => Err("invalid input `"@ + entry + "`; expected NAME=VALUE"@),
        Some(i) => Ok((entry.take(i), entry.skip(i + 1))),
    }
}

/// Splits a `NAME=VALUE` input at its first `=`.
pub fn parse_input_entry(entry: &str) -> (r: Result<(String, String), String>)
    ensures
        match input_entry_outcome(entry@) {
            Ok((name, value)) => r matches Ok((n, v)) && n@ == name && v@ == value,
            Err(m) => r matches Err(x) && x@ == m,
        },
{
    let cs = chars_of(entry);
    match find_char(&cs, '=') {
        None => Err(join3("invalid input `", entry, "`; expected NAME=VALUE")),
        Some(i) => {
            proof {
                lemma_first_index_of(cs@, '=');
            }
            let name = slice_chars(&cs, 0, i);
            let value = slice_chars(&cs, i + 1, cs.len());
            assert(name@ =~= cs@.take(i as int));
            assert(value@ =~= cs@.skip(i + 1));
            Ok((string_of(&name), string_of(&value)))
        },
    }
}

/// The value of a `NAME=VALUE` input: the JSON value that the text holds, else the text
/// as a string.
pub open spec fn input_choice(raw: Seq<char>) -> InputValueView {
    match json_input(raw) {
        Some(v) => v,
        None => InputValueView::String(raw),
    }
}

/// The inputs from the `i`-th entry on, added to `acc`; a later entry for a name
/// replaces an earlier one, and the first malformed entry is refused.
pub open spec fn inputs_from(entries: Seq<Seq<char>>, i: int, acc: EntriesView) -> Result<EntriesView, Seq<char>>
    decreases entries.len() - i,
{
    if i < 0 || i >= entries.len() {
        Ok(acc)
    } else {
        match input_entry_outcome(entries[i]) {
            Err(m) => Err(m),
            Ok((name, raw)) => inputs_from(entries, i + 1, map_insert(acc, name, input_choice(raw))),
        }
    }
}

/// Reads the `NAME=VALUE` inputs of the command line into a map.
pub fn parse_inputs(values: Vec<String>) -> (r: Result<ValueMap, String>)
    ensures
        match inputs_from(strings_view(values@), 0, Seq::empty()) {
            Ok(m) => r matches Ok(x) && x@ == m,
            Err(e) => r matches Err(x) && x@ == e,
        },
{
    let mut map = ValueMap::new();
    let mut i: usize = 0;
    while i < values.len()
        invariant
            i <= values@.len(),
            inputs_from(strings_view(values@), 0, Seq::empty()) == inputs_from(
                strings_view(values@),
                i as int,
                map@,
            ),
        decreases values.len() - i,
    {
        let (name, raw) = match parse_input_entry(values[i].as_str()) {
            Ok(pair) => pair,
            Err(m) => {
                return Err(m);
            },
        };
        let value = match parse_json_input(raw.as_str()) {
            Some(v) => v,
            None => InputValue::String(raw),
        };
        map.insert(name, value);
        i = i + 1;
    }
    Ok(map)
}

/// The refusal of a run that would send workflow inputs to the OpenAI-compatible
/// provider without `--allow-remote`.
pub open spec fn remote_refusal() -> Seq<char> {
    "OpenAI-compatible provider transmits workflow inputs externally; pass --allow-remote to confirm"@
}

/// Runs with the OpenAI-compatible provider need the operator's confirmation that
/// inputs leave the machine.
pub fn check_remote_consent(provider: &str, allow_remote: bool) -> (r: Result<(), String>)
    ensures
        provider@ == "openai"@ && !allow_remote ==> (r matches Err(m) && m@ == remote_refusal()),
        !(provider@ == "openai"@ && !allow_remote) ==> r is Ok,
{
    if str_eq(provider, "openai") && !allow_remote {
        return Err(
            "OpenAI-compatible provider transmits workflow inputs externally; pass --allow-remote to confirm".to_owned(),
        );
    }
    Ok(())
}

/// The model a provider uses when none is named.
pub open spec fn default_model_name(provider: Seq<char>) -> Seq<char> {
    if provider == "openai"@ {
        "gpt-4o-mini"@
    } else if provider == "ollama"@ {
        "llama3.2"@
    } else {
        "mock"@
    }
}

/// The model a provider uses when none is named.
pub fn default_model(provider: &str) -> (r: &'static str)
    ensures
        r@ == default_model_name(provider@),
{
    if str_eq(provider, "openai") {
        "gpt-4o-mini"
    } else if str_eq(provider, "ollama") {
        "llama3.2"
    } else {
        "mock"
    }
}

/// Reports can be rendered as Markdown only.
pub fn check_report_format(format: &str) -> (r: Result<(), String>)
    ensures
        format@ == "markdown"@ ==> r is Ok,
        format@ != "markdown"@ ==> (r matches Err(m) && m@ == "report format `"@ + format@
            + "` is not implemented yet"@),
{
    if !str_eq(format, "markdown") {
        return Err(join3("report format `", format, "` is not implemented yet"));
    }
    Ok(())
}

} // verus!
