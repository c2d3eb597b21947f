//! The desktop host's rule for which workflow files it may open.
use vstd::prelude::*;

use crate::text::{
    chars_eq, chars_of, find_char_from, first_index_of, join2, lemma_first_index_of,
    matches_at, slice_chars, string_of,
};

verus! {

/// The pieces of `s` between `/` separators.
pub open spec fn split_slashes(s: Seq<char>) -> Seq<Seq<char>>
    decreases s.len(),
{
    match first_index_of(s, '/') {
        None => seq![s],
        Some(i) => {
            proof {
                lemma_first_index_of(s, '/');
            }
            seq![s.take(i)] + split_slashes(s.skip(i + 1))
        },
    }
}

/// The pieces that name path components: not empty and not `.`.
pub open spec fn normal_parts(parts: Seq<Seq<char>>) -> Seq<Seq<char>>
    decreases parts.len(),
{
    if parts.len() == 0 {
        seq![]
    } else {
        (if parts[0].len() > 0 && parts[0] != "."@ {
            seq![parts[0]]
        } else {
            seq![]
        }) + normal_parts(parts.drop_first())
    }
}

/// The components of a path as `Path::components` yields them on Unix: the root `/` for
/// an absolute path, `.` for a path that starts with `./` or is `.`, then every piece
/// between separators that is neither empty nor `.`.
pub open spec fn path_components(s: Seq<char>) -> Seq<Seq<char>> {
    (if s.len() > 0 && s[0] == '/' {
        seq!["/"@]
    } else if s == "."@ || matches_at(s, 0, "./"@) {
        seq!["."@]
    } else {
        seq![]
    }) + normal_parts(split_slashes(s))
}

/// `Path::starts_with`: the components of `base` begin the components of `path`.
pub open spec fn path_starts_with(path: Seq<char>, base: Seq<char>) -> bool {
    let p = path_components(path);
    let b = path_components(base);
    b.len() <= p.len() && p.subrange(0, b.len() as int) == b
}

/// The characters of each piece.
pub open spec fn pieces_view(v: Seq<Vec<char>>) -> Seq<Seq<char>> {
    v.map_values(|x: Vec<char>| x@)
}

fn split_slashes_exec(cs: &Vec<char>) -> (r: Vec<Vec<char>>)
    ensures
        pieces_view(r@) == split_slashes(cs@),
{
    let mut parts: Vec<Vec<char>> = Vec::new();
    let mut pos: usize = 0;
    assert(cs@.skip(0) =~= cs@);
    loop
        invariant_except_break
            pos <= cs.len(),
            pieces_view(parts@) + split_slashes(cs@.skip(pos as int)) == split_slashes(cs@),
        ensures
            pieces_view(parts@) == split_slashes(cs@),
        decreases cs.len() - pos,
    {
        let ghost rest = cs@.skip(pos as int);
        let ghost prev = parts@;
        match find_char_from(cs, '/', pos) {
            None => {
                let last = slice_chars(cs, pos, cs.len());
                assert(last@ =~= rest);
                parts.push(last);
                assert(pieces_view(parts@) =~= pieces_view(prev) + seq![rest]);
                break ;
            },
            Some(i) => {
                let piece = slice_chars(cs, pos, i);
                assert(piece@ =~= rest.take(i - pos));
                assert(rest.skip(i - pos + 1) =~= cs@.skip(i + 1));
                parts.push(piece);
                assert(pieces_view(parts@) =~= pieces_view(prev).push(piece@));
                assert(pieces_view(parts@) + split_slashes(cs@.skip(i + 1)) =~= pieces_view(prev)
                    + split_slashes(rest));
                pos = i + 1;
            },
        }
    }
    parts
}

fn normal_parts_exec(parts: &Vec<Vec<char>>) -> (r: Vec<Vec<char>>)
    ensures
        pieces_view(r@) == normal_parts(pieces_view(parts@)),
{
    let ghost all = pieces_view(parts@);
    let mut out: Vec<Vec<char>> = Vec::new();
    let mut i: usize = 0;
    let dot = chars_of(".");
    assert(all.skip(0) =~= all);
    while i < parts.len()
        invariant
            all == pieces_view(parts@),
            dot@ == "."@,
            i <= parts.len(),
            pieces_view(out@) + normal_parts(all.skip(i as int)) == normal_parts(all),
        decreases parts.len() - i,
    {
        let ghost prev = out@;
        assert(all.skip(i as int)[0] == parts@[i as int]@);
        assert(all.skip(i as int).drop_first() =~= all.skip(i + 1));
        let p = &parts[i];
        if p.len() > 0 && !chars_eq(p, &dot) {
            let mut copy: Vec<char> = Vec::new();
            crate::text::extend_chars(&mut copy, p);
            assert(copy@ =~= p@);
            out.push(copy);
            assert(pieces_view(out@) =~= pieces_view(prev).push(p@));
            assert(pieces_view(out@) + normal_parts(all.skip(i + 1)) =~= pieces_view(prev)
                + normal_parts(all.skip(i as int)));
        } else {
            assert(normal_parts(all.skip(i as int)) =~= normal_parts(all.skip(i + 1)));
        }
        i = i + 1;
    }
    assert(all.skip(i as int).len() == 0);
    assert(pieces_view(out@) + seq![] =~= pieces_view(out@));
    out
}

fn path_components_exec(s: &str) -> (r: Vec<Vec<char>>)
    ensures
        pieces_view(r@) == path_components(s@),
{
    let cs = chars_of(s);
    let mut out: Vec<Vec<char>> = Vec::new();
    let dot_slash = chars_of("./");
    let dot = chars_of(".");
    if cs.len() > 0 && cs[0] == '/' {
        out.push(chars_of("/"));
    } else if chars_eq(&cs, &dot) || crate::text::matches_at_exec(&cs, 0, &dot_slash) {
        out.push(chars_of("."));
    }
    let ghost lead = pieces_view(out@);
    let normal = normal_parts_exec(&split_slashes_exec(&cs));
    let mut i: usize = 0;
    while i < normal.len()
        invariant
            i <= normal.len(),
            pieces_view(out@) == lead + pieces_view(normal@).subrange(0, i as int),
        decreases normal.len() - i,
    {
        let mut copy: Vec<char> = Vec::new();
        crate::text::extend_chars(&mut copy, &normal[i]);
        assert(copy@ =~= normal@[i as int]@);
        let ghost prev = out@;
        out.push(copy);
        assert(pieces_view(out@) =~= pieces_view(prev).push(normal@[i as int]@));
        assert(pieces_view(normal@).subrange(0, i + 1) =~= pieces_view(normal@).subrange(0, i as int).push(normal@[i as int]@));
        i = i + 1;
    }
    assert(pieces_view(normal@).subrange(0, normal@.len() as int) =~= pieces_view(normal@));
    out
}

/// Whether the components of `base` begin the components of `path`.
pub fn path_starts_with_exec(path: &str, base: &str) -> (r: bool)
    ensures
        r == path_starts_with(path@, base@),
{
    let p = path_components_exec(path);
    let b = path_components_exec(base);
    if b.len() > p.len() {
        return false;
    }
    let mut i: usize = 0;
    while i < b.len()
        invariant
            pieces_view(p@) == path_components(path@),
            pieces_view(b@) == path_components(base@),
            b.len() <= p.len(),
            i <= b.len(),
            forall|j: int| 0 <= j < i ==> p@[j]@ == b@[j]@,
        decreases b.len() - i,
    {
        if !chars_eq(&p[i], &b[i]) {
            assert(pieces_view(p@).subrange(0, b@.len() as int)[i as int] != pieces_view(b@)[i as int]);
            return false;
        }
        i = i + 1;
    }
    assert(pieces_view(p@).subrange(0, b@.len() as int) =~= pieces_view(b@));
    true
}

/// Admits a workflow path only inside the configured workflow directory; both paths are
/// canonical.
pub fn approved_workflow_path(root: &str, candidate: &str) -> (r: Result<String, String>)
    ensures
        path_starts_with(candidate@, root@) ==> (r matches Ok(p) && p@ == candidate@),
        !path_starts_with(candidate@, root@) ==> (r matches Err(m) && m@
            == "workflow path is outside the configured workflow directory"@),
{
    if !path_starts_with_exec(candidate, root) {
        return Err("workflow path is outside the configured workflow directory".to_owned());
    }
    Ok(candidate.to_owned())
}

} // verus!
