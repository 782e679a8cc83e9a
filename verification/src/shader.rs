//! Shader source preparation: resolving `#include "name"` directives
//! against a fixed listing of auxiliary sources, producing either the
//! fully expanded text or the offending include name.
//!
//! A directive is a line `#include "name"`; the requested content
//! replaces the line, itself expanded up to a nesting budget.  A line
//! that only looks like a directive (no closing quote) passes through as
//! text, as does any directive once the budget is spent.

use vstd::prelude::*;
use crate::fileobserver::clone_bytes;

verus! {

/// Line feed.
pub const NL: u8 = 10;

/// Double quote.
pub const QUOTE: u8 = 34;

/// The bytes of `#include "`.
pub open spec fn directive_prefix() -> Seq<u8> {
    seq![35u8, 105u8, 110u8, 99u8, 108u8, 117u8, 100u8, 101u8, 32u8, 34u8]
}

/// First position of `b` in `s` at or after `from`; `s.len()` if absent.
pub open spec fn find_byte_s(s: Seq<u8>, b: u8, from: int) -> int
    decreases s.len() - from,
{
    if from >= s.len() {
        s.len() as int
    } else if s[from] == b {
        from
    } else {
        find_byte_s(s, b, from + 1)
    }
}

pub proof fn lemma_find_byte_range(s: Seq<u8>, b: u8, from: int)
    requires
        0 <= from <= s.len(),
    ensures
        from <= find_byte_s(s, b, from) <= s.len(),
    decreases s.len() - from,
{
    if from < s.len() && s[from] != b {
        lemma_find_byte_range(s, b, from + 1);
    }
}

/// What `find_byte_s` points at, when it found anything, is the byte
/// sought.
pub proof fn lemma_find_byte_hit(s: Seq<u8>, b: u8, from: int)
    requires
        0 <= from <= s.len(),
        find_byte_s(s, b, from) < s.len(),
    ensures
        s[find_byte_s(s, b, from)] == b,
    decreases s.len() - from,
{
    if from < s.len() && s[from] != b {
        lemma_find_byte_hit(s, b, from + 1);
    }
}

/// The lines of `s` from `pos` on, split at every line feed; a trailing
/// line feed yields a final empty line, so joining the lines with line
/// feeds restores the text.
pub open spec fn split_from_s(s: Seq<u8>, pos: int) -> Seq<Seq<u8>>
    decreases s.len() - pos,
    when 0 <= pos <= s.len()
    via split_from_s_decreases
{
    let e = find_byte_s(s, NL, pos);
    if e >= s.len() {
        seq![s.subrange(pos, s.len() as int)]
    } else {
        seq![s.subrange(pos, e)] + split_from_s(s, e + 1)
    }
}

#[via_fn]
proof fn split_from_s_decreases(s: Seq<u8>, pos: int) {
    lemma_find_byte_range(s, NL, pos);
}

pub open spec fn split_lines_s(s: Seq<u8>) -> Seq<Seq<u8>> {
    split_from_s(s, 0)
}

/// The include name a line requests: the text between the directive
/// prefix and the next quote.  `None` when the line is no directive.
pub open spec fn line_include_name_s(line: Seq<u8>) -> Option<Seq<u8>> {
    if line.len() >= 10 && line.subrange(0, 10) == directive_prefix() {
        let q = find_byte_s(line, QUOTE, 10);
        if q < line.len() {
            Some(line.subrange(10, q))
        } else {
            None
        }
    } else {
        None
    }
}

/// The byte views of an owned name-to-content listing.
pub open spec fn files_v(files: Seq<(Vec<u8>, Vec<u8>)>) -> Seq<(Seq<u8>, Seq<u8>)> {
    files.map_values(|p: (Vec<u8>, Vec<u8>)| (p.0@, p.1@))
}

/// The content stored under `name`, first match first.
pub open spec fn lookup_s(files: Seq<(Seq<u8>, Seq<u8>)>, name: Seq<u8>) -> Option<Seq<u8>>
    decreases files.len(),
{
    if files.len() == 0 {
        None
    } else if files[0].0 == name {
        Some(files[0].1)
    } else {
        lookup_s(files.subrange(1, files.len() as int), name)
    }
}

/// Full expansion of a source text: every line that is a directive is
/// replaced by the expanded content it names, while `depth` lasts;
/// an unknown name is the error.  Everything else passes through
/// unchanged.
pub open spec fn expand_s(src: Seq<u8>, files: Seq<(Seq<u8>, Seq<u8>)>, depth: nat) -> Result<
    Seq<u8>,
    Seq<u8>,
>
    decreases depth, split_lines_s(src).len(), 1int,
{
    expand_lines_s(split_lines_s(src), files, depth, 0)
}

/// Expansion of the lines from index `i` on, joined by line feeds.
pub open spec fn expand_lines_s(
    lines: Seq<Seq<u8>>,
    files: Seq<(Seq<u8>, Seq<u8>)>,
    depth: nat,
    i: int,
) -> Result<Seq<u8>, Seq<u8>>
    decreases depth, lines.len() - i, 0int,
    when 0 <= i
{
    if i >= lines.len() {
        Ok(Seq::empty())
    } else {
        let head = if depth > 0 {
            match line_include_name_s(lines[i]) {
                Some(name) => match lookup_s(files, name) {
                    Some(content) => expand_s(content, files, (depth - 1) as nat),
                    None => Err(name),
                },
                None => Ok(lines[i]),
            }
        } else {
            Ok(lines[i])
        };
        if i + 1 >= lines.len() {
            head
        } else {
            match head {
                Ok(h) => match expand_lines_s(lines, files, depth, i + 1) {
                    Ok(r) => Ok(h + seq![NL] + r),
                    Err(n) => Err(n),
                },
                Err(n) => Err(n),
            }
        }
    }
}

/// Expanding from index `i` of a line list is expanding from index
/// `i - 1` of the list without its first line.
proof fn lemma_expand_lines_shift(
    lines: Seq<Seq<u8>>,
    files: Seq<(Seq<u8>, Seq<u8>)>,
    depth: nat,
    i: int,
)
    requires
        1 <= i,
        1 <= lines.len(),
    ensures
        expand_lines_s(lines, files, depth, i) == expand_lines_s(
            lines.subrange(1, lines.len() as int),
            files,
            depth,
            i - 1,
        ),
    decreases lines.len() - i,
{
    let tail = lines.subrange(1, lines.len() as int);
    if i < lines.len() {
        assert(lines[i] == tail[i - 1]);
        lemma_expand_lines_shift(lines, files, depth, i + 1);
    }
}

/// Expansion touches only directives: a source none of whose lines is
/// an include directive comes out unchanged.
pub proof fn lemma_expand_no_directives(src: Seq<u8>, files: Seq<(Seq<u8>, Seq<u8>)>, depth: nat)
    requires
        forall|j: int|
            0 <= j < split_lines_s(src).len() ==> line_include_name_s(
                #[trigger] split_lines_s(src)[j],
            ) is None,
    ensures
        expand_s(src, files, depth) == Ok::<Seq<u8>, Seq<u8>>(src),
{
    lemma_expand_plain_from(src, files, depth, 0);
    assert(src.subrange(0, src.len() as int) =~= src);
}

/// The suffix form of `lemma_expand_no_directives`.
proof fn lemma_expand_plain_from(src: Seq<u8>, files: Seq<(Seq<u8>, Seq<u8>)>, depth: nat, pos: int)
    requires
        0 <= pos <= src.len(),
        forall|j: int|
            0 <= j < split_from_s(src, pos).len() ==> line_include_name_s(
                #[trigger] split_from_s(src, pos)[j],
            ) is None,
    ensures
        expand_lines_s(split_from_s(src, pos), files, depth, 0) == Ok::<Seq<u8>, Seq<u8>>(
            src.subrange(pos, src.len() as int),
        ),
    decreases src.len() - pos,
{
    lemma_find_byte_range(src, NL, pos);
    let e = find_byte_s(src, NL, pos);
    let lines = split_from_s(src, pos);
    if e >= src.len() {
        assert(lines == seq![src.subrange(pos, src.len() as int)]);
        assert(line_include_name_s(lines[0]) is None);
    } else {
        lemma_find_byte_hit(src, NL, pos);
        let line = src.subrange(pos, e);
        let tail = split_from_s(src, e + 1);
        assert(lines == seq![line] + tail);
        assert(lines[0] == line);
        assert(tail.len() >= 1);
        assert forall|j: int| 0 <= j < tail.len() implies line_include_name_s(
            #[trigger] tail[j],
        ) is None by {
            assert(tail[j] == lines[j + 1]);
        }
        lemma_expand_plain_from(src, files, depth, e + 1);
        lemma_expand_lines_shift(lines, files, depth, 1);
        assert(lines.subrange(1, lines.len() as int) =~= tail);
        assert(expand_lines_s(lines, files, depth, 1) == Ok::<Seq<u8>, Seq<u8>>(
            src.subrange(e + 1, src.len() as int),
        ));
        assert(line_include_name_s(lines[0]) is None);
        assert(expand_lines_s(lines, files, depth, 0) == Ok::<Seq<u8>, Seq<u8>>(
            line + seq![NL] + src.subrange(e + 1, src.len() as int),
        ));
        assert(line + seq![NL] + src.subrange(e + 1, src.len() as int) =~= src.subrange(
            pos,
            src.len() as int,
        ));
    }
}

/// A compilation failure: an include that resolved to nothing, or the
/// compiler's own diagnostic, kept verbatim.
#[derive(Clone, Debug)]
pub enum CompileError {
    UnresolvedInclude { name: Vec<u8> },
    Diagnostic { message: Vec<u8> },
}

impl CompileError {
    /// The failure as text; an unresolved include reports the offending
    /// name itself.
    pub fn message(&self) -> (r: Vec<u8>)
        ensures
            *self matches CompileError::UnresolvedInclude { name } ==> r@ == name@,
            *self matches CompileError::Diagnostic { message } ==> r@ == message@,
    {
        match self {
            CompileError::UnresolvedInclude { name } => clone_bytes(name),
            CompileError::Diagnostic { message } => clone_bytes(message),
        }
    }
}

/// A successfully produced shader binary, never mutated afterwards.
#[derive(Clone, Debug)]
pub struct ShaderArtifact {
    pub source_name: Vec<u8>,
    pub entry_point: Vec<u8>,
    pub binary: Vec<u8>,
}

/// The bytes of the fixed entry point name `main`.
pub open spec fn entry_point_s() -> Seq<u8> {
    seq![109u8, 97u8, 105u8, 110u8]
}

pub fn main_entry_point() -> (r: Vec<u8>)
    ensures
        r@ == entry_point_s(),
{
    let mut out: Vec<u8> = Vec::new();
    out.push(109);
    out.push(97);
    out.push(105);
    out.push(110);
    proof {
        assert(out@ =~= entry_point_s());
    }
    out
}

/// Classify a compiler outcome: a binary becomes an artifact, an error
/// text becomes a diagnostic carried verbatim.
pub fn artifact_from(
    outcome: Result<Vec<u8>, Vec<u8>>,
    source_name: &Vec<u8>,
) -> (r: Result<ShaderArtifact, CompileError>)
    ensures
        match outcome {
            Ok(binary) => {
                &&& r is Ok
                &&& r->Ok_0.binary@ == binary@
                &&& r->Ok_0.source_name@ == source_name@
                &&& r->Ok_0.entry_point@ == entry_point_s()
            },
            Err(message) => {
                &&& r is Err
                &&& r->Err_0 matches CompileError::Diagnostic { message: m } && m@ == message@
            },
        },
{
    match outcome {
        Ok(binary) => Ok(
            ShaderArtifact {
                source_name: clone_bytes(source_name),
                entry_point: main_entry_point(),
                binary,
            },
        ),
        Err(message) => Err(CompileError::Diagnostic { message }),
    }
}

pub fn find_byte(src: &Vec<u8>, b: u8, from: usize) -> (r: usize)
    requires
        from <= src@.len(),
    ensures
        r == find_byte_s(src@, b, from as int),
        from <= r <= src@.len(),
{
    proof {
        lemma_find_byte_range(src@, b, from as int);
    }
    let mut i = from;
    while i < src.len()
        invariant
            from <= i <= src@.len(),
            find_byte_s(src@, b, from as int) == find_byte_s(src@, b, i as int),
        decreases src@.len() - i,
    {
        if src[i] == b {
            return i;
        }
        i += 1;
    }
    i
}

/// `src[a .. b]` as an owned copy.
pub fn copy_range(src: &Vec<u8>, a: usize, b: usize) -> (r: Vec<u8>)
    requires
        a <= b <= src@.len(),
    ensures
        r@ == src@.subrange(a as int, b as int),
{
    let mut out: Vec<u8> = Vec::new();
    let mut i = a;
    while i < b
        invariant
            a <= i <= b <= src@.len(),
            out@ == src@.subrange(a as int, i as int),
        decreases b - i,
    {
        out.push(src[i]);
        proof {
            assert(out@ =~= src@.subrange(a as int, i + 1));
        }
        i += 1;
    }
    out
}

pub fn append_bytes(out: &mut Vec<u8>, add: &Vec<u8>)
    ensures
        final(out)@ == old(out)@ + add@,
{
    let mut i: usize = 0;
    while i < add.len()
        invariant
            0 <= i <= add@.len(),
            out@ == old(out)@ + add@.subrange(0, i as int),
        decreases add@.len() - i,
    {
        out.push(add[i]);
        proof {
            assert(out@ =~= old(out)@ + add@.subrange(0, i + 1));
        }
        i += 1;
    }
    proof {
        assert(old(out)@ + add@.subrange(0, add@.len() as int) =~= old(out)@ + add@);
    }
}

pub fn bytes_eq(a: &Vec<u8>, b: &Vec<u8>) -> (r: bool)
    ensures
        r <==> a@ == b@,
{
    if a.len() != b.len() {
        return false;
    }
    let mut i: usize = 0;
    while i < a.len()
        invariant
            a@.len() == b@.len(),
            0 <= i <= a@.len(),
            forall|j: int| 0 <= j < i ==> a@[j] == b@[j],
        decreases a@.len() - i,
    {
        if a[i] != b[i] {
            return false;
        }
        i += 1;
    }
    proof {
        assert(a@ =~= b@);
    }
    true
}

/// The lines of `src`, as owned copies.
pub fn split_lines(src: &Vec<u8>) -> (r: Vec<Vec<u8>>)
    ensures
        r@.map_values(|l: Vec<u8>| l@) == split_lines_s(src@),
        r@.len() >= 1,
{
    let mut out: Vec<Vec<u8>> = Vec::new();
    let mut pos: usize = 0;
    let mut e = find_byte(src, NL, 0);
    proof {
        assert(Seq::<Seq<u8>>::empty() + split_from_s(src@, 0) =~= split_from_s(src@, 0));
    }
    while e < src.len()
        invariant
            pos <= src@.len(),
            e == find_byte_s(src@, NL, pos as int),
            pos <= e <= src@.len(),
            split_lines_s(src@) == out@.map_values(|l: Vec<u8>| l@) + split_from_s(
                src@,
                pos as int,
            ),
        decreases src@.len() - pos,
    {
        let ghost prev = out@;
        let ghost oldpos = pos as int;
        let line = copy_range(src, pos, e);
        out.push(line);
        pos = e + 1;
        e = find_byte(src, NL, pos);
        proof {
            assert(split_from_s(src@, oldpos) == seq![src@.subrange(oldpos, pos - 1)]
                + split_from_s(src@, pos as int));
            assert(out@.map_values(|l: Vec<u8>| l@) =~= prev.map_values(|l: Vec<u8>| l@).push(
                src@.subrange(oldpos, pos - 1),
            ));
            assert(out@.map_values(|l: Vec<u8>| l@) + split_from_s(src@, pos as int)
                =~= prev.map_values(|l: Vec<u8>| l@) + split_from_s(src@, oldpos));
        }
    }
    let ghost prev = out@;
    let line = copy_range(src, pos, src.len());
    out.push(line);
    proof {
        assert(split_from_s(src@, pos as int) == seq![src@.subrange(pos as int, src@.len() as int)]);
        assert(out@.map_values(|l: Vec<u8>| l@) =~= prev.map_values(|l: Vec<u8>| l@).push(
            src@.subrange(pos as int, src@.len() as int),
        ));
        assert(out@.map_values(|l: Vec<u8>| l@) =~= split_lines_s(src@));
    }
    out
}

/// The include name a line requests, as an owned copy.
pub fn include_name(line: &Vec<u8>) -> (r: Option<Vec<u8>>)
    ensures
        match r {
            Some(n) => line_include_name_s(line@) == Some(n@),
            None => line_include_name_s(line@) is None,
        },
{
    if line.len() < 10 {
        return None;
    }
    if !(line[0] == 35 && line[1] == 105 && line[2] == 110 && line[3] == 99 && line[4] == 108
        && line[5] == 117 && line[6] == 100 && line[7] == 101 && line[8] == 32 && line[9] == 34) {
        proof {
            assert(line@.subrange(0, 10) != directive_prefix());
        }
        return None;
    }
    proof {
        assert(line@.subrange(0, 10) =~= directive_prefix());
    }
    let q = find_byte(line, QUOTE, 10);
    if q < line.len() {
        Some(copy_range(line, 10, q))
    } else {
        None
    }
}

/// The position of the entry holding `name`.
pub fn lookup(files: &Vec<(Vec<u8>, Vec<u8>)>, name: &Vec<u8>) -> (r: Option<usize>)
    ensures
        match r {
            Some(i) => i < files@.len() && lookup_s(files_v(files@), name@) == Some(
                files@[i as int].1@,
            ),
            None => lookup_s(files_v(files@), name@) is None,
        },
{
    let ghost fv = files_v(files@);
    proof {
        assert(fv.subrange(0, fv.len() as int) =~= fv);
    }
    let mut i: usize = 0;
    while i < files.len()
        invariant
            fv == files_v(files@),
            fv.len() == files@.len(),
            0 <= i <= files@.len(),
            lookup_s(fv, name@) == lookup_s(fv.subrange(i as int, fv.len() as int), name@),
        decreases files@.len() - i,
    {
        let ghost tail = fv.subrange(i as int, fv.len() as int);
        proof {
            assert(tail[0] == fv[i as int]);
            assert(tail.subrange(1, tail.len() as int) =~= fv.subrange(
                i + 1,
                fv.len() as int,
            ));
        }
        if bytes_eq(&files[i].0, name) {
            return Some(i);
        }
        i += 1;
    }
    proof {
        assert(fv.subrange(fv.len() as int, fv.len() as int) =~= Seq::<(Seq<u8>, Seq<u8>)>::empty());
    }
    None
}

/// Expand every include directive in `src` against `files`, up to
/// `depth` nesting levels; the result is exactly `expand_s`, so an
/// unknown include name comes back as the error naming it.
pub fn expand(src: &Vec<u8>, files: &Vec<(Vec<u8>, Vec<u8>)>, depth: u32) -> (r: Result<
    Vec<u8>,
    CompileError,
>)
    ensures
        match r {
            Ok(v) => expand_s(src@, files_v(files@), depth as nat) == Ok::<Seq<u8>, Seq<u8>>(v@),
            Err(e) => e matches CompileError::UnresolvedInclude { name } && expand_s(
                src@,
                files_v(files@),
                depth as nat,
            ) == Err::<Seq<u8>, Seq<u8>>(name@),
        },
    decreases depth,
{
    let ghost fv = files_v(files@);
    let lines = split_lines(src);
    let ghost ls = lines@.map_values(|l: Vec<u8>| l@);
    let mut out: Vec<u8> = Vec::new();
    let mut i: usize = 0;
    while i < lines.len()
        invariant
            fv == files_v(files@),
            ls == lines@.map_values(|l: Vec<u8>| l@),
            ls == split_lines_s(src@),
            ls.len() == lines@.len(),
            0 <= i <= lines@.len(),
            match expand_lines_s(ls, fv, depth as nat, i as int) {
                Ok(rest) => expand_lines_s(ls, fv, depth as nat, 0) == Ok::<Seq<u8>, Seq<u8>>(
                    out@ + rest,
                ),
                Err(n) => expand_lines_s(ls, fv, depth as nat, 0) == Err::<Seq<u8>, Seq<u8>>(n),
            },
        decreases lines@.len() - i,
    {
        proof {
            assert(ls[i as int] == lines@[i as int]@);
        }
        let ghost head_s = if (depth as nat) > 0 {
            match line_include_name_s(ls[i as int]) {
                Some(name) => match lookup_s(fv, name) {
                    Some(content) => expand_s(content, fv, (depth - 1) as nat),
                    None => Err::<Seq<u8>, Seq<u8>>(name),
                },
                None => Ok::<Seq<u8>, Seq<u8>>(ls[i as int]),
            }
        } else {
            Ok::<Seq<u8>, Seq<u8>>(ls[i as int])
        };
        let ghost expand_i = expand_lines_s(ls, fv, depth as nat, i as int);
        proof {
            if i + 1 < lines@.len() {
                assert(expand_i == (match head_s {
                    Ok(h) => match expand_lines_s(ls, fv, depth as nat, i + 1) {
                        Ok(r) => Ok::<Seq<u8>, Seq<u8>>(h + seq![NL] + r),
                        Err(n) => Err::<Seq<u8>, Seq<u8>>(n),
                    },
                    Err(n) => Err::<Seq<u8>, Seq<u8>>(n),
                }));
            } else {
                assert(expand_i == head_s);
            }
        }
        let head: Vec<u8>;
        if depth > 0 {
            match include_name(&lines[i]) {
                Some(name) => {
                    match lookup(files, &name) {
                        Some(fi) => {
                            match expand(&files[fi].1, files, depth - 1) {
                                Ok(v) => {
                                    head = v;
                                },
                                Err(e) => {
                                    proof {
                                        assert(head_s is Err);
                                        assert(expand_i == head_s);
                                    }
                                    return Err(e);
                                },
                            }
                        },
                        None => {
                            proof {
                                assert(head_s == Err::<Seq<u8>, Seq<u8>>(name@));
                                assert(expand_i == head_s);
                            }
                            return Err(CompileError::UnresolvedInclude { name });
                        },
                    }
                },
                None => {
                    head = clone_bytes(&lines[i]);
                },
            }
        } else {
            head = clone_bytes(&lines[i]);
        }
        proof {
            assert(head_s == Ok::<Seq<u8>, Seq<u8>>(head@));
        }
        let ghost out_before = out@;
        append_bytes(&mut out, &head);
        if i + 1 < lines.len() {
            out.push(NL);
            proof {
                assert(out@ =~= out_before + (head@ + seq![NL]));
            }
        }
        proof {
            if i + 1 < lines@.len() {
                match expand_lines_s(ls, fv, depth as nat, i + 1) {
                    Ok(rest) => {
                        assert(expand_i == Ok::<Seq<u8>, Seq<u8>>(head@ + seq![NL] + rest));
                        assert(out_before + (head@ + seq![NL] + rest) =~= out@ + rest);
                    },
                    Err(n) => {
                        assert(expand_i == Err::<Seq<u8>, Seq<u8>>(n));
                    },
                }
            } else {
                assert(expand_lines_s(ls, fv, depth as nat, i + 1) == Ok::<Seq<u8>, Seq<u8>>(
                    Seq::empty(),
                ));
                assert(out@ + Seq::<u8>::empty() =~= out_before + head@);
            }
        }
        i += 1;
    }
    Ok(out)
}

} // verus!
