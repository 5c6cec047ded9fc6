//! Verified parser for the pipeline description text.
//!
//! The format is line based; tokens are separated by blanks. A line is one
//! of:
//!
//! ```text
//! buffer <name> window
//! buffer <name> fixed <width> <height> [depth]
//! stage fullscreen | vertices <count> <mode> | compute <x> <y> <z>
//! vertex <path>
//! fragment <path>
//! comp <path>
//! in <name> [<name> ...]
//! out <name>
//! size <width> <height> [depth]
//! end
//! ```
//!
//! A `stage` line opens a stage (closing any open one); `vertex`,
//! `fragment`, `comp`, `in`, `out` and `size` amend the open stage; `end`
//! closes it, as does the end of the text. Empty lines and lines whose
//! first token is `#` are skipped. Any other first token, a missing name or
//! path, or a malformed number is a parse error carrying the line number.

use vstd::prelude::*;
use crate::pipeline::{
    BufferDecl, BufferPolicy, PipelineDesc, Resolution, ShaderSlot, ShaderType, StageDecl,
    StageKind,
};

verus! {

/// Blank bytes separating tokens within a line: space, tab, carriage
/// return.
pub open spec fn is_blank(b: u8) -> bool {
    b == 32 || b == 9 || b == 13
}

/// First position at or after `i` that ends the current line (a line feed
/// or the end of the text).
pub open spec fn line_end(s: Seq<u8>, i: int) -> int
    decreases s.len() - i,
{
    if 0 <= i < s.len() && s[i] != 10 {
        line_end(s, i + 1)
    } else {
        i
    }
}

/// The text split at line feeds, from position `i` on.
pub open spec fn lines_from(s: Seq<u8>, i: int) -> Seq<Seq<u8>>
    decreases s.len() - i,
    via lines_from_dec
{
    if !(0 <= i <= s.len()) {
        Seq::empty()
    } else {
        let e = line_end(s, i);
        if e >= s.len() {
            seq![s.subrange(i, s.len() as int)]
        } else {
            seq![s.subrange(i, e)] + lines_from(s, e + 1)
        }
    }
}

/// First position at or after `i` that is not blank.
pub open spec fn skip_blanks(s: Seq<u8>, i: int) -> int
    decreases s.len() - i,
{
    if 0 <= i < s.len() && is_blank(s[i]) {
        skip_blanks(s, i + 1)
    } else {
        i
    }
}

/// First position at or after `i` that is blank or the end of the line.
pub open spec fn token_end(s: Seq<u8>, i: int) -> int
    decreases s.len() - i,
{
    if 0 <= i < s.len() && !is_blank(s[i]) {
        token_end(s, i + 1)
    } else {
        i
    }
}

/// The tokens of a line from position `i` on.
pub open spec fn tokens_from(s: Seq<u8>, i: int) -> Seq<Seq<u8>>
    decreases s.len() - i,
    via tokens_from_dec
{
    if !(0 <= i < s.len()) {
        Seq::empty()
    } else if is_blank(s[i]) {
        tokens_from(s, i + 1)
    } else {
        let e = token_end(s, i);
        seq![s.subrange(i, e)] + tokens_from(s, e)
    }
}

#[via_fn]
proof fn lines_from_dec(s: Seq<u8>, i: int) {
    if 0 <= i <= s.len() {
        lemma_line_end_bounds(s, i);
    }
}

#[via_fn]
proof fn tokens_from_dec(s: Seq<u8>, i: int) {
    if 0 <= i < s.len() && !is_blank(s[i]) {
        lemma_token_end_bounds(s, i);
    }
}

proof fn lemma_line_end_bounds(s: Seq<u8>, i: int)
    requires
        0 <= i <= s.len(),
    ensures
        i <= line_end(s, i) <= s.len(),
    decreases s.len() - i,
{
    if i < s.len() && s[i] != 10 {
        lemma_line_end_bounds(s, i + 1);
    }
}

proof fn lemma_token_end_bounds(s: Seq<u8>, i: int)
    requires
        0 <= i <= s.len(),
    ensures
        i <= token_end(s, i) <= s.len(),
        i < s.len() && !is_blank(s[i]) ==> i < token_end(s, i),
    decreases s.len() - i,
{
    if i < s.len() && !is_blank(s[i]) {
        lemma_token_end_bounds(s, i + 1);
    }
}

/// A decimal digit.
pub open spec fn is_digit(b: u8) -> bool {
    48 <= b <= 57
}

/// A non-empty run of decimal digits.
pub open spec fn all_digits(t: Seq<u8>) -> bool {
    t.len() > 0 && forall|k: int| 0 <= k < t.len() ==> is_digit(t[k])
}

/// The number the digits spell.
pub open spec fn digits_value(t: Seq<u8>) -> int
    decreases t.len(),
{
    if t.len() == 0 {
        0
    } else {
        digits_value(t.drop_last()) * 10 + (t.last() - 48)
    }
}

/// The token read as an unsigned number: defined exactly on non-empty
/// all-digit tokens whose value fits.
pub open spec fn number_of(t: Seq<u8>) -> Option<u32> {
    if all_digits(t) && digits_value(t) <= u32::MAX {
        Some(digits_value(t) as u32)
    } else {
        None
    }
}

proof fn lemma_digits_value_nonneg(t: Seq<u8>)
    requires
        forall|k: int| 0 <= k < t.len() ==> is_digit(t[k]),
    ensures
        digits_value(t) >= 0,
    decreases t.len(),
{
    if t.len() > 0 {
        lemma_digits_value_nonneg(t.drop_last());
    }
}

/// A longer run of digits never spells a smaller number: the value of a
/// prefix bounds the value of the whole.
proof fn lemma_digits_value_monotone(t: Seq<u8>, i: int)
    requires
        0 <= i <= t.len(),
        forall|k: int| 0 <= k < t.len() ==> is_digit(t[k]),
    ensures
        digits_value(t.take(i)) <= digits_value(t),
    decreases t.len() - i,
{
    if i < t.len() {
        lemma_digits_value_monotone(t, i + 1);
        assert(t.take(i + 1).drop_last() =~= t.take(i));
        assert(t.take(i + 1).last() == t[i]);
        assert(forall|k: int| 0 <= k < t.take(i).len() ==> is_digit(t.take(i)[k]));
        lemma_digits_value_nonneg(t.take(i));
        assert(digits_value(t.take(i + 1)) == digits_value(t.take(i)) * 10 + (t[i] - 48));
        assert(digits_value(t.take(i)) * 10 >= digits_value(t.take(i)));
    } else {
        assert(t.take(i) =~= t);
    }
}

/// The comment marker `#`.
pub open spec fn comment_kw() -> Seq<u8> {
    seq![35u8]
}

/// The word `buffer`.
pub open spec fn buffer_kw() -> Seq<u8> {
    seq![98u8, 117u8, 102u8, 102u8, 101u8, 114u8]
}

/// The word `window`.
pub open spec fn window_kw() -> Seq<u8> {
    seq![119u8, 105u8, 110u8, 100u8, 111u8, 119u8]
}

/// The word `fixed`.
pub open spec fn fixed_kw() -> Seq<u8> {
    seq![102u8, 105u8, 120u8, 101u8, 100u8]
}

/// The word `stage`.
pub open spec fn stage_kw() -> Seq<u8> {
    seq![115u8, 116u8, 97u8, 103u8, 101u8]
}

/// The word `fullscreen`.
pub open spec fn fullscreen_kw() -> Seq<u8> {
    seq![102u8, 117u8, 108u8, 108u8, 115u8, 99u8, 114u8, 101u8, 101u8, 110u8]
}

/// The word `vertices`.
pub open spec fn vertices_kw() -> Seq<u8> {
    seq![118u8, 101u8, 114u8, 116u8, 105u8, 99u8, 101u8, 115u8]
}

/// The word `compute`.
pub open spec fn compute_kw() -> Seq<u8> {
    seq![99u8, 111u8, 109u8, 112u8, 117u8, 116u8, 101u8]
}

/// The word `vertex`.
pub open spec fn vertex_kw() -> Seq<u8> {
    seq![118u8, 101u8, 114u8, 116u8, 101u8, 120u8]
}

/// The word `fragment`.
pub open spec fn fragment_kw() -> Seq<u8> {
    seq![102u8, 114u8, 97u8, 103u8, 109u8, 101u8, 110u8, 116u8]
}

/// The word `comp`.
pub open spec fn comp_kw() -> Seq<u8> {
    seq![99u8, 111u8, 109u8, 112u8]
}

/// The word `in`.
pub open spec fn in_kw() -> Seq<u8> {
    seq![105u8, 110u8]
}

/// The word `out`.
pub open spec fn out_kw() -> Seq<u8> {
    seq![111u8, 117u8, 116u8]
}

/// The word `size`.
pub open spec fn size_kw() -> Seq<u8> {
    seq![115u8, 105u8, 122u8, 101u8]
}

/// The word `end`.
pub open spec fn end_kw() -> Seq<u8> {
    seq![101u8, 110u8, 100u8]
}

/// What a line can do wrong, without the line number.
#[derive(Clone, Copy, Debug, PartialEq, Eq, Structural)]
pub enum ParseErrorKind {
    BufferNameExpected,
    PolicyExpected,
    NumberExpected,
    StageKindExpected,
    PathExpected,
    TargetExpected,
    ShaderOutsideStage,
    DependencyOutsideStage,
    TargetOutsideStage,
    SizeOutsideStage,
    UnknownWord,
}

/// A malformed description: the offending line (1-based) and what was
/// wrong with it.
#[derive(Clone, Copy, Debug, PartialEq, Eq, Structural)]
pub struct ParseError {
    pub line: usize,
    pub kind: ParseErrorKind,
}

/// A declared buffer, read mathematically.
#[verifier::ext_equal]
pub struct BufferModel {
    pub name: Seq<u8>,
    pub policy: BufferPolicy,
}

/// A shader slot, read mathematically.
#[verifier::ext_equal]
pub struct ShaderModel {
    pub ty: ShaderType,
    pub path: Seq<u8>,
}

/// A declared stage, read mathematically.
#[verifier::ext_equal]
pub struct StageModel {
    pub shaders: Seq<ShaderModel>,
    pub kind: StageKind,
    pub deps: Seq<Seq<u8>>,
    pub target: Option<Seq<u8>>,
    pub resolution: Option<Resolution>,
}

/// A description, read mathematically.
#[verifier::ext_equal]
pub struct DescModel {
    pub buffers: Seq<BufferModel>,
    pub stages: Seq<StageModel>,
}

/// The parser's state between lines: what is already declared and the
/// stage still open, if any.
#[verifier::ext_equal]
pub struct ParserState {
    pub buffers: Seq<BufferModel>,
    pub stages: Seq<StageModel>,
    pub current: Option<StageModel>,
}

/// The mathematical reading of the executable description types.
pub open spec fn slot_model(s: ShaderSlot) -> ShaderModel {
    ShaderModel { ty: s.ty, path: s.path@ }
}

pub open spec fn buffer_model(b: BufferDecl) -> BufferModel {
    BufferModel { name: b.name@, policy: b.policy }
}

pub open spec fn stage_model(s: StageDecl) -> StageModel {
    StageModel {
        shaders: s.shaders@.map_values(|u: ShaderSlot| slot_model(u)),
        kind: s.kind,
        deps: s.deps@.map_values(|d: Vec<u8>| d@),
        target: crate::pipeline::opt_name(s.target),
        resolution: s.resolution,
    }
}

pub open spec fn desc_model(d: PipelineDesc) -> DescModel {
    DescModel {
        buffers: d.buffers@.map_values(|b: BufferDecl| buffer_model(b)),
        stages: d.stages@.map_values(|s: StageDecl| stage_model(s)),
    }
}

/// Closes the open stage, if any.
pub open spec fn flush(st: ParserState) -> ParserState {
    match st.current {
        None => st,
        Some(c) => ParserState { buffers: st.buffers, stages: st.stages.push(c), current: None },
    }
}

/// The number required at token position `i`.
pub open spec fn required_number(toks: Seq<Seq<u8>>, i: int) -> Result<u32, ParseErrorKind> {
    if i >= toks.len() {
        Err(ParseErrorKind::NumberExpected)
    } else {
        match number_of(toks[i]) {
            Some(v) => Ok(v),
            None => Err(ParseErrorKind::NumberExpected),
        }
    }
}

/// Width, height and optional depth starting at token position `i`; a
/// missing depth is 0.
pub open spec fn dims_at(toks: Seq<Seq<u8>>, i: int) -> Result<Resolution, ParseErrorKind> {
    match (required_number(toks, i), required_number(toks, i + 1)) {
        (Ok(width), Ok(height)) => {
            if toks.len() <= i + 2 {
                Ok(Resolution { width, height, depth: 0 })
            } else {
                match required_number(toks, i + 2) {
                    Ok(depth) => Ok(Resolution { width, height, depth }),
                    Err(k) => Err(k),
                }
            }
        },
        (Err(k), _) => Err(k),
        (_, Err(k)) => Err(k),
    }
}

/// The stage kind a `stage` line declares, read from the tokens after the
/// keyword.
pub open spec fn kind_of(toks: Seq<Seq<u8>>) -> Result<StageKind, ParseErrorKind> {
    if toks.len() < 2 {
        Err(ParseErrorKind::StageKindExpected)
    } else if toks[1] == fullscreen_kw() {
        Ok(StageKind::Fullscreen)
    } else if toks[1] == vertices_kw() {
        match (required_number(toks, 2), required_number(toks, 3)) {
            (Ok(count), Ok(mode)) => Ok(StageKind::Explicit { count, mode }),
            (Err(k), _) => Err(k),
            (_, Err(k)) => Err(k),
        }
    } else if toks[1] == compute_kw() {
        match (required_number(toks, 2), required_number(toks, 3), required_number(toks, 4)) {
            (Ok(x), Ok(y), Ok(z)) => Ok(StageKind::Compute { x, y, z }),
            (Err(k), _, _) => Err(k),
            (_, Err(k), _) => Err(k),
            (_, _, Err(k)) => Err(k),
        }
    } else {
        Err(ParseErrorKind::StageKindExpected)
    }
}

/// What one line does to the parser's state.
pub open spec fn apply_line(st: ParserState, toks: Seq<Seq<u8>>) -> Result<
    ParserState,
    ParseErrorKind,
> {
    if toks.len() == 0 || toks[0] == comment_kw() {
        Ok(st)
    } else if toks[0] == buffer_kw() {
        if toks.len() < 2 {
            Err(ParseErrorKind::BufferNameExpected)
        } else if toks.len() < 3 {
            Err(ParseErrorKind::PolicyExpected)
        } else if toks[2] == window_kw() {
            Ok(
                ParserState {
                    buffers: st.buffers.push(
                        BufferModel { name: toks[1], policy: BufferPolicy::WindowSized },
                    ),
                    ..st
                },
            )
        } else if toks[2] == fixed_kw() {
            match dims_at(toks, 3) {
                Ok(r) => Ok(
                    ParserState {
                        buffers: st.buffers.push(
                            BufferModel {
                                name: toks[1],
                                policy: BufferPolicy::Fixed {
                                    width: r.width,
                                    height: r.height,
                                    depth: r.depth,
                                },
                            },
                        ),
                        ..st
                    },
                ),
                Err(k) => Err(k),
            }
        } else {
            Err(ParseErrorKind::PolicyExpected)
        }
    } else if toks[0] == stage_kw() {
        match kind_of(toks) {
            Ok(kind) => {
                let f = flush(st);
                Ok(
                    ParserState {
                        current: Some(
                            StageModel {
                                shaders: Seq::empty(),
                                kind,
                                deps: Seq::empty(),
                                target: None,
                                resolution: None,
                            },
                        ),
                        ..f
                    },
                )
            },
            Err(k) => Err(k),
        }
    } else if toks[0] == vertex_kw() || toks[0] == fragment_kw() || toks[0] == comp_kw() {
        match st.current {
            None => Err(ParseErrorKind::ShaderOutsideStage),
            Some(c) => {
                if toks.len() < 2 {
                    Err(ParseErrorKind::PathExpected)
                } else {
                    let ty = if toks[0] == vertex_kw() {
                        ShaderType::Vertex
                    } else if toks[0] == fragment_kw() {
                        ShaderType::Fragment
                    } else {
                        ShaderType::Compute
                    };
                    Ok(
                        ParserState {
                            current: Some(
                                StageModel {
                                    shaders: c.shaders.push(ShaderModel { ty, path: toks[1] }),
                                    ..c
                                },
                            ),
                            ..st
                        },
                    )
                }
            },
        }
    } else if toks[0] == in_kw() {
        match st.current {
            None => Err(ParseErrorKind::DependencyOutsideStage),
            Some(c) => Ok(
                ParserState {
                    current: Some(StageModel { deps: c.deps + toks.skip(1), ..c }),
                    ..st
                },
            ),
        }
    } else if toks[0] == out_kw() {
        match st.current {
            None => Err(ParseErrorKind::TargetOutsideStage),
            Some(c) => {
                if toks.len() < 2 {
                    Err(ParseErrorKind::TargetExpected)
                } else {
                    Ok(
                        ParserState {
                            current: Some(StageModel { target: Some(toks[1]), ..c }),
                            ..st
                        },
                    )
                }
            },
        }
    } else if toks[0] == size_kw() {
        match st.current {
            None => Err(ParseErrorKind::SizeOutsideStage),
            Some(c) => match dims_at(toks, 1) {
                Ok(r) => Ok(
                    ParserState {
                        current: Some(StageModel { resolution: Some(r), ..c }),
                        ..st
                    },
                ),
                Err(k) => Err(k),
            },
        }
    } else if toks[0] == end_kw() {
        Ok(flush(st))
    } else {
        Err(ParseErrorKind::UnknownWord)
    }
}

/// Folds the lines from `idx` on over the state; an error carries the
/// 1-based line number.
pub open spec fn parse_lines(lines: Seq<Seq<u8>>, idx: int, st: ParserState) -> Result<
    DescModel,
    ParseError,
>
    decreases lines.len() - idx,
{
    if idx < 0 || idx >= lines.len() {
        let f = flush(st);
        Ok(DescModel { buffers: f.buffers, stages: f.stages })
    } else {
        match apply_line(st, tokens_from(lines[idx], 0)) {
            Ok(st2) => parse_lines(lines, idx + 1, st2),
            Err(kind) => Err(ParseError { line: (idx + 1) as usize, kind }),
        }
    }
}

/// The whole text, read as a description.
pub open spec fn parse_spec(text: Seq<u8>) -> Result<DescModel, ParseError> {
    parse_lines(
        lines_from(text, 0),
        0,
        ParserState { buffers: Seq::empty(), stages: Seq::empty(), current: None },
    )
}

/// The byte strings of a list, as a sequence.
pub open spec fn views(ts: Seq<Vec<u8>>) -> Seq<Seq<u8>> {
    ts.map_values(|t: Vec<u8>| t@)
}

fn line_end_exec(s: &[u8], from: usize) -> (r: usize)
    requires
        from <= s@.len(),
    ensures
        r == line_end(s@, from as int),
        from <= r <= s@.len(),
{
    let n = s.len();
    let mut i: usize = from;
    while i < n && s[i] != 10
        invariant
            from <= i <= n,
            n == s@.len(),
            line_end(s@, from as int) == line_end(s@, i as int),
        decreases n - i,
    {
        i = i + 1;
    }
    i
}

fn token_end_exec(s: &[u8], from: usize) -> (r: usize)
    requires
        from <= s@.len(),
    ensures
        r == token_end(s@, from as int),
        from <= r <= s@.len(),
{
    let n = s.len();
    let mut i: usize = from;
    while i < n && !(s[i] == 32 || s[i] == 9 || s[i] == 13)
        invariant
            from <= i <= n,
            n == s@.len(),
            token_end(s@, from as int) == token_end(s@, i as int),
        decreases n - i,
    {
        i = i + 1;
    }
    i
}

/// The text split at line feeds.
fn split_lines(text: &[u8]) -> (r: Vec<Vec<u8>>)
    ensures
        views(r@) == lines_from(text@, 0),
{
    let n = text.len();
    let mut out: Vec<Vec<u8>> = Vec::new();
    let mut i: usize = 0;
    loop
        invariant_except_break
            i <= n,
            n == text@.len(),
            lines_from(text@, 0) == views(out@) + lines_from(text@, i as int),
        ensures
            views(out@) == lines_from(text@, 0),
        decreases n - i,
    {
        let ghost out0 = out@;
        let e = line_end_exec(text, i);
        let line = crate::preprocess::copy_range(text, i, e);
        out.push(line);
        proof {
            assert(views(out@) =~= views(out0).push(text@.subrange(i as int, e as int)));
        }
        if e == n {
            proof {
                assert(lines_from(text@, i as int) =~= seq![
                    text@.subrange(i as int, text@.len() as int),
                ]);
                assert(views(out@) =~= views(out0) + lines_from(text@, i as int));
            }
            break ;
        }
        proof {
            assert(lines_from(text@, i as int) =~= seq![text@.subrange(i as int, e as int)]
                + lines_from(text@, e + 1));
            assert(views(out@) + lines_from(text@, e + 1) =~= views(out0) + lines_from(
                text@,
                i as int,
            ));
        }
        i = e + 1;
    }
    out
}

/// The tokens of one line.
fn tokenize(line: &[u8]) -> (r: Vec<Vec<u8>>)
    ensures
        views(r@) == tokens_from(line@, 0),
{
    let n = line.len();
    let mut out: Vec<Vec<u8>> = Vec::new();
    proof {
        assert(views(out@) + tokens_from(line@, 0) =~= tokens_from(line@, 0));
    }
    let mut i: usize = 0;
    while i < n
        invariant
            i <= n,
            n == line@.len(),
            tokens_from(line@, 0) == views(out@) + tokens_from(line@, i as int),
        decreases n - i,
    {
        if line[i] == 32 || line[i] == 9 || line[i] == 13 {
            i = i + 1;
        } else {
            let ghost out0 = out@;
            let e = token_end_exec(line, i);
            proof {
                lemma_token_end_bounds(line@, i as int);
            }
            out.push(crate::preprocess::copy_range(line, i, e));
            proof {
                assert(views(out@) =~= views(out0).push(line@.subrange(i as int, e as int)));
                assert(tokens_from(line@, i as int) =~= seq![line@.subrange(i as int, e as int)]
                    + tokens_from(line@, e as int));
                assert(views(out@) + tokens_from(line@, e as int) =~= views(out0) + tokens_from(
                    line@,
                    i as int,
                ));
            }
            i = e;
        }
    }
    proof {
        assert(views(out@) + tokens_from(line@, n as int) =~= views(out@));
    }
    out
}

/// The token read as a number, exactly as `number_of` reads it.
fn parse_number(t: &[u8]) -> (r: Option<u32>)
    ensures
        r == number_of(t@),
{
    let n = t.len();
    if n == 0 {
        return None;
    }
    let mut acc: u64 = 0;
    let mut i: usize = 0;
    while i < n
        invariant
            i <= n,
            n == t@.len(),
            n > 0,
            forall|k: int| 0 <= k < i ==> is_digit(t@[k]),
            acc == digits_value(t@.take(i as int)),
            acc <= u32::MAX,
        decreases n - i,
    {
        let b = t[i];
        if !(48 <= b && b <= 57) {
            proof {
                assert(!is_digit(t@[i as int]));
                assert(!all_digits(t@));
            }
            return None;
        }
        proof {
            assert(t@.take(i + 1).drop_last() =~= t@.take(i as int));
            assert(t@.take(i + 1).last() == t@[i as int]);
        }
        let next = acc * 10 + (b - 48) as u64;
        if next > u32::MAX as u64 {
            proof {
                if all_digits(t@) {
                    assert(digits_value(t@.take(i + 1)) == next);
                    lemma_digits_value_monotone(t@, i + 1);
                    assert(digits_value(t@) > u32::MAX);
                }
            }
            return None;
        }
        acc = next;
        i = i + 1;
    }
    proof {
        assert(t@.take(n as int) =~= t@);
        assert(all_digits(t@));
    }
    Some(acc as u32)
}

/// The fourteen words of the grammar, built once per parse.
struct Keywords {
    comment_w: Vec<u8>,
    buffer_w: Vec<u8>,
    window_w: Vec<u8>,
    fixed_w: Vec<u8>,
    stage_w: Vec<u8>,
    fullscreen_w: Vec<u8>,
    vertices_w: Vec<u8>,
    compute_w: Vec<u8>,
    vertex_w: Vec<u8>,
    fragment_w: Vec<u8>,
    comp_w: Vec<u8>,
    in_w: Vec<u8>,
    out_w: Vec<u8>,
    size_w: Vec<u8>,
    end_w: Vec<u8>,
}

impl Keywords {
    spec fn wf(&self) -> bool {
        &&& self.comment_w@ == comment_kw()
        &&& self.buffer_w@ == buffer_kw()
        &&& self.window_w@ == window_kw()
        &&& self.fixed_w@ == fixed_kw()
        &&& self.stage_w@ == stage_kw()
        &&& self.fullscreen_w@ == fullscreen_kw()
        &&& self.vertices_w@ == vertices_kw()
        &&& self.compute_w@ == compute_kw()
        &&& self.vertex_w@ == vertex_kw()
        &&& self.fragment_w@ == fragment_kw()
        &&& self.comp_w@ == comp_kw()
        &&& self.in_w@ == in_kw()
        &&& self.out_w@ == out_kw()
        &&& self.size_w@ == size_kw()
        &&& self.end_w@ == end_kw()
    }

    fn new() -> (r: Self)
        ensures
            r.wf(),
    {
        let mut comment_w: Vec<u8> = Vec::new();
        comment_w.push(35);
        let mut buffer_w: Vec<u8> = Vec::new();
        buffer_w.push(98);
        buffer_w.push(117);
        buffer_w.push(102);
        buffer_w.push(102);
        buffer_w.push(101);
        buffer_w.push(114);
        let mut window_w: Vec<u8> = Vec::new();
        window_w.push(119);
        window_w.push(105);
        window_w.push(110);
        window_w.push(100);
        window_w.push(111);
        window_w.push(119);
        let mut fixed_w: Vec<u8> = Vec::new();
        fixed_w.push(102);
        fixed_w.push(105);
        fixed_w.push(120);
        fixed_w.push(101);
        fixed_w.push(100);
        let mut stage_w: Vec<u8> = Vec::new();
        stage_w.push(115);
        stage_w.push(116);
        stage_w.push(97);
        stage_w.push(103);
        stage_w.push(101);
        let mut fullscreen_w: Vec<u8> = Vec::new();
        fullscreen_w.push(102);
        fullscreen_w.push(117);
        fullscreen_w.push(108);
        fullscreen_w.push(108);
        fullscreen_w.push(115);
        fullscreen_w.push(99);
        fullscreen_w.push(114);
        fullscreen_w.push(101);
        fullscreen_w.push(101);
        fullscreen_w.push(110);
        let mut vertices_w: Vec<u8> = Vec::new();
        vertices_w.push(118);
        vertices_w.push(101);
        vertices_w.push(114);
        vertices_w.push(116);
        vertices_w.push(105);
        vertices_w.push(99);
        vertices_w.push(101);
        vertices_w.push(115);
        let mut compute_w: Vec<u8> = Vec::new();
        compute_w.push(99);
        compute_w.push(111);
        compute_w.push(109);
        compute_w.push(112);
        compute_w.push(117);
        compute_w.push(116);
        compute_w.push(101);
        let mut vertex_w: Vec<u8> = Vec::new();
        vertex_w.push(118);
        vertex_w.push(101);
        vertex_w.push(114);
        vertex_w.push(116);
        vertex_w.push(101);
        vertex_w.push(120);
        let mut fragment_w: Vec<u8> = Vec::new();
        fragment_w.push(102);
        fragment_w.push(114);
        fragment_w.push(97);
        fragment_w.push(103);
        fragment_w.push(109);
        fragment_w.push(101);
        fragment_w.push(110);
        fragment_w.push(116);
        let mut comp_w: Vec<u8> = Vec::new();
        comp_w.push(99);
        comp_w.push(111);
        comp_w.push(109);
        comp_w.push(112);
        let mut in_w: Vec<u8> = Vec::new();
        in_w.push(105);
        in_w.push(110);
        let mut out_w: Vec<u8> = Vec::new();
        out_w.push(111);
        out_w.push(117);
        out_w.push(116);
        let mut size_w: Vec<u8> = Vec::new();
        size_w.push(115);
        size_w.push(105);
        size_w.push(122);
        size_w.push(101);
        let mut end_w: Vec<u8> = Vec::new();
        end_w.push(101);
        end_w.push(110);
        end_w.push(100);
        proof {
            assert(comment_w@ =~= comment_kw());
            assert(buffer_w@ =~= buffer_kw());
            assert(window_w@ =~= window_kw());
            assert(fixed_w@ =~= fixed_kw());
            assert(stage_w@ =~= stage_kw());
            assert(fullscreen_w@ =~= fullscreen_kw());
            assert(vertices_w@ =~= vertices_kw());
            assert(compute_w@ =~= compute_kw());
            assert(vertex_w@ =~= vertex_kw());
            assert(fragment_w@ =~= fragment_kw());
            assert(comp_w@ =~= comp_kw());
            assert(in_w@ =~= in_kw());
            assert(out_w@ =~= out_kw());
            assert(size_w@ =~= size_kw());
            assert(end_w@ =~= end_kw());
        }
        Keywords {
            comment_w,
            buffer_w,
            window_w,
            fixed_w,
            stage_w,
            fullscreen_w,
            vertices_w,
            compute_w,
            vertex_w,
            fragment_w,
            comp_w,
            in_w,
            out_w,
            size_w,
            end_w,
        }
    }
}

/// The parser's working state; `current` holds the open stage, if any.
struct Builder {
    buffers: Vec<BufferDecl>,
    stages: Vec<StageDecl>,
    current: Vec<StageDecl>,
}

impl Builder {
    spec fn view_state(&self) -> ParserState {
        ParserState {
            buffers: self.buffers@.map_values(|b: BufferDecl| buffer_model(b)),
            stages: self.stages@.map_values(|s: StageDecl| stage_model(s)),
            current: if self.current@.len() == 0 {
                None
            } else {
                Some(stage_model(self.current@.last()))
            },
        }
    }

    spec fn wf(&self) -> bool {
        self.current@.len() <= 1
    }
}

/// The number required at token position `i`, exactly as `required_number`
/// reads it.
fn required_number_exec(toks: &Vec<Vec<u8>>, i: usize) -> (r: Result<u32, ParseErrorKind>)
    ensures
        r == required_number(views(toks@), i as int),
{
    if i >= toks.len() {
        Err(ParseErrorKind::NumberExpected)
    } else {
        proof {
            assert(views(toks@)[i as int] == toks@[i as int]@);
        }
        match parse_number(toks[i].as_slice()) {
            Some(v) => Ok(v),
            None => Err(ParseErrorKind::NumberExpected),
        }
    }
}

/// Width, height and optional depth, exactly as `dims_at` reads them.
fn dims_exec(toks: &Vec<Vec<u8>>, i: usize) -> (r: Result<Resolution, ParseErrorKind>)
    requires
        i <= 4,
    ensures
        r == dims_at(views(toks@), i as int),
{
    let width = match required_number_exec(toks, i) {
        Ok(v) => v,
        Err(k) => {
            return Err(k);
        },
    };
    let height = match required_number_exec(toks, i + 1) {
        Ok(v) => v,
        Err(k) => {
            return Err(k);
        },
    };
    if toks.len() <= i + 2 {
        Ok(Resolution { width, height, depth: 0 })
    } else {
        match required_number_exec(toks, i + 2) {
            Ok(depth) => Ok(Resolution { width, height, depth }),
            Err(k) => Err(k),
        }
    }
}

/// The stage kind of a `stage` line, exactly as `kind_of` reads it.
fn kind_exec(toks: &Vec<Vec<u8>>, kw: &Keywords) -> (r: Result<StageKind, ParseErrorKind>)
    requires
        kw.wf(),
    ensures
        r == kind_of(views(toks@)),
{
    if toks.len() < 2 {
        return Err(ParseErrorKind::StageKindExpected);
    }
    proof {
        assert(views(toks@)[1] == toks@[1]@);
    }
    let head = toks[1].as_slice();
    if crate::preprocess::eq_bytes(head, kw.fullscreen_w.as_slice()) {
        Ok(StageKind::Fullscreen)
    } else if crate::preprocess::eq_bytes(head, kw.vertices_w.as_slice()) {
        let count = match required_number_exec(toks, 2) {
            Ok(v) => v,
            Err(k) => {
                return Err(k);
            },
        };
        match required_number_exec(toks, 3) {
            Ok(mode) => Ok(StageKind::Explicit { count, mode }),
            Err(k) => Err(k),
        }
    } else if crate::preprocess::eq_bytes(head, kw.compute_w.as_slice()) {
        let x = match required_number_exec(toks, 2) {
            Ok(v) => v,
            Err(k) => {
                return Err(k);
            },
        };
        let y = match required_number_exec(toks, 3) {
            Ok(v) => v,
            Err(k) => {
                return Err(k);
            },
        };
        match required_number_exec(toks, 4) {
            Ok(z) => Ok(StageKind::Compute { x, y, z }),
            Err(k) => Err(k),
        }
    } else {
        Err(ParseErrorKind::StageKindExpected)
    }
}

/// Applies one line's tokens to the state, exactly as `apply_line` does.
fn step(b: &mut Builder, toks: &Vec<Vec<u8>>, kw: &Keywords) -> (r: Result<(), ParseErrorKind>)
    requires
        kw.wf(),
        old(b).wf(),
    ensures
        final(b).wf(),
        match r {
            Ok(()) => apply_line(old(b).view_state(), views(toks@)) == Ok::<
                ParserState,
                ParseErrorKind,
            >(final(b).view_state()),
            Err(k) => apply_line(old(b).view_state(), views(toks@)) == Err::<
                ParserState,
                ParseErrorKind,
            >(k) && *final(b) == *old(b),
        },
{
    let nt = toks.len();
    if nt == 0 {
        return Ok(());
    }
    proof {
        assert(views(toks@)[0] == toks@[0]@);
        assert(views(toks@).len() == nt);
    }
    let head = toks[0].as_slice();
    if crate::preprocess::eq_bytes(head, kw.comment_w.as_slice()) {
        return Ok(());
    }
    if crate::preprocess::eq_bytes(head, kw.buffer_w.as_slice()) {
        if nt < 2 {
            return Err(ParseErrorKind::BufferNameExpected);
        }
        if nt < 3 {
            return Err(ParseErrorKind::PolicyExpected);
        }
        proof {
            assert(views(toks@)[1] == toks@[1]@);
            assert(views(toks@)[2] == toks@[2]@);
        }
        let policy = if crate::preprocess::eq_bytes(toks[2].as_slice(), kw.window_w.as_slice()) {
            BufferPolicy::WindowSized
        } else if crate::preprocess::eq_bytes(toks[2].as_slice(), kw.fixed_w.as_slice()) {
            match dims_exec(toks, 3) {
                Ok(r) => BufferPolicy::Fixed {
                    width: r.width,
                    height: r.height,
                    depth: r.depth,
                },
                Err(k) => {
                    return Err(k);
                },
            }
        } else {
            return Err(ParseErrorKind::PolicyExpected);
        };
        let ghost pre = b.view_state();
        let name = crate::pipeline::copy_bytes(toks[1].as_slice());
        b.buffers.push(BufferDecl { name, policy });
        proof {
            assert(b.view_state() =~= ParserState {
                buffers: pre.buffers.push(BufferModel { name: toks@[1]@, policy }),
                ..pre
            });
        }
        return Ok(());
    }
    if crate::preprocess::eq_bytes(head, kw.stage_w.as_slice()) {
        let kind = match kind_exec(toks, kw) {
            Ok(k) => k,
            Err(k) => {
                return Err(k);
            },
        };
        let ghost pre = b.view_state();
        match b.current.pop() {
            Some(c) => {
                b.stages.push(c);
            },
            None => {},
        }
        proof {
            assert(b.view_state() =~= flush(pre));
        }
        let ghost flushed = b.view_state();
        b.current.push(
            StageDecl {
                shaders: Vec::new(),
                kind,
                deps: Vec::new(),
                target: None,
                resolution: None,
            },
        );
        proof {
            assert(b.view_state() =~= ParserState {
                current: Some(
                    StageModel {
                        shaders: Seq::empty(),
                        kind,
                        deps: Seq::empty(),
                        target: None,
                        resolution: None,
                    },
                ),
                ..flushed
            });
        }
        return Ok(());
    }
    let is_vertex = crate::preprocess::eq_bytes(head, kw.vertex_w.as_slice());
    let is_fragment = crate::preprocess::eq_bytes(head, kw.fragment_w.as_slice());
    let is_comp = crate::preprocess::eq_bytes(head, kw.comp_w.as_slice());
    if is_vertex || is_fragment || is_comp {
        if b.current.len() == 0 {
            return Err(ParseErrorKind::ShaderOutsideStage);
        }
        if nt < 2 {
            return Err(ParseErrorKind::PathExpected);
        }
        proof {
            assert(views(toks@)[1] == toks@[1]@);
        }
        let ty = if is_vertex {
            ShaderType::Vertex
        } else if is_fragment {
            ShaderType::Fragment
        } else {
            ShaderType::Compute
        };
        let ghost pre = b.view_state();
        let path = crate::pipeline::copy_bytes(toks[1].as_slice());
        let mut c = b.current.pop().unwrap();
        let ghost c0 = stage_model(c);
        c.shaders.push(ShaderSlot { ty, path });
        b.current.push(c);
        proof {
            assert(stage_model(b.current@.last()) =~= StageModel {
                shaders: c0.shaders.push(ShaderModel { ty, path: toks@[1]@ }),
                ..c0
            });
            assert(b.view_state() =~= ParserState {
                current: Some(
                    StageModel {
                        shaders: c0.shaders.push(ShaderModel { ty, path: toks@[1]@ }),
                        ..c0
                    },
                ),
                ..pre
            });
        }
        return Ok(());
    }
    if crate::preprocess::eq_bytes(head, kw.in_w.as_slice()) {
        if b.current.len() == 0 {
            return Err(ParseErrorKind::DependencyOutsideStage);
        }
        let ghost pre = b.view_state();
        let mut c = b.current.pop().unwrap();
        let ghost c0 = stage_model(c);
        let mut k: usize = 1;
        while k < nt
            invariant
                1 <= k <= nt,
                nt == toks@.len(),
                c.deps@.map_values(|d: Vec<u8>| d@) == c0.deps + views(toks@).subrange(1, k as int),
                stage_model(c).kind == c0.kind,
                stage_model(c).target == c0.target,
                stage_model(c).resolution == c0.resolution,
                stage_model(c).shaders == c0.shaders,
            decreases nt - k,
        {
            let ghost deps0 = c.deps@.map_values(|d: Vec<u8>| d@);
            proof {
                assert(views(toks@)[k as int] == toks@[k as int]@);
            }
            c.deps.push(crate::pipeline::copy_bytes(toks[k].as_slice()));
            proof {
                assert(c.deps@.map_values(|d: Vec<u8>| d@) =~= deps0.push(toks@[k as int]@));
                assert(deps0.push(toks@[k as int]@) =~= c0.deps + views(toks@).subrange(
                    1,
                    k + 1,
                ));
            }
            k = k + 1;
        }
        proof {
            assert(views(toks@).subrange(1, nt as int) =~= views(toks@).skip(1));
        }
        b.current.push(c);
        proof {
            assert(stage_model(b.current@.last()) =~= StageModel {
                deps: c0.deps + views(toks@).skip(1),
                ..c0
            });
            assert(b.view_state() =~= ParserState {
                current: Some(StageModel { deps: c0.deps + views(toks@).skip(1), ..c0 }),
                ..pre
            });
        }
        return Ok(());
    }
    if crate::preprocess::eq_bytes(head, kw.out_w.as_slice()) {
        if b.current.len() == 0 {
            return Err(ParseErrorKind::TargetOutsideStage);
        }
        if nt < 2 {
            return Err(ParseErrorKind::TargetExpected);
        }
        proof {
            assert(views(toks@)[1] == toks@[1]@);
        }
        let ghost pre = b.view_state();
        let target = crate::pipeline::copy_bytes(toks[1].as_slice());
        let mut c = b.current.pop().unwrap();
        let ghost c0 = stage_model(c);
        c.target = Some(target);
        b.current.push(c);
        proof {
            assert(stage_model(b.current@.last()) =~= StageModel {
                target: Some(toks@[1]@),
                ..c0
            });
            assert(b.view_state() =~= ParserState {
                current: Some(StageModel { target: Some(toks@[1]@), ..c0 }),
                ..pre
            });
        }
        return Ok(());
    }
    if crate::preprocess::eq_bytes(head, kw.size_w.as_slice()) {
        if b.current.len() == 0 {
            return Err(ParseErrorKind::SizeOutsideStage);
        }
        let r = match dims_exec(toks, 1) {
            Ok(r) => r,
            Err(k) => {
                return Err(k);
            },
        };
        let ghost pre = b.view_state();
        let mut c = b.current.pop().unwrap();
        let ghost c0 = stage_model(c);
        c.resolution = Some(r);
        b.current.push(c);
        proof {
            assert(stage_model(b.current@.last()) =~= StageModel { resolution: Some(r), ..c0 });
            assert(b.view_state() =~= ParserState {
                current: Some(StageModel { resolution: Some(r), ..c0 }),
                ..pre
            });
        }
        return Ok(());
    }
    if crate::preprocess::eq_bytes(head, kw.end_w.as_slice()) {
        let ghost pre = b.view_state();
        match b.current.pop() {
            Some(c) => {
                b.stages.push(c);
            },
            None => {},
        }
        proof {
            assert(b.view_state() =~= flush(pre));
        }
        return Ok(());
    }
    Err(ParseErrorKind::UnknownWord)
}

/// Reads the description text. Succeeds exactly on the well-formed texts of
/// the grammar above, yielding the described buffers and stages in
/// declaration order; a malformed text is rejected with the first offending
/// line and what was wrong with it.
pub fn parse_description(text: &[u8]) -> (r: Result<PipelineDesc, ParseError>)
    ensures
        r matches Ok(d) ==> parse_spec(text@) == Ok::<DescModel, ParseError>(desc_model(d)),
        r matches Err(e) ==> parse_spec(text@) == Err::<DescModel, ParseError>(e),
        r is Ok <==> parse_spec(text@) is Ok,
{
    let kw = Keywords::new();
    let lines = split_lines(text);
    let mut b = Builder { buffers: Vec::new(), stages: Vec::new(), current: Vec::new() };
    let ghost init = ParserState { buffers: Seq::empty(), stages: Seq::empty(), current: None };
    proof {
        assert(b.view_state() =~= init);
    }
    let n = lines.len();
    let mut i: usize = 0;
    while i < n
        invariant
            i <= n,
            n == lines@.len(),
            kw.wf(),
            b.wf(),
            views(lines@) == lines_from(text@, 0),
            init == (ParserState { buffers: Seq::empty(), stages: Seq::empty(), current: None }),
            parse_lines(views(lines@), 0, init) == parse_lines(
                views(lines@),
                i as int,
                b.view_state(),
            ),
        decreases n - i,
    {
        let toks = tokenize(lines[i].as_slice());
        proof {
            assert(views(lines@)[i as int] == lines@[i as int]@);
        }
        match step(&mut b, &toks, &kw) {
            Ok(()) => {},
            Err(kind) => {
                proof {
                    assert(parse_lines(views(lines@), i as int, b.view_state())
                        == Err::<DescModel, ParseError>(ParseError { line: (i + 1) as usize, kind }));
                    assert(parse_lines(views(lines@), 0, init) == Err::<DescModel, ParseError>(
                        ParseError { line: (i + 1) as usize, kind },
                    ));
                    assert(parse_spec(text@) == parse_lines(
                        lines_from(text@, 0),
                        0,
                        ParserState { buffers: Seq::empty(), stages: Seq::empty(), current: None },
                    ));
                    assert(init == ParserState {
                        buffers: Seq::empty(),
                        stages: Seq::empty(),
                        current: None,
                    });
                    assert(parse_spec(text@) == Err::<DescModel, ParseError>(
                        ParseError { line: (i + 1) as usize, kind },
                    ));
                }
                return Err(ParseError { line: i + 1, kind });
            },
        }
        i = i + 1;
    }
    let ghost last = b.view_state();
    match b.current.pop() {
        Some(c) => {
            b.stages.push(c);
        },
        None => {},
    }
    proof {
        assert(b.view_state() =~= flush(last));
    }
    let d = PipelineDesc { buffers: b.buffers, stages: b.stages };
    proof {
        assert(parse_lines(views(lines@), n as int, last) == Ok::<DescModel, ParseError>(
            DescModel { buffers: flush(last).buffers, stages: flush(last).stages },
        ));
        assert(desc_model(d) =~= DescModel {
            buffers: flush(last).buffers,
            stages: flush(last).stages,
        });
    }
    Ok(d)
}

} // verus!
