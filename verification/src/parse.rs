//! The parser: source text to a syntax tree.
//!
//! A recursive-descent grammar over the mixed document language: JSON5
//! objects, arrays, members, literals and comments, interleaved at any level
//! with mustache tags (`{{name}}`, `{{&name}}`, `{{>name}}`, `{{!...}}`) and
//! sections (`{{#name}} ... {{/name}}`, `{{^name}} ... {{/name}}`). Free
//! text is kept as verbatim text runs. A region the grammar rejects becomes
//! an `Error` leaf holding the verbatim slice, and the error mark propagates
//! to the root; any `{{/...}}` tag closes the current section, and an
//! operator is recognized immediately after `{{`.
//!
//! Every parse function is proved to terminate, to advance, to build a tree
//! whose leaves spell the consumed slice exactly (`flat`) with error marks
//! consistent throughout, and to return precisely the tree its spec-level
//! mirror (`spec_parse_document` and the functions under it) prescribes.

use vstd::prelude::*;

use crate::tree::{
    contains_error, contains_error_any, error_marks_consistent, error_marks_consistent_all, flat,
    flat_all, lemma_contains_error_any_push, lemma_error_marks_consistent_all_push,
    lemma_flat_all_push, lemma_marks_all_index, lemma_models, lemma_models_push, model, models,
    NodeKind, NodeModel,
    SyntaxNode,
};

verus! {

broadcast use vstd::seq::group_seq_axioms, vstd::std_specs::vec::group_vec_axioms, crate::tree::lemma_models, crate::tree::lemma_models_push, crate::tree::lemma_flat_all_push, crate::tree::lemma_contains_error_any_push, crate::tree::lemma_error_marks_consistent_all_push;

/// Adjacent subranges concatenate.
pub proof fn lemma_subrange_concat(s: Seq<char>, a: int, b: int, c: int)
    requires
        0 <= a <= b <= c <= s.len(),
    ensures
        s.subrange(a, b) + s.subrange(b, c) == s.subrange(a, c),
{
    assert(s.subrange(a, b) + s.subrange(b, c) =~= s.subrange(a, c));
}

/// Whether `ch` is horizontal or vertical whitespace.
pub open spec fn spec_is_ws(ch: char) -> bool {
    ch == ' ' || ch == '\t' || ch == '\r' || ch == '\n'
}

/// Whether `ch` is horizontal or vertical whitespace.
fn is_ws(ch: char) -> (r: bool)
    ensures
        r == spec_is_ws(ch),
{
    ch == ' ' || ch == '\t' || ch == '\r' || ch == '\n'
}

/// Whether `ch` ends an unquoted token.
fn is_token_end(ch: char) -> (r: bool)
    ensures
        r == (spec_is_ws(ch) || ch == ',' || ch == ':' || ch == '{' || ch == '}' || ch == '['
            || ch == ']' || ch == '"' || ch == '\''),
{
    is_ws(ch) || ch == ',' || ch == ':' || ch == '{' || ch == '}' || ch == '[' || ch == ']' || ch
        == '"' || ch == '\''
}

/// Whether a `{{` delimiter opens at `pos`.
fn starts_tag(src: &Vec<char>, pos: usize) -> (r: bool)
    ensures
        r == (pos + 1 < src@.len() && src@[pos as int] == '{' && src@[pos + 1] == '{'),
{
    pos < src.len() && pos + 1 < src.len() && src[pos] == '{' && src[pos + 1] == '{'
}

/// Whether a `{{/` section end delimiter opens at `pos`.
fn starts_section_end(src: &Vec<char>, pos: usize) -> (r: bool)
    ensures
        r == (pos + 2 < src@.len() && src@[pos as int] == '{' && src@[pos + 1] == '{' && src@[pos
            + 2] == '/'),
{
    pos < src.len() && pos + 1 < src.len() && pos + 2 < src.len() && src[pos] == '{' && src[pos
        + 1] == '{' && src[pos + 2] == '/'
}

/// Whether a comment opens at `pos`.
fn starts_comment(src: &Vec<char>, pos: usize) -> (r: bool)
    ensures
        r == (pos + 1 < src@.len() && src@[pos as int] == '/' && (src@[pos + 1] == '/' || src@[pos
            + 1] == '*')),
{
    pos < src.len() && pos + 1 < src.len() && src[pos] == '/' && (src[pos + 1] == '/' || src[pos
        + 1] == '*')
}

/// The characters of `src` from `from` (inclusive) to `to` (exclusive).
fn copy_range(src: &Vec<char>, from: usize, to: usize) -> (r: Vec<char>)
    requires
        from <= to <= src@.len(),
    ensures
        r@ == src@.subrange(from as int, to as int),
{
    let mut r: Vec<char> = Vec::new();
    let mut i: usize = from;
    while i < to
        invariant
            from <= i <= to <= src@.len(),
            r@ == src@.subrange(from as int, i as int),
        decreases to - i,
    {
        r.push(src[i]);
        proof {
            assert(r@ =~= src@.subrange(from as int, i + 1));
        }
        i = i + 1;
    }
    r
}

/// The row after crossing the newlines of `src[from..to]`, saturating.
fn advance_rows(src: &Vec<char>, from: usize, to: usize, row: usize) -> (r: usize)
    requires
        from <= to <= src@.len(),
    ensures
        r as int == spec_rows(src@, from as int, to as int, row as int),
{
    let mut r: usize = row;
    let mut i: usize = from;
    while i < to
        invariant
            from <= i <= to <= src@.len(),
            spec_rows(src@, from as int, to as int, row as int) == spec_rows(
                src@,
                i as int,
                to as int,
                r as int,
            ),
        decreases to - i,
    {
        if src[i] == '\n' && r < usize::MAX {
            r = r + 1;
        }
        i = i + 1;
    }
    r
}

/// A leaf covering `src[from..to]`, with rows advanced over that slice.
fn leaf_range(src: &Vec<char>, kind: NodeKind, from: usize, to: usize, row: usize) -> (r: (
    SyntaxNode,
    usize,
))
    requires
        from <= to <= src@.len(),
    ensures
        flat(model(r.0)) == src@.subrange(from as int, to as int),
        error_marks_consistent(model(r.0)),
        contains_error(model(r.0)) == (kind == NodeKind::Error),
        model(r.0).kind == kind,
        model(r.0) == spec_leaf(src@, kind, from as int, to as int, row as int),
        r.1 as int == spec_rows(src@, from as int, to as int, row as int),
{
    let text = copy_range(src, from, to);
    let end_row = advance_rows(src, from, to, row);
    let n = SyntaxNode::leaf(kind, text, row, end_row);
    proof {
        assert(model(n) =~= spec_leaf(src@, kind, from as int, to as int, row as int));
    }
    (n, end_row)
}

/// Scans a whitespace run.
fn scan_ws(src: &Vec<char>, pos: usize, row: usize) -> (r: (SyntaxNode, usize, usize))
    requires
        pos < src@.len(),
        spec_is_ws(src@[pos as int]),
    ensures
        pos < r.1 <= src@.len(),
        flat(model(r.0)) == src@.subrange(pos as int, r.1 as int),
        error_marks_consistent(model(r.0)),
        !contains_error(model(r.0)),
        r.1 < src@.len() ==> !spec_is_ws(src@[r.1 as int]),
        (model(r.0), r.1 as int, r.2 as int) == spec_scan_ws(src@, pos as int, row as int),
{
    proof {
        vstd::std_specs::vec::axiom_spec_len(src);
    }
    let mut i: usize = pos + 1;
    while i < src.len() && is_ws(src[i])
        invariant
            pos < i <= src@.len(),
            spec_ws_run(src@, pos + 1) == spec_ws_run(src@, i as int),
        decreases src@.len() - i,
    {
        i = i + 1;
    }
    let (n, end_row) = leaf_range(src, NodeKind::Ws, pos, i, row);
    (n, i, end_row)
}

/// Scans an unquoted token (a number, boolean, null or identifier).
fn scan_token(src: &Vec<char>, pos: usize, row: usize) -> (r: (SyntaxNode, usize, usize))
    requires
        pos < src@.len(),
    ensures
        pos < r.1 <= src@.len(),
        flat(model(r.0)) == src@.subrange(pos as int, r.1 as int),
        error_marks_consistent(model(r.0)),
        !contains_error(model(r.0)),
        (model(r.0), r.1 as int, r.2 as int) == spec_scan_token(src@, pos as int, row as int),
{
    proof {
        vstd::std_specs::vec::axiom_spec_len(src);
    }
    let mut i: usize = pos + 1;
    while i < src.len() && !is_token_end(src[i])
        invariant
            pos < i <= src@.len(),
            spec_token_run(src@, pos + 1) == spec_token_run(src@, i as int),
        decreases src@.len() - i,
    {
        i = i + 1;
    }
    let (n, end_row) = leaf_range(src, NodeKind::Scalar, pos, i, row);
    (n, i, end_row)
}

/// Scans a quoted string literal; an unterminated one (newline or end of
/// input before the closing quote) becomes an `Error` leaf.
fn scan_string(src: &Vec<char>, pos: usize, row: usize) -> (r: (SyntaxNode, usize, usize))
    requires
        pos < src@.len(),
        src@[pos as int] == '"' || src@[pos as int] == '\'',
    ensures
        pos < r.1 <= src@.len(),
        flat(model(r.0)) == src@.subrange(pos as int, r.1 as int),
        error_marks_consistent(model(r.0)),
        (model(r.0), r.1 as int, r.2 as int) == spec_scan_string(src@, pos as int, row as int),
{
    proof {
        vstd::std_specs::vec::axiom_spec_len(src);
    }
    let q = src[pos];
    let mut i: usize = pos + 1;
    let mut closed: bool = false;
    while i < src.len() && !closed && src[i] != '\n'
        invariant
            pos < i <= src@.len(),
            closed ==> spec_string_run(src@, pos + 1, q) == (i as int, true),
            !closed ==> spec_string_run(src@, pos + 1, q) == spec_string_run(src@, i as int, q),
        decreases src@.len() - i,
    {
        if src[i] == q {
            closed = true;
            i = i + 1;
        } else if src[i] == '\\' && i + 1 < src.len() {
            i = i + 2;
        } else {
            i = i + 1;
        }
    }
    let kind = if closed {
        NodeKind::Scalar
    } else {
        NodeKind::Error
    };
    let (n, end_row) = leaf_range(src, kind, pos, i, row);
    (n, i, end_row)
}

/// Scans a run of free template text: up to a newline, a `{{` delimiter or
/// the end of input, trailing whitespace left for the next scan.
fn scan_text(src: &Vec<char>, pos: usize, row: usize) -> (r: (SyntaxNode, usize, usize))
    requires
        pos < src@.len(),
        !spec_is_ws(src@[pos as int]),
    ensures
        pos < r.1 <= src@.len(),
        flat(model(r.0)) == src@.subrange(pos as int, r.1 as int),
        error_marks_consistent(model(r.0)),
        !contains_error(model(r.0)),
        (model(r.0), r.1 as int, r.2 as int) == spec_scan_text(src@, pos as int, row as int),
{
    proof {
        vstd::std_specs::vec::axiom_spec_len(src);
    }
    let mut i: usize = pos + 1;
    while i < src.len() && src[i] != '\n' && !starts_tag(src, i)
        invariant
            pos < i <= src@.len(),
            spec_text_run(src@, pos + 1) == spec_text_run(src@, i as int),
        decreases src@.len() - i,
    {
        i = i + 1;
    }
    let ghost run_end = i as int;
    // leave trailing whitespace to the following whitespace scan
    while i > pos + 1 && is_ws(src[i - 1])
        invariant
            pos < i <= src@.len(),
            spec_text_trim(src@, pos as int, run_end) == spec_text_trim(src@, pos as int, i as int),
        decreases i,
    {
        i = i - 1;
    }
    let (n, end_row) = leaf_range(src, NodeKind::Text, pos, i, row);
    (n, i, end_row)
}

/// Scans a `//` line comment or `/* */` block comment into its pieces:
/// the opener, the whitespace gap after it, and the rest of the comment.
/// An unterminated block comment becomes an `Error` leaf.
fn scan_comment(src: &Vec<char>, pos: usize, row: usize) -> (r: (SyntaxNode, usize, usize))
    requires
        pos + 1 < src@.len(),
        src@[pos as int] == '/',
        src@[pos + 1] == '/' || src@[pos + 1] == '*',
    ensures
        pos < r.1 <= src@.len(),
        flat(model(r.0)) == src@.subrange(pos as int, r.1 as int),
        error_marks_consistent(model(r.0)),
        (model(r.0), r.1 as int, r.2 as int) == spec_scan_comment(src@, pos as int, row as int),
{
    proof {
        vstd::std_specs::vec::axiom_spec_len(src);
    }
    let block = src[pos + 1] == '*';
    // the whitespace gap right after the opener
    let gap_start: usize = pos + 2;
    let mut gap_end: usize = gap_start;
    while gap_end < src.len() && (src[gap_end] == ' ' || src[gap_end] == '\t')
        invariant
            gap_start <= gap_end <= src@.len(),
            spec_gap_run(src@, gap_start as int) == spec_gap_run(src@, gap_end as int),
        decreases src@.len() - gap_end,
    {
        gap_end = gap_end + 1;
    }
    // the rest: to the end of the line, or past the closing `*/`
    let mut i: usize = gap_end;
    let mut closed: bool = !block;
    if block {
        while i < src.len() && !closed
            invariant
                gap_end <= i <= src@.len(),
                closed ==> spec_block_run(src@, gap_end as int) == (i as int, true),
                !closed ==> spec_block_run(src@, gap_end as int) == spec_block_run(
                    src@,
                    i as int,
                ),
            decreases src@.len() - i, (if closed {
                0int
            } else {
                1int
            }),
        {
            if i + 1 < src.len() && src[i] == '*' && src[i + 1] == '/' {
                i = i + 2;
                closed = true;
            } else {
                i = i + 1;
            }
        }
    } else {
        while i < src.len() && src[i] != '\n'
            invariant
                gap_end <= i <= src@.len(),
                spec_line_run(src@, gap_end as int) == spec_line_run(src@, i as int),
            decreases src@.len() - i,
        {
            i = i + 1;
        }
    }
    if !closed {
        let (n, end_row) = leaf_range(src, NodeKind::Error, pos, i, row);
        return (n, i, end_row);
    }
    let (opener, row1) = leaf_range(src, NodeKind::Punct, pos, gap_start, row);
    let (gap, row2) = leaf_range(src, NodeKind::Ws, gap_start, gap_end, row1);
    let (rest, row3) = leaf_range(src, NodeKind::Text, gap_end, i, row2);
    let mut children: Vec<SyntaxNode> = Vec::new();
    children.push(opener);
    children.push(gap);
    children.push(rest);
    let ghost cs = models(children@);
    proof {
        assert(cs =~= Seq::<NodeModel>::empty().push(model(children@[0])).push(
            model(children@[1]),
        ).push(model(children@[2])));
        lemma_flat_all_push(Seq::<NodeModel>::empty(), cs[0]);
        lemma_flat_all_push(Seq::<NodeModel>::empty().push(cs[0]), cs[1]);
        lemma_flat_all_push(Seq::<NodeModel>::empty().push(cs[0]).push(cs[1]), cs[2]);
        lemma_contains_error_any_push(Seq::<NodeModel>::empty(), cs[0]);
        lemma_contains_error_any_push(Seq::<NodeModel>::empty().push(cs[0]), cs[1]);
        lemma_contains_error_any_push(Seq::<NodeModel>::empty().push(cs[0]).push(cs[1]), cs[2]);
        lemma_error_marks_consistent_all_push(Seq::<NodeModel>::empty(), cs[0]);
        lemma_error_marks_consistent_all_push(Seq::<NodeModel>::empty().push(cs[0]), cs[1]);
        lemma_error_marks_consistent_all_push(
            Seq::<NodeModel>::empty().push(cs[0]).push(cs[1]),
            cs[2],
        );
        lemma_subrange_concat(src@, pos as int, gap_start as int, gap_end as int);
        lemma_subrange_concat(src@, pos as int, gap_end as int, i as int);
    }
    let n = SyntaxNode {
        kind: NodeKind::Comment,
        text: Vec::new(),
        start_row: row,
        end_row: row3,
        has_error: false,
        children,
    };
    proof {
        assert(model(n).children == cs);
        assert(flat(model(n)) == flat_all(cs));
        assert(flat(model(n)) =~= src@.subrange(pos as int, i as int));
        assert(!contains_error(model(n)));
        assert(error_marks_consistent(model(n)));
        let s = src@;
        let p = pos as int;
        let w = row as int;
        let ge = spec_gap_run(s, p + 2);
        let sc0 = spec_leaf(s, NodeKind::Punct, p, p + 2, w);
        let sc1 = spec_leaf(s, NodeKind::Ws, p + 2, ge, sc0.end_row);
        let sc2 = spec_leaf(s, NodeKind::Text, ge, i as int, sc1.end_row);
        assert(ge == gap_end as int);
        assert(cs[0] == sc0);
        assert(cs[1] == sc1);
        assert(cs[2] == sc2);
        assert(cs =~= seq![sc0, sc1, sc2]);
        assert(model(n) =~= spec_scan_comment(s, p, w).0);
        assert(row3 as int == spec_scan_comment(s, p, w).2);
    }
    (n, i, row3)
}

} // verus!

verus! {

/// Appends a parsed node covering `src[from..to]` to `children`, keeping the
/// children's leaves spelling `src` from `anchor` on.
fn push_node(
    children: &mut Vec<SyntaxNode>,
    n: SyntaxNode,
    src: &Vec<char>,
    from: usize,
    to: usize,
    anchor: Ghost<int>,
)
    requires
        from <= to <= src@.len(),
        0 <= anchor@ <= from,
        flat(model(n)) == src@.subrange(from as int, to as int),
        error_marks_consistent(model(n)),
        flat_all(models(old(children)@)) == src@.subrange(anchor@, from as int),
        error_marks_consistent_all(models(old(children)@)),
    ensures
        flat_all(models(final(children)@)) == src@.subrange(anchor@, to as int),
        error_marks_consistent_all(models(final(children)@)),
        contains_error_any(models(final(children)@)) == (contains_error_any(
            models(old(children)@),
        ) || contains_error(model(n))),
        models(final(children)@) == models(old(children)@).push(model(n)),
{
    proof {
        lemma_subrange_concat(src@, anchor@, from as int, to as int);
    }
    let ghost old_cs = models(children@);
    children.push(n);
    proof {
        assert(models(children@) == old_cs.push(model(n)));
        assert(flat_all(models(children@)) == flat_all(old_cs) + flat(model(n)));
        assert(flat_all(models(children@)) =~= src@.subrange(anchor@, to as int));
    }
}

/// Appends a fresh leaf covering `src[from..to]` to `children`; returns the
/// row after that slice.
fn push_leaf(
    children: &mut Vec<SyntaxNode>,
    src: &Vec<char>,
    kind: NodeKind,
    from: usize,
    to: usize,
    row: usize,
    anchor: Ghost<int>,
) -> (r: usize)
    requires
        from <= to <= src@.len(),
        0 <= anchor@ <= from,
        flat_all(models(old(children)@)) == src@.subrange(anchor@, from as int),
        error_marks_consistent_all(models(old(children)@)),
    ensures
        flat_all(models(final(children)@)) == src@.subrange(anchor@, to as int),
        error_marks_consistent_all(models(final(children)@)),
        contains_error_any(models(final(children)@)) == (contains_error_any(
            models(old(children)@),
        ) || kind == NodeKind::Error),
        models(final(children)@).len() == models(old(children)@).len() + 1,
        models(final(children)@).last().kind == kind,
        models(final(children)@).drop_last() == models(old(children)@),
        models(final(children)@) == models(old(children)@).push(
            spec_leaf(src@, kind, from as int, to as int, row as int),
        ),
        r as int == spec_rows(src@, from as int, to as int, row as int),
{
    let (n, end_row) = leaf_range(src, kind, from, to, row);
    push_node(children, n, src, from, to, anchor);
    proof {
        assert(models(children@).drop_last() =~= models(old(children)@));
    }
    end_row
}

/// A composite node over `children`, its error mark the disjunction of its
/// children's marks.
fn branch(kind: NodeKind, children: Vec<SyntaxNode>, start_row: usize, end_row: usize) -> (r:
    SyntaxNode)
    requires
        error_marks_consistent_all(models(children@)),
        kind != NodeKind::Error,
    ensures
        model(r).kind == kind,
        model(r).children == models(children@),
        flat(model(r)) == flat_all(models(children@)),
        error_marks_consistent(model(r)),
        contains_error(model(r)) == contains_error_any(models(children@)),
        model(r).start_row == start_row as int,
        model(r).end_row == end_row as int,
        model(r).text == Seq::<char>::empty(),
        model(r).has_error == contains_error_any(models(children@)),
{
    let ghost cs = models(children@);
    let mut any: bool = false;
    let mut i: usize = 0;
    while i < children.len()
        invariant
            i <= children.len(),
            cs == models(children@),
            error_marks_consistent_all(cs),
            any == contains_error_any(cs.take(i as int)),
        decreases children.len() - i,
    {
        proof {
            assert(cs.take(i + 1).drop_last() =~= cs.take(i as int));
            assert(cs.take(i + 1).last() == cs[i as int]);
            lemma_marks_all_index(cs, i as int);
        }
        if children[i].has_error {
            any = true;
        }
        i = i + 1;
    }
    proof {
        assert(cs.take(children@.len() as int) =~= cs);
    }
    let r = SyntaxNode {
        kind,
        text: Vec::new(),
        start_row,
        end_row,
        has_error: any,
        children,
    };
    proof {
        assert(model(r).children == cs);
        if cs.len() == 0 {
            assert(flat(model(r)) =~= flat_all(cs));
        }
    }
    r
}

/// Whether a `}}` delimiter closes at `j`.
fn is_close_at(src: &Vec<char>, j: usize) -> (r: bool)
    ensures
        r == (j + 1 < src@.len() && src@[j as int] == '}' && src@[j + 1] == '}'),
{
    j < src.len() && j + 1 < src.len() && src[j] == '}' && src[j + 1] == '}'
}

/// Scans one `{{ ... }}` tag into a tag node holding its pieces: the `{{`,
/// an optional operator right after it, the inner expression with its
/// surrounding whitespace split off, and the `}}`. With no closing `}}`
/// before the end of input the whole remainder becomes an `Error` leaf.
fn scan_tag(src: &Vec<char>, pos: usize, row: usize) -> (r: (SyntaxNode, usize, usize))
    requires
        pos + 1 < src@.len(),
        src@[pos as int] == '{',
        src@[pos + 1] == '{',
    ensures
        pos < r.1 <= src@.len(),
        flat(model(r.0)) == src@.subrange(pos as int, r.1 as int),
        error_marks_consistent(model(r.0)),
        (model(r.0), r.1 as int, r.2 as int) == spec_scan_tag(src@, pos as int, row as int),
{
    proof {
        vstd::std_specs::vec::axiom_spec_len(src);
    }
    let mut i: usize = pos + 2;
    let mut op: Option<char> = None;
    if i < src.len() && (src[i] == '#' || src[i] == '^' || src[i] == '/' || src[i] == '!' || src[i]
        == '>' || src[i] == '&') {
        op = Some(src[i]);
        i = i + 1;
    }
    let op_end = i;
    let mut j: usize = i;
    while j < src.len() && !is_close_at(src, j)
        invariant
            i <= j <= src@.len(),
            spec_close_run(src@, i as int) == spec_close_run(src@, j as int),
        decreases src@.len() - j,
    {
        j = j + 1;
    }
    let found = is_close_at(src, j);
    if !found {
        let (n, end_row) = leaf_range(src, NodeKind::Error, pos, src.len(), row);
        return (n, src.len(), end_row);
    }
    // split the inner expression into leading whitespace, core, trailing
    let mut k1: usize = op_end;
    while k1 < j && is_ws(src[k1])
        invariant
            op_end <= k1 <= j <= src@.len(),
            spec_ws_run_to(src@, op_end as int, j as int) == spec_ws_run_to(
                src@,
                k1 as int,
                j as int,
            ),
        decreases j - k1,
    {
        k1 = k1 + 1;
    }
    let mut k2: usize = j;
    while k2 > k1 && is_ws(src[k2 - 1])
        invariant
            k1 <= k2 <= j <= src@.len(),
            spec_trim_to(src@, k1 as int, j as int) == spec_trim_to(src@, k1 as int, k2 as int),
        decreases k2,
    {
        k2 = k2 - 1;
    }
    let end = j + 2;
    let kind = match op {
        None => NodeKind::Interpolation,
        Some(c) => {
            if c == '&' {
                NodeKind::Unescaped
            } else if c == '>' {
                NodeKind::Partial
            } else if c == '!' {
                NodeKind::MustacheComment
            } else if c == '#' {
                NodeKind::SectionBegin
            } else if c == '^' {
                NodeKind::InvertedBegin
            } else {
                NodeKind::SectionEnd
            }
        },
    };
    proof {
        assert(kind == spec_tag_kind(
            pos + 2 < src@.len() && crate::render::spec_is_op_char(src@[pos + 2]),
            src@[pos + 2],
        ));
    }
    let ghost anchor = pos as int;
    let mut children: Vec<SyntaxNode> = Vec::new();
    proof {
        assert(models(children@) =~= Seq::<NodeModel>::empty());
        assert(flat_all(models(children@)) =~= src@.subrange(anchor, anchor));
    }
    let mut r: usize = row;
    r = push_leaf(&mut children, src, NodeKind::Punct, pos, pos + 2, r, Ghost(anchor));
    r = push_leaf(&mut children, src, NodeKind::Punct, pos + 2, op_end, r, Ghost(anchor));
    r = push_leaf(&mut children, src, NodeKind::Ws, op_end, k1, r, Ghost(anchor));
    r = push_leaf(&mut children, src, NodeKind::Text, k1, k2, r, Ghost(anchor));
    r = push_leaf(&mut children, src, NodeKind::Ws, k2, j, r, Ghost(anchor));
    r = push_leaf(&mut children, src, NodeKind::Punct, j, end, r, Ghost(anchor));
    let n = branch(kind, children, row, r);
    proof {
        let s = src@;
        let p = pos as int;
        let w = row as int;
        let oe = op_end as int;
        let jj = j as int;
        let sc0 = spec_leaf(s, NodeKind::Punct, p, p + 2, w);
        let sc1 = spec_leaf(s, NodeKind::Punct, p + 2, oe, sc0.end_row);
        let sc2 = spec_leaf(s, NodeKind::Ws, oe, k1 as int, sc1.end_row);
        let sc3 = spec_leaf(s, NodeKind::Text, k1 as int, k2 as int, sc2.end_row);
        let sc4 = spec_leaf(s, NodeKind::Ws, k2 as int, jj, sc3.end_row);
        let sc5 = spec_leaf(s, NodeKind::Punct, jj, jj + 2, sc4.end_row);
        assert(models(children@) =~= seq![sc0, sc1, sc2, sc3, sc4, sc5]);
        assert(model(n) =~= spec_scan_tag(s, p, w).0);
        assert(r as int == spec_scan_tag(s, p, w).2);
    }
    (n, end, r)
}

} // verus!

verus! {

/// Consumes a malformed region: whatever was already taken from `from` to
/// `cur` (at least one character in all), extended to the next separator,
/// closing brace or bracket, newline, tag or the end of input; an `Error`
/// leaf holding the verbatim slice.
fn error_region(src: &Vec<char>, from: usize, cur: usize, row: usize) -> (r: (
    SyntaxNode,
    usize,
    usize,
))
    requires
        from < src@.len(),
        from <= cur <= src@.len(),
    ensures
        from < r.1 <= src@.len(),
        cur <= r.1,
        flat(model(r.0)) == src@.subrange(from as int, r.1 as int),
        error_marks_consistent(model(r.0)),
        contains_error(model(r.0)),
        (model(r.0), r.1 as int, r.2 as int) == spec_error_region(
            src@,
            from as int,
            cur as int,
            row as int,
        ),
{
    proof {
        vstd::std_specs::vec::axiom_spec_len(src);
    }
    let mut i: usize = if cur > from {
        cur
    } else {
        from + 1
    };
    let ghost start = i as int;
    while i < src.len() && src[i] != ',' && src[i] != '}' && src[i] != ']' && src[i] != '\n'
        && !starts_tag(src, i)
        invariant
            from < i <= src@.len(),
            cur <= i,
            spec_sync_run(src@, start) == spec_sync_run(src@, i as int),
        decreases src@.len() - i,
    {
        i = i + 1;
    }
    let (n, er) = leaf_range(src, NodeKind::Error, from, i, row);
    (n, i, er)
}

/// Parses a value: an object, an array, a string, an unquoted token, or a
/// mustache construct; a separator or colon standing where a value should
/// begin becomes a one-character `Error` leaf.
fn parse_value(src: &Vec<char>, pos: usize, row: usize) -> (r: (SyntaxNode, usize, usize))
    requires
        pos < src@.len(),
        !spec_is_ws(src@[pos as int]),
    ensures
        pos < r.1 <= src@.len(),
        flat(model(r.0)) == src@.subrange(pos as int, r.1 as int),
        error_marks_consistent(model(r.0)),
        (model(r.0), r.1 as int, r.2 as int) == spec_parse_value(src@, pos as int, row as int),
    decreases src@.len() - pos, 3int,
{
    proof {
        vstd::std_specs::vec::axiom_spec_len(src);
    }
    let c = src[pos];
    if starts_tag(src, pos) {
        parse_mustache(src, pos, row)
    } else if c == '{' {
        parse_object(src, pos, row)
    } else if c == '[' {
        parse_array(src, pos, row)
    } else if c == '"' || c == '\'' {
        scan_string(src, pos, row)
    } else if c == ',' || c == '}' || c == ']' || c == ':' {
        let (n, er) = leaf_range(src, NodeKind::Error, pos, pos + 1, row);
        (n, pos + 1, er)
    } else {
        scan_token(src, pos, row)
    }
}

/// Scans the whitespace run at `cur`, or builds a zero-width whitespace
/// node, so that a member always has the same five-child shape.
fn opt_ws(src: &Vec<char>, cur: usize, row: usize) -> (r: (SyntaxNode, usize, usize))
    requires
        cur <= src@.len(),
    ensures
        cur <= r.1 <= src@.len(),
        flat(model(r.0)) == src@.subrange(cur as int, r.1 as int),
        error_marks_consistent(model(r.0)),
        !contains_error(model(r.0)),
        r.1 < src@.len() ==> !spec_is_ws(src@[r.1 as int]),
        (model(r.0), r.1 as int, r.2 as int) == spec_opt_ws(src@, cur as int, row as int),
{
    proof {
        vstd::std_specs::vec::axiom_spec_len(src);
    }
    if cur < src.len() && is_ws(src[cur]) {
        scan_ws(src, cur, row)
    } else {
        let (n, er) = leaf_range(src, NodeKind::Ws, cur, cur, row);
        (n, cur, er)
    }
}

/// Parses one `key: value` member of an object. A missing key, colon or
/// value turns the whole region into an `Error` leaf up to the next sync
/// point, kept verbatim.
fn parse_member(src: &Vec<char>, pos: usize, row: usize) -> (r: (SyntaxNode, usize, usize))
    requires
        pos < src@.len(),
        !spec_is_ws(src@[pos as int]),
    ensures
        pos < r.1 <= src@.len(),
        flat(model(r.0)) == src@.subrange(pos as int, r.1 as int),
        error_marks_consistent(model(r.0)),
        (model(r.0), r.1 as int, r.2 as int) == spec_parse_member(src@, pos as int, row as int),
    decreases src@.len() - pos, 2int,
{
    proof {
        vstd::std_specs::vec::axiom_spec_len(src);
    }
    let ghost anchor = pos as int;
    // the key
    let c0 = src[pos];
    let quoted = c0 == '"' || c0 == '\'';
    if !quoted && (is_token_end(c0) || starts_tag(src, pos)) {
        return error_region(src, pos, pos, row);
    }
    let mut children: Vec<SyntaxNode> = Vec::new();
    proof {
        assert(models(children@) =~= Seq::<NodeModel>::empty());
        assert(flat_all(models(children@)) =~= src@.subrange(anchor, anchor));
    }
    let (key, p1, r1) = if quoted {
        scan_string(src, pos, row)
    } else {
        scan_token(src, pos, row)
    };
    push_node(&mut children, key, src, pos, p1, Ghost(anchor));
    // whitespace before the colon
    let (w1, p2, r2) = opt_ws(src, p1, r1);
    push_node(&mut children, w1, src, p1, p2, Ghost(anchor));
    if !(p2 < src.len() && src[p2] == ':') {
        return error_region(src, pos, p2, row);
    }
    let r3 = push_leaf(&mut children, src, NodeKind::Punct, p2, p2 + 1, r2, Ghost(anchor));
    // whitespace before the value
    let (w2, p4, r4) = opt_ws(src, p2 + 1, r3);
    push_node(&mut children, w2, src, p2 + 1, p4, Ghost(anchor));
    if p4 >= src.len() || src[p4] == ',' || src[p4] == '}' || src[p4] == ']' {
        return error_region(src, pos, p4, row);
    }
    // the value
    let (v, p5, r5) = parse_value(src, p4, r4);
    push_node(&mut children, v, src, p4, p5, Ghost(anchor));
    let n = branch(NodeKind::Member, children, row, r5);
    proof {
        let sm = spec_parse_member(src@, pos as int, row as int);
        assert(spec_past(src@, pos as int, p4 as int) == p4 as int);
        assert(models(children@) =~= seq![
            model(key),
            model(w1),
            spec_leaf(src@, NodeKind::Punct, p2 as int, p2 + 1, r2 as int),
            model(w2),
            model(v),
        ]);
        assert(model(n) =~= sm.0);
    }
    (n, p5, r5)
}

/// Parses a `{ ... }` object: members separated by commas, with whitespace,
/// comments and mustache constructs allowed between them. A missing closing
/// brace marks the object erroneous.
fn parse_object(src: &Vec<char>, pos: usize, row: usize) -> (r: (SyntaxNode, usize, usize))
    requires
        pos < src@.len(),
        src@[pos as int] == '{',
    ensures
        pos < r.1 <= src@.len(),
        flat(model(r.0)) == src@.subrange(pos as int, r.1 as int),
        error_marks_consistent(model(r.0)),
        (model(r.0), r.1 as int, r.2 as int) == spec_parse_object(src@, pos as int, row as int),
    decreases src@.len() - pos, 1int,
{
    proof {
        vstd::std_specs::vec::axiom_spec_len(src);
    }
    let ghost anchor = pos as int;
    let ghost openm = spec_leaf(src@, NodeKind::Punct, pos as int, pos + 1, row as int);
    let ghost total = spec_obj_loop(src@, pos + 1, openm.end_row);
    let mut children: Vec<SyntaxNode> = Vec::new();
    proof {
        assert(models(children@) =~= Seq::<NodeModel>::empty());
        assert(flat_all(models(children@)) =~= src@.subrange(anchor, anchor));
    }
    let mut r: usize = row;
    r = push_leaf(&mut children, src, NodeKind::Punct, pos, pos + 1, r, Ghost(anchor));
    proof {
        assert(models(children@) =~= seq![openm]);
    }
    let mut cur: usize = pos + 1;
    let mut closed: bool = false;
    while cur < src.len() && !closed
        invariant
            pos < cur <= src@.len(),
            anchor == pos as int,
            flat_all(models(children@)) == src@.subrange(anchor, cur as int),
            error_marks_consistent_all(models(children@)),
            total == spec_obj_loop(src@, pos + 1, openm.end_row),
            models(children@).len() >= 1,
            models(children@).take(1) == seq![openm],
            !closed ==> total.0 == models(children@).skip(1) + spec_obj_loop(
                src@,
                cur as int,
                r as int,
            ).0,
            !closed ==> total.1 == spec_obj_loop(src@, cur as int, r as int).1,
            !closed ==> total.2 == spec_obj_loop(src@, cur as int, r as int).2,
            closed ==> total.0 == models(children@).skip(1) && total.1 == cur as int && total.2
                == r as int,
        decreases src@.len() - cur,
    {
        let ghost curr = spec_obj_loop(src@, cur as int, r as int);
        let ghost before = models(children@);
        let ghost oldcur = cur as int;
        let c = src[cur];
        if c == '}' {
            r = push_leaf(&mut children, src, NodeKind::Punct, cur, cur + 1, r, Ghost(anchor));
            cur = cur + 1;
            closed = true;
            proof {
                assert(models(children@).skip(1) =~= before.skip(1) + curr.0);
            }
        } else if is_ws(c) {
            let (w, p, r2) = scan_ws(src, cur, r);
            push_node(&mut children, w, src, cur, p, Ghost(anchor));
            cur = p;
            r = r2;
        } else if c == ',' {
            r = push_leaf(&mut children, src, NodeKind::Punct, cur, cur + 1, r, Ghost(anchor));
            cur = cur + 1;
        } else if starts_comment(src, cur) {
            let (n, p, r2) = scan_comment(src, cur, r);
            push_node(&mut children, n, src, cur, p, Ghost(anchor));
            cur = p;
            r = r2;
        } else if starts_tag(src, cur) {
            let (n, p, r2) = parse_mustache(src, cur, r);
            push_node(&mut children, n, src, cur, p, Ghost(anchor));
            cur = p;
            r = r2;
        } else if c == ']' || c == '{' || c == '[' || c == ':' {
            let (n, p, r2) = error_region(src, cur, cur, r);
            push_node(&mut children, n, src, cur, p, Ghost(anchor));
            cur = p;
            r = r2;
        } else {
            let (n, p, r2) = parse_member(src, cur, r);
            push_node(&mut children, n, src, cur, p, Ghost(anchor));
            cur = p;
            r = r2;
        }
        proof {
            if !closed {
                assert(spec_past(src@, oldcur, cur as int) == cur as int);
                assert(models(children@).skip(1) =~= before.skip(1) + seq![
                    models(children@).last(),
                ]);
                assert(curr.0 =~= seq![models(children@).last()] + spec_obj_loop(
                    src@,
                    cur as int,
                    r as int,
                ).0);
                assert(total.0 =~= models(children@).skip(1) + spec_obj_loop(
                    src@,
                    cur as int,
                    r as int,
                ).0);
            }
            assert(models(children@).take(1) =~= before.take(1));
        }
    }
    if !closed {
        let ghost before = models(children@);
        r = push_leaf(&mut children, src, NodeKind::Error, cur, cur, r, Ghost(anchor));
        proof {
            assert(models(children@).skip(1) =~= before.skip(1) + seq![models(children@).last()]);
            assert(models(children@).take(1) =~= before.take(1));
        }
    }
    let n = branch(NodeKind::Object, children, row, r);
    proof {
        assert(models(children@) =~= seq![openm] + total.0);
        assert(model(n) =~= spec_parse_object(src@, pos as int, row as int).0);
    }
    (n, cur, r)
}

/// Parses a `[ ... ]` array: values separated by commas, with whitespace,
/// comments and mustache constructs allowed between them. A missing closing
/// bracket marks the array erroneous.
fn parse_array(src: &Vec<char>, pos: usize, row: usize) -> (r: (SyntaxNode, usize, usize))
    requires
        pos < src@.len(),
        src@[pos as int] == '[',
    ensures
        pos < r.1 <= src@.len(),
        flat(model(r.0)) == src@.subrange(pos as int, r.1 as int),
        error_marks_consistent(model(r.0)),
        (model(r.0), r.1 as int, r.2 as int) == spec_parse_array(src@, pos as int, row as int),
    decreases src@.len() - pos, 1int,
{
    proof {
        vstd::std_specs::vec::axiom_spec_len(src);
    }
    let ghost anchor = pos as int;
    let ghost openm = spec_leaf(src@, NodeKind::Punct, pos as int, pos + 1, row as int);
    let ghost total = spec_arr_loop(src@, pos + 1, openm.end_row);
    let mut children: Vec<SyntaxNode> = Vec::new();
    proof {
        assert(models(children@) =~= Seq::<NodeModel>::empty());
        assert(flat_all(models(children@)) =~= src@.subrange(anchor, anchor));
    }
    let mut r: usize = row;
    r = push_leaf(&mut children, src, NodeKind::Punct, pos, pos + 1, r, Ghost(anchor));
    proof {
        assert(models(children@) =~= seq![openm]);
    }
    let mut cur: usize = pos + 1;
    let mut closed: bool = false;
    while cur < src.len() && !closed
        invariant
            pos < cur <= src@.len(),
            anchor == pos as int,
            flat_all(models(children@)) == src@.subrange(anchor, cur as int),
            error_marks_consistent_all(models(children@)),
            total == spec_arr_loop(src@, pos + 1, openm.end_row),
            models(children@).len() >= 1,
            models(children@).take(1) == seq![openm],
            !closed ==> total.0 == models(children@).skip(1) + spec_arr_loop(
                src@,
                cur as int,
                r as int,
            ).0,
            !closed ==> total.1 == spec_arr_loop(src@, cur as int, r as int).1,
            !closed ==> total.2 == spec_arr_loop(src@, cur as int, r as int).2,
            closed ==> total.0 == models(children@).skip(1) && total.1 == cur as int && total.2
                == r as int,
        decreases src@.len() - cur,
    {
        let ghost curr = spec_arr_loop(src@, cur as int, r as int);
        let ghost before = models(children@);
        let ghost oldcur = cur as int;
        let c = src[cur];
        if c == ']' {
            r = push_leaf(&mut children, src, NodeKind::Punct, cur, cur + 1, r, Ghost(anchor));
            cur = cur + 1;
            closed = true;
            proof {
                assert(models(children@).skip(1) =~= before.skip(1) + curr.0);
            }
        } else if is_ws(c) {
            let (w, p, r2) = scan_ws(src, cur, r);
            push_node(&mut children, w, src, cur, p, Ghost(anchor));
            cur = p;
            r = r2;
        } else if c == ',' {
            r = push_leaf(&mut children, src, NodeKind::Punct, cur, cur + 1, r, Ghost(anchor));
            cur = cur + 1;
        } else if starts_comment(src, cur) {
            let (n, p, r2) = scan_comment(src, cur, r);
            push_node(&mut children, n, src, cur, p, Ghost(anchor));
            cur = p;
            r = r2;
        } else if starts_tag(src, cur) {
            let (n, p, r2) = parse_mustache(src, cur, r);
            push_node(&mut children, n, src, cur, p, Ghost(anchor));
            cur = p;
            r = r2;
        } else {
            let (n, p, r2) = parse_value(src, cur, r);
            push_node(&mut children, n, src, cur, p, Ghost(anchor));
            cur = p;
            r = r2;
        }
        proof {
            if !closed {
                assert(spec_past(src@, oldcur, cur as int) == cur as int);
                assert(models(children@).skip(1) =~= before.skip(1) + seq![
                    models(children@).last(),
                ]);
                assert(curr.0 =~= seq![models(children@).last()] + spec_arr_loop(
                    src@,
                    cur as int,
                    r as int,
                ).0);
                assert(total.0 =~= models(children@).skip(1) + spec_arr_loop(
                    src@,
                    cur as int,
                    r as int,
                ).0);
            }
            assert(models(children@).take(1) =~= before.take(1));
        }
    }
    if !closed {
        let ghost before = models(children@);
        r = push_leaf(&mut children, src, NodeKind::Error, cur, cur, r, Ghost(anchor));
        proof {
            assert(models(children@).skip(1) =~= before.skip(1) + seq![models(children@).last()]);
            assert(models(children@).take(1) =~= before.take(1));
        }
    }
    let n = branch(NodeKind::Array, children, row, r);
    proof {
        assert(models(children@) =~= seq![openm] + total.0);
        assert(model(n) =~= spec_parse_array(src@, pos as int, row as int).0);
    }
    (n, cur, r)
}

/// Parses a mustache construct: a lone tag, or, for a `{{#...}}` or
/// `{{^...}}` begin delimiter, a whole section with its body and end
/// delimiter. Any `{{/...}}` tag closes the section; a section left open at
/// the end of input is marked erroneous.
fn parse_mustache(src: &Vec<char>, pos: usize, row: usize) -> (r: (SyntaxNode, usize, usize))
    requires
        pos + 1 < src@.len(),
        src@[pos as int] == '{',
        src@[pos + 1] == '{',
    ensures
        pos < r.1 <= src@.len(),
        flat(model(r.0)) == src@.subrange(pos as int, r.1 as int),
        error_marks_consistent(model(r.0)),
        (model(r.0), r.1 as int, r.2 as int) == spec_parse_mustache(src@, pos as int, row as int),
    decreases src@.len() - pos, 2int,
{
    proof {
        vstd::std_specs::vec::axiom_spec_len(src);
    }
    let (tag, p1, r1) = scan_tag(src, pos, row);
    let sec_begin = matches!(tag.kind, NodeKind::SectionBegin);
    let inv_begin = matches!(tag.kind, NodeKind::InvertedBegin);
    if !(sec_begin || inv_begin) {
        return (tag, p1, r1);
    }
    let ghost anchor = pos as int;
    let ghost tagm = model(tag);
    let mut children: Vec<SyntaxNode> = Vec::new();
    proof {
        assert(models(children@) =~= Seq::<NodeModel>::empty());
        assert(flat_all(models(children@)) =~= src@.subrange(anchor, anchor));
        assert(spec_past(src@, pos as int, p1 as int) == p1 as int);
    }
    push_node(&mut children, tag, src, pos, p1, Ghost(anchor));
    let ghost after_tag = models(children@);
    let (p2, r2) = parse_items(src, p1, r1, true, &mut children, Ghost(anchor));
    let ghost body = spec_items_loop(src@, p1 as int, r1 as int, true);
    let mut cur: usize = p2;
    let mut r: usize = r2;
    let ghost before_end = models(children@);
    if starts_section_end(src, cur) {
        let (endtag, p3, r3) = scan_tag(src, cur, r);
        push_node(&mut children, endtag, src, cur, p3, Ghost(anchor));
        cur = p3;
        r = r3;
    } else {
        r = push_leaf(&mut children, src, NodeKind::Error, cur, cur, r, Ghost(anchor));
    }
    let kind = if sec_begin {
        NodeKind::Section
    } else {
        NodeKind::InvertedSection
    };
    let n = branch(kind, children, row, r);
    proof {
        let sm = spec_parse_mustache(src@, pos as int, row as int);
        assert(before_end =~= seq![tagm] + body.0);
        assert(models(children@) =~= before_end + seq![models(children@).last()]);
        assert(models(children@) =~= seq![tagm] + body.0 + seq![models(children@).last()]);
        assert(model(n) =~= sm.0);
    }
    (n, cur, r)
}

/// Parses one item of a document or section body.
fn parse_item(src: &Vec<char>, pos: usize, row: usize) -> (r: (SyntaxNode, usize, usize))
    requires
        pos < src@.len(),
    ensures
        pos < r.1 <= src@.len(),
        flat(model(r.0)) == src@.subrange(pos as int, r.1 as int),
        error_marks_consistent(model(r.0)),
        (model(r.0), r.1 as int, r.2 as int) == spec_parse_item(src@, pos as int, row as int),
    decreases src@.len() - pos, 4int,
{
    proof {
        vstd::std_specs::vec::axiom_spec_len(src);
    }
    let c = src[pos];
    if is_ws(c) {
        scan_ws(src, pos, row)
    } else if starts_comment(src, pos) {
        scan_comment(src, pos, row)
    } else if starts_tag(src, pos) {
        parse_mustache(src, pos, row)
    } else if c == '{' {
        parse_object(src, pos, row)
    } else if c == '[' {
        parse_array(src, pos, row)
    } else if c == '"' || c == '\'' {
        scan_string(src, pos, row)
    } else {
        scan_text(src, pos, row)
    }
}

/// Parses items into `children` until the end of input or, inside a
/// section, until a `{{/...}}` delimiter.
fn parse_items(
    src: &Vec<char>,
    pos: usize,
    row: usize,
    in_section: bool,
    children: &mut Vec<SyntaxNode>,
    anchor: Ghost<int>,
) -> (r: (usize, usize))
    requires
        pos <= src@.len(),
        0 <= anchor@ <= pos,
        flat_all(models(old(children)@)) == src@.subrange(anchor@, pos as int),
        error_marks_consistent_all(models(old(children)@)),
    ensures
        pos <= r.0 <= src@.len(),
        flat_all(models(final(children)@)) == src@.subrange(anchor@, r.0 as int),
        error_marks_consistent_all(models(final(children)@)),
        !in_section ==> r.0 == src@.len(),
        models(final(children)@) == models(old(children)@) + spec_items_loop(
            src@,
            pos as int,
            row as int,
            in_section,
        ).0,
        r.0 as int == spec_items_loop(src@, pos as int, row as int, in_section).1,
        r.1 as int == spec_items_loop(src@, pos as int, row as int, in_section).2,
    decreases src@.len() - pos, 5int,
{
    proof {
        vstd::std_specs::vec::axiom_spec_len(src);
    }
    let ghost total = spec_items_loop(src@, pos as int, row as int, in_section);
    let ghost base = models(old(children)@).len() as int;
    let mut cur: usize = pos;
    let mut r: usize = row;
    let mut stop: bool = false;
    while cur < src.len() && !stop
        invariant
            pos <= cur <= src@.len(),
            0 <= anchor@ <= pos,
            flat_all(models(children@)) == src@.subrange(anchor@, cur as int),
            error_marks_consistent_all(models(children@)),
            stop ==> in_section && spec_section_end_at(src@, cur as int),
            total == spec_items_loop(src@, pos as int, row as int, in_section),
            base == models(old(children)@).len() as int,
            models(children@).len() >= base,
            models(children@).take(base) == models(old(children)@),
            total.0 == models(children@).skip(base) + spec_items_loop(
                src@,
                cur as int,
                r as int,
                in_section,
            ).0,
            total.1 == spec_items_loop(src@, cur as int, r as int, in_section).1,
            total.2 == spec_items_loop(src@, cur as int, r as int, in_section).2,
        decreases src@.len() - cur, (if stop {
            0int
        } else {
            1int
        }),
    {
        if in_section && starts_section_end(src, cur) {
            stop = true;
        } else {
            let ghost before = models(children@);
            let ghost oldcur = cur as int;
            let (n, p, r2) = parse_item(src, cur, r);
            push_node(children, n, src, cur, p, anchor);
            cur = p;
            r = r2;
            proof {
                assert(spec_past(src@, oldcur, cur as int) == cur as int);
                assert(models(children@).skip(base) =~= before.skip(base) + seq![
                    models(children@).last(),
                ]);
                assert(total.0 =~= models(children@).skip(base) + spec_items_loop(
                    src@,
                    cur as int,
                    r as int,
                    in_section,
                ).0);
                assert(models(children@).take(base) =~= before.take(base));
            }
        }
    }
    proof {
        assert(models(children@) =~= models(children@).take(base) + models(children@).skip(base));
        assert(models(children@) =~= models(old(children)@) + total.0);
    }
    (cur, r)
}

/// Parses a whole document: the syntax tree whose leaves spell `src`
/// exactly, with error marks consistent throughout (so the root's mark says
/// whether the grammar rejected any region).
pub fn parse_document(src: &Vec<char>) -> (r: SyntaxNode)
    ensures
        model(r).kind == NodeKind::Document,
        flat(model(r)) == src@,
        error_marks_consistent(model(r)),
        model(r).has_error == contains_error(model(r)),
        model(r) == spec_parse_document(src@),
{
    proof {
        vstd::std_specs::vec::axiom_spec_len(src);
    }
    let mut children: Vec<SyntaxNode> = Vec::new();
    proof {
        assert(models(children@) =~= Seq::<NodeModel>::empty());
        assert(flat_all(models(children@)) =~= src@.subrange(0, 0));
    }
    let (p, r) = parse_items(src, 0, 0, false, &mut children, Ghost(0int));
    let n = branch(NodeKind::Document, children, 0, r);
    proof {
        assert(src@.subrange(0, src@.len() as int) =~= src@);
        assert(models(children@) =~= spec_items_loop(src@, 0, 0, false).0);
        assert(model(n) =~= spec_parse_document(src@));
    }
    n
}

} // verus!

verus! {

/// The row after crossing the newlines of `s[from..to]`, saturating at the
/// machine limit.
pub open spec fn spec_rows(s: Seq<char>, from: int, to: int, row: int) -> int
    decreases to - from,
{
    if from >= to {
        row
    } else {
        spec_rows(
            s,
            from + 1,
            to,
            if s[from] == '\n' && row < usize::MAX as int {
                row + 1
            } else {
                row
            },
        )
    }
}

/// The leaf the parser builds over `s[from..to]` starting at `row`.
pub open spec fn spec_leaf(s: Seq<char>, kind: NodeKind, from: int, to: int, row: int) -> NodeModel {
    NodeModel {
        kind,
        text: s.subrange(from, to),
        start_row: row,
        end_row: spec_rows(s, from, to, row),
        has_error: kind == NodeKind::Error,
        children: Seq::empty(),
    }
}

/// Whether a `{{` delimiter opens at `i`.
pub open spec fn spec_tag_at(s: Seq<char>, i: int) -> bool {
    i + 1 < s.len() && s[i] == '{' && s[i + 1] == '{'
}

/// Whether `ch` ends an unquoted token.
pub open spec fn spec_is_token_end(ch: char) -> bool {
    spec_is_ws(ch) || ch == ',' || ch == ':' || ch == '{' || ch == '}' || ch == '[' || ch == ']'
        || ch == '"' || ch == '\''
}

/// The end of the whitespace run from `i`.
pub open spec fn spec_ws_run(s: Seq<char>, i: int) -> int
    decreases s.len() - i,
{
    if i < s.len() && spec_is_ws(s[i]) {
        spec_ws_run(s, i + 1)
    } else {
        i
    }
}

/// The end of the unquoted token from `i`.
pub open spec fn spec_token_run(s: Seq<char>, i: int) -> int
    decreases s.len() - i,
{
    if i < s.len() && !spec_is_token_end(s[i]) {
        spec_token_run(s, i + 1)
    } else {
        i
    }
}

/// The end of a quoted string body from `i`, and whether the closing quote
/// was reached before a newline or the end of input.
pub open spec fn spec_string_run(s: Seq<char>, i: int, q: char) -> (int, bool)
    decreases s.len() - i,
{
    if i < s.len() && s[i] != '\n' {
        if s[i] == q {
            (i + 1, true)
        } else if s[i] == '\\' && i + 1 < s.len() {
            spec_string_run(s, i + 2, q)
        } else {
            spec_string_run(s, i + 1, q)
        }
    } else {
        (i, false)
    }
}

/// The end of a free text run from `i`: up to a newline, a tag or the end.
pub open spec fn spec_text_run(s: Seq<char>, i: int) -> int
    decreases s.len() - i,
{
    if i < s.len() && s[i] != '\n' && !spec_tag_at(s, i) {
        spec_text_run(s, i + 1)
    } else {
        i
    }
}

/// The right trim of a text run ending at `i`: back over whitespace, never
/// past `pos + 1`.
pub open spec fn spec_text_trim(s: Seq<char>, pos: int, i: int) -> int
    decreases i,
{
    if i > pos + 1 && pos >= 0 && spec_is_ws(s[i - 1]) {
        spec_text_trim(s, pos, i - 1)
    } else {
        i
    }
}

/// The end of the sync scan for a malformed region starting at `i`.
pub open spec fn spec_sync_run(s: Seq<char>, i: int) -> int
    decreases s.len() - i,
{
    if i < s.len() && s[i] != ',' && s[i] != '}' && s[i] != ']' && s[i] != '\n' && !spec_tag_at(
        s,
        i,
    ) {
        spec_sync_run(s, i + 1)
    } else {
        i
    }
}

/// What `scan_ws` builds and where it stops.
pub open spec fn spec_scan_ws(s: Seq<char>, pos: int, row: int) -> (NodeModel, int, int) {
    let e = spec_ws_run(s, pos + 1);
    (spec_leaf(s, NodeKind::Ws, pos, e, row), e, spec_rows(s, pos, e, row))
}

/// What `scan_token` builds and where it stops.
pub open spec fn spec_scan_token(s: Seq<char>, pos: int, row: int) -> (NodeModel, int, int) {
    let e = spec_token_run(s, pos + 1);
    (spec_leaf(s, NodeKind::Scalar, pos, e, row), e, spec_rows(s, pos, e, row))
}

/// What `scan_string` builds and where it stops.
pub open spec fn spec_scan_string(s: Seq<char>, pos: int, row: int) -> (NodeModel, int, int) {
    let r = spec_string_run(s, pos + 1, s[pos]);
    let kind = if r.1 {
        NodeKind::Scalar
    } else {
        NodeKind::Error
    };
    (spec_leaf(s, kind, pos, r.0, row), r.0, spec_rows(s, pos, r.0, row))
}

/// What `scan_text` builds and where it stops.
pub open spec fn spec_scan_text(s: Seq<char>, pos: int, row: int) -> (NodeModel, int, int) {
    let e = spec_text_trim(s, pos, spec_text_run(s, pos + 1));
    (spec_leaf(s, NodeKind::Text, pos, e, row), e, spec_rows(s, pos, e, row))
}

/// What `error_region` builds and where it stops.
pub open spec fn spec_error_region(s: Seq<char>, from: int, cur: int, row: int) -> (
    NodeModel,
    int,
    int,
) {
    let start = if cur > from {
        cur
    } else {
        from + 1
    };
    let e = spec_sync_run(s, start);
    (spec_leaf(s, NodeKind::Error, from, e, row), e, spec_rows(s, from, e, row))
}

} // verus!

verus! {

/// The end of the run of blanks and tabs from `i`.
pub open spec fn spec_gap_run(s: Seq<char>, i: int) -> int
    decreases s.len() - i,
{
    if i < s.len() && (s[i] == ' ' || s[i] == '\t') {
        spec_gap_run(s, i + 1)
    } else {
        i
    }
}

/// The position past the closing `*/` of a block comment from `i`, and
/// whether one was found.
pub open spec fn spec_block_run(s: Seq<char>, i: int) -> (int, bool)
    decreases s.len() - i,
{
    if i < s.len() {
        if i + 1 < s.len() && s[i] == '*' && s[i + 1] == '/' {
            (i + 2, true)
        } else {
            spec_block_run(s, i + 1)
        }
    } else {
        (i, false)
    }
}

/// The end of the line from `i`.
pub open spec fn spec_line_run(s: Seq<char>, i: int) -> int
    decreases s.len() - i,
{
    if i < s.len() && s[i] != '\n' {
        spec_line_run(s, i + 1)
    } else {
        i
    }
}

/// What `scan_comment` builds and where it stops.
pub open spec fn spec_scan_comment(s: Seq<char>, pos: int, row: int) -> (NodeModel, int, int) {
    let block = s[pos + 1] == '*';
    let gap_end = spec_gap_run(s, pos + 2);
    let r = if block {
        spec_block_run(s, gap_end)
    } else {
        (spec_line_run(s, gap_end), true)
    };
    if !r.1 {
        (spec_leaf(s, NodeKind::Error, pos, r.0, row), r.0, spec_rows(s, pos, r.0, row))
    } else {
        let c0 = spec_leaf(s, NodeKind::Punct, pos, pos + 2, row);
        let c1 = spec_leaf(s, NodeKind::Ws, pos + 2, gap_end, c0.end_row);
        let c2 = spec_leaf(s, NodeKind::Text, gap_end, r.0, c1.end_row);
        (
            NodeModel {
                kind: NodeKind::Comment,
                text: Seq::empty(),
                start_row: row,
                end_row: c2.end_row,
                has_error: false,
                children: seq![c0, c1, c2],
            },
            r.0,
            c2.end_row,
        )
    }
}

/// The position of the first `}}` delimiter at or past `i`, or the length.
pub open spec fn spec_close_run(s: Seq<char>, i: int) -> int
    decreases s.len() - i,
{
    if i < s.len() && !(i + 1 < s.len() && s[i] == '}' && s[i + 1] == '}') {
        spec_close_run(s, i + 1)
    } else {
        i
    }
}

/// The end of the whitespace run from `i`, never past `j`.
pub open spec fn spec_ws_run_to(s: Seq<char>, i: int, j: int) -> int
    decreases j - i,
{
    if i < j && i < s.len() && spec_is_ws(s[i]) {
        spec_ws_run_to(s, i + 1, j)
    } else {
        i
    }
}

/// The right trim from `i` back over whitespace, never past `k1`.
pub open spec fn spec_trim_to(s: Seq<char>, k1: int, i: int) -> int
    decreases i,
{
    if i > k1 && k1 >= 0 && i <= s.len() && spec_is_ws(s[i - 1]) {
        spec_trim_to(s, k1, i - 1)
    } else {
        i
    }
}

/// The kind of a mustache tag whose operator character is `op`.
pub open spec fn spec_tag_kind(has_op: bool, op: char) -> NodeKind {
    if !has_op {
        NodeKind::Interpolation
    } else if op == '&' {
        NodeKind::Unescaped
    } else if op == '>' {
        NodeKind::Partial
    } else if op == '!' {
        NodeKind::MustacheComment
    } else if op == '#' {
        NodeKind::SectionBegin
    } else if op == '^' {
        NodeKind::InvertedBegin
    } else {
        NodeKind::SectionEnd
    }
}

/// What `scan_tag` builds and where it stops.
pub open spec fn spec_scan_tag(s: Seq<char>, pos: int, row: int) -> (NodeModel, int, int) {
    let has_op = pos + 2 < s.len() && crate::render::spec_is_op_char(s[pos + 2]);
    let op_end = if has_op {
        pos + 3
    } else {
        pos + 2
    };
    let j = spec_close_run(s, op_end);
    let found = j + 1 < s.len() && s[j] == '}' && s[j + 1] == '}';
    if !found {
        (
            spec_leaf(s, NodeKind::Error, pos, s.len() as int, row),
            s.len() as int,
            spec_rows(s, pos, s.len() as int, row),
        )
    } else {
        let k1 = spec_ws_run_to(s, op_end, j);
        let k2 = spec_trim_to(s, k1, j);
        let c0 = spec_leaf(s, NodeKind::Punct, pos, pos + 2, row);
        let c1 = spec_leaf(s, NodeKind::Punct, pos + 2, op_end, c0.end_row);
        let c2 = spec_leaf(s, NodeKind::Ws, op_end, k1, c1.end_row);
        let c3 = spec_leaf(s, NodeKind::Text, k1, k2, c2.end_row);
        let c4 = spec_leaf(s, NodeKind::Ws, k2, j, c3.end_row);
        let c5 = spec_leaf(s, NodeKind::Punct, j, j + 2, c4.end_row);
        (
            NodeModel {
                kind: spec_tag_kind(has_op, s[pos + 2]),
                text: Seq::empty(),
                start_row: row,
                end_row: c5.end_row,
                has_error: false,
                children: seq![c0, c1, c2, c3, c4, c5],
            },
            j + 2,
            c5.end_row,
        )
    }
}

} // verus!

verus! {

/// A composite node over modelled children, its error mark the disjunction
/// of theirs.
pub open spec fn spec_branch(
    kind: NodeKind,
    children: Seq<NodeModel>,
    start_row: int,
    end_row: int,
) -> NodeModel {
    NodeModel {
        kind,
        text: Seq::empty(),
        start_row,
        end_row,
        has_error: contains_error_any(children),
        children,
    }
}

/// The later of `p` and `cur + 1`, clamped to the input's length: every
/// sub-parser advances and stays in bounds, and this keeps the recursion
/// visibly bounded.
pub open spec fn spec_past(s: Seq<char>, cur: int, p: int) -> int {
    let q = if p > cur {
        p
    } else {
        cur + 1
    };
    if q > s.len() {
        s.len() as int
    } else {
        q
    }
}

/// Whether a comment opens at `i`.
pub open spec fn spec_comment_at(s: Seq<char>, i: int) -> bool {
    i + 1 < s.len() && s[i] == '/' && (s[i + 1] == '/' || s[i + 1] == '*')
}

/// Whether a `{{/` section end delimiter opens at `i`.
pub open spec fn spec_section_end_at(s: Seq<char>, i: int) -> bool {
    i + 2 < s.len() && s[i] == '{' && s[i + 1] == '{' && s[i + 2] == '/'
}

/// The whitespace run at `cur` as a node, or a zero-width whitespace node.
pub open spec fn spec_opt_ws(s: Seq<char>, cur: int, row: int) -> (NodeModel, int, int) {
    if cur < s.len() && spec_is_ws(s[cur]) {
        spec_scan_ws(s, cur, row)
    } else {
        (spec_leaf(s, NodeKind::Ws, cur, cur, row), cur, row)
    }
}

/// What `parse_value` builds and where it stops.
pub open spec fn spec_parse_value(s: Seq<char>, pos: int, row: int) -> (NodeModel, int, int)
    decreases s.len() - pos, 3int,
{
    if spec_tag_at(s, pos) {
        spec_parse_mustache(s, pos, row)
    } else if s[pos] == '{' {
        spec_parse_object(s, pos, row)
    } else if s[pos] == '[' {
        spec_parse_array(s, pos, row)
    } else if s[pos] == '"' || s[pos] == '\'' {
        spec_scan_string(s, pos, row)
    } else if s[pos] == ',' || s[pos] == '}' || s[pos] == ']' || s[pos] == ':' {
        (spec_leaf(s, NodeKind::Error, pos, pos + 1, row), pos + 1, spec_rows(s, pos, pos + 1, row))
    } else {
        spec_scan_token(s, pos, row)
    }
}

/// What `parse_member` builds and where it stops.
pub open spec fn spec_parse_member(s: Seq<char>, pos: int, row: int) -> (NodeModel, int, int)
    decreases s.len() - pos, 2int,
    when 0 <= pos < s.len()
{
    let quoted = s[pos] == '"' || s[pos] == '\'';
    if !quoted && (spec_is_token_end(s[pos]) || spec_tag_at(s, pos)) {
        spec_error_region(s, pos, pos, row)
    } else {
        let key = if quoted {
            spec_scan_string(s, pos, row)
        } else {
            spec_scan_token(s, pos, row)
        };
        let w1 = spec_opt_ws(s, key.1, key.2);
        if !(w1.1 < s.len() && s[w1.1] == ':') {
            spec_error_region(s, pos, w1.1, row)
        } else {
            let colon = spec_leaf(s, NodeKind::Punct, w1.1, w1.1 + 1, w1.2);
            let w2 = spec_opt_ws(s, w1.1 + 1, colon.end_row);
            if w2.1 >= s.len() || s[w2.1] == ',' || s[w2.1] == '}' || s[w2.1] == ']' {
                spec_error_region(s, pos, w2.1, row)
            } else {
                let v = spec_parse_value(s, spec_past(s, pos, w2.1), w2.2);
                let children = seq![key.0, w1.0, colon, w2.0, v.0];
                (spec_branch(NodeKind::Member, children, row, v.2), v.1, v.2)
            }
        }
    }
}

/// The children an object gathers from `cur` on, through its closing brace
/// (or a zero-width `Error` leaf at the end of input), with the stop
/// position and row.
pub open spec fn spec_obj_loop(s: Seq<char>, cur: int, row: int) -> (Seq<NodeModel>, int, int)
    decreases s.len() - cur, 6int,
{
    if cur >= s.len() {
        (seq![spec_leaf(s, NodeKind::Error, cur, cur, row)], cur, row)
    } else if s[cur] == '}' {
        (
            seq![spec_leaf(s, NodeKind::Punct, cur, cur + 1, row)],
            cur + 1,
            spec_rows(s, cur, cur + 1, row),
        )
    } else {
        let step = if spec_is_ws(s[cur]) {
            spec_scan_ws(s, cur, row)
        } else if s[cur] == ',' {
            (
                spec_leaf(s, NodeKind::Punct, cur, cur + 1, row),
                cur + 1,
                spec_rows(s, cur, cur + 1, row),
            )
        } else if spec_comment_at(s, cur) {
            spec_scan_comment(s, cur, row)
        } else if spec_tag_at(s, cur) {
            spec_parse_mustache(s, cur, row)
        } else if s[cur] == ']' || s[cur] == '{' || s[cur] == '[' || s[cur] == ':' {
            spec_error_region(s, cur, cur, row)
        } else {
            spec_parse_member(s, cur, row)
        };
        let rest = spec_obj_loop(s, spec_past(s, cur, step.1), step.2);
        (seq![step.0] + rest.0, rest.1, rest.2)
    }
}

/// What `parse_object` builds and where it stops.
pub open spec fn spec_parse_object(s: Seq<char>, pos: int, row: int) -> (NodeModel, int, int)
    decreases s.len() - pos, 1int,
    when 0 <= pos < s.len()
{
    let open = spec_leaf(s, NodeKind::Punct, pos, pos + 1, row);
    let l = spec_obj_loop(s, pos + 1, open.end_row);
    (spec_branch(NodeKind::Object, seq![open] + l.0, row, l.2), l.1, l.2)
}

/// The children an array gathers from `cur` on, analogous to an object's.
pub open spec fn spec_arr_loop(s: Seq<char>, cur: int, row: int) -> (Seq<NodeModel>, int, int)
    decreases s.len() - cur, 6int,
{
    if cur >= s.len() {
        (seq![spec_leaf(s, NodeKind::Error, cur, cur, row)], cur, row)
    } else if s[cur] == ']' {
        (
            seq![spec_leaf(s, NodeKind::Punct, cur, cur + 1, row)],
            cur + 1,
            spec_rows(s, cur, cur + 1, row),
        )
    } else {
        let step = if spec_is_ws(s[cur]) {
            spec_scan_ws(s, cur, row)
        } else if s[cur] == ',' {
            (
                spec_leaf(s, NodeKind::Punct, cur, cur + 1, row),
                cur + 1,
                spec_rows(s, cur, cur + 1, row),
            )
        } else if spec_comment_at(s, cur) {
            spec_scan_comment(s, cur, row)
        } else if spec_tag_at(s, cur) {
            spec_parse_mustache(s, cur, row)
        } else {
            spec_parse_value(s, cur, row)
        };
        let rest = spec_arr_loop(s, spec_past(s, cur, step.1), step.2);
        (seq![step.0] + rest.0, rest.1, rest.2)
    }
}

/// What `parse_array` builds and where it stops.
pub open spec fn spec_parse_array(s: Seq<char>, pos: int, row: int) -> (NodeModel, int, int)
    decreases s.len() - pos, 1int,
    when 0 <= pos < s.len()
{
    let open = spec_leaf(s, NodeKind::Punct, pos, pos + 1, row);
    let l = spec_arr_loop(s, pos + 1, open.end_row);
    (spec_branch(NodeKind::Array, seq![open] + l.0, row, l.2), l.1, l.2)
}

/// What `parse_mustache` builds and where it stops.
pub open spec fn spec_parse_mustache(s: Seq<char>, pos: int, row: int) -> (NodeModel, int, int)
    decreases s.len() - pos, 2int,
    when 0 <= pos < s.len()
{
    let tag = spec_scan_tag(s, pos, row);
    if !(tag.0.kind == NodeKind::SectionBegin || tag.0.kind == NodeKind::InvertedBegin) {
        tag
    } else {
        let body = spec_items_loop(s, spec_past(s, pos, tag.1), tag.2, true);
        let fin = if spec_section_end_at(s, body.1) {
            let e = spec_scan_tag(s, body.1, body.2);
            (seq![e.0], e.1, e.2)
        } else {
            (seq![spec_leaf(s, NodeKind::Error, body.1, body.1, body.2)], body.1, body.2)
        };
        let kind = if tag.0.kind == NodeKind::SectionBegin {
            NodeKind::Section
        } else {
            NodeKind::InvertedSection
        };
        (spec_branch(kind, seq![tag.0] + body.0 + fin.0, row, fin.2), fin.1, fin.2)
    }
}

/// What `parse_item` builds and where it stops.
pub open spec fn spec_parse_item(s: Seq<char>, pos: int, row: int) -> (NodeModel, int, int)
    decreases s.len() - pos, 4int,
{
    if spec_is_ws(s[pos]) {
        spec_scan_ws(s, pos, row)
    } else if spec_comment_at(s, pos) {
        spec_scan_comment(s, pos, row)
    } else if spec_tag_at(s, pos) {
        spec_parse_mustache(s, pos, row)
    } else if s[pos] == '{' {
        spec_parse_object(s, pos, row)
    } else if s[pos] == '[' {
        spec_parse_array(s, pos, row)
    } else if s[pos] == '"' || s[pos] == '\'' {
        spec_scan_string(s, pos, row)
    } else {
        spec_scan_text(s, pos, row)
    }
}

/// The items gathered from `cur` to the end of input or, inside a section,
/// to a `{{/...}}` delimiter, with the stop position and row.
pub open spec fn spec_items_loop(s: Seq<char>, cur: int, row: int, in_section: bool) -> (
    Seq<NodeModel>,
    int,
    int,
)
    decreases s.len() - cur, 6int,
{
    if cur >= s.len() || (in_section && spec_section_end_at(s, cur)) {
        (Seq::empty(), cur, row)
    } else {
        let step = spec_parse_item(s, cur, row);
        let rest = spec_items_loop(s, spec_past(s, cur, step.1), step.2, in_section);
        (seq![step.0] + rest.0, rest.1, rest.2)
    }
}

/// What `parse_document` builds: the tree every formatting call renders.
pub open spec fn spec_parse_document(s: Seq<char>) -> NodeModel {
    let l = spec_items_loop(s, 0, 0, false);
    spec_branch(NodeKind::Document, l.0, 0, l.2)
}

} // verus!
