//! The node formatter: a pure function from a syntax tree, an indent depth
//! and a configuration to rendered text.
//!
//! `spec_render_node` is the mathematical definition of rendering; the
//! executable functions are proved to emit exactly that text. Layout rules:
//! an object is laid out one member per line when it has more than one
//! member or its source span crosses lines; an array when it has more than
//! five elements or its span crosses lines; empty objects and arrays stay
//! `{}` and `[]` unconditionally.

use vstd::prelude::*;

use crate::config::{
    chars_to_string, spec_indent_unit, Config, MustacheIndentStyle, QuoteStyle, TrailingCommaStyle,
};
use crate::tree::{flat, lemma_models, model, models, NodeKind, NodeModel, SyntaxNode};

verus! {

broadcast use vstd::seq::group_seq_axioms, crate::tree::lemma_models;

/// The next indent depth down, saturating at the machine limit.
pub open spec fn spec_bump(d: nat) -> nat {
    if d < usize::MAX as nat {
        d + 1
    } else {
        d
    }
}

/// `depth` repetitions of the configured indent unit.
pub open spec fn spec_indent(c: Config, depth: nat) -> Seq<char>
    decreases depth,
{
    if depth == 0 {
        Seq::empty()
    } else {
        spec_indent(c, (depth - 1) as nat) + spec_indent_unit(c)
    }
}

/// Whether a kind is semantically meaningful (tree-sitter's "named"), as
/// opposed to anonymous whitespace or punctuation.
pub open spec fn spec_is_named(k: NodeKind) -> bool {
    k != NodeKind::Ws && k != NodeKind::Punct
}

/// Kinds whose renderer emits its own leading indentation.
pub open spec fn spec_self_indenting(k: NodeKind) -> bool {
    ||| k == NodeKind::Section
    ||| k == NodeKind::InvertedSection
    ||| k == NodeKind::Comment
    ||| k == NodeKind::MustacheComment
}

/// The begin delimiter of a section or inverted section.
pub open spec fn spec_is_begin(k: NodeKind) -> bool {
    k == NodeKind::SectionBegin || k == NodeKind::InvertedBegin
}

/// A comment of either grammar.
pub open spec fn spec_is_comment_kind(k: NodeKind) -> bool {
    k == NodeKind::Comment || k == NodeKind::MustacheComment
}

/// A named child that counts as content of an object or array (comments do
/// not).
pub open spec fn spec_is_element(k: NodeKind) -> bool {
    spec_is_named(k) && !spec_is_comment_kind(k)
}

/// Kinds whose rendering always opens fresh lines.
pub open spec fn spec_forces_line(k: NodeKind) -> bool {
    k == NodeKind::Section || k == NodeKind::InvertedSection
}

/// The index of the last named child before position `j`, or -1.
pub open spec fn spec_last_named_before(cs: Seq<NodeModel>, j: int) -> int
    decreases j,
{
    if j <= 0 || j > cs.len() {
        -1
    } else if spec_is_named(cs[j - 1].kind) {
        j - 1
    } else {
        spec_last_named_before(cs, j - 1)
    }
}

/// The index of the first named child past position `i`, or the length.
pub open spec fn spec_next_named_after(cs: Seq<NodeModel>, i: int) -> int
    decreases cs.len() - i,
{
    if i + 1 >= cs.len() || i + 1 < 0 {
        cs.len() as int
    } else if spec_is_named(cs[i + 1].kind) {
        i + 1
    } else {
        spec_next_named_after(cs, i + 1)
    }
}

/// A comment at position `j` hangs at the end of the line of the entry
/// before it: the previous named child is an element that ended on the
/// comment's own starting row.
pub open spec fn spec_comment_hangs(cs: Seq<NodeModel>, j: int) -> bool {
    let p = spec_last_named_before(cs, j);
    &&& 0 <= p < cs.len()
    &&& spec_is_element(cs[p].kind)
    &&& cs[p].end_row == cs[j].start_row
}

/// An entry at position `i` holds its line open for a comment hanging after
/// it on the same source row.
pub open spec fn spec_holds_line(cs: Seq<NodeModel>, i: int) -> bool {
    let j = spec_next_named_after(cs, i);
    &&& 0 <= j < cs.len()
    &&& spec_is_comment_kind(cs[j].kind)
    &&& cs[j].start_row == cs[i].end_row
}

/// A comment's own text under the comment-handling options, without
/// indentation.
pub open spec fn spec_comment_body(m: NodeModel, c: Config) -> Seq<char> {
    if m.kind == NodeKind::Comment {
        spec_render_comment(m.children, m.children.len() as int, c)
    } else {
        flat(m)
    }
}

/// A one-character punctuation node holding `ch`.
pub open spec fn spec_is_punct1(m: NodeModel, ch: char) -> bool {
    m.kind == NodeKind::Punct && m.text.len() == 1 && m.text[0] == ch
}

/// The `{{` opening delimiter token.
pub open spec fn spec_is_open_delim(m: NodeModel) -> bool {
    m.kind == NodeKind::Punct && m.text.len() == 2 && m.text[0] == '{' && m.text[1] == '{'
}

/// The `}}` closing delimiter token.
pub open spec fn spec_is_close_delim(m: NodeModel) -> bool {
    m.kind == NodeKind::Punct && m.text.len() == 2 && m.text[0] == '}' && m.text[1] == '}'
}

/// A mustache operator character.
pub open spec fn spec_is_op_char(ch: char) -> bool {
    ch == '#' || ch == '^' || ch == '/' || ch == '!' || ch == '>' || ch == '&'
}

/// A one-character operator punctuation node.
pub open spec fn spec_is_op(m: NodeModel) -> bool {
    m.kind == NodeKind::Punct && m.text.len() == 1 && spec_is_op_char(m.text[0])
}

/// How many times `ch` occurs in `s`.
pub open spec fn spec_count_char(s: Seq<char>, ch: char) -> nat
    decreases s,
{
    if s.len() == 0 {
        0
    } else {
        spec_count_char(s.drop_last(), ch) + if s.last() == ch {
            1nat
        } else {
            0nat
        }
    }
}

/// How many of the first `i` children are members.
pub open spec fn spec_member_count(cs: Seq<NodeModel>, i: int) -> nat
    decreases i,
{
    if i <= 0 || i > cs.len() {
        0
    } else {
        spec_member_count(cs, i - 1) + if cs[i - 1].kind == NodeKind::Member {
            1nat
        } else {
            0nat
        }
    }
}

/// How many of the first `i` children are named.
pub open spec fn spec_named_count(cs: Seq<NodeModel>, i: int) -> nat
    decreases i,
{
    if i <= 0 || i > cs.len() {
        0
    } else {
        spec_named_count(cs, i - 1) + if spec_is_named(cs[i - 1].kind) {
            1nat
        } else {
            0nat
        }
    }
}

/// How many of the first `i` children are elements.
pub open spec fn spec_element_count(cs: Seq<NodeModel>, i: int) -> nat
    decreases i,
{
    if i <= 0 || i > cs.len() {
        0
    } else {
        spec_element_count(cs, i - 1) + if spec_is_element(cs[i - 1].kind) {
            1nat
        } else {
            0nat
        }
    }
}

/// Whether a member child follows position `i`.
pub open spec fn spec_member_after(cs: Seq<NodeModel>, i: int) -> bool {
    exists|j: int| i < j < cs.len() && (#[trigger] cs[j]).kind == NodeKind::Member
}

/// Whether an element child follows position `i`.
pub open spec fn spec_element_after(cs: Seq<NodeModel>, i: int) -> bool {
    exists|j: int| i < j < cs.len() && spec_is_element((#[trigger] cs[j]).kind)
}

/// Whether, after the last entry among the first `i` children (a member when
/// `member_only`, any named child otherwise), a comma token follows: the
/// source had a trailing comma.
pub open spec fn spec_had_trailing(cs: Seq<NodeModel>, i: int, member_only: bool) -> bool
    decreases i,
{
    if i <= 0 || i > cs.len() {
        false
    } else {
        if (member_only && cs[i - 1].kind == NodeKind::Member) || (!member_only
            && spec_is_element(cs[i - 1].kind)) {
            false
        } else if spec_is_punct1(cs[i - 1], ',') {
            true
        } else {
            spec_had_trailing(cs, i - 1, member_only)
        }
    }
}

/// An object is laid out one member per line when it has more than one
/// member, its source span crosses lines, or some child of its own renders
/// across lines (so that a reformat of the output chooses the same layout).
pub open spec fn spec_multiline_object(m: NodeModel) -> bool
    decreases m, 0int, 0int,
{
    ||| spec_member_count(m.children, m.children.len() as int) > 1
    ||| m.start_row != m.end_row
    ||| spec_any_named_renders_ml(m.children, m.children.len() as int)
}

/// An array is laid out one element per line when it has more than five
/// elements, its source span crosses lines, or some child of its own renders
/// across lines.
pub open spec fn spec_multiline_array(m: NodeModel) -> bool
    decreases m, 0int, 0int,
{
    ||| spec_element_count(m.children, m.children.len() as int) > 5
    ||| m.start_row != m.end_row
    ||| spec_any_named_renders_ml(m.children, m.children.len() as int)
}

/// Whether rendering `m` can emit a line break: sections always do; objects,
/// arrays and members by the layout of what they hold; leaves when their
/// verbatim text holds a newline.
pub open spec fn spec_renders_ml(m: NodeModel) -> bool
    decreases m, 1int, 0int,
{
    if m.kind == NodeKind::Section || m.kind == NodeKind::InvertedSection {
        true
    } else if m.kind == NodeKind::Object {
        spec_multiline_object(m)
    } else if m.kind == NodeKind::Array {
        spec_multiline_array(m)
    } else if m.kind == NodeKind::Member || m.kind == NodeKind::Document {
        spec_any_named_renders_ml(m.children, m.children.len() as int)
    } else {
        spec_count_char(flat(m), '\n') > 0
    }
}

/// Whether some named child among the first `i` renders across lines.
pub open spec fn spec_any_named_renders_ml(cs: Seq<NodeModel>, i: int) -> bool
    decreases cs, 2int, i,
{
    if i <= 0 || i > cs.len() {
        false
    } else {
        spec_any_named_renders_ml(cs, i - 1) || (spec_is_named(cs[i - 1].kind) && spec_renders_ml(
            cs[i - 1],
        ))
    }
}

/// Whether `ch` occurs strictly inside `t` (not at its first or last
/// position).
pub open spec fn spec_has_char_inside(t: Seq<char>, ch: char) -> bool {
    exists|i: int| 1 <= i < t.len() - 1 && t[i] == ch
}

/// A literal under the quote-style policy: a single-quoted string becomes
/// double-quoted under `Double` (and the converse under `Single`) when its
/// body contains neither kind of quote nor a backslash, so that no escape
/// rewriting is needed; every other literal is kept verbatim.
pub open spec fn spec_render_scalar(t: Seq<char>, c: Config) -> Seq<char> {
    if c.quote_style == QuoteStyle::Double && t.len() >= 2 && t[0] == '\'' && t[t.len() - 1] == '\''
        && !spec_has_char_inside(t, '\'') && !spec_has_char_inside(t, '"')
        && !spec_has_char_inside(t, '\\') {
        seq!['"'] + t.subrange(1, t.len() - 1) + seq!['"']
    } else if c.quote_style == QuoteStyle::Single && t.len() >= 2 && t[0] == '"' && t[t.len()
        - 1] == '"' && !spec_has_char_inside(t, '\'') && !spec_has_char_inside(t, '"')
        && !spec_has_char_inside(t, '\\') {
        seq!['\''] + t.subrange(1, t.len() - 1) + seq!['\'']
    } else {
        t
    }
}

/// A mustache tag re-assembled from its pieces over the first `i` children:
/// `{{`, an optional operator, the trimmed inner expression, `}}`, spaced
/// per the mustache spacing options.
pub open spec fn spec_render_tag(cs: Seq<NodeModel>, i: int, c: Config) -> Seq<char>
    decreases i,
{
    if i <= 0 || i > cs.len() {
        Seq::empty()
    } else {
        let acc = spec_render_tag(cs, i - 1, c);
        let m = cs[i - 1];
        if spec_is_open_delim(m) {
            acc + seq!['{', '{'] + if c.mustache_spacing.after_open {
                seq![' ']
            } else {
                Seq::empty()
            }
        } else if spec_is_close_delim(m) {
            acc + if c.mustache_spacing.before_close {
                seq![' ']
            } else {
                Seq::empty()
            } + seq!['}', '}']
        } else if spec_is_op(m) {
            acc + if c.mustache_spacing.around_operators && !(acc.len() > 0 && acc.last() == ' ') {
                seq![' ']
            } else {
                Seq::empty()
            } + m.text + if c.mustache_spacing.around_operators {
                seq![' ']
            } else {
                Seq::empty()
            }
        } else if m.kind == NodeKind::Text {
            acc + m.text
        } else {
            acc
        }
    }
}

/// A comment re-emitted from its pieces (opener, the whitespace gap after
/// it, the rest): verbatim, except that `normalize_spacing` replaces the
/// gap by a single space.
pub open spec fn spec_render_comment(cs: Seq<NodeModel>, i: int, c: Config) -> Seq<char>
    decreases i,
{
    if i <= 0 || i > cs.len() {
        Seq::empty()
    } else {
        let acc = spec_render_comment(cs, i - 1, c);
        let m = cs[i - 1];
        if m.kind == NodeKind::Ws {
            acc + if c.comment_handling.normalize_spacing {
                seq![' ']
            } else {
                m.text
            }
        } else if m.kind == NodeKind::Punct || m.kind == NodeKind::Text {
            acc + m.text
        } else {
            acc
        }
    }
}

/// The separator emitted right after an object member at position `i`: a
/// comma while members follow, else whatever the trailing-comma policy asks
/// for.
pub open spec fn spec_obj_sep(cs: Seq<NodeModel>, i: int, ml: bool, c: Config) -> Seq<char> {
    if spec_member_after(cs, i) {
        if ml {
            seq![',']
        } else {
            seq![',', ' ']
        }
    } else {
        if (c.trailing_commas == TrailingCommaStyle::Always && ml) || (c.trailing_commas
            == TrailingCommaStyle::Preserve && spec_had_trailing(cs, cs.len() as int, true)) {
            seq![',']
        } else {
            Seq::empty()
        }
    }
}

/// The separator emitted right after an array element at position `i`.
pub open spec fn spec_arr_sep(cs: Seq<NodeModel>, i: int, ml: bool, c: Config) -> Seq<char> {
    if spec_element_after(cs, i) {
        if ml {
            seq![',']
        } else {
            seq![',', ' ']
        }
    } else {
        if (c.trailing_commas == TrailingCommaStyle::Always && ml) || (c.trailing_commas
            == TrailingCommaStyle::Preserve && spec_had_trailing(cs, cs.len() as int, false)) {
            seq![',']
        } else {
            Seq::empty()
        }
    }
}

/// State of the line-oriented layout of a document or section body.
#[verifier::ext_equal]
pub struct BodyState {
    /// Text emitted so far.
    pub acc: Seq<char>,
    /// The output stands at the start of a fresh line.
    pub at_line_start: bool,
    /// Some named content has been emitted.
    pub seen: bool,
    /// A blank separator line is owed before the next content.
    pub pending: bool,
}

/// Rendering of the first `i` children of a document or section body.
///
/// Content is laid out line by line: children that shared a source line stay
/// on one line; whitespace runs with a newline end the line; a run of blank
/// lines between content is capped at one separator line when
/// `preserve_empty_lines` is set, and blank runs at the edges of the body
/// collapse to nothing. Section delimiters stand at `outer` depth, body
/// content at `inner` depth.
pub open spec fn spec_body(cs: Seq<NodeModel>, i: int, outer: nat, inner: nat, c: Config) -> BodyState
    decreases cs, 4int, i,
{
    if i <= 0 || i > cs.len() {
        BodyState { acc: Seq::empty(), at_line_start: true, seen: false, pending: false }
    } else {
        let st = spec_body(cs, i - 1, outer, inner, c);
        let m = cs[i - 1];
        if spec_is_begin(m.kind) {
            BodyState {
                acc: st.acc + if st.at_line_start {
                    if st.pending {
                        seq!['\n']
                    } else {
                        Seq::empty()
                    }
                } else {
                    seq!['\n']
                } + spec_indent(c, outer) + spec_render_node(m, outer, c) + seq!['\n'],
                at_line_start: true,
                seen: false,
                pending: false,
            }
        } else if m.kind == NodeKind::SectionEnd {
            BodyState {
                acc: st.acc + if st.at_line_start {
                    Seq::empty()
                } else {
                    seq!['\n']
                } + spec_indent(c, outer) + spec_render_node(m, outer, c),
                at_line_start: false,
                seen: st.seen,
                pending: false,
            }
        } else if m.kind == NodeKind::Ws {
            if spec_count_char(m.text, '\n') > 0 {
                BodyState {
                    acc: st.acc + if st.at_line_start {
                        Seq::empty()
                    } else {
                        seq!['\n']
                    },
                    at_line_start: true,
                    seen: st.seen,
                    pending: st.pending || (st.seen && spec_count_char(m.text, '\n') >= 2
                        && c.preserve_empty_lines),
                }
            } else {
                BodyState {
                    acc: st.acc + if st.at_line_start {
                        Seq::empty()
                    } else {
                        m.text
                    },
                    at_line_start: st.at_line_start,
                    seen: st.seen,
                    pending: st.pending,
                }
            }
        } else if spec_is_named(m.kind) {
            BodyState {
                acc: st.acc + if st.at_line_start {
                    (if st.pending {
                        seq!['\n']
                    } else {
                        Seq::empty()
                    }) + (if spec_self_indenting(m.kind) {
                        Seq::empty()
                    } else {
                        spec_indent(c, inner)
                    })
                } else {
                    if spec_forces_line(m.kind) {
                        seq!['\n']
                    } else {
                        Seq::empty()
                    }
                } + spec_render_node(m, inner, c),
                at_line_start: false,
                seen: true,
                pending: false,
            }
        } else {
            st
        }
    }
}

/// Rendering of the first `i` children of an object.
pub open spec fn spec_obj_items(cs: Seq<NodeModel>, i: int, depth: nat, c: Config, ml: bool) -> Seq<
    char,
>
    decreases cs, 4int, i,
{
    if i <= 0 || i > cs.len() {
        Seq::empty()
    } else {
        let acc = spec_obj_items(cs, i - 1, depth, c, ml);
        let m = cs[i - 1];
        if spec_is_punct1(m, '{') {
            acc + seq!['{'] + if ml {
                seq!['\n']
            } else {
                Seq::empty()
            }
        } else if spec_is_punct1(m, '}') {
            acc + if ml {
                spec_indent(c, depth)
            } else {
                Seq::empty()
            } + seq!['}']
        } else if m.kind == NodeKind::Member {
            acc + if ml {
                spec_indent(c, spec_bump(depth))
            } else {
                Seq::empty()
            } + spec_render_node(m, spec_bump(depth), c) + spec_obj_sep(cs, i - 1, ml, c) + if ml
                && !spec_holds_line(cs, i - 1) {
                seq!['\n']
            } else {
                Seq::empty()
            }
        } else if spec_is_comment_kind(m.kind) {
            if ml {
                if spec_comment_hangs(cs, i - 1) {
                    acc + seq![' '] + spec_comment_body(m, c) + seq!['\n']
                } else {
                    acc + spec_render_node(m, spec_bump(depth), c) + seq!['\n']
                }
            } else {
                acc + spec_render_node(m, spec_bump(depth), c)
            }
        } else if spec_is_named(m.kind) {
            acc + if ml && !spec_self_indenting(m.kind) {
                spec_indent(c, spec_bump(depth))
            } else {
                Seq::empty()
            } + spec_render_node(m, spec_bump(depth), c) + if ml {
                seq!['\n']
            } else {
                Seq::empty()
            }
        } else {
            acc
        }
    }
}

/// Rendering of the first `i` children of an array.
pub open spec fn spec_arr_items(cs: Seq<NodeModel>, i: int, depth: nat, c: Config, ml: bool) -> Seq<
    char,
>
    decreases cs, 4int, i,
{
    if i <= 0 || i > cs.len() {
        Seq::empty()
    } else {
        let acc = spec_arr_items(cs, i - 1, depth, c, ml);
        let m = cs[i - 1];
        if spec_is_punct1(m, '[') {
            acc + seq!['['] + if ml {
                seq!['\n']
            } else {
                Seq::empty()
            }
        } else if spec_is_punct1(m, ']') {
            acc + if ml {
                spec_indent(c, depth)
            } else {
                Seq::empty()
            } + seq![']']
        } else if spec_is_comment_kind(m.kind) {
            if ml {
                if spec_comment_hangs(cs, i - 1) {
                    acc + seq![' '] + spec_comment_body(m, c) + seq!['\n']
                } else {
                    acc + spec_render_node(m, spec_bump(depth), c) + seq!['\n']
                }
            } else {
                acc + spec_render_node(m, spec_bump(depth), c)
            }
        } else if spec_is_named(m.kind) {
            acc + if ml && !spec_self_indenting(m.kind) {
                spec_indent(c, spec_bump(depth))
            } else {
                Seq::empty()
            } + spec_render_node(m, spec_bump(depth), c) + spec_arr_sep(cs, i - 1, ml, c) + if ml
                && !spec_holds_line(cs, i - 1) {
                seq!['\n']
            } else {
                Seq::empty()
            }
        } else {
            acc
        }
    }
}

/// Rendering of the first `i` children of a member: the key and the value
/// by their own dispatch, the colon always followed by exactly one space
/// and never preceded by one.
pub open spec fn spec_member_items(cs: Seq<NodeModel>, i: int, depth: nat, c: Config) -> Seq<char>
    decreases cs, 4int, i,
{
    if i <= 0 || i > cs.len() {
        Seq::empty()
    } else {
        let acc = spec_member_items(cs, i - 1, depth, c);
        let m = cs[i - 1];
        if spec_is_punct1(m, ':') {
            acc + seq![':', ' ']
        } else if spec_is_named(m.kind) {
            acc + spec_render_node(m, depth, c)
        } else {
            acc
        }
    }
}

/// The indent depth of a section body under the configured style.
pub open spec fn spec_section_inner(depth: nat, c: Config) -> nat {
    if c.mustache_indent_style == MustacheIndentStyle::Block {
        spec_bump(depth)
    } else {
        depth
    }
}

/// An object: `{}` when it has no named content; otherwise its children in
/// order, one member per line with a comma after each member but the last
/// when the layout is multi-line, members joined by `", "` when inline.
pub open spec fn spec_render_object(m: NodeModel, depth: nat, c: Config) -> Seq<char>
    decreases m, 2int, 0int,
{
    if spec_named_count(m.children, m.children.len() as int) == 0 {
        seq!['{', '}']
    } else {
        spec_obj_items(m.children, m.children.len() as int, depth, c, spec_multiline_object(m))
    }
}

/// An array: `[]` when it has no named content; otherwise its elements in
/// order, analogous to an object.
pub open spec fn spec_render_array(m: NodeModel, depth: nat, c: Config) -> Seq<char>
    decreases m, 2int, 0int,
{
    if spec_named_count(m.children, m.children.len() as int) == 0 {
        seq!['[', ']']
    } else {
        spec_arr_items(m.children, m.children.len() as int, depth, c, spec_multiline_array(m))
    }
}

/// What rendering a node at `depth` emits, by kind: the mathematical
/// definition of the formatter.
pub open spec fn spec_render_node(m: NodeModel, depth: nat, c: Config) -> Seq<char>
    decreases m, 3int, 0int,
{
    match m.kind {
        NodeKind::Document => spec_body(m.children, m.children.len() as int, depth, depth, c).acc,
        NodeKind::Object => spec_render_object(m, depth, c),
        NodeKind::Array => spec_render_array(m, depth, c),
        NodeKind::Member => spec_member_items(m.children, m.children.len() as int, depth, c),
        NodeKind::Section | NodeKind::InvertedSection => spec_body(
            m.children,
            m.children.len() as int,
            depth,
            spec_section_inner(depth, c),
            c,
        ).acc,
        NodeKind::Interpolation | NodeKind::Unescaped | NodeKind::Partial | NodeKind::SectionBegin
            | NodeKind::InvertedBegin | NodeKind::SectionEnd => spec_render_tag(
            m.children,
            m.children.len() as int,
            c,
        ),
        NodeKind::MustacheComment => spec_indent(c, depth) + flat(m),
        NodeKind::Comment => spec_indent(c, depth) + spec_render_comment(
            m.children,
            m.children.len() as int,
            c,
        ),
        NodeKind::Scalar => spec_render_scalar(m.text, c),
        NodeKind::Text | NodeKind::Error | NodeKind::Ws | NodeKind::Punct => flat(m),
    }
}

/// What formatting a whole document emits: its root rendered at depth zero.
pub open spec fn spec_render_document(m: NodeModel, c: Config) -> Seq<char> {
    spec_render_node(m, 0, c)
}

} // verus!

verus! {

/// The next indent depth down, saturating at the machine limit.
fn bump(d: usize) -> (r: usize)
    ensures
        r as nat == spec_bump(d as nat),
{
    if d < usize::MAX {
        d + 1
    } else {
        d
    }
}

/// Appends every character of `t` to `out`.
fn push_all(out: &mut Vec<char>, t: &Vec<char>)
    ensures
        final(out)@ == old(out)@ + t@,
{
    let mut i: usize = 0;
    while i < t.len()
        invariant
            i <= t.len(),
            out@ == old(out)@ + t@.take(i as int),
        decreases t.len() - i,
    {
        out.push(t[i]);
        proof {
            assert(out@ =~= old(out)@ + t@.take(i + 1));
        }
        i = i + 1;
    }
    proof {
        assert(t@.take(t.len() as int) =~= t@);
    }
}

/// Appends `depth` indent units to `out`.
fn indent_into(c: &Config, depth: usize, out: &mut Vec<char>)
    ensures
        final(out)@ == old(out)@ + spec_indent(*c, depth as nat),
{
    let mut d: usize = 0;
    while d < depth
        invariant
            d <= depth,
            out@ == old(out)@ + spec_indent(*c, d as nat),
        decreases depth - d,
    {
        if c.use_tabs {
            out.push('\t');
            proof {
                assert(out@ =~= old(out)@ + spec_indent(*c, d as nat) + spec_indent_unit(*c));
            }
        } else {
            let ghost before = out@;
            let mut j: usize = 0;
            while j < c.indent_size
                invariant
                    j <= c.indent_size,
                    out@ == before + crate::config::spec_spaces(j as nat),
                decreases c.indent_size - j,
            {
                out.push(' ');
                j = j + 1;
            }
            proof {
                assert(out@ =~= old(out)@ + spec_indent(*c, d as nat) + spec_indent_unit(*c));
            }
        }
        d = d + 1;
        proof {
            assert(spec_indent(*c, d as nat) == spec_indent(*c, (d - 1) as nat) + spec_indent_unit(
                *c,
            ));
            assert(out@ =~= old(out)@ + spec_indent(*c, d as nat));
        }
    }
}

/// Whether the kind is semantically meaningful.
fn is_named_kind(k: NodeKind) -> (r: bool)
    ensures
        r == spec_is_named(k),
{
    match k {
        NodeKind::Ws | NodeKind::Punct => false,
        _ => true,
    }
}

/// Whether the kind emits its own leading indentation.
fn is_self_indenting(k: NodeKind) -> (r: bool)
    ensures
        r == spec_self_indenting(k),
{
    match k {
        NodeKind::Section | NodeKind::InvertedSection | NodeKind::Comment
            | NodeKind::MustacheComment => true,
        _ => false,
    }
}

/// Whether the kind is a section begin delimiter.
fn is_begin_kind(k: NodeKind) -> (r: bool)
    ensures
        r == spec_is_begin(k),
{
    match k {
        NodeKind::SectionBegin | NodeKind::InvertedBegin => true,
        _ => false,
    }
}

/// Whether the kind is a comment of either grammar.
fn is_comment_kind(k: NodeKind) -> (r: bool)
    ensures
        r == spec_is_comment_kind(k),
{
    match k {
        NodeKind::Comment | NodeKind::MustacheComment => true,
        _ => false,
    }
}

/// Whether the kind counts as content of an object or array.
fn is_element_kind(k: NodeKind) -> (r: bool)
    ensures
        r == spec_is_element(k),
{
    is_named_kind(k) && !is_comment_kind(k)
}

/// Whether the kind always opens fresh lines.
fn forces_line_kind(k: NodeKind) -> (r: bool)
    ensures
        r == spec_forces_line(k),
{
    match k {
        NodeKind::Section | NodeKind::InvertedSection => true,
        _ => false,
    }
}

/// The index of the last named child before `j`, if any.
fn last_named_before(children: &Vec<SyntaxNode>, j: usize) -> (r: Option<usize>)
    requires
        j <= children@.len(),
    ensures
        match r {
            Some(k) => k < j && k as int == spec_last_named_before(models(children@), j as int),
            None => spec_last_named_before(models(children@), j as int) == -1,
        },
{
    let ghost cs = models(children@);
    let mut k: usize = j;
    while k > 0 && !is_named_kind(children[k - 1].kind)
        invariant
            k <= j <= children@.len(),
            cs == models(children@),
            spec_last_named_before(cs, j as int) == spec_last_named_before(cs, k as int),
        decreases k,
    {
        k = k - 1;
    }
    if k == 0 {
        None
    } else {
        Some(k - 1)
    }
}

/// The index of the first named child past `i`, if any.
fn next_named_after(children: &Vec<SyntaxNode>, i: usize) -> (r: Option<usize>)
    requires
        i < children@.len(),
    ensures
        match r {
            Some(k) => k as int == spec_next_named_after(models(children@), i as int) && k
                < children@.len(),
            None => spec_next_named_after(models(children@), i as int) == children@.len() as int,
        },
{
    proof {
        vstd::std_specs::vec::axiom_spec_len(children);
    }
    let ghost cs = models(children@);
    let mut k: usize = i + 1;
    while k < children.len() && !is_named_kind(children[k].kind)
        invariant
            i < k <= children@.len(),
            cs == models(children@),
            spec_next_named_after(cs, i as int) == spec_next_named_after(cs, k - 1),
        decreases children@.len() - k,
    {
        k = k + 1;
    }
    if k < children.len() {
        Some(k)
    } else {
        None
    }
}

/// Whether the comment at `j` hangs at the end of the previous entry's line.
fn comment_hangs(children: &Vec<SyntaxNode>, j: usize) -> (r: bool)
    requires
        j < children@.len(),
    ensures
        r == spec_comment_hangs(models(children@), j as int),
{
    match last_named_before(children, j) {
        Some(p) => is_element_kind(children[p].kind) && children[p].end_row
            == children[j].start_row,
        None => false,
    }
}

/// Whether the entry at `i` holds its line open for a hanging comment.
fn holds_line(children: &Vec<SyntaxNode>, i: usize) -> (r: bool)
    requires
        i < children@.len(),
    ensures
        r == spec_holds_line(models(children@), i as int),
{
    match next_named_after(children, i) {
        Some(j) => is_comment_kind(children[j].kind) && children[j].start_row
            == children[i].end_row,
        None => false,
    }
}

/// Whether `n` is a one-character punctuation node holding `ch`.
fn is_punct1(n: &SyntaxNode, ch: char) -> (r: bool)
    ensures
        r == spec_is_punct1(model(*n), ch),
{
    matches!(n.kind, NodeKind::Punct) && n.text.len() == 1 && n.text[0] == ch
}

/// Whether `n` is the `{{` token.
fn is_open_delim(n: &SyntaxNode) -> (r: bool)
    ensures
        r == spec_is_open_delim(model(*n)),
{
    matches!(n.kind, NodeKind::Punct) && n.text.len() == 2 && n.text[0] == '{' && n.text[1] == '{'
}

/// Whether `n` is the `}}` token.
fn is_close_delim(n: &SyntaxNode) -> (r: bool)
    ensures
        r == spec_is_close_delim(model(*n)),
{
    matches!(n.kind, NodeKind::Punct) && n.text.len() == 2 && n.text[0] == '}' && n.text[1] == '}'
}

/// Whether `n` is a one-character mustache operator token.
fn is_op(n: &SyntaxNode) -> (r: bool)
    ensures
        r == spec_is_op(model(*n)),
{
    matches!(n.kind, NodeKind::Punct) && n.text.len() == 1 && (n.text[0] == '#' || n.text[0] == '^'
        || n.text[0] == '/' || n.text[0] == '!' || n.text[0] == '>' || n.text[0] == '&')
}

/// Counts the newlines in `t`.
fn count_nl(t: &Vec<char>) -> (r: usize)
    ensures
        r as nat == spec_count_char(t@, '\n'),
{
    let mut r: usize = 0;
    let mut i: usize = 0;
    while i < t.len()
        invariant
            i <= t.len(),
            r <= i,
            r as nat == spec_count_char(t@.take(i as int), '\n'),
        decreases t.len() - i,
    {
        proof {
            assert(t@.take(i + 1).drop_last() =~= t@.take(i as int));
            assert(t@.take(i + 1).last() == t@[i as int]);
        }
        if t[i] == '\n' {
            r = r + 1;
        }
        i = i + 1;
    }
    proof {
        assert(t@.take(t.len() as int) =~= t@);
    }
    r
}

/// Counts the member children among `children`.
fn member_count(children: &Vec<SyntaxNode>) -> (r: usize)
    ensures
        r as nat == spec_member_count(models(children@), children@.len() as int),
{
    let ghost cs = models(children@);
    let mut r: usize = 0;
    let mut i: usize = 0;
    while i < children.len()
        invariant
            i <= children.len(),
            r <= i,
            cs == models(children@),
            r as nat == spec_member_count(cs, i as int),
        decreases children.len() - i,
    {
        if matches!(children[i].kind, NodeKind::Member) {
            r = r + 1;
        }
        i = i + 1;
    }
    r
}

/// Counts the named children among `children`.
fn named_count(children: &Vec<SyntaxNode>) -> (r: usize)
    ensures
        r as nat == spec_named_count(models(children@), children@.len() as int),
{
    let ghost cs = models(children@);
    let mut r: usize = 0;
    let mut i: usize = 0;
    while i < children.len()
        invariant
            i <= children.len(),
            r <= i,
            cs == models(children@),
            r as nat == spec_named_count(cs, i as int),
        decreases children.len() - i,
    {
        if is_named_kind(children[i].kind) {
            r = r + 1;
        }
        i = i + 1;
    }
    r
}

/// Counts the element children among `children`.
fn element_count(children: &Vec<SyntaxNode>) -> (r: usize)
    ensures
        r as nat == spec_element_count(models(children@), children@.len() as int),
{
    let ghost cs = models(children@);
    let mut r: usize = 0;
    let mut i: usize = 0;
    while i < children.len()
        invariant
            i <= children.len(),
            r <= i,
            cs == models(children@),
            r as nat == spec_element_count(cs, i as int),
        decreases children.len() - i,
    {
        if is_element_kind(children[i].kind) {
            r = r + 1;
        }
        i = i + 1;
    }
    r
}

/// The index of the last member child, if any.
fn last_member_index(children: &Vec<SyntaxNode>) -> (r: Option<usize>)
    ensures
        match r {
            Some(k) => k < children@.len() && models(children@)[k as int].kind == NodeKind::Member
                && forall|j: int|
                k < j < children@.len() ==> models(children@)[j].kind != NodeKind::Member,
            None => forall|j: int|
                0 <= j < children@.len() ==> models(children@)[j].kind != NodeKind::Member,
        },
{
    let ghost cs = models(children@);
    let mut r: Option<usize> = None;
    let mut i: usize = 0;
    while i < children.len()
        invariant
            i <= children.len(),
            cs == models(children@),
            match r {
                Some(k) => k < i && cs[k as int].kind == NodeKind::Member && forall|j: int|
                    k < j < i ==> cs[j].kind != NodeKind::Member,
                None => forall|j: int| 0 <= j < i ==> cs[j].kind != NodeKind::Member,
            },
        decreases children.len() - i,
    {
        if matches!(children[i].kind, NodeKind::Member) {
            r = Some(i);
        }
        i = i + 1;
    }
    r
}

/// The index of the last element child, if any.
fn last_element_index(children: &Vec<SyntaxNode>) -> (r: Option<usize>)
    ensures
        match r {
            Some(k) => k < children@.len() && spec_is_element(models(children@)[k as int].kind)
                && forall|j: int|
                k < j < children@.len() ==> !spec_is_element(models(children@)[j].kind),
            None => forall|j: int|
                0 <= j < children@.len() ==> !spec_is_element(models(children@)[j].kind),
        },
{
    let ghost cs = models(children@);
    let mut r: Option<usize> = None;
    let mut i: usize = 0;
    while i < children.len()
        invariant
            i <= children.len(),
            cs == models(children@),
            match r {
                Some(k) => k < i && spec_is_element(cs[k as int].kind) && forall|j: int|
                    k < j < i ==> !spec_is_element(cs[j].kind),
                None => forall|j: int| 0 <= j < i ==> !spec_is_element(cs[j].kind),
            },
        decreases children.len() - i,
    {
        if is_element_kind(children[i].kind) {
            r = Some(i);
        }
        i = i + 1;
    }
    r
}

/// Whether the source had a trailing comma among these children.
fn had_trailing(children: &Vec<SyntaxNode>, member_only: bool) -> (r: bool)
    ensures
        r == spec_had_trailing(models(children@), children@.len() as int, member_only),
{
    let ghost cs = models(children@);
    let mut r: bool = false;
    let mut i: usize = 0;
    while i < children.len()
        invariant
            i <= children.len(),
            cs == models(children@),
            r == spec_had_trailing(cs, i as int, member_only),
        decreases children.len() - i,
    {
        let c = &children[i];
        if (member_only && matches!(c.kind, NodeKind::Member)) || (!member_only
            && is_element_kind(c.kind)) {
            r = false;
        } else if is_punct1(c, ',') {
            r = true;
        }
        i = i + 1;
    }
    r
}

/// Whether `ch` occurs strictly inside `t`.
fn has_char_inside(t: &Vec<char>, ch: char) -> (r: bool)
    ensures
        r == spec_has_char_inside(t@, ch),
{
    if t.len() < 3 {
        return false;
    }
    let mut i: usize = 1;
    while i < t.len() - 1
        invariant
            1 <= i <= t.len() - 1,
            t.len() >= 3,
            forall|j: int| 1 <= j < i ==> t@[j] != ch,
        decreases t.len() - i,
    {
        if t[i] == ch {
            return true;
        }
        i = i + 1;
    }
    false
}

/// Whether rendering `n` can emit a line break.
fn renders_ml(n: &SyntaxNode) -> (r: bool)
    ensures
        r == spec_renders_ml(model(*n)),
    decreases *n, 1int, 0int,
{
    match n.kind {
        NodeKind::Section | NodeKind::InvertedSection => true,
        NodeKind::Object => {
            let mc = member_count(&n.children);
            mc > 1 || n.start_row != n.end_row || any_named_renders_ml(&n.children)
        },
        NodeKind::Array => {
            let ec = element_count(&n.children);
            ec > 5 || n.start_row != n.end_row || any_named_renders_ml(&n.children)
        },
        NodeKind::Member | NodeKind::Document => any_named_renders_ml(&n.children),
        _ => {
            let t = n.flat_text();
            count_nl(&t) > 0
        },
    }
}

/// Whether some named child renders across lines.
fn any_named_renders_ml(children: &Vec<SyntaxNode>) -> (r: bool)
    ensures
        r == spec_any_named_renders_ml(models(children@), children@.len() as int),
    decreases children@, 2int, 0int,
{
    let ghost cs = models(children@);
    let mut r: bool = false;
    let mut i: usize = 0;
    while i < children.len()
        invariant
            i <= children.len(),
            cs == models(children@),
            r == spec_any_named_renders_ml(cs, i as int),
        decreases children.len() - i,
    {
        if is_named_kind(children[i].kind) && renders_ml(&children[i]) {
            r = true;
        }
        i = i + 1;
    }
    r
}

/// Emits a literal under the quote-style policy.
fn render_scalar_into(t: &Vec<char>, c: &Config, out: &mut Vec<char>)
    ensures
        final(out)@ == old(out)@ + spec_render_scalar(t@, *c),
{
    let to_double = matches!(c.quote_style, QuoteStyle::Double) && t.len() >= 2 && t[0] == '\''
        && t[t.len() - 1] == '\'' && !has_char_inside(t, '\'') && !has_char_inside(t, '"')
        && !has_char_inside(t, '\\');
    let to_single = !to_double && matches!(c.quote_style, QuoteStyle::Single) && t.len() >= 2 && t[0]
        == '"' && t[t.len() - 1] == '"' && !has_char_inside(t, '\'') && !has_char_inside(t, '"')
        && !has_char_inside(t, '\\');
    if to_double || to_single {
        let q: char = if to_double {
            '"'
        } else {
            '\''
        };
        out.push(q);
        let ghost mid_start = out@;
        let mut i: usize = 1;
        while i < t.len() - 1
            invariant
                1 <= i <= t.len() - 1,
                t.len() >= 2,
                out@ == mid_start + t@.subrange(1, i as int),
            decreases t.len() - i,
        {
            out.push(t[i]);
            proof {
                assert(out@ =~= mid_start + t@.subrange(1, i + 1));
            }
            i = i + 1;
        }
        out.push(q);
        proof {
            if to_double {
                assert(out@ =~= old(out)@ + (seq!['"'] + t@.subrange(1, t@.len() - 1) + seq!['"']));
            } else {
                assert(out@ =~= old(out)@ + (seq!['\''] + t@.subrange(1, t@.len() - 1)
                    + seq!['\'']));
            }
        }
    } else {
        push_all(out, t);
    }
}

/// Re-assembles a mustache tag from its pieces under the spacing options.
fn render_tag(n: &SyntaxNode, c: &Config) -> (r: Vec<char>)
    ensures
        r@ == spec_render_tag(models(n.children@), n.children@.len() as int, *c),
{
    let ghost cs = models(n.children@);
    let mut v: Vec<char> = Vec::new();
    let mut i: usize = 0;
    while i < n.children.len()
        invariant
            i <= n.children.len(),
            cs == models(n.children@),
            v@ == spec_render_tag(cs, i as int, *c),
        decreases n.children.len() - i,
    {
        let child = &n.children[i];
        if is_open_delim(child) {
            v.push('{');
            v.push('{');
            if c.mustache_spacing.after_open {
                v.push(' ');
            }
        } else if is_close_delim(child) {
            if c.mustache_spacing.before_close {
                v.push(' ');
            }
            v.push('}');
            v.push('}');
        } else if is_op(child) {
            if c.mustache_spacing.around_operators && !(v.len() > 0 && v[v.len() - 1] == ' ') {
                v.push(' ');
            }
            v.push(child.text[0]);
            if c.mustache_spacing.around_operators {
                v.push(' ');
            }
        } else if matches!(child.kind, NodeKind::Text) {
            push_all(&mut v, &child.text);
        }
        proof {
            assert(v@ =~= spec_render_tag(cs, i + 1, *c));
        }
        i = i + 1;
    }
    v
}

/// Emits a comment from its pieces under the comment-handling options.
fn render_comment_into(n: &SyntaxNode, c: &Config, out: &mut Vec<char>)
    ensures
        final(out)@ == old(out)@ + spec_render_comment(
            models(n.children@),
            n.children@.len() as int,
            *c,
        ),
{
    let ghost cs = models(n.children@);
    let mut i: usize = 0;
    while i < n.children.len()
        invariant
            i <= n.children.len(),
            cs == models(n.children@),
            out@ == old(out)@ + spec_render_comment(cs, i as int, *c),
        decreases n.children.len() - i,
    {
        let child = &n.children[i];
        if matches!(child.kind, NodeKind::Ws) {
            if c.comment_handling.normalize_spacing {
                out.push(' ');
            } else {
                push_all(out, &child.text);
            }
        } else if matches!(child.kind, NodeKind::Punct | NodeKind::Text) {
            push_all(out, &child.text);
        }
        proof {
            assert(out@ =~= old(out)@ + spec_render_comment(cs, i + 1, *c));
        }
        i = i + 1;
    }
}

/// The indent depth of a section body under the configured style.
fn section_inner(depth: usize, c: &Config) -> (r: usize)
    ensures
        r as nat == spec_section_inner(depth as nat, *c),
{
    if matches!(c.mustache_indent_style, MustacheIndentStyle::Block) {
        bump(depth)
    } else {
        depth
    }
}

/// Emits one node at `depth`, by kind.
fn render_node_into(n: &SyntaxNode, depth: usize, c: &Config, out: &mut Vec<char>)
    ensures
        final(out)@ == old(out)@ + spec_render_node(model(*n), depth as nat, *c),
    decreases *n, 3int, 0int,
{
    match n.kind {
        NodeKind::Document => render_body_into(n, depth, depth, c, out),
        NodeKind::Object => render_object_into(n, depth, c, out),
        NodeKind::Array => render_array_into(n, depth, c, out),
        NodeKind::Member => render_member_into(n, depth, c, out),
        NodeKind::Section | NodeKind::InvertedSection => {
            let inner = section_inner(depth, c);
            render_body_into(n, depth, inner, c, out);
        },
        NodeKind::Interpolation | NodeKind::Unescaped | NodeKind::Partial | NodeKind::SectionBegin
            | NodeKind::InvertedBegin | NodeKind::SectionEnd => {
            let mut v = render_tag(n, c);
            out.append(&mut v);
        },
        NodeKind::MustacheComment => {
            indent_into(c, depth, out);
            n.flat_text_into(out);
        },
        NodeKind::Comment => {
            indent_into(c, depth, out);
            render_comment_into(n, c, out);
        },
        NodeKind::Scalar => render_scalar_into(&n.text, c, out),
        NodeKind::Text | NodeKind::Error | NodeKind::Ws | NodeKind::Punct => n.flat_text_into(out),
    }
}

/// Emits the children of a document or section body, line by line.
fn render_body_into(n: &SyntaxNode, outer: usize, inner: usize, c: &Config, out: &mut Vec<char>)
    ensures
        final(out)@ == old(out)@ + spec_body(
            models(n.children@),
            n.children@.len() as int,
            outer as nat,
            inner as nat,
            *c,
        ).acc,
    decreases *n, 2int, 0int,
{
    let ghost cs = models(n.children@);
    let mut als: bool = true;
    let mut seen: bool = false;
    let mut pending: bool = false;
    let mut i: usize = 0;
    while i < n.children.len()
        invariant
            i <= n.children.len(),
            cs == models(n.children@),
            out@ == old(out)@ + spec_body(cs, i as int, outer as nat, inner as nat, *c).acc,
            als == spec_body(cs, i as int, outer as nat, inner as nat, *c).at_line_start,
            seen == spec_body(cs, i as int, outer as nat, inner as nat, *c).seen,
            pending == spec_body(cs, i as int, outer as nat, inner as nat, *c).pending,
        decreases n.children.len() - i, 1int,
    {
        let child = &n.children[i];
        if is_begin_kind(child.kind) {
            if als {
                if pending {
                    out.push('\n');
                }
            } else {
                out.push('\n');
            }
            indent_into(c, outer, out);
            render_node_into(child, outer, c, out);
            out.push('\n');
            als = true;
            seen = false;
            pending = false;
        } else if matches!(child.kind, NodeKind::SectionEnd) {
            if !als {
                out.push('\n');
            }
            indent_into(c, outer, out);
            render_node_into(child, outer, c, out);
            als = false;
            pending = false;
        } else if matches!(child.kind, NodeKind::Ws) {
            let nl = count_nl(&child.text);
            if nl > 0 {
                if !als {
                    out.push('\n');
                }
                als = true;
                pending = pending || (seen && nl >= 2 && c.preserve_empty_lines);
            } else {
                if !als {
                    push_all(out, &child.text);
                }
            }
        } else if is_named_kind(child.kind) {
            if als {
                if pending {
                    out.push('\n');
                }
                if !is_self_indenting(child.kind) {
                    indent_into(c, inner, out);
                }
            } else {
                if forces_line_kind(child.kind) {
                    out.push('\n');
                }
            }
            render_node_into(child, inner, c, out);
            als = false;
            seen = true;
            pending = false;
        }
        proof {
            assert(out@ =~= old(out)@ + spec_body(
                cs,
                i + 1,
                outer as nat,
                inner as nat,
                *c,
            ).acc);
        }
        i = i + 1;
    }
}

/// Emits an object.
#[verifier::rlimit(100)]
fn render_object_into(n: &SyntaxNode, depth: usize, c: &Config, out: &mut Vec<char>)
    ensures
        final(out)@ == old(out)@ + spec_render_object(model(*n), depth as nat, *c),
    decreases *n, 2int, 0int,
{
    let nc = named_count(&n.children);
    if nc == 0 {
        out.push('{');
        out.push('}');
        proof {
            assert(out@ =~= old(out)@ + seq!['{', '}']);
        }
        return ;
    }
    let ghost cs = models(n.children@);
    let mc = member_count(&n.children);
    let ml = mc > 1 || n.start_row != n.end_row || any_named_renders_ml(&n.children);
    proof {
        assert(ml == spec_multiline_object(model(*n)));
    }
    let lm = last_member_index(&n.children);
    let ht = had_trailing(&n.children, true);
    let always = matches!(c.trailing_commas, TrailingCommaStyle::Always);
    let preserve = matches!(c.trailing_commas, TrailingCommaStyle::Preserve);
    let mut i: usize = 0;
    while i < n.children.len()
        invariant
            i <= n.children.len(),
            cs == models(n.children@),
            ml == spec_multiline_object(model(*n)),
            ht == spec_had_trailing(cs, cs.len() as int, true),
            always == (c.trailing_commas == TrailingCommaStyle::Always),
            preserve == (c.trailing_commas == TrailingCommaStyle::Preserve),
            match lm {
                Some(k) => k < cs.len() && cs[k as int].kind == NodeKind::Member && forall|j: int|
                    k < j < cs.len() ==> cs[j].kind != NodeKind::Member,
                None => forall|j: int| 0 <= j < cs.len() ==> cs[j].kind != NodeKind::Member,
            },
            out@ == old(out)@ + spec_obj_items(cs, i as int, depth as nat, *c, ml),
        decreases n.children.len() - i, 1int,
    {
        let child = &n.children[i];
        if is_punct1(child, '{') {
            out.push('{');
            if ml {
                out.push('\n');
            }
        } else if is_punct1(child, '}') {
            if ml {
                indent_into(c, depth, out);
            }
            out.push('}');
        } else if matches!(child.kind, NodeKind::Member) {
            if ml {
                indent_into(c, bump(depth), out);
            }
            render_node_into(child, bump(depth), c, out);
            let has_later = match lm {
                Some(k) => i < k,
                None => false,
            };
            proof {
                if has_later {
                    assert(spec_member_after(cs, i as int));
                } else {
                    assert(!spec_member_after(cs, i as int));
                }
            }
            if has_later {
                out.push(',');
                if !ml {
                    out.push(' ');
                }
            } else {
                if (always && ml) || (preserve && ht) {
                    out.push(',');
                }
            }
            if ml && !holds_line(&n.children, i) {
                out.push('\n');
            }
        } else if is_comment_kind(child.kind) {
            if ml && comment_hangs(&n.children, i) {
                out.push(' ');
                if matches!(child.kind, NodeKind::Comment) {
                    render_comment_into(child, c, out);
                } else {
                    child.flat_text_into(out);
                }
                out.push('\n');
            } else {
                render_node_into(child, bump(depth), c, out);
                if ml {
                    out.push('\n');
                }
            }
        } else if is_named_kind(child.kind) {
            if ml && !is_self_indenting(child.kind) {
                indent_into(c, bump(depth), out);
            }
            render_node_into(child, bump(depth), c, out);
            if ml {
                out.push('\n');
            }
        }
        proof {
            assert(out@ =~= old(out)@ + spec_obj_items(cs, i + 1, depth as nat, *c, ml));
        }
        i = i + 1;
    }
    proof {
        assert(cs.len() == n.children@.len());
    }
}

/// Emits an array.
#[verifier::rlimit(100)]
fn render_array_into(n: &SyntaxNode, depth: usize, c: &Config, out: &mut Vec<char>)
    ensures
        final(out)@ == old(out)@ + spec_render_array(model(*n), depth as nat, *c),
    decreases *n, 2int, 0int,
{
    let nc = named_count(&n.children);
    if nc == 0 {
        out.push('[');
        out.push(']');
        proof {
            assert(out@ =~= old(out)@ + seq!['[', ']']);
        }
        return ;
    }
    let ghost cs = models(n.children@);
    let ec = element_count(&n.children);
    let ml = ec > 5 || n.start_row != n.end_row || any_named_renders_ml(&n.children);
    proof {
        assert(ml == spec_multiline_array(model(*n)));
    }
    let ln = last_element_index(&n.children);
    let ht = had_trailing(&n.children, false);
    let always = matches!(c.trailing_commas, TrailingCommaStyle::Always);
    let preserve = matches!(c.trailing_commas, TrailingCommaStyle::Preserve);
    let mut i: usize = 0;
    while i < n.children.len()
        invariant
            i <= n.children.len(),
            cs == models(n.children@),
            ml == spec_multiline_array(model(*n)),
            ht == spec_had_trailing(cs, cs.len() as int, false),
            always == (c.trailing_commas == TrailingCommaStyle::Always),
            preserve == (c.trailing_commas == TrailingCommaStyle::Preserve),
            match ln {
                Some(k) => k < cs.len() && spec_is_element(cs[k as int].kind) && forall|j: int|
                    k < j < cs.len() ==> !spec_is_element(cs[j].kind),
                None => forall|j: int| 0 <= j < cs.len() ==> !spec_is_element(cs[j].kind),
            },
            out@ == old(out)@ + spec_arr_items(cs, i as int, depth as nat, *c, ml),
        decreases n.children.len() - i, 1int,
    {
        let child = &n.children[i];
        if is_punct1(child, '[') {
            out.push('[');
            if ml {
                out.push('\n');
            }
        } else if is_punct1(child, ']') {
            if ml {
                indent_into(c, depth, out);
            }
            out.push(']');
        } else if is_comment_kind(child.kind) {
            if ml && comment_hangs(&n.children, i) {
                out.push(' ');
                if matches!(child.kind, NodeKind::Comment) {
                    render_comment_into(child, c, out);
                } else {
                    child.flat_text_into(out);
                }
                out.push('\n');
            } else {
                render_node_into(child, bump(depth), c, out);
                if ml {
                    out.push('\n');
                }
            }
        } else if is_named_kind(child.kind) {
            if ml && !is_self_indenting(child.kind) {
                indent_into(c, bump(depth), out);
            }
            render_node_into(child, bump(depth), c, out);
            let has_later = match ln {
                Some(k) => i < k,
                None => false,
            };
            proof {
                if has_later {
                    assert(spec_element_after(cs, i as int));
                } else {
                    assert(!spec_element_after(cs, i as int));
                }
            }
            if has_later {
                out.push(',');
                if !ml {
                    out.push(' ');
                }
            } else {
                if (always && ml) || (preserve && ht) {
                    out.push(',');
                }
            }
            if ml && !holds_line(&n.children, i) {
                out.push('\n');
            }
        }
        proof {
            assert(out@ =~= old(out)@ + spec_arr_items(cs, i + 1, depth as nat, *c, ml));
        }
        i = i + 1;
    }
}

/// Emits a member: key, `": "`, value.
fn render_member_into(n: &SyntaxNode, depth: usize, c: &Config, out: &mut Vec<char>)
    ensures
        final(out)@ == old(out)@ + spec_member_items(
            models(n.children@),
            n.children@.len() as int,
            depth as nat,
            *c,
        ),
    decreases *n, 2int, 0int,
{
    let ghost cs = models(n.children@);
    let mut i: usize = 0;
    while i < n.children.len()
        invariant
            i <= n.children.len(),
            cs == models(n.children@),
            out@ == old(out)@ + spec_member_items(cs, i as int, depth as nat, *c),
        decreases n.children.len() - i, 1int,
    {
        let child = &n.children[i];
        if is_punct1(child, ':') {
            out.push(':');
            out.push(' ');
        } else if is_named_kind(child.kind) {
            render_node_into(child, depth, c, out);
        }
        proof {
            assert(out@ =~= old(out)@ + spec_member_items(cs, i + 1, depth as nat, *c));
        }
        i = i + 1;
    }
}

/// Renders a whole syntax tree at depth zero under `c`: the text that
/// `spec_render_document` prescribes for its model.
pub fn render_document(root: &SyntaxNode, c: &Config) -> (r: String)
    ensures
        r@ == spec_render_document(model(*root), *c),
{
    let mut out: Vec<char> = Vec::new();
    render_node_into(root, 0, c, &mut out);
    chars_to_string(&out)
}

} // verus!
