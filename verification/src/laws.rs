//! General properties of the formatter, stated and proved once for all
//! inputs.

use vstd::prelude::*;

use crate::config::{spec_indent_unit, spec_spaces, Config};
use crate::render::{
    spec_indent, spec_is_named, spec_is_punct1, spec_member_items, spec_named_count,
    spec_render_comment, spec_render_node, spec_render_scalar,
};
use crate::tree::{flat, flat_all, NodeKind, NodeModel};

verus! {

broadcast use vstd::seq::group_seq_axioms;

/// With tabs enabled, every character of every indentation prefix, at every
/// depth, is a literal tab — never a space.
pub proof fn lemma_tabs_only(c: Config, depth: nat)
    requires
        c.use_tabs,
    ensures
        forall|i: int|
            0 <= i < spec_indent(c, depth).len() ==> spec_indent(c, depth)[i] == '\t',
    decreases depth,
{
    if depth > 0 {
        lemma_tabs_only(c, (depth - 1) as nat);
        assert forall|i: int|
            0 <= i < spec_indent(c, depth).len() implies spec_indent(c, depth)[i] == '\t' by {
            let prev = spec_indent(c, (depth - 1) as nat);
            if i < prev.len() {
                assert(spec_indent(c, depth)[i] == prev[i]);
            } else {
                assert(spec_indent(c, depth)[i] == spec_indent_unit(c)[i - prev.len()]);
                assert(spec_indent_unit(c) =~= seq!['\t']);
            }
        }
    }
}

/// Without tabs, every character of every indentation prefix is a space.
pub proof fn lemma_spaces_only(c: Config, depth: nat)
    requires
        !c.use_tabs,
    ensures
        forall|i: int|
            0 <= i < spec_indent(c, depth).len() ==> spec_indent(c, depth)[i] == ' ',
    decreases depth,
{
    if depth > 0 {
        lemma_spaces_only(c, (depth - 1) as nat);
        lemma_spaces_chars(c.indent_size as nat);
        assert forall|i: int|
            0 <= i < spec_indent(c, depth).len() implies spec_indent(c, depth)[i] == ' ' by {
            let prev = spec_indent(c, (depth - 1) as nat);
            if i < prev.len() {
                assert(spec_indent(c, depth)[i] == prev[i]);
            } else {
                assert(spec_indent(c, depth)[i] == spec_indent_unit(c)[i - prev.len()]);
            }
        }
    }
}

/// Every character of `spec_spaces(k)` is a space.
pub proof fn lemma_spaces_chars(k: nat)
    ensures
        forall|i: int| 0 <= i < spec_spaces(k).len() ==> spec_spaces(k)[i] == ' ',
    decreases k,
{
    if k > 0 {
        lemma_spaces_chars((k - 1) as nat);
        assert forall|i: int| 0 <= i < spec_spaces(k).len() implies spec_spaces(k)[i] == ' ' by {
            let prev = spec_spaces((k - 1) as nat);
            if i < prev.len() {
                assert(spec_spaces(k)[i] == prev[i]);
            } else {
                assert(spec_spaces(k)[i] == ' ');
            }
        }
    }
}

/// A comment whose pieces are leaves round-trips with unchanged content
/// when `normalize_spacing` is off: rendering emits its indentation followed
/// by the comment's verbatim source text.
pub proof fn lemma_comment_verbatim(m: NodeModel, depth: nat, c: Config)
    requires
        m.kind == NodeKind::Comment,
        !c.comment_handling.normalize_spacing,
        m.children.len() > 0,
        forall|k: int|
            0 <= k < m.children.len() ==> (#[trigger] m.children[k]).children.len() == 0 && (
            m.children[k].kind == NodeKind::Punct || m.children[k].kind == NodeKind::Ws
                || m.children[k].kind == NodeKind::Text),
    ensures
        spec_render_node(m, depth, c) == spec_indent(c, depth) + flat(m),
{
    lemma_comment_pieces(m.children, m.children.len() as int, c);
    assert(m.children.take(m.children.len() as int) =~= m.children);
    assert(flat(m) == flat_all(m.children));
}

/// Rendering the first `i` leaf pieces of a comment without normalization
/// emits their verbatim concatenation.
proof fn lemma_comment_pieces(cs: Seq<NodeModel>, i: int, c: Config)
    requires
        !c.comment_handling.normalize_spacing,
        0 <= i <= cs.len(),
        forall|k: int|
            0 <= k < cs.len() ==> (#[trigger] cs[k]).children.len() == 0 && (cs[k].kind
                == NodeKind::Punct || cs[k].kind == NodeKind::Ws || cs[k].kind == NodeKind::Text),
    ensures
        spec_render_comment(cs, i, c) == flat_all(cs.take(i)),
    decreases i,
{
    if i <= 0 {
        assert(flat_all(cs.take(i)) =~= Seq::<char>::empty());
    } else {
        lemma_comment_pieces(cs, i - 1, c);
        assert(cs.take(i).drop_last() =~= cs.take(i - 1));
        assert(cs.take(i).last() == cs[i - 1]);
        assert(flat(cs[i - 1]) == cs[i - 1].text);
    }
}

/// Under the `Preserve` quote policy every literal is emitted as its
/// verbatim source slice.
pub proof fn lemma_scalar_preserved(t: Seq<char>, c: Config)
    requires
        c.quote_style == crate::config::QuoteStyle::Preserve,
    ensures
        spec_render_scalar(t, c) == t,
{
}

/// Rendering a node never touches the text of a mustache comment: it is
/// emitted verbatim after its indentation.
pub proof fn lemma_mustache_comment_verbatim(m: NodeModel, depth: nat, c: Config)
    requires
        m.kind == NodeKind::MustacheComment,
    ensures
        spec_render_node(m, depth, c) == spec_indent(c, depth) + flat(m),
{
}

/// An object without named content renders as `{}`, an array as `[]`,
/// unconditionally: at every depth and under every configuration.
pub proof fn lemma_empty_containers(m: NodeModel, depth: nat, c: Config)
    requires
        spec_named_count(m.children, m.children.len() as int) == 0,
    ensures
        m.kind == NodeKind::Object ==> spec_render_node(m, depth, c) == seq!['{', '}'],
        m.kind == NodeKind::Array ==> spec_render_node(m, depth, c) == seq!['[', ']'],
{
}

/// A member of the plain shape key, colon, value renders as the key, a
/// colon followed by exactly one space and preceded by none, then the
/// value, both at the member's own depth.
pub proof fn lemma_member_colon_spacing(m: NodeModel, depth: nat, c: Config)
    requires
        m.kind == NodeKind::Member,
        m.children.len() == 3,
        spec_is_named(m.children[0].kind),
        spec_is_punct1(m.children[1], ':'),
        spec_is_named(m.children[2].kind),
    ensures
        spec_render_node(m, depth, c) == spec_render_node(m.children[0], depth, c) + seq![
            ':',
            ' ',
        ] + spec_render_node(m.children[2], depth, c),
{
    let cs = m.children;
    assert(!spec_is_named(cs[1].kind));
    assert(spec_member_items(cs, 0, depth, c) == Seq::<char>::empty());
    assert(spec_member_items(cs, 1, depth, c) =~= spec_render_node(cs[0], depth, c));
    assert(spec_member_items(cs, 2, depth, c) =~= spec_render_node(cs[0], depth, c) + seq![
        ':',
        ' ',
    ]);
    assert(spec_member_items(cs, 3, depth, c) =~= spec_render_node(cs[0], depth, c) + seq![
        ':',
        ' ',
    ] + spec_render_node(cs[2], depth, c));
}

/// A section body's content sits one indent unit deeper than its delimiters
/// exactly under the `Block` style (at depths below the machine limit);
/// under `Minimal` and `Preserve` it keeps the delimiters' depth.
pub proof fn lemma_section_inner_depth(depth: nat, c: Config)
    requires
        depth < usize::MAX as nat,
    ensures
        c.mustache_indent_style == crate::config::MustacheIndentStyle::Block
            ==> crate::render::spec_section_inner(depth, c) == depth + 1,
        c.mustache_indent_style != crate::config::MustacheIndentStyle::Block
            ==> crate::render::spec_section_inner(depth, c) == depth,
{
}

} // verus!
