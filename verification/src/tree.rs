use vstd::prelude::*;

verus! {

broadcast use vstd::seq::group_seq_axioms;

/// Kind tag of a syntax-tree node, a closed vocabulary.
///
/// Composite kinds (`Document`, `Object`, `Array`, `Member`, `Section`,
/// `InvertedSection`, the tag kinds and `Comment`) carry their content in
/// `children`; leaf kinds (`Scalar`, `Text`, `Ws`, `Punct`, `Error`) carry
/// the verbatim source slice they cover in `text`.
#[derive(Clone, Copy, Debug, PartialEq, Eq, Structural)]
pub enum NodeKind {
    /// The root of a parsed document.
    Document,
    /// A `{ ... }` object.
    Object,
    /// A `[ ... ]` array.
    Array,
    /// One `key: value` entry of an object.
    Member,
    /// A string, number, boolean, null or identifier literal, kept verbatim.
    Scalar,
    /// A `{{#name}} ... {{/name}}` section.
    Section,
    /// A `{{^name}} ... {{/name}}` inverted section.
    InvertedSection,
    /// A `{{name}}` interpolation tag.
    Interpolation,
    /// A `{{&name}}` unescaped interpolation tag.
    Unescaped,
    /// A `{{>name}}` partial tag.
    Partial,
    /// A `{{!...}}` mustache comment tag, kept verbatim.
    MustacheComment,
    /// The `{{#name}}` begin delimiter of a section.
    SectionBegin,
    /// The `{{^name}}` begin delimiter of an inverted section.
    InvertedBegin,
    /// The `{{/name}}` end delimiter of a section.
    SectionEnd,
    /// A `//` line comment or `/* */` block comment.
    Comment,
    /// A run of free template text.
    Text,
    /// An anonymous run of whitespace.
    Ws,
    /// An anonymous punctuation token.
    Punct,
    /// A region the grammar rejected, kept verbatim.
    Error,
}

/// One node of the syntax tree: a kind tag, the verbatim source slice it
/// covers (for leaves), its line span, an error mark, and its ordered
/// children.
pub struct SyntaxNode {
    pub kind: NodeKind,
    pub text: Vec<char>,
    pub start_row: usize,
    pub end_row: usize,
    pub has_error: bool,
    pub children: Vec<SyntaxNode>,
}

/// Mathematical model of a syntax-tree node.
#[verifier::ext_equal]
pub struct NodeModel {
    pub kind: NodeKind,
    pub text: Seq<char>,
    pub start_row: int,
    pub end_row: int,
    pub has_error: bool,
    pub children: Seq<NodeModel>,
}

/// The model of an executable node: fields viewed, children modelled in order.
pub open spec fn model(n: SyntaxNode) -> NodeModel
    decreases n, 1int,
{
    NodeModel {
        kind: n.kind,
        text: n.text@,
        start_row: n.start_row as int,
        end_row: n.end_row as int,
        has_error: n.has_error,
        children: models(n.children@),
    }
}

/// The models of a sequence of nodes, in order.
pub open spec fn models(cs: Seq<SyntaxNode>) -> Seq<NodeModel>
    decreases cs, 0int,
{
    if cs.len() == 0 {
        Seq::empty()
    } else {
        models(cs.drop_last()).push(model(cs.last()))
    }
}

/// `models` maps `model` over the sequence, element by element.
pub broadcast proof fn lemma_models(cs: Seq<SyntaxNode>)
    ensures
        (#[trigger] models(cs)).len() == cs.len(),
        forall|i: int| 0 <= i < cs.len() ==> models(cs)[i] == model(cs[i]),
    decreases cs.len(),
{
    if cs.len() > 0 {
        lemma_models(cs.drop_last());
    }
}

/// `models` distributes over `push`.
pub broadcast proof fn lemma_models_push(cs: Seq<SyntaxNode>, n: SyntaxNode)
    ensures
        #[trigger] models(cs.push(n)) == models(cs).push(model(n)),
{
    assert(cs.push(n).drop_last() =~= cs);
    assert(cs.push(n).last() == n);
}

/// Concatenation of the verbatim text of every leaf under `m`, in order:
/// for the trees the parser builds this is exactly the source slice the
/// node covers.
pub open spec fn flat(m: NodeModel) -> Seq<char>
    decreases m, 1int,
{
    if m.children.len() == 0 {
        m.text
    } else {
        flat_all(m.children)
    }
}

/// Concatenation of `flat` over a sequence of nodes.
pub open spec fn flat_all(cs: Seq<NodeModel>) -> Seq<char>
    decreases cs, 0int,
{
    if cs.len() == 0 {
        Seq::empty()
    } else {
        flat_all(cs.drop_last()) + flat(cs.last())
    }
}

/// `flat_all` distributes over `push`.
pub broadcast proof fn lemma_flat_all_push(cs: Seq<NodeModel>, m: NodeModel)
    ensures
        #[trigger] flat_all(cs.push(m)) == flat_all(cs) + flat(m),
{
    assert(cs.push(m).drop_last() =~= cs);
    assert(cs.push(m).last() == m);
}

/// Whether the subtree holds an `Error` node.
pub open spec fn contains_error(m: NodeModel) -> bool
    decreases m, 1int,
{
    m.kind == NodeKind::Error || contains_error_any(m.children)
}

/// Whether any node of the sequence holds an `Error` node.
pub open spec fn contains_error_any(cs: Seq<NodeModel>) -> bool
    decreases cs, 0int,
{
    if cs.len() == 0 {
        false
    } else {
        contains_error_any(cs.drop_last()) || contains_error(cs.last())
    }
}

/// `contains_error_any` distributes over `push`.
pub broadcast proof fn lemma_contains_error_any_push(cs: Seq<NodeModel>, m: NodeModel)
    ensures
        #[trigger] contains_error_any(cs.push(m)) == (contains_error_any(cs) || contains_error(m)),
{
    assert(cs.push(m).drop_last() =~= cs);
    assert(cs.push(m).last() == m);
}

/// The error mark of every node agrees with the presence of `Error` nodes
/// below it.
pub open spec fn error_marks_consistent(m: NodeModel) -> bool
    decreases m, 1int,
{
    &&& m.has_error == contains_error(m)
    &&& error_marks_consistent_all(m.children)
}

/// `error_marks_consistent` over a sequence of nodes.
pub open spec fn error_marks_consistent_all(cs: Seq<NodeModel>) -> bool
    decreases cs, 0int,
{
    if cs.len() == 0 {
        true
    } else {
        error_marks_consistent_all(cs.drop_last()) && error_marks_consistent(cs.last())
    }
}

/// `error_marks_consistent_all` distributes over `push`.
pub broadcast proof fn lemma_error_marks_consistent_all_push(cs: Seq<NodeModel>, m: NodeModel)
    ensures
        #[trigger] error_marks_consistent_all(cs.push(m)) == (error_marks_consistent_all(cs)
            && error_marks_consistent(m)),
{
    assert(cs.push(m).drop_last() =~= cs);
    assert(cs.push(m).last() == m);
}

/// Consistency of the whole sequence gives consistency of each element.
pub proof fn lemma_marks_all_index(cs: Seq<NodeModel>, j: int)
    requires
        error_marks_consistent_all(cs),
        0 <= j < cs.len(),
    ensures
        error_marks_consistent(cs[j]),
    decreases cs.len(),
{
    if j < cs.len() - 1 {
        lemma_marks_all_index(cs.drop_last(), j);
    }
}

impl SyntaxNode {
    /// A leaf node covering the verbatim slice `text`.
    pub fn leaf(kind: NodeKind, text: Vec<char>, start_row: usize, end_row: usize) -> (r:
        SyntaxNode)
        ensures
            model(r) == (NodeModel {
                kind,
                text: text@,
                start_row: start_row as int,
                end_row: end_row as int,
                has_error: kind == NodeKind::Error,
                children: Seq::<NodeModel>::empty(),
            }),
            flat(model(r)) == text@,
            error_marks_consistent(model(r)),
            contains_error(model(r)) == (kind == NodeKind::Error),
    {
        let has_error = matches!(kind, NodeKind::Error);
        let r = SyntaxNode { kind, text, start_row, end_row, has_error, children: Vec::new() };
        proof {
            assert(models(r.children@) =~= Seq::<NodeModel>::empty());
            assert(model(r) =~= (NodeModel {
                kind,
                text: r.text@,
                start_row: start_row as int,
                end_row: end_row as int,
                has_error: kind == NodeKind::Error,
                children: Seq::<NodeModel>::empty(),
            }));
        }
        r
    }

    /// The verbatim source text under this node, as `flat` describes it.
    pub fn flat_text(&self) -> (r: Vec<char>)
        ensures
            r@ == flat(model(*self)),
        decreases *self,
    {
        let mut out: Vec<char> = Vec::new();
        self.flat_text_into(&mut out);
        out
    }

    /// Appends the verbatim source text under this node to `out`.
    pub fn flat_text_into(&self, out: &mut Vec<char>) -> (r: ())
        ensures
            final(out)@ == old(out)@ + flat(model(*self)),
        decreases *self,
    {
        proof {
            broadcast use lemma_models;

        }
        if self.children.len() == 0 {
            let mut i: usize = 0;
            while i < self.text.len()
                invariant
                    i <= self.text.len(),
                    out@ == old(out)@ + self.text@.take(i as int),
                decreases self.text.len() - i,
            {
                out.push(self.text[i]);
                proof {
                    assert(out@ =~= old(out)@ + self.text@.take(i + 1));
                }
                i = i + 1;
            }
            proof {
                assert(self.text@.take(self.text.len() as int) =~= self.text@);
                assert(model(*self).children =~= Seq::<NodeModel>::empty());
            }
        } else {
            let ghost cs = models(self.children@);
            let mut i: usize = 0;
            while i < self.children.len()
                invariant
                    i <= self.children.len(),
                    cs == models(self.children@),
                    cs.len() == self.children@.len(),
                    forall|j: int| 0 <= j < cs.len() ==> cs[j] == model(self.children@[j]),
                    out@ == old(out)@ + flat_all(cs.take(i as int)),
                decreases self.children.len() - i,
            {
                proof {
                    broadcast use lemma_models;

                }
                self.children[i].flat_text_into(out);
                proof {
                    assert(cs.take(i + 1) =~= cs.take(i as int).push(cs[i as int]));
                    lemma_flat_all_push(cs.take(i as int), cs[i as int]);
                    assert(out@ =~= old(out)@ + flat_all(cs.take(i + 1)));
                }
                i = i + 1;
            }
            proof {
                assert(cs.take(self.children@.len() as int) =~= cs);
                assert(model(*self).children == cs);
                assert(flat(model(*self)) == flat_all(cs));
            }
        }
    }
}

} // verus!
