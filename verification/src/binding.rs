use vstd::prelude::*;
use vstd::string::*;

use crate::constant::{constant_text, constant_to_text, Constant, ConstantV};

verus! {

/// A node of the matched source tree, modeled by the source text it spans.
/// The tree itself belongs to the host; values never own or mutate it.
#[derive(Debug)]
pub struct TargetNode {
    pub text: String,
}

/// The mathematical model of a `TargetNode`.
pub struct TargetNodeV {
    pub text: Seq<char>,
}

impl DeepView for TargetNode {
    type V = TargetNodeV;

    open spec fn deep_view(&self) -> TargetNodeV {
        TargetNodeV { text: self.text@ }
    }
}

impl Clone for TargetNode {
    fn clone(&self) -> (r: Self)
        ensures
            r == *self,
    {
        TargetNode { text: self.text.clone() }
    }
}

/// A parsed source tree, modeled by its root node.
#[derive(Debug)]
pub struct TargetTree {
    pub root: TargetNode,
}

impl TargetTree {
    /// The root node of the tree.
    pub fn root_node(&self) -> (r: &TargetNode)
        ensures
            r == &self.root,
    {
        &self.root
    }
}

/// A reference into the matched source: a concrete node, an empty
/// placeholder anchored to a tree slot awaiting content, or a constant.
#[derive(Debug)]
pub enum Binding {
    Node(TargetNode),
    Empty(TargetNode, u32),
    Constant(Constant),
}

/// The mathematical model of a `Binding`.
pub enum BindingV {
    Node(TargetNodeV),
    Empty(TargetNodeV, u32),
    Constant(ConstantV),
}

impl DeepView for Binding {
    type V = BindingV;

    open spec fn deep_view(&self) -> BindingV {
        match self {
            Binding::Node(n) => BindingV::Node(n.deep_view()),
            Binding::Empty(n, s) => BindingV::Empty(n.deep_view(), *s),
            Binding::Constant(c) => BindingV::Constant(c.deep_view()),
        }
    }
}

impl Clone for Binding {
    fn clone(&self) -> (r: Self)
        ensures
            r == *self,
    {
        match self {
            Binding::Node(n) => Binding::Node(n.clone()),
            Binding::Empty(n, s) => Binding::Empty(n.clone(), *s),
            Binding::Constant(c) => Binding::Constant(c.clone()),
        }
    }
}

/// The source text a binding stands for: a node's text verbatim, the empty
/// string for an empty placeholder, and a constant's canonical text.
pub open spec fn binding_text(b: BindingV) -> Seq<char> {
    match b {
        BindingV::Node(n) => n.text,
        BindingV::Empty(_, _) => Seq::empty(),
        BindingV::Constant(c) => constant_text(c),
    }
}

/// Renders a binding to the source text it stands for.
pub fn binding_to_text(b: &Binding) -> (r: String)
    ensures
        r@ == binding_text(b.deep_view()),
{
    match b {
        Binding::Node(n) => n.text.clone(),
        Binding::Empty(_, _) => String::new(),
        Binding::Constant(c) => constant_to_text(c),
    }
}

/// One fragment of lazily built text: literal text, or a binding whose
/// source text is looked up only when rendering.
#[derive(Debug)]
pub enum Snippet {
    Text(String),
    Binding(Binding),
}

/// The mathematical model of a `Snippet`.
pub enum SnippetV {
    Text(Seq<char>),
    Binding(BindingV),
}

impl DeepView for Snippet {
    type V = SnippetV;

    open spec fn deep_view(&self) -> SnippetV {
        match self {
            Snippet::Text(t) => SnippetV::Text(t@),
            Snippet::Binding(b) => SnippetV::Binding(b.deep_view()),
        }
    }
}

impl Clone for Snippet {
    fn clone(&self) -> (r: Self)
        ensures
            r == *self,
    {
        match self {
            Snippet::Text(t) => Snippet::Text(t.clone()),
            Snippet::Binding(b) => Snippet::Binding(b.clone()),
        }
    }
}

/// The text a single fragment renders to.
pub open spec fn snippet_text(s: SnippetV) -> Seq<char> {
    match s {
        SnippetV::Text(t) => t,
        SnippetV::Binding(b) => binding_text(b),
    }
}

/// The text a fragment sequence renders to: each fragment's text in order,
/// with no implicit separators.
pub open spec fn snippets_text(ss: Seq<SnippetV>) -> Seq<char>
    decreases ss.len(),
{
    if ss.len() == 0 {
        Seq::empty()
    } else {
        snippet_text(ss[0]) + snippets_text(ss.skip(1))
    }
}

/// Appending a fragment appends its text.
pub proof fn lemma_snippets_text_push(ss: Seq<SnippetV>, s: SnippetV)
    ensures
        snippets_text(ss.push(s)) == snippets_text(ss) + snippet_text(s),
    decreases ss.len(),
{
    if ss.len() == 0 {
        assert(ss.push(s)[0] == s);
        assert(ss.push(s).skip(1) =~= Seq::empty());
        assert(snippets_text(ss.push(s)) =~= snippet_text(s) + snippets_text(Seq::empty()));
        assert(snippet_text(s) + snippets_text(Seq::empty()) =~= snippet_text(s));
        assert(snippets_text(ss) + snippet_text(s) =~= snippet_text(s));
    } else {
        assert(ss.push(s).skip(1) =~= ss.skip(1).push(s));
        lemma_snippets_text_push(ss.skip(1), s);
        assert(snippets_text(ss.push(s)) =~= snippets_text(ss) + snippet_text(s));
    }
}

/// Renders a fragment to its text.
pub fn snippet_to_text(s: &Snippet) -> (r: String)
    ensures
        r@ == snippet_text(s.deep_view()),
{
    match s {
        Snippet::Text(t) => t.clone(),
        Snippet::Binding(b) => binding_to_text(b),
    }
}

/// Renders a fragment sequence to one owned string, in order, with no
/// implicit separators.
pub fn render_snippets(ss: &Vec<Snippet>) -> (r: String)
    ensures
        r@ == snippets_text(ss.deep_view()),
{
    let mut acc = String::new();
    let mut i: usize = 0;
    while i < ss.len()
        invariant
            i <= ss.len(),
            acc@ == snippets_text(ss.deep_view().take(i as int)),
        decreases ss.len() - i,
    {
        let part = snippet_to_text(&ss[i]);
        acc.append(part.as_str());
        proof {
            assert(ss.deep_view().take(i + 1) =~= ss.deep_view().take(i as int).push(
                ss.deep_view()[i as int],
            ));
            lemma_snippets_text_push(ss.deep_view().take(i as int), ss.deep_view()[i as int]);
            assert(ss.deep_view()[i as int] == ss[i as int].deep_view());
        }
        i += 1;
    }
    proof {
        assert(ss.deep_view().take(ss.len() as int) =~= ss.deep_view());
    }
    acc
}

} // verus!
