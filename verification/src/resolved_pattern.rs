use vstd::prelude::*;

use crate::binding::{Binding, BindingV, Snippet, SnippetV, TargetNode, TargetTree};
use crate::constant::{Constant, ConstantV};
use crate::files::FilePtr;
use crate::strings::lex_lt;

verus! {

/// The resolved result of evaluating a pattern expression: a reference into
/// matched source, lazily built text fragments, a list, a string-keyed map,
/// a file, a collection of files, or a scalar constant.
#[derive(Debug)]
pub enum GritResolvedPattern {
    /// A non-empty ordered chain of bindings, oldest first; rebinding
    /// appends, preserving history.
    Binding(Vec<Binding>),
    /// An ordered sequence of text fragments.
    Snippets(Vec<Snippet>),
    /// An ordered, possibly heterogeneous list of values.
    List(Vec<GritResolvedPattern>),
    /// A map from string keys to values, kept sorted by key so that
    /// rendering is deterministic regardless of construction order.
    StrMap(Vec<(String, GritResolvedPattern)>),
    /// A file value.
    File(GritFile),
    /// A value known to stand for a collection of files.
    Files(Box<GritResolvedPattern>),
    /// A scalar constant.
    Constant(Constant),
}

/// A file value: an opaque pointer into the file registry, or a fully
/// resolved name/body pair.
#[derive(Debug)]
pub enum GritFile {
    Ptr(FilePtr),
    Resolved(Box<ResolvedFile>),
}

/// A fully resolved file: its name value and its body value.
#[derive(Debug)]
pub struct ResolvedFile {
    pub name: GritResolvedPattern,
    pub body: GritResolvedPattern,
}

/// The mathematical model of a resolved value.
pub enum ValueV {
    Binding(Seq<BindingV>),
    Snippets(Seq<SnippetV>),
    List(Seq<ValueV>),
    StrMap(Seq<(Seq<char>, ValueV)>),
    File(FileV),
    Files(Box<ValueV>),
    Constant(ConstantV),
}

/// The mathematical model of a file value.
pub enum FileV {
    Ptr(FilePtr),
    Resolved(Box<ResolvedFileV>),
}

/// The mathematical model of a resolved file.
pub struct ResolvedFileV {
    pub name: ValueV,
    pub body: ValueV,
}

/// The model of a resolved value.
pub open spec fn vview(v: GritResolvedPattern) -> ValueV
    decreases v,
{
    match v {
        GritResolvedPattern::Binding(bs) => ValueV::Binding(bs.deep_view()),
        GritResolvedPattern::Snippets(ss) => ValueV::Snippets(ss.deep_view()),
        GritResolvedPattern::List(items) => ValueV::List(vviews(items@)),
        GritResolvedPattern::StrMap(entries) => ValueV::StrMap(eviews(entries@)),
        GritResolvedPattern::File(f) => ValueV::File(fview(f)),
        GritResolvedPattern::Files(inner) => ValueV::Files(Box::new(vview(*inner))),
        GritResolvedPattern::Constant(c) => ValueV::Constant(c.deep_view()),
    }
}

/// The models of a sequence of resolved values, in order.
pub open spec fn vviews(items: Seq<GritResolvedPattern>) -> Seq<ValueV>
    decreases items,
{
    if items.len() == 0 {
        Seq::empty()
    } else {
        vviews(items.drop_last()).push(vview(items.last()))
    }
}

/// The models of a sequence of map entries, in order.
pub open spec fn eviews(entries: Seq<(String, GritResolvedPattern)>) -> Seq<(Seq<char>, ValueV)>
    decreases entries,
{
    if entries.len() == 0 {
        Seq::empty()
    } else {
        eviews(entries.drop_last()).push((entries.last().0@, vview(entries.last().1)))
    }
}

/// `vviews` maps the sequence pointwise.
pub proof fn lemma_vviews(items: Seq<GritResolvedPattern>)
    ensures
        vviews(items).len() == items.len(),
        forall|i: int| 0 <= i < items.len() ==> #[trigger] vviews(items)[i] == vview(items[i]),
    decreases items.len(),
{
    if items.len() > 0 {
        lemma_vviews(items.drop_last());
        assert forall|i: int| 0 <= i < items.len() implies #[trigger] vviews(items)[i] == vview(
            items[i],
        ) by {
            if i < items.len() - 1 {
                assert(items.drop_last()[i] == items[i]);
            } else {
                assert(items[i] == items.last());
            }
        }
    }
}

/// `eviews` maps the sequence pointwise.
pub proof fn lemma_eviews(entries: Seq<(String, GritResolvedPattern)>)
    ensures
        eviews(entries).len() == entries.len(),
        forall|i: int|
            0 <= i < entries.len() ==> #[trigger] eviews(entries)[i] == (entries[i].0@, vview(
                entries[i].1,
            )),
    decreases entries.len(),
{
    if entries.len() > 0 {
        lemma_eviews(entries.drop_last());
        assert forall|i: int|
            0 <= i < entries.len() implies #[trigger] eviews(entries)[i] == (entries[i].0@,
        vview(entries[i].1)) by {
            if i < entries.len() - 1 {
                assert(entries.drop_last()[i] == entries[i]);
            } else {
                assert(entries[i] == entries.last());
            }
        }
    }
}

/// The model of a file value.
pub open spec fn fview(f: GritFile) -> FileV
    decreases f,
{
    match f {
        GritFile::Ptr(p) => FileV::Ptr(p),
        GritFile::Resolved(rf) => FileV::Resolved(
            Box::new(ResolvedFileV { name: vview(rf.name), body: vview(rf.body) }),
        ),
    }
}

impl DeepView for GritResolvedPattern {
    type V = ValueV;

    open spec fn deep_view(&self) -> ValueV {
        vview(*self)
    }
}

impl DeepView for GritFile {
    type V = FileV;

    open spec fn deep_view(&self) -> FileV {
        fview(*self)
    }
}

/// The keys of map entries, in stored order.
pub open spec fn entry_keys(entries: Seq<(Seq<char>, ValueV)>) -> Seq<Seq<char>> {
    entries.map_values(|e: (Seq<char>, ValueV)| e.0)
}

/// Map entries are strictly sorted by key in lexicographic order; strict
/// sortedness also makes the keys unique.
pub open spec fn entries_sorted(entries: Seq<(Seq<char>, ValueV)>) -> bool {
    forall|i: int, j: int|
        0 <= i < j < entries.len() ==> lex_lt(entries[i].0, entries[j].0)
}

/// Well-formedness of a resolved value: every map in it is strictly sorted
/// by key.
pub open spec fn value_wf(v: ValueV) -> bool
    decreases v,
{
    match v {
        ValueV::List(items) => forall|i: int|
            0 <= i < items.len() ==> value_wf(#[trigger] items[i]),
        ValueV::StrMap(entries) => entries_sorted(entries) && forall|i: int|
            0 <= i < entries.len() ==> value_wf(#[trigger] entries[i].1),
        ValueV::File(f) => file_wf(f),
        ValueV::Files(inner) => value_wf(*inner),
        _ => true,
    }
}

/// Well-formedness of a file value.
pub open spec fn file_wf(f: FileV) -> bool
    decreases f,
{
    match f {
        FileV::Ptr(_) => true,
        FileV::Resolved(rf) => value_wf(rf.name) && value_wf(rf.body),
    }
}

impl Clone for GritResolvedPattern {
    /// A structural copy: the copy has the same model as the original.
    #[verifier::loop_isolation(false)]
    fn clone(&self) -> (r: Self)
        ensures
            r.deep_view() == self.deep_view(),
        decreases *self,
    {
        match self {
            GritResolvedPattern::Binding(bs) => {
                let mut out: Vec<Binding> = Vec::new();
                let mut i: usize = 0;
                while i < bs.len()
                    invariant
                        i <= bs.len(),
                        out@ =~= bs@.take(i as int),
                    decreases bs.len() - i,
                {
                    out.push(bs[i].clone());
                    i += 1;
                }
                proof {
                    assert(out@ =~= bs@);
                    assert(out.deep_view() =~= bs.deep_view());
                }
                GritResolvedPattern::Binding(out)
            },
            GritResolvedPattern::Snippets(ss) => {
                let mut out: Vec<Snippet> = Vec::new();
                let mut i: usize = 0;
                while i < ss.len()
                    invariant
                        i <= ss.len(),
                        out@ =~= ss@.take(i as int),
                    decreases ss.len() - i,
                {
                    out.push(ss[i].clone());
                    i += 1;
                }
                proof {
                    assert(out@ =~= ss@);
                    assert(out.deep_view() =~= ss.deep_view());
                }
                GritResolvedPattern::Snippets(out)
            },
            GritResolvedPattern::List(items) => {
                let mut out: Vec<GritResolvedPattern> = Vec::new();
                let mut i: usize = 0;
                while i < items.len()
                    invariant
                        i <= items.len(),
                        out@.len() == i,
                        forall|k: int| 0 <= k < i ==> vview(#[trigger] out@[k]) == vview(
                            items@[k],
                        ),
                    decreases items.len() - i,
                {
                    out.push(items[i].clone());
                    i += 1;
                }
                let r = GritResolvedPattern::List(out);
                proof {
                    lemma_vviews(out@);
                    lemma_vviews(items@);
                    assert(vview(r)->List_0 =~= vview(*self)->List_0);
                }
                r
            },
            GritResolvedPattern::StrMap(entries) => {
                let mut out: Vec<(String, GritResolvedPattern)> = Vec::new();
                let mut i: usize = 0;
                while i < entries.len()
                    invariant
                        i <= entries.len(),
                        out@.len() == i,
                        forall|k: int|
                            0 <= k < i ==> (#[trigger] out@[k]).0@ == entries@[k].0@ && vview(
                                out@[k].1,
                            ) == vview(entries@[k].1),
                    decreases entries.len() - i,
                {
                    let key = entries[i].0.clone();
                    let val = entries[i].1.clone();
                    out.push((key, val));
                    i += 1;
                }
                let r = GritResolvedPattern::StrMap(out);
                proof {
                    lemma_eviews(out@);
                    lemma_eviews(entries@);
                    assert(vview(r)->StrMap_0 =~= vview(*self)->StrMap_0);
                }
                r
            },
            GritResolvedPattern::File(f) => GritResolvedPattern::File(f.clone()),
            GritResolvedPattern::Files(inner) => GritResolvedPattern::Files(
                Box::new((**inner).clone()),
            ),
            GritResolvedPattern::Constant(c) => GritResolvedPattern::Constant(c.clone()),
        }
    }
}

impl Clone for GritFile {
    /// A structural copy: the copy has the same model as the original.
    fn clone(&self) -> (r: Self)
        ensures
            r.deep_view() == self.deep_view(),
        decreases *self,
    {
        match self {
            GritFile::Ptr(p) => GritFile::Ptr(*p),
            GritFile::Resolved(rf) => {
                let name = rf.name.clone();
                let body = rf.body.clone();
                GritFile::Resolved(Box::new(ResolvedFile { name, body }))
            },
        }
    }
}

impl GritResolvedPattern {
    /// A value bound to an empty placeholder at the given tree slot.
    pub fn from_empty_binding(node: TargetNode, slot_index: u32) -> (r: Self)
        ensures
            r.deep_view() == ValueV::Binding(
                seq![BindingV::Empty(node.deep_view(), slot_index)],
            ),
    {
        Self::from_binding(Binding::Empty(node, slot_index))
    }

    /// A value bound to the root node of a tree.
    pub fn from_tree(tree: &TargetTree) -> (r: Self)
        ensures
            r.deep_view() == ValueV::Binding(seq![BindingV::Node(tree.root.deep_view())]),
    {
        Self::from_binding(Binding::Node(tree.root_node().clone()))
    }

    /// A value holding one binding.
    pub fn from_binding(binding: Binding) -> (r: Self)
        ensures
            r.deep_view() == ValueV::Binding(seq![binding.deep_view()]),
    {
        let mut chain: Vec<Binding> = Vec::new();
        chain.push(binding);
        let r = GritResolvedPattern::Binding(chain);
        proof {
            assert(r.deep_view()->Binding_0 =~= seq![binding.deep_view()]);
        }
        r
    }

    /// A constant value.
    pub fn from_constant(constant: Constant) -> (r: Self)
        ensures
            r.deep_view() == ValueV::Constant(constant.deep_view()),
    {
        GritResolvedPattern::Constant(constant)
    }

    /// A value bound to a constant.
    pub fn from_constant_binding(constant: &Constant) -> (r: Self)
        ensures
            r.deep_view() == ValueV::Binding(seq![BindingV::Constant(constant.deep_view())]),
    {
        Self::from_binding(Binding::Constant(constant.clone()))
    }

    /// A file value from an opaque registry pointer.
    pub fn from_file_pointer(file: FilePtr) -> (r: Self)
        ensures
            r.deep_view() == ValueV::File(FileV::Ptr(file)),
    {
        let r = GritResolvedPattern::File(GritFile::Ptr(file));
        proof {
            assert(fview(GritFile::Ptr(file)) == FileV::Ptr(file));
            assert(vview(r) == ValueV::File(fview(GritFile::Ptr(file))));
        }
        r
    }

    /// Wraps a value known to stand for a collection of files.
    pub fn from_files(files: Self) -> (r: Self)
        ensures
            r.deep_view() == ValueV::Files(Box::new(files.deep_view())),
    {
        GritResolvedPattern::Files(Box::new(files))
    }

    /// A list value from its parts, in order.
    pub fn from_list_parts(parts: Vec<Self>) -> (r: Self)
        ensures
            r.deep_view() == ValueV::List(parts.deep_view()),
    {
        let r = GritResolvedPattern::List(parts);
        proof {
            lemma_vviews(r->List_0@);
            assert(r.deep_view()->List_0 =~= r->List_0.deep_view());
        }
        r
    }

    /// A fragment value holding one literal text fragment.
    pub fn from_string(string: String) -> (r: Self)
        ensures
            r.deep_view() == ValueV::Snippets(seq![SnippetV::Text(string@)]),
    {
        let ghost string_view = string@;
        let mut ss: Vec<Snippet> = Vec::new();
        ss.push(Snippet::Text(string));
        let r = GritResolvedPattern::Snippets(ss);
        proof {
            assert(r.deep_view()->Snippets_0 =~= seq![SnippetV::Text(string_view)]);
        }
        r
    }

    /// A fragment value holding one fragment.
    pub fn from_resolved_snippet(snippet: Snippet) -> (r: Self)
        ensures
            r.deep_view() == ValueV::Snippets(seq![snippet.deep_view()]),
    {
        let ghost snippet_view = snippet.deep_view();
        let mut ss: Vec<Snippet> = Vec::new();
        ss.push(snippet);
        let r = GritResolvedPattern::Snippets(ss);
        proof {
            assert(r.deep_view()->Snippets_0 =~= seq![snippet_view]);
        }
        r
    }

    /// The bindings of a binding-chain value, oldest first.
    pub fn get_bindings(&self) -> (r: Option<Vec<Binding>>)
        ensures
            self matches GritResolvedPattern::Binding(bs) ==> (r matches Some(out)
                && out@ == bs@),
            !(self is Binding) ==> r is None,
    {
        match self {
            GritResolvedPattern::Binding(bs) => {
                let mut out: Vec<Binding> = Vec::new();
                let mut i: usize = 0;
                while i < bs.len()
                    invariant
                        i <= bs.len(),
                        out@ =~= bs@.take(i as int),
                    decreases bs.len() - i,
                {
                    out.push(bs[i].clone());
                    i += 1;
                }
                proof {
                    assert(out@ =~= bs@);
                }
                Some(out)
            },
            _ => None,
        }
    }

    /// The most recent binding of a binding-chain value.
    pub fn get_last_binding(&self) -> (r: Option<&Binding>)
        ensures
            self matches GritResolvedPattern::Binding(bs) ==> (if bs@.len() > 0 {
                r matches Some(b) && *b == bs@.last()
            } else {
                r is None
            }),
            !(self is Binding) ==> r is None,
    {
        match self {
            GritResolvedPattern::Binding(bs) => {
                if bs.len() == 0 {
                    None
                } else {
                    Some(&bs[bs.len() - 1])
                }
            },
            _ => None,
        }
    }

    /// The file of a file value.
    pub fn get_file(&self) -> (r: Option<&GritFile>)
        ensures
            self matches GritResolvedPattern::File(f) ==> (r matches Some(g) && *g == f),
            !(self is File) ==> r is None,
    {
        match self {
            GritResolvedPattern::File(file) => Some(file),
            _ => None,
        }
    }

    /// The items of a list value, in order.
    pub fn get_list_items(&self) -> (r: Option<&Vec<GritResolvedPattern>>)
        ensures
            self matches GritResolvedPattern::List(items) ==> (r matches Some(out)
                && *out == items),
            !(self is List) ==> r is None,
    {
        match self {
            GritResolvedPattern::List(items) => Some(items),
            _ => None,
        }
    }

    /// The entries of a map value, sorted by key.
    pub fn get_map(&self) -> (r: Option<&Vec<(String, GritResolvedPattern)>>)
        ensures
            self matches GritResolvedPattern::StrMap(entries) ==> (r matches Some(out)
                && *out == entries),
            !(self is StrMap) ==> r is None,
    {
        match self {
            GritResolvedPattern::StrMap(entries) => Some(entries),
            _ => None,
        }
    }

    /// The fragments of a fragment value, in order.
    pub fn get_snippets(&self) -> (r: Option<Vec<Snippet>>)
        ensures
            self matches GritResolvedPattern::Snippets(ss) ==> (r matches Some(out)
                && out@ == ss@),
            !(self is Snippets) ==> r is None,
    {
        match self {
            GritResolvedPattern::Snippets(ss) => {
                let mut out: Vec<Snippet> = Vec::new();
                let mut i: usize = 0;
                while i < ss.len()
                    invariant
                        i <= ss.len(),
                        out@ =~= ss@.take(i as int),
                    decreases ss.len() - i,
                {
                    out.push(ss[i].clone());
                    i += 1;
                }
                proof {
                    assert(out@ =~= ss@);
                }
                Some(out)
            },
            _ => None,
        }
    }

    /// Whether this value is a binding chain.
    pub fn is_binding(&self) -> (r: bool)
        ensures
            r == (self is Binding),
    {
        matches!(self, GritResolvedPattern::Binding(_))
    }

    /// Whether this value is a list.
    pub fn is_list(&self) -> (r: bool)
        ensures
            r == (self is List),
    {
        matches!(self, GritResolvedPattern::List(_))
    }
}

} // verus!
