use vstd::prelude::*;
use vstd::string::*;

use crate::binding::{
    binding_to_text, render_snippets, snippet_text, snippets_text, Snippet, SnippetV,
};
use crate::constant::{constant_to_text, Constant, ConstantV};
use crate::error::{ConversionTarget, EvalError, EvalErrorV, ValueKind};
use crate::files::{ptr_valid, FileRegistry, StoredFileV};
use crate::resolved_pattern::{
    eviews, fview, lemma_eviews, lemma_vviews, vview, vviews, FileV, GritFile, GritResolvedPattern,
    ValueV,
};

verus! {

/// The fragment that introduces a map key: `"key": `.
pub open spec fn key_fragment(k: Seq<char>) -> Seq<char> {
    "\""@ + k + "\": "@
}

/// What flattening a value to fragments yields: a binding chain contributes
/// its most recent binding; fragments pass through; a list interleaves its
/// items' fragments with single spaces; a map renders `{`, its entries in
/// stored (key-sorted) order as `"key": value` separated by `, `, then `}`;
/// a constant contributes its canonical text; files cannot be flattened.
pub open spec fn snippets_of(v: ValueV) -> Result<Seq<SnippetV>, EvalErrorV>
    decreases v,
{
    match v {
        ValueV::Binding(bs) => if bs.len() == 0 {
            Err(EvalErrorV::MissingBinding)
        } else {
            Ok(seq![SnippetV::Binding(bs.last())])
        },
        ValueV::Snippets(ss) => Ok(ss),
        ValueV::List(items) => snippets_of_list(items),
        ValueV::StrMap(entries) => match snippets_of_entries(entries) {
            Ok(mid) => Ok(seq![SnippetV::Text("{"@)] + mid + seq![SnippetV::Text("}"@)]),
            Err(e) => Err(e),
        },
        ValueV::File(_) => Err(
            EvalErrorV::UnsupportedConversion {
                from: ValueKind::File,
                to: ConversionTarget::Snippets,
            },
        ),
        ValueV::Files(_) => Err(
            EvalErrorV::UnsupportedConversion {
                from: ValueKind::Files,
                to: ConversionTarget::Snippets,
            },
        ),
        ValueV::Constant(c) => Ok(seq![SnippetV::Text(crate::constant::constant_text(c))]),
    }
}

/// List flattening: items' fragments in order, a single-space literal
/// between consecutive items, no trailing separator; the leftmost failure
/// aborts the whole list.
pub open spec fn snippets_of_list(items: Seq<ValueV>) -> Result<Seq<SnippetV>, EvalErrorV>
    decreases items,
{
    if items.len() == 0 {
        Ok(Seq::empty())
    } else {
        match snippets_of(items.first()) {
            Err(e) => Err(e),
            Ok(head) => match snippets_of_list(items.drop_first()) {
                Err(e) => Err(e),
                Ok(tail) => Ok(
                    if items.len() == 1 {
                        head
                    } else {
                        head + seq![SnippetV::Text(" "@)] + tail
                    },
                ),
            },
        }
    }
}

/// Map-entry flattening: per entry `"key": ` + the value's fragments, with
/// `, ` between consecutive entries; the leftmost failure aborts.
pub open spec fn snippets_of_entries(entries: Seq<(Seq<char>, ValueV)>) -> Result<
    Seq<SnippetV>,
    EvalErrorV,
>
    decreases entries,
{
    if entries.len() == 0 {
        Ok(Seq::empty())
    } else {
        match snippets_of(entries.first().1) {
            Err(e) => Err(e),
            Ok(head) => match snippets_of_entries(entries.drop_first()) {
                Err(e) => Err(e),
                Ok(tail) => Ok(
                    seq![SnippetV::Text(key_fragment(entries.first().0))] + head + (
                    if entries.len() == 1 {
                        Seq::<SnippetV>::empty()
                    } else {
                        seq![SnippetV::Text(", "@)]
                    }) + tail,
                ),
            },
        }
    }
}

/// Appending an item to a list extends its flattening on the right.
pub proof fn lemma_snippets_of_list_push(items: Seq<ValueV>, x: ValueV)
    requires
        snippets_of_list(items) is Ok,
    ensures
        snippets_of_list(items.push(x)) == match snippets_of(x) {
            Err(e) => Err::<Seq<SnippetV>, EvalErrorV>(e),
            Ok(xs) => Ok(
                if items.len() == 0 {
                    xs
                } else {
                    snippets_of_list(items)->Ok_0 + seq![SnippetV::Text(" "@)] + xs
                },
            ),
        },
    decreases items.len(),
{
    let pushed = items.push(x);
    if items.len() == 0 {
        reveal_with_fuel(snippets_of_list, 3);
        assert(pushed.first() == x);
        assert(pushed.drop_first() =~= Seq::empty());
        assert(snippets_of_list(pushed.drop_first()) == Ok::<Seq<SnippetV>, EvalErrorV>(
            Seq::empty(),
        ));
    } else {
        assert(pushed.first() == items.first());
        assert(pushed.drop_first() =~= items.drop_first().push(x));
        lemma_snippets_of_list_push(items.drop_first(), x);
        if snippets_of(x) is Ok {
            if items.len() == 1 {
                assert(items.drop_first().len() == 0);
            } else {
                assert(snippets_of_list(items)->Ok_0 + seq![SnippetV::Text(" "@)]
                    + snippets_of(x)->Ok_0 =~= snippets_of(items.first())->Ok_0 + seq![
                    SnippetV::Text(" "@),
                ] + (snippets_of_list(items.drop_first())->Ok_0 + seq![SnippetV::Text(" "@)]
                    + snippets_of(x)->Ok_0));
            }
        }
    }
}

/// A list whose prefix flattens but whose next item fails flattens to that
/// item's failure.
pub proof fn lemma_snippets_of_list_err(items: Seq<ValueV>, i: int)
    requires
        0 <= i < items.len(),
        snippets_of_list(items.take(i)) is Ok,
        snippets_of(items[i]) is Err,
    ensures
        snippets_of_list(items) == Err::<Seq<SnippetV>, EvalErrorV>(
            snippets_of(items[i])->Err_0,
        ),
    decreases items.len(),
{
    if i == 0 {
        assert(items.first() == items[0]);
    } else {
        let t = items.take(i);
        assert(t.first() == items.first());
        assert(snippets_of(items.first()) is Ok);
        assert(t.drop_first() =~= items.drop_first().take(i - 1));
        assert(items.drop_first()[i - 1] == items[i]);
        lemma_snippets_of_list_err(items.drop_first(), i - 1);
    }
}

/// Appending an entry to a map extends its flattening on the right.
pub proof fn lemma_snippets_of_entries_push(
    entries: Seq<(Seq<char>, ValueV)>,
    e: (Seq<char>, ValueV),
)
    requires
        snippets_of_entries(entries) is Ok,
    ensures
        snippets_of_entries(entries.push(e)) == match snippets_of(e.1) {
            Err(err) => Err::<Seq<SnippetV>, EvalErrorV>(err),
            Ok(xs) => Ok(
                (if entries.len() == 0 {
                    Seq::<SnippetV>::empty()
                } else {
                    snippets_of_entries(entries)->Ok_0 + seq![SnippetV::Text(", "@)]
                }) + seq![SnippetV::Text(key_fragment(e.0))] + xs,
            ),
        },
    decreases entries.len(),
{
    let pushed = entries.push(e);
    reveal_with_fuel(snippets_of_entries, 3);
    if entries.len() == 0 {
        assert(pushed.first() == e);
        assert(pushed.drop_first() =~= Seq::empty());
        assert(snippets_of_entries(pushed.drop_first()) == Ok::<Seq<SnippetV>, EvalErrorV>(
            Seq::empty(),
        ));
        if snippets_of(e.1) is Ok {
            assert(seq![SnippetV::Text(key_fragment(e.0))] + snippets_of(e.1)->Ok_0
                + Seq::<SnippetV>::empty() + Seq::<SnippetV>::empty() =~= Seq::<
                SnippetV,
            >::empty() + seq![SnippetV::Text(key_fragment(e.0))] + snippets_of(e.1)->Ok_0);
        }
    } else {
        assert(pushed.first() == entries.first());
        assert(pushed.drop_first() =~= entries.drop_first().push(e));
        lemma_snippets_of_entries_push(entries.drop_first(), e);
        if snippets_of(e.1) is Ok {
            let keyfrag = seq![SnippetV::Text(key_fragment(entries.first().0))];
            let head = snippets_of(entries.first().1)->Ok_0;
            let sep = seq![SnippetV::Text(", "@)];
            if entries.len() == 1 {
                assert(entries.drop_first().len() == 0);
                assert(snippets_of_entries(entries)->Ok_0 =~= keyfrag + head);
                assert((keyfrag + head + sep) + seq![SnippetV::Text(key_fragment(e.0))]
                    + snippets_of(e.1)->Ok_0 =~= keyfrag + head + sep + (Seq::<SnippetV>::empty()
                    + seq![SnippetV::Text(key_fragment(e.0))] + snippets_of(e.1)->Ok_0));
            } else {
                let tail = snippets_of_entries(entries.drop_first())->Ok_0;
                assert((keyfrag + head + sep + tail + seq![SnippetV::Text(", "@)]) + seq![
                    SnippetV::Text(key_fragment(e.0)),
                ] + snippets_of(e.1)->Ok_0 =~= keyfrag + head + sep + (tail + seq![
                    SnippetV::Text(", "@),
                ] + seq![SnippetV::Text(key_fragment(e.0))] + snippets_of(e.1)->Ok_0));
            }
        }
    }
}

/// A map whose leading entries flatten but whose next value fails flattens
/// to that failure.
pub proof fn lemma_snippets_of_entries_err(entries: Seq<(Seq<char>, ValueV)>, i: int)
    requires
        0 <= i < entries.len(),
        snippets_of_entries(entries.take(i)) is Ok,
        snippets_of(entries[i].1) is Err,
    ensures
        snippets_of_entries(entries) == Err::<Seq<SnippetV>, EvalErrorV>(
            snippets_of(entries[i].1)->Err_0,
        ),
    decreases entries.len(),
{
    if i == 0 {
        assert(entries.first() == entries[0]);
    } else {
        let t = entries.take(i);
        assert(t.first() == entries.first());
        assert(snippets_of(entries.first().1) is Ok);
        assert(t.drop_first() =~= entries.drop_first().take(i - 1));
        assert(entries.drop_first()[i - 1] == entries[i]);
        lemma_snippets_of_entries_err(entries.drop_first(), i - 1);
    }
}

/// Flattens every item of a list, interleaving single-space separators.
#[verifier::loop_isolation(false)]
#[verifier::rlimit(30)]
fn snippets_from_list(items: &Vec<GritResolvedPattern>) -> (r: Result<Vec<Snippet>, EvalError>)
    ensures
        r matches Ok(out) ==> (snippets_of_list(vviews(items@)) matches Ok(sv) && out.deep_view()
            == sv),
        r matches Err(e) ==> (snippets_of_list(vviews(items@)) matches Err(ev) && e.deep_view()
            == ev),
    decreases items@,
{
    let ghost iv = vviews(items@);
    proof {
        lemma_vviews(items@);
    }
    let mut out: Vec<Snippet> = Vec::new();
    let mut i: usize = 0;
    proof {
        assert(iv.take(0) =~= Seq::<ValueV>::empty());
        assert(out.deep_view() =~= Seq::<SnippetV>::empty());
    }
    while i < items.len()
        invariant
            i <= items.len(),
            snippets_of_list(iv.take(i as int)) == Ok::<Seq<SnippetV>, EvalErrorV>(
                out.deep_view(),
            ),
        decreases items.len() - i,
    {
        match items[i].to_snippets() {
            Err(e) => {
                proof {
                    lemma_snippets_of_list_err(iv, i as int);
                }
                return Err(e);
            },
            Ok(mut part) => {
                proof {
                    lemma_snippets_of_list_push(iv.take(i as int), iv[i as int]);
                    assert(iv.take(i + 1) =~= iv.take(i as int).push(iv[i as int]));
                }
                let ghost old_out = out.deep_view();
                let ghost part_view = part.deep_view();
                if i > 0 {
                    out.push(Snippet::Text(String::from_str(" ")));
                    proof {
                        assert(out.deep_view() =~= old_out.push(SnippetV::Text(" "@)));
                    }
                }
                let ghost mid_out = out.deep_view();
                out.append(&mut part);
                proof {
                    assert(out.deep_view() =~= mid_out + part_view);
                    if i > 0 {
                        assert(out.deep_view() =~= old_out + seq![SnippetV::Text(" "@)]
                            + part_view);
                    } else {
                        assert(out.deep_view() =~= part_view);
                    }
                }
            },
        }
        i += 1;
    }
    proof {
        assert(iv.take(items.len() as int) =~= iv);
    }
    Ok(out)
}

/// Flattens every entry of a map into `"key": value` runs separated by
/// `, `, without the surrounding braces.
#[verifier::loop_isolation(false)]
#[verifier::rlimit(30)]
fn snippets_from_entries(entries: &Vec<(String, GritResolvedPattern)>) -> (r: Result<
    Vec<Snippet>,
    EvalError,
>)
    ensures
        r matches Ok(out) ==> (snippets_of_entries(eviews(entries@)) matches Ok(sv)
            && out.deep_view() == sv),
        r matches Err(e) ==> (snippets_of_entries(eviews(entries@)) matches Err(ev)
            && e.deep_view() == ev),
    decreases entries@,
{
    let ghost ev = eviews(entries@);
    proof {
        lemma_eviews(entries@);
    }
    let mut out: Vec<Snippet> = Vec::new();
    let mut i: usize = 0;
    proof {
        assert(ev.take(0) =~= Seq::<(Seq<char>, ValueV)>::empty());
        assert(out.deep_view() =~= Seq::<SnippetV>::empty());
    }
    while i < entries.len()
        invariant
            i <= entries.len(),
            snippets_of_entries(ev.take(i as int)) == Ok::<Seq<SnippetV>, EvalErrorV>(
                out.deep_view(),
            ),
        decreases entries.len() - i,
    {
        match entries[i].1.to_snippets() {
            Err(e) => {
                proof {
                    lemma_snippets_of_entries_err(ev, i as int);
                }
                return Err(e);
            },
            Ok(mut part) => {
                proof {
                    lemma_snippets_of_entries_push(ev.take(i as int), ev[i as int]);
                    assert(ev.take(i + 1) =~= ev.take(i as int).push(ev[i as int]));
                }
                let ghost old_out = out.deep_view();
                let ghost part_view = part.deep_view();
                if i > 0 {
                    out.push(Snippet::Text(String::from_str(", ")));
                    proof {
                        assert(out.deep_view() =~= old_out.push(SnippetV::Text(", "@)));
                    }
                }
                let keyfrag = String::from_str("\"").concat(entries[i].0.as_str()).concat(
                    "\": ",
                );
                mid_push_key(&mut out, keyfrag);
                let ghost mid_out = out.deep_view();
                proof {
                    assert(mid_out =~= (if i > 0 {
                        old_out + seq![SnippetV::Text(", "@)]
                    } else {
                        old_out
                    }) + seq![SnippetV::Text(key_fragment(ev[i as int].0))]);
                }
                out.append(&mut part);
                proof {
                    assert(out.deep_view() =~= mid_out + part_view);
                    if i > 0 {
                        assert(out.deep_view() =~= (old_out + seq![SnippetV::Text(", "@)]) + seq![
                            SnippetV::Text(key_fragment(ev[i as int].0)),
                        ] + part_view);
                    } else {
                        assert(out.deep_view() =~= Seq::<SnippetV>::empty() + seq![
                            SnippetV::Text(key_fragment(ev[i as int].0)),
                        ] + part_view);
                    }
                }
            },
        }
        i += 1;
    }
    proof {
        assert(ev.take(entries.len() as int) =~= ev);
    }
    Ok(out)
}

/// Pushes a key fragment onto the output.
fn mid_push_key(out: &mut Vec<Snippet>, keyfrag: String)
    ensures
        final(out).deep_view() == old(out).deep_view().push(SnippetV::Text(keyfrag@)),
{
    out.push(Snippet::Text(keyfrag));
    proof {
        assert(out.deep_view() =~= old(out).deep_view().push(SnippetV::Text(keyfrag@)));
    }
}

impl GritResolvedPattern {
    /// Flattens this value into an ordered fragment sequence, per
    /// `snippets_of`. Fails exactly on file values, file collections, and
    /// empty binding chains, and on any nested value that fails; the
    /// failure is a pure function of the value alone.
    #[verifier::loop_isolation(false)]
    pub fn to_snippets(&self) -> (r: Result<Vec<Snippet>, EvalError>)
        ensures
            r matches Ok(out) ==> (snippets_of(self.deep_view()) matches Ok(sv) && out.deep_view()
                == sv),
            r matches Err(e) ==> (snippets_of(self.deep_view()) matches Err(ev) && e.deep_view()
                == ev),
        decreases *self,
    {
        match self {
            GritResolvedPattern::Snippets(ss) => {
                let mut out: Vec<Snippet> = Vec::new();
                let mut i: usize = 0;
                while i < ss.len()
                    invariant
                        i <= ss.len(),
                        out@ =~= ss@.take(i as int),
                    decreases ss.len() - i,
                {
                    out.push(ss[i].clone());
                    i += 1;
                }
                proof {
                    assert(out@ =~= ss@);
                    assert(out.deep_view() =~= ss.deep_view());
                }
                Ok(out)
            },
            GritResolvedPattern::Binding(bs) => {
                if bs.len() == 0 {
                    Err(EvalError::MissingBinding)
                } else {
                    let mut out: Vec<Snippet> = Vec::new();
                    out.push(Snippet::Binding(bs[bs.len() - 1].clone()));
                    proof {
                        assert(out.deep_view() =~= seq![
                            SnippetV::Binding(bs.deep_view().last()),
                        ]);
                    }
                    Ok(out)
                }
            },
            GritResolvedPattern::List(items) => snippets_from_list(items),
            GritResolvedPattern::StrMap(entries) => {
                match snippets_from_entries(entries) {
                    Err(e) => Err(e),
                    Ok(mut mid) => {
                        let ghost mid_view = mid.deep_view();
                        let mut out: Vec<Snippet> = Vec::new();
                        out.push(Snippet::Text(String::from_str("{")));
                        out.append(&mut mid);
                        out.push(Snippet::Text(String::from_str("}")));
                        proof {
                            assert(out.deep_view() =~= seq![SnippetV::Text("{"@)] + mid_view
                                + seq![SnippetV::Text("}"@)]);
                        }
                        Ok(out)
                    },
                }
            },
            GritResolvedPattern::File(_) => Err(
                EvalError::UnsupportedConversion {
                    from: ValueKind::File,
                    to: ConversionTarget::Snippets,
                },
            ),
            GritResolvedPattern::Files(_) => Err(
                EvalError::UnsupportedConversion {
                    from: ValueKind::Files,
                    to: ConversionTarget::Snippets,
                },
            ),
            GritResolvedPattern::Constant(c) => {
                let mut out: Vec<Snippet> = Vec::new();
                out.push(Snippet::Text(constant_to_text(c)));
                proof {
                    assert(out.deep_view() =~= seq![
                        SnippetV::Text(crate::constant::constant_text(c.deep_view())),
                    ]);
                }
                Ok(out)
            },
        }
    }
}

/// What rendering a value to text yields: a binding chain renders its most
/// recent binding's source text; fragments concatenate; lists, maps and
/// constants render their flattened fragments; a resolved file renders
/// `name:\nbody`; a file pointer renders the registered file the same way;
/// a file collection cannot be rendered.
pub open spec fn text_of(v: ValueV, files: Seq<Seq<StoredFileV>>) -> Result<Seq<char>, EvalErrorV>
    decreases v,
{
    match v {
        ValueV::Binding(bs) => if bs.len() == 0 {
            Err(EvalErrorV::MissingBinding)
        } else {
            Ok(crate::binding::binding_text(bs.last()))
        },
        ValueV::Snippets(ss) => Ok(snippets_text(ss)),
        ValueV::List(_) | ValueV::StrMap(_) | ValueV::Constant(_) => match snippets_of(v) {
            Ok(ss) => Ok(snippets_text(ss)),
            Err(e) => Err(e),
        },
        ValueV::File(f) => file_text_of(f, files),
        ValueV::Files(_) => Err(
            EvalErrorV::UnsupportedConversion { from: ValueKind::Files, to: ConversionTarget::Text },
        ),
    }
}

/// What rendering a file value yields: `name:\nbody`, with a pointer
/// resolved through the registry.
pub open spec fn file_text_of(f: FileV, files: Seq<Seq<StoredFileV>>) -> Result<
    Seq<char>,
    EvalErrorV,
>
    decreases f,
{
    match f {
        FileV::Ptr(p) => if ptr_valid(p, files) {
            Ok(
                files[p.file as int][p.version as int].name + ":\n"@ + files[p.file as int][
                    p.version as int
                ].body,
            )
        } else {
            Err(EvalErrorV::MalformedAccess("file pointer outside the registry"@))
        },
        FileV::Resolved(rf) => match text_of(rf.name, files) {
            Err(e) => Err(e),
            Ok(n) => match text_of(rf.body, files) {
                Err(e) => Err(e),
                Ok(b) => Ok(n + ":\n"@ + b),
            },
        },
    }
}

impl GritResolvedPattern {
    /// Fully materializes this value to one owned string, per `text_of`,
    /// resolving file pointers through the given registry.
    pub fn text(&self, files: &FileRegistry) -> (r: Result<String, EvalError>)
        ensures
            r matches Ok(s) ==> (text_of(self.deep_view(), files.deep_view()) matches Ok(tv) && s@
                == tv),
            r matches Err(e) ==> (text_of(self.deep_view(), files.deep_view()) matches Err(ev)
                && e.deep_view() == ev),
        decreases *self,
    {
        match self {
            GritResolvedPattern::Binding(bs) => {
                if bs.len() == 0 {
                    Err(EvalError::MissingBinding)
                } else {
                    Ok(binding_to_text(&bs[bs.len() - 1]))
                }
            },
            GritResolvedPattern::Snippets(ss) => Ok(render_snippets(ss)),
            GritResolvedPattern::List(_) | GritResolvedPattern::StrMap(_)
                | GritResolvedPattern::Constant(_) => {
                match self.to_snippets() {
                    Ok(ss) => Ok(render_snippets(&ss)),
                    Err(e) => Err(e),
                }
            },
            GritResolvedPattern::File(f) => match f {
                GritFile::Ptr(p) => {
                    proof {
                        assert(self.deep_view() == ValueV::File(FileV::Ptr(*p)));
                        assert(files.deep_view().len() == files.files@.len());
                        if (p.file as int) < files.files@.len() {
                            assert(files.deep_view()[p.file as int].len() == files.files@[
                                p.file as int
                            ]@.len());
                        }
                    }
                    if (p.file as usize) < files.files.len() && (p.version as usize)
                        < files.files[p.file as usize].len() {
                        let stored = files.get(*p);
                        let r = stored.name.clone().concat(":\n").concat(stored.body.as_str());
                        Ok(r)
                    } else {
                        Err(EvalError::MalformedAccess("file pointer outside the registry"))
                    }
                },
                GritFile::Resolved(rf) => {
                    proof {
                        assert(self.deep_view() == ValueV::File(fview(*f)));
                        assert(fview(*f) matches FileV::Resolved(rfv) && rfv.name == rf.name.deep_view()
                            && rfv.body == rf.body.deep_view());
                    }
                    match rf.name.text(files) {
                        Err(e) => Err(e),
                        Ok(n) => match rf.body.text(files) {
                            Err(e) => Err(e),
                            Ok(b) => Ok(n.concat(":\n").concat(b.as_str())),
                        },
                    }
                },
            },
            GritResolvedPattern::Files(_) => Err(
                EvalError::UnsupportedConversion {
                    from: ValueKind::Files,
                    to: ConversionTarget::Text,
                },
            ),
        }
    }
}

/// The numeric source a value coerces to: machine-float bits pass through,
/// an integer awaits widening, text awaits parsing. The host finishes the
/// conversion to a machine float; floating point stays outside this core.
#[derive(Debug)]
pub enum NumericValue {
    Double(u64),
    Integer(i64),
    Text(String),
}

/// The mathematical model of a numeric source.
pub enum NumericValueV {
    Double(u64),
    Integer(i64),
    Text(Seq<char>),
}

impl DeepView for NumericValue {
    type V = NumericValueV;

    open spec fn deep_view(&self) -> NumericValueV {
        match self {
            NumericValue::Double(b) => NumericValueV::Double(*b),
            NumericValue::Integer(i) => NumericValueV::Integer(*i),
            NumericValue::Text(t) => NumericValueV::Text(t@),
        }
    }
}

/// What numeric coercion yields: float constants pass their bits through,
/// integers await widening, strings and rendered fragments and binding
/// texts await parsing; booleans, `Undefined`, lists, maps and files are
/// not numeric, and an empty binding chain is a missing binding.
pub open spec fn float_of(v: ValueV) -> Result<NumericValueV, EvalErrorV> {
    match v {
        ValueV::Constant(ConstantV::Float(d)) => Ok(NumericValueV::Double(d.bits)),
        ValueV::Constant(ConstantV::Integer(i)) => Ok(NumericValueV::Integer(i)),
        ValueV::Constant(ConstantV::String(s)) => Ok(NumericValueV::Text(s)),
        ValueV::Constant(_) => Err(EvalErrorV::NotNumeric),
        ValueV::Snippets(ss) => Ok(NumericValueV::Text(snippets_text(ss))),
        ValueV::Binding(bs) => if bs.len() == 0 {
            Err(EvalErrorV::MissingBinding)
        } else {
            Ok(NumericValueV::Text(crate::binding::binding_text(bs.last())))
        },
        _ => Err(EvalErrorV::NotNumeric),
    }
}

impl GritResolvedPattern {
    /// Coerces this value to its numeric source, per `float_of`. The host
    /// widens an `Integer` or parses a `Text` into the machine float; a
    /// text that does not parse as a number is then `NotNumeric` ground.
    pub fn float(&self, files: &FileRegistry) -> (r: Result<NumericValue, EvalError>)
        ensures
            r matches Ok(n) ==> (float_of(self.deep_view()) matches Ok(nv) && n.deep_view() == nv),
            r matches Err(e) ==> (float_of(self.deep_view()) matches Err(ev) && e.deep_view()
                == ev),
    {
        let _ = files;
        match self {
            GritResolvedPattern::Constant(c) => match c {
                Constant::Float(d) => Ok(NumericValue::Double(d.bits)),
                Constant::Integer(i) => Ok(NumericValue::Integer(*i)),
                Constant::String(s) => Ok(NumericValue::Text(s.clone())),
                Constant::Boolean(_) | Constant::Undefined => Err(EvalError::NotNumeric),
            },
            GritResolvedPattern::Snippets(ss) => Ok(NumericValue::Text(render_snippets(ss))),
            GritResolvedPattern::Binding(bs) => {
                if bs.len() == 0 {
                    Err(EvalError::MissingBinding)
                } else {
                    Ok(NumericValue::Text(binding_to_text(&bs[bs.len() - 1])))
                }
            },
            GritResolvedPattern::List(_) | GritResolvedPattern::StrMap(_)
                | GritResolvedPattern::File(_) | GritResolvedPattern::Files(_) => Err(
                EvalError::NotNumeric,
            ),
        }
    }
}

/// Flattening a file value or a file collection always fails, with the
/// conversion error naming the kind; the failure is a function of the
/// value alone, so repeated attempts fail identically.
pub proof fn lemma_files_never_flatten(v: ValueV)
    requires
        v is File || v is Files,
    ensures
        v is File ==> snippets_of(v) == Err::<Seq<SnippetV>, EvalErrorV>(
            EvalErrorV::UnsupportedConversion {
                from: ValueKind::File,
                to: ConversionTarget::Snippets,
            },
        ),
        v is Files ==> snippets_of(v) == Err::<Seq<SnippetV>, EvalErrorV>(
            EvalErrorV::UnsupportedConversion {
                from: ValueKind::Files,
                to: ConversionTarget::Snippets,
            },
        ),
{
}

/// Rendering agrees with flattening: wherever a value flattens to
/// fragments, its rendered text is exactly those fragments' text.
pub proof fn lemma_text_agrees_with_flattening(v: ValueV, files: Seq<Seq<StoredFileV>>)
    requires
        snippets_of(v) is Ok,
    ensures
        text_of(v, files) == Ok::<Seq<char>, EvalErrorV>(snippets_text(snippets_of(v)->Ok_0)),
{
    match v {
        ValueV::Binding(bs) => {
            let b = SnippetV::Binding(bs.last());
            assert(seq![b].drop_first() =~= Seq::empty());
            assert(snippets_text(seq![b]) =~= snippet_text(b) + snippets_text(Seq::empty()));
            assert(crate::binding::binding_text(bs.last()) =~= snippet_text(b) + snippets_text(
                Seq::empty(),
            ));
        },
        _ => {},
    }
}

} // verus!
