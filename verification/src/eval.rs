use vstd::prelude::*;
use vstd::string::*;

use crate::constant::Constant;
use crate::context::{ArithOp, ExecContext};
use crate::error::{EvalError, EvalErrorV};
use crate::pattern::{
    is_static, is_static_dynamic, is_static_dynamics, is_static_entries, is_static_seq,
    is_static_snippet, static_eval, static_eval_dynamic, static_eval_dynamics,
    static_eval_entries, static_eval_seq, static_snippet_parts, AccessorKey, AccessorMap,
    Container, ContainerOrIndex, DynamicPattern, DynamicSnippet, DynamicSnippetPart, ListOrContainer,
    Pattern, Variable,
};
use crate::binding::SnippetV;
use crate::convert::{snippets_of, text_of};
use crate::resolved_pattern::{vview, FileV, GritFile, GritResolvedPattern, ResolvedFile, ValueV};
use crate::state::{
    accessor_vars_ok, container_vars_ok, dyn_vars_ok, dyns_vars_ok, entries_vars_ok,
    eval_preserves, list_index_vars_ok, pat_vars_ok, pats_vars_ok, slot_has_pattern,
    slot_name_clone, slot_value_clone, snippet_vars_ok, spec_slot, state_sig, state_wf,
    stored_count, swap_slot_pattern, State,
};
use crate::strings::{parse_isize, str_eq};

verus! {

broadcast use crate::state::lemma_preserves_trans;

/// The model of an evaluation outcome.
pub open spec fn resultv(r: Result<GritResolvedPattern, EvalError>) -> Result<ValueV, EvalErrorV> {
    match r {
        Ok(v) => Ok(v.deep_view()),
        Err(e) => Err(e.deep_view()),
    }
}

/// The first entry of a map literal whose key equals `k`.
pub open spec fn literal_lookup(es: Seq<(String, Pattern)>, k: Seq<char>) -> Option<int>
    decreases es,
{
    if es.len() == 0 {
        None
    } else if es.first().0@ == k {
        Some(0)
    } else {
        match literal_lookup(es.drop_first(), k) {
            Some(i) => Some(i + 1),
            None => None,
        }
    }
}

/// The model of the `Undefined` placeholder an absent access yields.
pub open spec fn undefined_binding_value() -> ValueV {
    ValueV::Binding(
        seq![
            crate::binding::BindingV::Constant(crate::constant::ConstantV::Undefined),
        ],
    )
}

/// `literal_lookup` finds exactly the first matching key.
proof fn lemma_literal_lookup_found(es: Seq<(String, Pattern)>, k: Seq<char>, j: int)
    requires
        0 <= j < es.len(),
        es[j].0@ == k,
        forall|i: int| 0 <= i < j ==> (#[trigger] es[i]).0@ != k,
    ensures
        literal_lookup(es, k) == Some(j),
    decreases es.len(),
{
    if j == 0 {
        assert(es.first() == es[0]);
    } else {
        assert(es.first() == es[0]);
        assert(es.drop_first()[j - 1] == es[j]);
        assert forall|i: int| 0 <= i < j - 1 implies (#[trigger] es.drop_first()[i]).0@ != k by {
            assert(es.drop_first()[i] == es[i + 1]);
        }
        lemma_literal_lookup_found(es.drop_first(), k, j - 1);
    }
}

/// Where no key matches, `literal_lookup` finds nothing.
proof fn lemma_literal_lookup_none(es: Seq<(String, Pattern)>, k: Seq<char>)
    requires
        forall|i: int| 0 <= i < es.len() ==> (#[trigger] es[i]).0@ != k,
    ensures
        literal_lookup(es, k) is None,
    decreases es.len(),
{
    if es.len() > 0 {
        assert(es.first() == es[0]);
        assert forall|i: int|
            0 <= i < es.drop_first().len() implies (#[trigger] es.drop_first()[i]).0@ != k by {
            assert(es.drop_first()[i] == es[i + 1]);
        }
        lemma_literal_lookup_none(es.drop_first(), k);
    }
}



/// Whether every variable splice of the template is decided by the state
/// without running a deferred pattern: each spliced slot holds a cached
/// value, or holds nothing at all.
pub open spec fn snippet_parts_decided(parts: Seq<DynamicSnippetPart>, s: State) -> bool {
    forall|ix: int|
        0 <= ix < parts.len() ==> (match #[trigger] parts[ix] {
            DynamicSnippetPart::Variable(v) => spec_slot(s, v).value is Some || spec_slot(
                s,
                v,
            ).pattern is None,
            DynamicSnippetPart::String(_) => true,
        })
}

/// What a decided template expands to: a literal part contributes one
/// literal fragment; a cached splice contributes its value's flattened
/// fragments in place, preserving order; an unbound splice is an
/// `UnresolvedVariable` failure naming the slot; the leftmost failure
/// aborts the whole template.
pub open spec fn snippet_parts_resolved(parts: Seq<DynamicSnippetPart>, s: State) -> Result<
    Seq<SnippetV>,
    EvalErrorV,
>
    decreases parts,
{
    if parts.len() == 0 {
        Ok(Seq::empty())
    } else {
        let head = match parts.first() {
            DynamicSnippetPart::String(t) => Ok(seq![SnippetV::Text(t@)]),
            DynamicSnippetPart::Variable(v) => match spec_slot(s, v).value {
                Option::Some(val) => snippets_of(val.deep_view()),
                Option::None => Err(EvalErrorV::UnresolvedVariable(spec_slot(s, v).name@)),
            },
        };
        match head {
            Err(e) => Err(e),
            Ok(h) => match snippet_parts_resolved(parts.drop_first(), s) {
                Err(e) => Err(e),
                Ok(t) => Ok(h + t),
            },
        }
    }
}

/// The first map-value entry whose key equals `k`.
pub open spec fn entry_lookup(es: Seq<(Seq<char>, ValueV)>, k: Seq<char>) -> Option<int>
    decreases es,
{
    if es.len() == 0 {
        None
    } else if es.first().0 == k {
        Some(0)
    } else {
        match entry_lookup(es.drop_first(), k) {
            Some(i) => Some(i + 1),
            None => None,
        }
    }
}

/// `entry_lookup` finds exactly the first matching key.
proof fn lemma_entry_lookup_found(es: Seq<(Seq<char>, ValueV)>, k: Seq<char>, j: int)
    requires
        0 <= j < es.len(),
        es[j].0 == k,
        forall|i: int| 0 <= i < j ==> (#[trigger] es[i]).0 != k,
    ensures
        entry_lookup(es, k) == Some(j),
    decreases es.len(),
{
    if j == 0 {
        assert(es.first() == es[0]);
    } else {
        assert(es.first() == es[0]);
        assert(es.drop_first()[j - 1] == es[j]);
        assert forall|i: int| 0 <= i < j - 1 implies (#[trigger] es.drop_first()[i]).0 != k by {
            assert(es.drop_first()[i] == es[i + 1]);
        }
        lemma_entry_lookup_found(es.drop_first(), k, j - 1);
    }
}

/// Where no key matches, `entry_lookup` finds nothing.
proof fn lemma_entry_lookup_none(es: Seq<(Seq<char>, ValueV)>, k: Seq<char>)
    requires
        forall|i: int| 0 <= i < es.len() ==> (#[trigger] es[i]).0 != k,
    ensures
        entry_lookup(es, k) is None,
    decreases es.len(),
{
    if es.len() > 0 {
        assert(es.first() == es[0]);
        assert forall|i: int|
            0 <= i < es.drop_first().len() implies (#[trigger] es.drop_first()[i]).0 != k by {
            assert(es.drop_first()[i] == es[i + 1]);
        }
        lemma_entry_lookup_none(es.drop_first(), k);
    }
}

/// What looking a key up in a resolved value yields: the first entry with
/// that key in a map, `Undefined` where the key is absent, and a malformed
/// access where the value is not a map.
pub open spec fn spec_map_value_lookup(v: ValueV, k: Seq<char>) -> Result<ValueV, EvalErrorV> {
    match v {
        ValueV::StrMap(entries) => match entry_lookup(entries, k) {
            Some(j) => Ok(entries[j].1),
            None => Ok(undefined_binding_value()),
        },
        _ => Err(EvalErrorV::MalformedAccess("left side of an accessor must be a map"@)),
    }
}

/// What indexing a resolved value yields: the addressed item of a list,
/// `Undefined` where the index is out of range, and a malformed access
/// where the value is not a list.
pub open spec fn spec_list_value_index(v: ValueV, ix: int) -> Result<ValueV, EvalErrorV> {
    match v {
        ValueV::List(items) => match spec_to_unsigned(ix, items.len() as int) {
            Some(u) => if u < items.len() {
                Ok(items[u])
            } else {
                Ok(undefined_binding_value())
            },
            None => Ok(undefined_binding_value()),
        },
        _ => Err(EvalErrorV::MalformedAccess("left side of a listIndex must be a list"@)),
    }
}

/// What reading a list index from a variable yields: a slot still holding
/// a deferred pattern is not resolved; a cached value renders to text and
/// must parse as a machine integer.
pub open spec fn spec_index_read(
    v: crate::pattern::Variable,
    s: State,
    files: Seq<Seq<crate::files::StoredFileV>>,
) -> Result<int, EvalErrorV> {
    if spec_slot(s, v).pattern is Some {
        Err(EvalErrorV::MalformedAccess("list index must be resolved"@))
    } else {
        match spec_slot(s, v).value {
            Option::None => Err(EvalErrorV::MalformedAccess("list index must be resolvable"@)),
            Option::Some(val) => match text_of(val.deep_view(), files) {
                Err(e) => Err(e),
                Ok(t) => match crate::strings::spec_parse_int(t) {
                    Option::Some(n) => if isize::MIN <= n <= isize::MAX {
                        Ok(n)
                    } else {
                        Err(EvalErrorV::MalformedAccess("list index must be an integer"@))
                    },
                    Option::None => Err(
                        EvalErrorV::MalformedAccess("list index must be an integer"@),
                    ),
                },
            },
        }
    }
}

/// The outcome of indexing a literal list at a known index: an in-range
/// static element yields its static value, anything out of range yields
/// `Undefined`, each leaving the state untouched.
pub open spec fn literal_index_post(
    patterns: Seq<Pattern>,
    ix: int,
    files: Seq<Seq<crate::files::StoredFileV>>,
    a: State,
    b: State,
    r: Result<GritResolvedPattern, EvalError>,
) -> bool {
    match spec_to_unsigned(ix, patterns.len() as int) {
        Some(u) => if u < patterns.len() {
            is_static(patterns[u]) ==> (b == a && resultv(r) == static_eval(patterns[u], files))
        } else {
            b == a && resultv(r) == Ok::<ValueV, EvalErrorV>(undefined_binding_value())
        },
        None => b == a && resultv(r) == Ok::<ValueV, EvalErrorV>(undefined_binding_value()),
    }
}

/// The outcome of a map access through a variable holding no deferred
/// pattern: its cached map value is looked up, an unbound slot yields
/// `Undefined`, each leaving the state untouched.
pub open spec fn container_map_post(
    v: crate::pattern::Variable,
    k: Seq<char>,
    a: State,
    b: State,
    r: Result<GritResolvedPattern, EvalError>,
) -> bool {
    spec_slot(a, v).pattern is None ==> (match spec_slot(a, v).value {
        Option::Some(val) => b == a && resultv(r) == spec_map_value_lookup(val.deep_view(), k),
        Option::None => b == a && resultv(r) == Ok::<ValueV, EvalErrorV>(undefined_binding_value()),
    })
}

/// The outcome of a list index through a variable holding no deferred
/// pattern: its cached list value is indexed, an unbound slot yields
/// `Undefined`, each leaving the state untouched.
pub open spec fn container_list_post(
    v: crate::pattern::Variable,
    ix: int,
    a: State,
    b: State,
    r: Result<GritResolvedPattern, EvalError>,
) -> bool {
    spec_slot(a, v).pattern is None ==> (match spec_slot(a, v).value {
        Option::Some(val) => b == a && resultv(r) == spec_list_value_index(val.deep_view(), ix),
        Option::None => b == a && resultv(r) == Ok::<ValueV, EvalErrorV>(undefined_binding_value()),
    })
}

/// The in-bounds position an index addresses in a list of the given
/// length; a negative index counts from the end.
pub open spec fn spec_to_unsigned(index: int, len: int) -> Option<int> {
    if index >= 0 {
        Some(index)
    } else if len + index < 0 {
        None
    } else {
        Some(len + index)
    }
}

/// Converts a possibly negative index into a position from the front.
pub fn to_unsigned(index: isize, len: usize) -> (r: Option<usize>)
    ensures
        r == (match spec_to_unsigned(index as int, len as int) {
            Option::Some(v) => Some(v as usize),
            Option::None => None::<usize>,
        }),
{
    if index >= 0 {
        Some(index as usize)
    } else {
        let mag = (-(index + 1)) as usize + 1;
        if mag > len {
            None
        } else {
            Some(len - mag)
        }
    }
}


/// Finds the first map-literal entry with the given key.
#[verifier::loop_isolation(false)]
fn find_literal_entry(elements: &Vec<(String, Pattern)>, key: &String) -> (r: Option<usize>)
    ensures
        r matches Some(j) ==> j < elements@.len() && elements@[j as int].0@ == key@,
{
    let mut i: usize = 0;
    while i < elements.len()
        invariant
            i <= elements@.len(),
        decreases elements@.len() - i,
    {
        if str_eq(elements[i].0.as_str(), key.as_str()) {
            return Some(i);
        }
        i += 1;
    }
    None
}


/// After a slot's deferred pattern is taken, evaluated and put back, the
/// state as a whole is preserved.
proof fn restore_preserves(st_in: State, s1: State, s2: State, st_out: State, v: Variable)
    requires
        crate::state::var_ok(v, state_sig(st_in)),
        spec_slot(st_in, v).pattern is Some,
        state_sig(s1) == state_sig(st_in),
        spec_slot(s1, v).pattern is None,
        forall|sc: int, i: int|
            0 <= sc < st_in.bindings@.len() && st_in.bindings@[sc]@.len() > 0 && 0 <= i
                < st_in.bindings@[sc]@.last()@.len() && !(sc == v.scope && i == v.index)
                ==> #[trigger] s1.bindings@[sc]@.last()@[i] == st_in.bindings@[sc]@.last()@[i],
        eval_preserves(s1, s2),
        state_sig(st_out) == state_sig(s2),
        spec_slot(st_out, v).pattern is Some,
        stored_count(st_out) == stored_count(s2) + 1,
        stored_count(s1) + 1 == stored_count(st_in),
        state_wf(st_in),
        state_wf(st_out),
        forall|sc: int, i: int|
            0 <= sc < s2.bindings@.len() && s2.bindings@[sc]@.len() > 0 && 0 <= i < s2.bindings@[
                sc
            ]@.last()@.len() && !(sc == v.scope && i == v.index)
                ==> #[trigger] st_out.bindings@[sc]@.last()@[i] == s2.bindings@[sc]@.last()@[i],
    ensures
        eval_preserves(st_in, st_out),
{
    assert forall|sc: int, i: int|
        0 <= sc < st_in.bindings@.len() && st_in.bindings@[sc]@.len() > 0 && 0 <= i
            < st_in.bindings@[sc]@.last()@.len() implies ((#[trigger] st_out.bindings@[
        sc
    ]@.last()@[i]).pattern is Some) == ((st_in.bindings@[sc]@.last()@[i]).pattern is Some) by {
        if sc == v.scope as int && i == v.index as int {
            assert(st_out.bindings@[sc]@.last()@[i] == spec_slot(st_out, v));
            assert(st_in.bindings@[sc]@.last()@[i] == spec_slot(st_in, v));
        } else {
            assert(s1.bindings@[sc]@.last()@[i] == st_in.bindings@[sc]@.last()@[i]);
            assert(state_sig(s1)[sc] == state_sig(s2)[sc]);
            assert(((s2.bindings@[sc]@.last()@[i]).pattern is Some) == ((s1.bindings@[
                sc
            ]@.last()@[i]).pattern is Some));
            assert(st_out.bindings@[sc]@.last()@[i] == s2.bindings@[sc]@.last()@[i]);
        }
    }
    assert(crate::state::patterns_preserved(st_in, st_out));
}

impl GritResolvedPattern {

    /// Resolves a variable to a value: the cached value where there is one,
    /// read without re-running anything; else the value of the slot's
    /// deferred pattern; else an `UnresolvedVariable` failure naming the
    /// slot. While a deferred pattern runs its slot is cleared, so a slot
    /// that refers back to itself resolves as unresolved instead of
    /// recursing forever; afterwards the same deferred pattern is put back
    /// and this lookup writes no cache, so a later lookup re-evaluates it.
    /// The ghost argument carries the enclosing node as the termination
    /// measure.
    fn resolve_variable_value<C: ExecContext>(
        v: Variable,
        site: Ghost<DynamicPattern>,
        state: &mut State,
        context: &C,
    ) -> (r: Result<Self, EvalError>)
        requires
            state_wf(*old(state)),
            crate::state::var_ok(v, state_sig(*old(state))),
        ensures
            eval_preserves(*old(state), *final(state)),
            final(state).files == old(state).files,
            (match spec_slot(*old(state), v).value {
                Option::Some(val) => *final(state) == *old(state) && (r matches Ok(out)
                    && out.deep_view() == val.deep_view()),
                Option::None => match spec_slot(*old(state), v).pattern {
                    Option::None => *final(state) == *old(state) && (r matches Err(
                        EvalError::UnresolvedVariable(n),
                    ) && n@ == spec_slot(*old(state), v).name@),
                    Option::Some(q) => spec_slot(*final(state), v).pattern == Some(q) && (
                    is_static(q) ==> (crate::state::state_equiv(*old(state), *final(state))
                        && resultv(r) == static_eval(q, old(state).files.deep_view()))),
                },
            }),
        decreases stored_count(*old(state)), site@, 0int,
    {
        let ghost st_in = *state;
        match slot_value_clone(state, v) {
            Option::Some(val) => Ok(val),
            Option::None => {
                if slot_has_pattern(state, v) {
                    let taken = swap_slot_pattern(state, v, None);
                    match taken {
                        Option::Some(q) => {
                            let ghost s1 = *state;
                            proof {
                                assert(spec_slot(st_in, v) == st_in.bindings@[
                                    v.scope as int
                                ]@.last()@[v.index as int]);
                                assert(pat_vars_ok(q, state_sig(st_in)));
                                assert(state_sig(*state) == state_sig(st_in));
                                assert(stored_count(*state) + 1 == stored_count(st_in));
                            }
                            let r = Self::from_pattern(&q, state, context);
                            let ghost s2 = *state;
                            proof {
                                assert(crate::state::var_ok(v, state_sig(*state)));
                            }
                            let _ = swap_slot_pattern(state, v, Some(q));
                            proof {
                                assert(state_sig(*state) == state_sig(st_in));
                                assert(stored_count(*state) == stored_count(st_in));
                                assert forall|sc2: int, i2: int|
                                    0 <= sc2 < st_in.bindings@.len() && st_in.bindings@[
                                    sc2
                                ]@.len() > 0 && 0 <= i2 < st_in.bindings@[
                                    sc2
                                ]@.last()@.len() implies ((#[trigger] state.bindings@[
                                    sc2
                                ]@.last()@[i2]).pattern is Some) == (st_in.bindings@[
                                    sc2
                                ]@.last()@[i2].pattern is Some) by {
                                    if sc2 == v.scope as int && i2 == v.index as int {
                                        assert(state.bindings@[sc2]@.last()@[i2] == spec_slot(
                                            *state,
                                            v,
                                        ));
                                        assert(st_in.bindings@[sc2]@.last()@[i2] == spec_slot(
                                            st_in,
                                            v,
                                        ));
                                    } else {
                                        assert(s1.bindings@[sc2]@.last()@[i2] == st_in.bindings@[
                                            sc2
                                        ]@.last()@[i2]);
                                        assert(state_sig(s1)[sc2] == state_sig(s2)[sc2]);
                                        assert(((s2.bindings@[sc2]@.last()@[i2]).pattern
                                            is Some) == ((s1.bindings@[sc2]@.last()@[
                                            i2
                                        ]).pattern is Some));
                                        assert(state.bindings@[sc2]@.last()@[i2] == s2.bindings@[
                                            sc2
                                        ]@.last()@[i2]);
                                    }
                                }
                                assert(crate::state::patterns_preserved(st_in, *state));
                                assert(crate::state::eval_preserves(st_in, *state));
                                if is_static(q) {
                                    assert(s2 == s1);
                                    assert forall|sc2: int, i2: int|
                                        0 <= sc2 < st_in.bindings@.len() && st_in.bindings@[
                                        sc2
                                    ]@.len() > 0 && 0 <= i2 < st_in.bindings@[
                                        sc2
                                    ]@.last()@.len() implies #[trigger] state.bindings@[
                                        sc2
                                    ]@.last()@[i2] == st_in.bindings@[sc2]@.last()@[i2] by {
                                        if sc2 == v.scope as int && i2 == v.index as int {
                                            assert(state.bindings@[sc2]@.last()@[i2] == spec_slot(
                                                *state,
                                                v,
                                            ));
                                            assert(st_in.bindings@[sc2]@.last()@[i2] == spec_slot(
                                                st_in,
                                                v,
                                            ));
                                            assert(spec_slot(*state, v).name == spec_slot(
                                                st_in,
                                                v,
                                            ).name);
                                            assert(spec_slot(*state, v).value == spec_slot(
                                                st_in,
                                                v,
                                            ).value);
                                            assert(spec_slot(*state, v).pattern == spec_slot(
                                                st_in,
                                                v,
                                            ).pattern);
                                        } else {
                                            assert(s1.bindings@[sc2]@.last()@[i2]
                                                == st_in.bindings@[sc2]@.last()@[i2]);
                                            assert(state_sig(s2).len() == state_sig(st_in).len());
                                            assert(state_sig(s2)[sc2] == state_sig(st_in)[sc2]);
                                            assert(s2.bindings@.len() == st_in.bindings@.len());
                                            assert(s2.bindings@[sc2]@.len() > 0);
                                            assert(s2.bindings@[sc2]@.last()@.len()
                                                == st_in.bindings@[sc2]@.last()@.len());
                                            assert(state.bindings@[sc2]@.last()@[i2]
                                                == s2.bindings@[sc2]@.last()@[i2]);
                                        }
                                    }
                                    assert(state.effects == st_in.effects);
                                    assert(state.files == st_in.files);
                                    assert(crate::state::state_equiv(st_in, *state));
                                }
                            }
                            r
                        },
                        Option::None => {
                            proof {
                                assert(false);
                            }
                            Err(EvalError::MissingBinding)
                        },
                    }
                } else {
                    Err(EvalError::UnresolvedVariable(slot_name_clone(state, v)))
                }
            },
        }
    }

    /// `resolve_variable_value`, carrying a `Pattern` node as the
    /// termination measure; the two exist because the measure positions of
    /// the mutually recursive evaluators must agree in type.
    ///
    /// Resolves a variable to a value: the cached value where there is one,
    /// read without re-running anything; else the value of the slot's
    /// deferred pattern; else an `UnresolvedVariable` failure naming the
    /// slot. While a deferred pattern runs its slot is cleared, so a slot
    /// that refers back to itself resolves as unresolved instead of
    /// recursing forever; afterwards the same deferred pattern is put back
    /// and this lookup writes no cache, so a later lookup re-evaluates it.
    /// The ghost argument carries the enclosing node as the termination
    /// measure.
    fn resolve_variable_value_at<C: ExecContext>(
        v: Variable,
        site: Ghost<Pattern>,
        state: &mut State,
        context: &C,
    ) -> (r: Result<Self, EvalError>)
        requires
            state_wf(*old(state)),
            crate::state::var_ok(v, state_sig(*old(state))),
        ensures
            eval_preserves(*old(state), *final(state)),
            final(state).files == old(state).files,
            (match spec_slot(*old(state), v).value {
                Option::Some(val) => *final(state) == *old(state) && (r matches Ok(out)
                    && out.deep_view() == val.deep_view()),
                Option::None => match spec_slot(*old(state), v).pattern {
                    Option::None => *final(state) == *old(state) && (r matches Err(
                        EvalError::UnresolvedVariable(n),
                    ) && n@ == spec_slot(*old(state), v).name@),
                    Option::Some(q) => spec_slot(*final(state), v).pattern == Some(q) && (
                    is_static(q) ==> (crate::state::state_equiv(*old(state), *final(state))
                        && resultv(r) == static_eval(q, old(state).files.deep_view()))),
                },
            }),
        decreases stored_count(*old(state)), site@, 0int,
    {
        let ghost st_in = *state;
        match slot_value_clone(state, v) {
            Option::Some(val) => Ok(val),
            Option::None => {
                if slot_has_pattern(state, v) {
                    let taken = swap_slot_pattern(state, v, None);
                    match taken {
                        Option::Some(q) => {
                            let ghost s1 = *state;
                            proof {
                                assert(spec_slot(st_in, v) == st_in.bindings@[
                                    v.scope as int
                                ]@.last()@[v.index as int]);
                                assert(pat_vars_ok(q, state_sig(st_in)));
                                assert(state_sig(*state) == state_sig(st_in));
                                assert(stored_count(*state) + 1 == stored_count(st_in));
                            }
                            let r = Self::from_pattern(&q, state, context);
                            let ghost s2 = *state;
                            proof {
                                assert(crate::state::var_ok(v, state_sig(*state)));
                            }
                            let _ = swap_slot_pattern(state, v, Some(q));
                            proof {
                                assert(state_sig(*state) == state_sig(st_in));
                                assert(stored_count(*state) == stored_count(st_in));
                                assert forall|sc2: int, i2: int|
                                    0 <= sc2 < st_in.bindings@.len() && st_in.bindings@[
                                    sc2
                                ]@.len() > 0 && 0 <= i2 < st_in.bindings@[
                                    sc2
                                ]@.last()@.len() implies ((#[trigger] state.bindings@[
                                    sc2
                                ]@.last()@[i2]).pattern is Some) == (st_in.bindings@[
                                    sc2
                                ]@.last()@[i2].pattern is Some) by {
                                    if sc2 == v.scope as int && i2 == v.index as int {
                                        assert(state.bindings@[sc2]@.last()@[i2] == spec_slot(
                                            *state,
                                            v,
                                        ));
                                        assert(st_in.bindings@[sc2]@.last()@[i2] == spec_slot(
                                            st_in,
                                            v,
                                        ));
                                    } else {
                                        assert(s1.bindings@[sc2]@.last()@[i2] == st_in.bindings@[
                                            sc2
                                        ]@.last()@[i2]);
                                        assert(state_sig(s1)[sc2] == state_sig(s2)[sc2]);
                                        assert(((s2.bindings@[sc2]@.last()@[i2]).pattern
                                            is Some) == ((s1.bindings@[sc2]@.last()@[
                                            i2
                                        ]).pattern is Some));
                                        assert(state.bindings@[sc2]@.last()@[i2] == s2.bindings@[
                                            sc2
                                        ]@.last()@[i2]);
                                    }
                                }
                                assert(crate::state::patterns_preserved(st_in, *state));
                                assert(crate::state::eval_preserves(st_in, *state));
                                if is_static(q) {
                                    assert(s2 == s1);
                                    assert forall|sc2: int, i2: int|
                                        0 <= sc2 < st_in.bindings@.len() && st_in.bindings@[
                                        sc2
                                    ]@.len() > 0 && 0 <= i2 < st_in.bindings@[
                                        sc2
                                    ]@.last()@.len() implies #[trigger] state.bindings@[
                                        sc2
                                    ]@.last()@[i2] == st_in.bindings@[sc2]@.last()@[i2] by {
                                        if sc2 == v.scope as int && i2 == v.index as int {
                                            assert(state.bindings@[sc2]@.last()@[i2] == spec_slot(
                                                *state,
                                                v,
                                            ));
                                            assert(st_in.bindings@[sc2]@.last()@[i2] == spec_slot(
                                                st_in,
                                                v,
                                            ));
                                            assert(spec_slot(*state, v).name == spec_slot(
                                                st_in,
                                                v,
                                            ).name);
                                            assert(spec_slot(*state, v).value == spec_slot(
                                                st_in,
                                                v,
                                            ).value);
                                            assert(spec_slot(*state, v).pattern == spec_slot(
                                                st_in,
                                                v,
                                            ).pattern);
                                        } else {
                                            assert(s1.bindings@[sc2]@.last()@[i2]
                                                == st_in.bindings@[sc2]@.last()@[i2]);
                                            assert(state_sig(s2).len() == state_sig(st_in).len());
                                            assert(state_sig(s2)[sc2] == state_sig(st_in)[sc2]);
                                            assert(s2.bindings@.len() == st_in.bindings@.len());
                                            assert(s2.bindings@[sc2]@.len() > 0);
                                            assert(s2.bindings@[sc2]@.last()@.len()
                                                == st_in.bindings@[sc2]@.last()@.len());
                                            assert(state.bindings@[sc2]@.last()@[i2]
                                                == s2.bindings@[sc2]@.last()@[i2]);
                                        }
                                    }
                                    assert(state.effects == st_in.effects);
                                    assert(state.files == st_in.files);
                                    assert(crate::state::state_equiv(st_in, *state));
                                }
                            }
                            r
                        },
                        Option::None => {
                            proof {
                                assert(false);
                            }
                            Err(EvalError::MissingBinding)
                        },
                    }
                } else {
                    Err(EvalError::UnresolvedVariable(slot_name_clone(state, v)))
                }
            },
        }
    }

    /// Evaluates a compiled pattern to a resolved value against the given
    /// variable state and execution context. Constants evaluate exactly per
    /// `static_eval`; a variable yields its cached value without re-running
    /// its deferred pattern, else its deferred pattern's value, else an
    /// `UnresolvedVariable` failure; the predicate-only kinds always fail
    /// with `UnsupportedPatternKind`. Every path preserves the state's
    /// lookup signature, stored patterns, well-formedness and files.
    pub fn from_pattern<C: ExecContext>(
        pattern: &Pattern,
        state: &mut State,
        context: &C,
    ) -> (r: Result<Self, EvalError>)
        requires
            state_wf(*old(state)),
            pat_vars_ok(*pattern, state_sig(*old(state))),
        ensures
            eval_preserves(*old(state), *final(state)),
            final(state).files == old(state).files,
            is_static(*pattern) ==> (*final(state) == *old(state) && resultv(r) == static_eval(
                *pattern,
                old(state).files.deep_view(),
            )),
            *pattern matches Pattern::Variable(v) ==> (match spec_slot(*old(state), v).value {
                Option::Some(val) => *final(state) == *old(state) && (r matches Ok(out)
                    && out.deep_view() == val.deep_view()),
                Option::None => match spec_slot(*old(state), v).pattern {
                    Option::None => *final(state) == *old(state) && (r matches Err(
                        EvalError::UnresolvedVariable(n),
                    ) && n@ == spec_slot(*old(state), v).name@),
                    Option::Some(q) => spec_slot(*final(state), v).pattern == Some(q) && (
                    is_static(q) ==> (crate::state::state_equiv(*old(state), *final(state))
                        && resultv(r) == static_eval(q, old(state).files.deep_view()))),
                },
            }),
        decreases stored_count(*old(state)), *pattern, 3int,
    {
        match pattern {
            Pattern::Dynamic(dp) => Self::from_dynamic_pattern(dp, state, context),
            Pattern::CodeSnippet(cs) => match &cs.dynamic_snippet {
                Option::Some(dp) => Self::from_dynamic_pattern(dp, state, context),
                Option::None => Err(
                    EvalError::UnsupportedPatternKind(pattern.name().to_owned()),
                ),
            },
            Pattern::CallBuiltIn(c) => context.call_builtin(c, state),
            Pattern::CallFunction(f) => context.call_function(f, state),
            Pattern::CallForeignFunction(_) => Err(
                EvalError::UnsupportedPatternKind(pattern.name().to_owned()),
            ),
            Pattern::StringConstant(s) => Ok(Self::from_string(s.text.clone())),
            Pattern::IntConstant(i) => Ok(
                GritResolvedPattern::Constant(Constant::Integer(i.value)),
            ),
            Pattern::FloatConstant(d) => Ok(
                GritResolvedPattern::Constant(Constant::Float(d.value.clone())),
            ),
            Pattern::BooleanConstant(b) => Ok(
                GritResolvedPattern::Constant(Constant::Boolean(b.value)),
            ),
            Pattern::Variable(v) => Self::resolve_variable_value_at(
                *v,
                Ghost(*pattern),
                state,
                context,
            ),
            Pattern::List(l) => Self::eval_list(&l.patterns, state, context),
            Pattern::ListIndex(li) => Self::from_list_index(li, state, context),
            Pattern::StrMap(m) => Self::eval_map(&m.elements, state, context),
            Pattern::Accessor(a) => Self::from_accessor(a, state, context),
            Pattern::File(fp) => {
                let ghost filesv = state.files.deep_view();
                let ghost stat = is_static(*pattern);
                proof {
                    if stat {
                        assert(is_static(fp.name) && is_static(fp.body));
                    }
                }
                let name_val = match Self::from_pattern(&fp.name, state, context) {
                    Ok(v) => v,
                    Err(e) => {
                        proof {
                            if stat {
                                assert(static_eval(*pattern, filesv) == Err::<ValueV, EvalErrorV>(
                                    e.deep_view(),
                                ));
                            }
                        }
                        return Err(e);
                    },
                };
                let ghost namev = name_val.deep_view();
                let name_text = match name_val.text(&state.files) {
                    Ok(t) => t,
                    Err(e) => {
                        proof {
                            if stat {
                                assert(text_of(namev, filesv) == Err::<Seq<char>, EvalErrorV>(
                                    e.deep_view(),
                                ));
                                assert(static_eval(*pattern, filesv) == Err::<ValueV, EvalErrorV>(
                                    e.deep_view(),
                                ));
                            }
                        }
                        return Err(e);
                    },
                };
                let ghost ntext = name_text@;
                let name = GritResolvedPattern::Constant(Constant::String(name_text));
                proof {
                    assert(name.deep_view() == ValueV::Constant(
                        crate::constant::ConstantV::String(ntext),
                    ));
                }
                let ghost namevc = name.deep_view();
                let body = match Self::from_pattern(&fp.body, state, context) {
                    Ok(v) => v,
                    Err(e) => {
                        proof {
                            if stat {
                                assert(static_eval(*pattern, filesv) == Err::<ValueV, EvalErrorV>(
                                    e.deep_view(),
                                ));
                            }
                        }
                        return Err(e);
                    },
                };
                let ghost bodyv = body.deep_view();
                let r = GritResolvedPattern::File(
                    GritFile::Resolved(Box::new(ResolvedFile { name, body })),
                );
                proof {
                    assert(r->File_0->Resolved_0.name.deep_view() == namevc);
                    assert(r->File_0->Resolved_0.body.deep_view() == bodyv);
                    assert(crate::resolved_pattern::fview(r->File_0) == FileV::Resolved(
                        Box::new(
                            crate::resolved_pattern::ResolvedFileV {
                                name: vview(r->File_0->Resolved_0.name),
                                body: vview(r->File_0->Resolved_0.body),
                            },
                        ),
                    ));
                    assert(r.deep_view() == ValueV::File(
                        FileV::Resolved(
                            Box::new(
                                crate::resolved_pattern::ResolvedFileV {
                                    name: ValueV::Constant(
                                        crate::constant::ConstantV::String(ntext),
                                    ),
                                    body: bodyv,
                                },
                            ),
                        ),
                    ));
                    if stat {
                        assert(static_eval(*pattern, filesv) == Ok::<ValueV, EvalErrorV>(
                            r.deep_view(),
                        ));
                    }
                }
                Ok(r)
            },
            Pattern::Add(b) => context.call_arith(ArithOp::Add, b, state),
            Pattern::Subtract(b) => context.call_arith(ArithOp::Subtract, b, state),
            Pattern::Multiply(b) => context.call_arith(ArithOp::Multiply, b, state),
            Pattern::Divide(b) => context.call_arith(ArithOp::Divide, b, state),
            Pattern::Modulo(b) => context.call_arith(ArithOp::Modulo, b, state),
            Pattern::Before(inner) => context.nav_before(inner, state),
            Pattern::After(inner) => context.nav_after(inner, state),
            _ => Err(EvalError::UnsupportedPatternKind(pattern.name().to_owned())),
        }
    }

    /// Evaluates every element of a list literal in declared order,
    /// aborting on the first failure.
    #[verifier::loop_isolation(false)]
    fn eval_list<C: ExecContext>(patterns: &Vec<Pattern>, state: &mut State, context: &C) -> (r:
        Result<Self, EvalError>)
        requires
            state_wf(*old(state)),
            pats_vars_ok(patterns@, state_sig(*old(state))),
        ensures
            eval_preserves(*old(state), *final(state)),
            final(state).files == old(state).files,
            is_static_seq(patterns@) ==> (*final(state) == *old(state) && resultv(r) == (
            match static_eval_seq(patterns@, old(state).files.deep_view(), Seq::empty()) {
                Ok(vs) => Ok(ValueV::List(vs)),
                Err(e) => Err(e),
            })),
        decreases stored_count(*old(state)), patterns@, 2int,
    {
        let ghost st0 = *state;
        let ghost filesv = state.files.deep_view();
        let mut out: Vec<GritResolvedPattern> = Vec::new();
        let mut i: usize = 0;
        proof {
            assert(patterns@.skip(0) =~= patterns@);
            assert(out.deep_view() =~= Seq::<ValueV>::empty());
        }
        while i < patterns.len()
            invariant
                i <= patterns.len(),
                out@.len() == i,
                eval_preserves(st0, *state),
                state.files == st0.files,
                pats_vars_ok(patterns@.skip(i as int), state_sig(st0)),
                is_static_seq(patterns@) ==> (*state == st0 && is_static_seq(
                    patterns@.skip(i as int),
                ) && static_eval_seq(patterns@, filesv, Seq::empty()) == static_eval_seq(
                    patterns@.skip(i as int),
                    filesv,
                    out.deep_view(),
                )),
            decreases patterns.len() - i,
        {
            proof {
                assert(patterns@.skip(i as int).first() == patterns@[i as int]);
                assert(patterns@.skip(i as int).drop_first() =~= patterns@.skip(i + 1));
            }
            match Self::from_pattern(&patterns[i], state, context) {
                Err(e) => {
                    return Err(e);
                },
                Ok(val) => {
                    let ghost old_out = out.deep_view();
                    out.push(val);
                    proof {
                        assert(out.deep_view() =~= old_out.push(
                            out@[out@.len() - 1].deep_view(),
                        ));
                    }
                },
            }
            i += 1;
        }
        proof {
            assert(patterns@.skip(patterns.len() as int) =~= Seq::<Pattern>::empty());
        }
        Ok(Self::from_list_parts(out))
    }

    /// Evaluates every value of a map literal in declared order, aborting
    /// on the first failure; the result's entries are keyed by name and
    /// kept sorted, so rendering order is independent of declaration order.
    #[verifier::loop_isolation(false)]
    fn eval_map<C: ExecContext>(
        elements: &Vec<(String, Pattern)>,
        state: &mut State,
        context: &C,
    ) -> (r: Result<Self, EvalError>)
        requires
            state_wf(*old(state)),
            entries_vars_ok(elements@, state_sig(*old(state))),
        ensures
            eval_preserves(*old(state), *final(state)),
            final(state).files == old(state).files,
            is_static_entries(elements@) ==> (*final(state) == *old(state) && resultv(r) == (
            match static_eval_entries(elements@, old(state).files.deep_view(), Seq::empty()) {
                Ok(es) => Ok(ValueV::StrMap(es)),
                Err(e) => Err(e),
            })),
        decreases stored_count(*old(state)), elements@, 2int,
    {
        let ghost st0 = *state;
        let ghost filesv = state.files.deep_view();
        let mut out: Vec<(String, GritResolvedPattern)> = Vec::new();
        let mut i: usize = 0;
        proof {
            assert(elements@.skip(0) =~= elements@);
            assert(crate::resolved_pattern::eviews(out@) =~= Seq::<(Seq<char>, ValueV)>::empty());
        }
        while i < elements.len()
            invariant
                i <= elements.len(),
                eval_preserves(st0, *state),
                state.files == st0.files,
                entries_vars_ok(elements@.skip(i as int), state_sig(st0)),
                is_static_entries(elements@) ==> (*state == st0 && is_static_entries(
                    elements@.skip(i as int),
                ) && static_eval_entries(elements@, filesv, Seq::empty()) == static_eval_entries(
                    elements@.skip(i as int),
                    filesv,
                    crate::resolved_pattern::eviews(out@),
                )),
            decreases elements.len() - i,
        {
            proof {
                assert(elements@.skip(i as int).first() == elements@[i as int]);
                assert(elements@.skip(i as int).drop_first() =~= elements@.skip(i + 1));
            }
            match Self::from_pattern(&elements[i].1, state, context) {
                Err(e) => {
                    return Err(e);
                },
                Ok(val) => {
                    crate::map_entries::map_insert(&mut out, elements[i].0.clone(), val);
                },
            }
            i += 1;
        }
        proof {
            assert(elements@.skip(elements.len() as int) =~= Seq::<(String, Pattern)>::empty());
        }
        let r = GritResolvedPattern::StrMap(out);
        proof {
            assert(vview(r)->StrMap_0 == crate::resolved_pattern::eviews(r->StrMap_0@));
        }
        Ok(r)
    }

    /// Evaluates a dynamic pattern: variables resolve as under
    /// `from_pattern`, templates expand, lists evaluate elementwise, and
    /// calls route to the execution context; foreign calls fail.
    pub fn from_dynamic_pattern<C: ExecContext>(
        pattern: &DynamicPattern,
        state: &mut State,
        context: &C,
    ) -> (r: Result<Self, EvalError>)
        requires
            state_wf(*old(state)),
            dyn_vars_ok(*pattern, state_sig(*old(state))),
        ensures
            eval_preserves(*old(state), *final(state)),
            final(state).files == old(state).files,
            is_static_dynamic(*pattern) ==> (*final(state) == *old(state) && resultv(r)
                == static_eval_dynamic(*pattern)),
            *pattern matches DynamicPattern::Variable(v) ==> (match spec_slot(
                *old(state),
                v,
            ).value {
                Option::Some(val) => *final(state) == *old(state) && (r matches Ok(out)
                    && out.deep_view() == val.deep_view()),
                Option::None => match spec_slot(*old(state), v).pattern {
                    Option::None => *final(state) == *old(state) && (r matches Err(
                        EvalError::UnresolvedVariable(n),
                    ) && n@ == spec_slot(*old(state), v).name@),
                    Option::Some(q) => spec_slot(*final(state), v).pattern == Some(q) && (
                    is_static(q) ==> (crate::state::state_equiv(*old(state), *final(state))
                        && resultv(r) == static_eval(q, old(state).files.deep_view()))),
                },
            }),
        decreases stored_count(*old(state)), *pattern, 3int,
    {
        match pattern {
            DynamicPattern::Variable(v) => Self::resolve_variable_value(*v, Ghost(*pattern), state, context),
            DynamicPattern::Accessor(a) => Self::from_accessor(a, state, context),
            DynamicPattern::ListIndex(li) => Self::from_list_index(li, state, context),
            DynamicPattern::Snippet(sn) => Self::expand_snippet(
                sn,
                Ghost(*pattern),
                state,
                context,
            ),
            DynamicPattern::List(dl) => Self::eval_dynamic_list(&dl.elements, state, context),
            DynamicPattern::CallBuiltIn(c) => context.call_builtin(c, state),
            DynamicPattern::CallFunction(f) => context.call_function(f, state),
            DynamicPattern::CallForeignFunction(_) => Err(
                EvalError::UnsupportedPatternKind(String::from_str("CALL_FOREIGN_FUNCTION")),
            ),
        }
    }

    /// Evaluates every element of a dynamic list in order, aborting on the
    /// first failure.
    #[verifier::loop_isolation(false)]
    fn eval_dynamic_list<C: ExecContext>(
        elements: &Vec<DynamicPattern>,
        state: &mut State,
        context: &C,
    ) -> (r: Result<Self, EvalError>)
        requires
            state_wf(*old(state)),
            dyns_vars_ok(elements@, state_sig(*old(state))),
        ensures
            eval_preserves(*old(state), *final(state)),
            final(state).files == old(state).files,
            is_static_dynamics(elements@) ==> (*final(state) == *old(state) && resultv(r) == (
            match static_eval_dynamics(elements@, Seq::empty()) {
                Ok(vs) => Ok(ValueV::List(vs)),
                Err(e) => Err(e),
            })),
        decreases stored_count(*old(state)), elements@, 2int,
    {
        let ghost st0 = *state;
        let mut out: Vec<GritResolvedPattern> = Vec::new();
        let mut i: usize = 0;
        proof {
            assert(elements@.skip(0) =~= elements@);
            assert(out.deep_view() =~= Seq::<ValueV>::empty());
        }
        while i < elements.len()
            invariant
                i <= elements.len(),
                out@.len() == i,
                eval_preserves(st0, *state),
                state.files == st0.files,
                dyns_vars_ok(elements@.skip(i as int), state_sig(st0)),
                is_static_dynamics(elements@) ==> (*state == st0 && is_static_dynamics(
                    elements@.skip(i as int),
                ) && static_eval_dynamics(elements@, Seq::empty()) == static_eval_dynamics(
                    elements@.skip(i as int),
                    out.deep_view(),
                )),
            decreases elements.len() - i,
        {
            proof {
                assert(elements@.skip(i as int).first() == elements@[i as int]);
                assert(elements@.skip(i as int).drop_first() =~= elements@.skip(i + 1));
            }
            match Self::from_dynamic_pattern(&elements[i], state, context) {
                Err(e) => {
                    return Err(e);
                },
                Ok(val) => {
                    let ghost old_out = out.deep_view();
                    out.push(val);
                    proof {
                        assert(out.deep_view() =~= old_out.push(
                            out@[out@.len() - 1].deep_view(),
                        ));
                    }
                },
            }
            i += 1;
        }
        proof {
            assert(elements@.skip(elements.len() as int) =~= Seq::<DynamicPattern>::empty());
        }
        Ok(Self::from_list_parts(out))
    }

    /// Expands an interpolation template into a fragment value: literal
    /// parts append literal fragments, and each variable splice resolves
    /// the variable as under `from_pattern` and splices its flattened
    /// fragments in place, preserving order.
    #[verifier::loop_isolation(false)]
    pub fn from_dynamic_snippet<C: ExecContext>(
        snippet: &DynamicSnippet,
        state: &mut State,
        context: &C,
    ) -> (r: Result<Self, EvalError>)
        requires
            state_wf(*old(state)),
            snippet_vars_ok(snippet.parts@, state_sig(*old(state))),
        ensures
            eval_preserves(*old(state), *final(state)),
            final(state).files == old(state).files,
            is_static_snippet(snippet.parts@) ==> (*final(state) == *old(state) && (r matches Ok(
                out,
            ) && out.deep_view() == ValueV::Snippets(
                static_snippet_parts(snippet.parts@, Seq::empty()),
            ))),
            snippet_parts_decided(snippet.parts@, *old(state)) ==> (*final(state) == *old(state)
                && resultv(r) == (match snippet_parts_resolved(snippet.parts@, *old(state)) {
                Ok(ss) => Ok::<ValueV, EvalErrorV>(ValueV::Snippets(ss)),
                Err(e) => Err::<ValueV, EvalErrorV>(e),
            })),

    {
        Self::expand_snippet(
            snippet,
            Ghost(DynamicPattern::Snippet(*snippet)),
            state,
            context,
        )
    }

    /// The body of `from_dynamic_snippet`; the ghost argument carries the
    /// enclosing dynamic pattern as the termination measure.
    #[verifier::loop_isolation(false)]
    fn expand_snippet<C: ExecContext>(
        snippet: &DynamicSnippet,
        site: Ghost<DynamicPattern>,
        state: &mut State,
        context: &C,
    ) -> (r: Result<Self, EvalError>)
        requires
            state_wf(*old(state)),
            snippet_vars_ok(snippet.parts@, state_sig(*old(state))),
        ensures
            eval_preserves(*old(state), *final(state)),
            final(state).files == old(state).files,
            is_static_snippet(snippet.parts@) ==> (*final(state) == *old(state) && (r matches Ok(
                out,
            ) && out.deep_view() == ValueV::Snippets(
                static_snippet_parts(snippet.parts@, Seq::empty()),
            ))),
            snippet_parts_decided(snippet.parts@, *old(state)) ==> (*final(state) == *old(state)
                && resultv(r) == (match snippet_parts_resolved(snippet.parts@, *old(state)) {
                Ok(ss) => Ok::<ValueV, EvalErrorV>(ValueV::Snippets(ss)),
                Err(e) => Err::<ValueV, EvalErrorV>(e),
            })),

        decreases stored_count(*old(state)), site@, 2int,
    {
        let ghost st0 = *state;
        let partsv = &snippet.parts;
        let mut out: Vec<crate::binding::Snippet> = Vec::new();
        let mut i: usize = 0;
        proof {
            assert(partsv@.skip(0) =~= partsv@);
            assert(out.deep_view() =~= Seq::<crate::binding::SnippetV>::empty());
            if snippet_parts_resolved(partsv@, st0) is Ok {
                assert(out.deep_view() + snippet_parts_resolved(partsv@, st0)->Ok_0
                    =~= snippet_parts_resolved(partsv@, st0)->Ok_0);
            }
        }
        while i < partsv.len()
            invariant
                i <= partsv.len(),
                eval_preserves(st0, *state),
                state.files == st0.files,
                snippet_vars_ok(partsv@.skip(i as int), state_sig(st0)),
                is_static_snippet(partsv@) ==> (*state == st0 && is_static_snippet(
                    partsv@.skip(i as int),
                ) && static_snippet_parts(partsv@, Seq::empty()) == static_snippet_parts(
                    partsv@.skip(i as int),
                    out.deep_view(),
                )),
                snippet_parts_decided(partsv@, st0) ==> (*state == st0 && (
                match snippet_parts_resolved(partsv@.skip(i as int), st0) {
                    Ok(tail) => snippet_parts_resolved(partsv@, st0) == Ok::<
                        Seq<SnippetV>,
                        EvalErrorV,
                    >(out.deep_view() + tail),
                    Err(e) => snippet_parts_resolved(partsv@, st0) == Err::<
                        Seq<SnippetV>,
                        EvalErrorV,
                    >(e),
                })),
            decreases partsv.len() - i,
        {
            proof {
                assert(partsv@.skip(i as int).first() == partsv@[i as int]);
                assert(partsv@.skip(i as int).drop_first() =~= partsv@.skip(i + 1));
            }
            match &partsv[i] {
                DynamicSnippetPart::String(t) => {
                    let ghost old_out = out.deep_view();
                    out.push(crate::binding::Snippet::Text(t.clone()));
                    proof {
                        assert(out.deep_view() =~= old_out.push(out@[out@.len() - 1].deep_view()));
                        if snippet_parts_decided(partsv@, st0) {
                            let rest = snippet_parts_resolved(partsv@.skip(i + 1), st0);
                            if rest is Ok {
                                assert(out.deep_view() =~= old_out + seq![
                                    SnippetV::Text(t@),
                                ]);
                                assert(old_out + (seq![SnippetV::Text(t@)] + rest->Ok_0)
                                    =~= out.deep_view() + rest->Ok_0);
                            }
                        }
                    }
                },
                DynamicSnippetPart::Variable(v) => {
                    proof {
                        if snippet_parts_decided(partsv@, st0) {
                            assert(partsv@[i as int] matches DynamicSnippetPart::Variable(v2)
                                && (spec_slot(st0, v2).value is Some || spec_slot(
                                st0,
                                v2,
                            ).pattern is None));
                        }
                    }
                    let val = match Self::resolve_variable_value(*v, site, state, context) {
                        Ok(val) => val,
                        Err(e) => {
                            proof {
                                if snippet_parts_decided(partsv@, st0) {
                                    assert(snippet_parts_resolved(partsv@, st0) == Err::<
                                        Seq<SnippetV>,
                                        EvalErrorV,
                                    >(e.deep_view()));
                                }
                            }
                            return Err(e);
                        },
                    };
                    let ghost valv = val.deep_view();
                    match val.to_snippets() {
                        Err(e) => {
                            proof {
                                if snippet_parts_decided(partsv@, st0) {
                                    assert(snippets_of(valv) == Err::<Seq<SnippetV>, EvalErrorV>(
                                        e.deep_view(),
                                    ));
                                    assert(snippet_parts_resolved(partsv@, st0) == Err::<
                                        Seq<SnippetV>,
                                        EvalErrorV,
                                    >(e.deep_view()));
                                }
                            }
                            return Err(e);
                        },
                        Ok(mut part) => {
                            let ghost old_out = out.deep_view();
                            let ghost partv = part.deep_view();
                            out.append(&mut part);
                            proof {
                                assert(out.deep_view() =~= old_out + partv);
                                if snippet_parts_decided(partsv@, st0) {
                                    assert(snippets_of(valv) == Ok::<Seq<SnippetV>, EvalErrorV>(
                                        partv,
                                    ));
                                    let rest = snippet_parts_resolved(partsv@.skip(i + 1), st0);
                                    if rest is Ok {
                                        assert(old_out + (partv + rest->Ok_0) =~= out.deep_view()
                                            + rest->Ok_0);
                                    }
                                }
                            }
                        },
                    }
                },
            }
            i += 1;
        }
        proof {
            assert(partsv@.skip(partsv.len() as int) =~= Seq::<DynamicSnippetPart>::empty());
            if snippet_parts_decided(partsv@, st0) {
                assert(snippet_parts_resolved(partsv@, st0) == Ok::<Seq<SnippetV>, EvalErrorV>(
                    out.deep_view() + Seq::<SnippetV>::empty(),
                ));
                assert(out.deep_view() + Seq::<SnippetV>::empty() =~= out.deep_view());
            }
        }
        let r = GritResolvedPattern::Snippets(out);
        proof {
            assert(vview(r)->Snippets_0 =~= r->Snippets_0.deep_view());
        }
        Ok(r)
    }

    /// Resolves a property access: the resolver yields a sub-pattern (which
    /// is evaluated), an already-resolved value (which is copied), or
    /// nothing, which is not an error and yields `Undefined`.
    #[verifier::loop_isolation(false)]
    pub fn from_accessor<C: ExecContext>(
        accessor: &crate::pattern::Accessor,
        state: &mut State,
        context: &C,
    ) -> (r: Result<Self, EvalError>)
        requires
            state_wf(*old(state)),
            accessor_vars_ok(*accessor, state_sig(*old(state))),
        ensures
            eval_preserves(*old(state), *final(state)),
            final(state).files == old(state).files,
            accessor.key matches AccessorKey::String(k) ==> (accessor.map
                matches AccessorMap::Container(c) ==> (c matches Container::Variable(v)
                ==> container_map_post(v, k@, *old(state), *final(state), r))),
            accessor.key matches AccessorKey::String(k) ==> (accessor.map
                matches AccessorMap::Literal(m) ==> (match literal_lookup(m.elements@, k@) {
                Option::None => *final(state) == *old(state) && resultv(r) == Ok::<
                    ValueV,
                    crate::error::EvalErrorV,
                >(undefined_binding_value()),
                Option::Some(j) => is_static(m.elements@[j].1) ==> (*final(state) == *old(state)
                    && resultv(r) == static_eval(
                    m.elements@[j].1,
                    old(state).files.deep_view(),
                )),
            })),
        decreases stored_count(*old(state)), *accessor, 2int,
    {
        let key: String = match &accessor.key {
            AccessorKey::String(s) => s.clone(),
            AccessorKey::Variable(v) => {
                match slot_value_clone(state, *v) {
                    Option::Some(val) => match val.text(&state.files) {
                        Ok(t) => t,
                        Err(e) => {
                            return Err(e);
                        },
                    },
                    Option::None => {
                        return Err(EvalError::UnresolvedVariable(slot_name_clone(state, *v)));
                    },
                }
            },
        };
        proof {
            assert(*state == *old(state));
            assert(accessor_vars_ok(*accessor, state_sig(*state)));
        }
        match &accessor.map {
            AccessorMap::Literal(m) => {
                proof {
                    assert(entries_vars_ok(m.elements@, state_sig(*state)));
                }
                let mut i: usize = 0;
                while i < m.elements.len()
                    invariant
                        i <= m.elements@.len(),
                        *state == *old(state),
                        forall|ix: int|
                            0 <= ix < i ==> (#[trigger] m.elements@[ix]).0@ != key@,
                    decreases m.elements@.len() - i,
                {
                    if str_eq(m.elements[i].0.as_str(), key.as_str()) {
                        proof {
                            crate::state::lemma_entries_vars_ok_index(
                                m.elements@,
                                state_sig(*state),
                                i as int,
                            );
                            lemma_literal_lookup_found(m.elements@, key@, i as int);
                        }
                        return Self::from_pattern(&m.elements[i].1, state, context);
                    }
                    i += 1;
                }
                proof {
                    lemma_literal_lookup_none(m.elements@, key@);
                }
                let r = Self::from_constant_binding(&Constant::Undefined);
                proof {
                    assert(r.deep_view() == undefined_binding_value());
                }
                Ok(r)
            },
            AccessorMap::Container(c) => Self::container_map_lookup(c, &key, state, context),
        }
    }

    /// Looks a key up in whatever map a container resolves to. A container
    /// holding a deferred map literal yields the sub-pattern's value, and a
    /// deferred variable is followed one alias step; a resolved map value
    /// yields a copy of the entry; a missing entry or an unbound container
    /// yields `Undefined`; anything that is not a map is a malformed
    /// access. A nested accessor or list index resolves through its value.
    #[verifier::loop_isolation(false)]
    fn container_map_lookup<C: ExecContext>(
        container: &Container,
        key: &String,
        state: &mut State,
        context: &C,
    ) -> (r: Result<Self, EvalError>)
        requires
            state_wf(*old(state)),
            container_vars_ok(*container, state_sig(*old(state))),
        ensures
            eval_preserves(*old(state), *final(state)),
            final(state).files == old(state).files,
            container matches Container::Variable(v) ==> container_map_post(
                *v,
                key@,
                *old(state),
                *final(state),
                r,
            ),
        decreases stored_count(*old(state)), *container, 1int,
    {
        match container {
            Container::Variable(v) => {
                if slot_has_pattern(state, *v) {
                    let ghost st_in = *state;
                    let taken = swap_slot_pattern(state, *v, None);
                    match taken {
                        Option::Some(q) => {
                            let ghost s1 = *state;
                            proof {
                                assert(spec_slot(st_in, *v) == st_in.bindings@[
                                    v.scope as int
                                ]@.last()@[v.index as int]);
                                assert(pat_vars_ok(q, state_sig(st_in)));
                                assert(stored_count(*state) + 1 == stored_count(st_in));
                            }
                            let r = match &q {
                                Pattern::StrMap(m) => {
                                    let found = find_literal_entry(&m.elements, key);
                                    match found {
                                        Option::Some(j) => {
                                            proof {
                                                crate::state::lemma_entries_vars_ok_index(
                                                    m.elements@,
                                                    state_sig(*state),
                                                    j as int,
                                                );
                                            }
                                            Self::from_pattern(&m.elements[j].1, state, context)
                                        },
                                        Option::None => Ok(
                                            Self::from_constant_binding(&Constant::Undefined),
                                        ),
                                    }
                                },
                                Pattern::Variable(v2) => {
                                    let alias = Container::Variable(*v2);
                                    proof {
                                        assert(container_vars_ok(alias, state_sig(*state)));
                                    }
                                    Self::container_map_lookup(&alias, key, state, context)
                                },
                                _ => Err(
                                    EvalError::MalformedAccess(
                                        "left side of an accessor must be a map",
                                    ),
                                ),
                            };
                            let ghost s2 = *state;
                            proof {
                                assert(crate::state::var_ok(*v, state_sig(*state)));
                            }
                            let _ = swap_slot_pattern(state, *v, Some(q));
                            proof {
                                restore_preserves(st_in, s1, s2, *state, *v);
                            }
                            r
                        },
                        Option::None => {
                            proof {
                                assert(false);
                            }
                            Err(EvalError::MissingBinding)
                        },
                    }
                } else {
                    match slot_value_clone(state, *v) {
                        Option::Some(val) => Self::map_value_lookup(val, key),
                        Option::None => {
                            let out = Self::from_constant_binding(&Constant::Undefined);
                            proof {
                                assert(out.deep_view() == undefined_binding_value());
                            }
                            Ok(out)
                        },
                    }
                }
            },
            Container::Accessor(a2) => {
                match Self::from_accessor(a2, state, context) {
                    Ok(val) => Self::map_value_lookup(val, key),
                    Err(e) => Err(e),
                }
            },
            Container::ListIndex(li2) => {
                match Self::from_list_index(li2, state, context) {
                    Ok(val) => Self::map_value_lookup(val, key),
                    Err(e) => Err(e),
                }
            },
            Container::FunctionCall(_) => Err(
                EvalError::MalformedAccess("cannot get the value of a function call"),
            ),
        }
    }

    /// Looks a key up in a resolved map value, per `spec_map_value_lookup`:
    /// a copy of the first entry with the key, `Undefined` where the key is
    /// absent, and a malformed access where the value is not a map.
    #[verifier::loop_isolation(false)]
    fn map_value_lookup(val: GritResolvedPattern, key: &String) -> (r: Result<Self, EvalError>)
        ensures
            resultv(r) == spec_map_value_lookup(val.deep_view(), key@),
    {
        let ghost vv = val.deep_view();
        match val {
            GritResolvedPattern::StrMap(entries) => {
                let ghost ev = crate::resolved_pattern::eviews(entries@);
                proof {
                    crate::resolved_pattern::lemma_eviews(entries@);
                    assert(vv == ValueV::StrMap(ev));
                }
                let mut i: usize = 0;
                while i < entries.len()
                    invariant
                        i <= entries@.len(),
                        forall|ix: int| 0 <= ix < i ==> (#[trigger] ev[ix]).0 != key@,
                    decreases entries@.len() - i,
                {
                    if str_eq(entries[i].0.as_str(), key.as_str()) {
                        proof {
                            lemma_entry_lookup_found(ev, key@, i as int);
                        }
                        return Ok(entries[i].1.clone());
                    }
                    i += 1;
                }
                proof {
                    lemma_entry_lookup_none(ev, key@);
                }
                let out = Self::from_constant_binding(&Constant::Undefined);
                proof {
                    assert(out.deep_view() == undefined_binding_value());
                }
                Ok(out)
            },
            _ => Err(EvalError::MalformedAccess("left side of an accessor must be a map")),
        }
    }

    /// Resolves a list-index access: the resolver yields a sub-pattern
    /// (which is evaluated), a copy of a resolved item, or nothing, which
    /// yields `Undefined`; an index that is not an integer, or a target
    /// that is not a list, is a malformed access.
    #[verifier::loop_isolation(false)]
    pub fn from_list_index<C: ExecContext>(
        index: &crate::pattern::ListIndex,
        state: &mut State,
        context: &C,
    ) -> (r: Result<Self, EvalError>)
        requires
            state_wf(*old(state)),
            list_index_vars_ok(*index, state_sig(*old(state))),
        ensures
            eval_preserves(*old(state), *final(state)),
            final(state).files == old(state).files,
            index.index matches ContainerOrIndex::Index(ix) ==> ((index.list
                matches ListOrContainer::List(l) ==> literal_index_post(
                l.patterns@,
                ix as int,
                old(state).files.deep_view(),
                *old(state),
                *final(state),
                r,
            )) && (index.list matches ListOrContainer::Container(c) ==> (c
                matches Container::Variable(vl) ==> container_list_post(
                vl,
                ix as int,
                *old(state),
                *final(state),
                r,
            )))),
            index.index matches ContainerOrIndex::Container(ci) ==> (ci
                matches Container::Variable(vi) ==> (match spec_index_read(
                vi,
                *old(state),
                old(state).files.deep_view(),
            ) {
                Err(e) => *final(state) == *old(state) && (r matches Err(err) && err.deep_view()
                    == e),
                Ok(ix) => (index.list matches ListOrContainer::List(l) ==> literal_index_post(
                    l.patterns@,
                    ix,
                    old(state).files.deep_view(),
                    *old(state),
                    *final(state),
                    r,
                )) && (index.list matches ListOrContainer::Container(c2) ==> (c2
                    matches Container::Variable(vl) ==> container_list_post(
                    vl,
                    ix,
                    *old(state),
                    *final(state),
                    r,
                ))),
            })),
        decreases stored_count(*old(state)), *index, 2int,
    {
        let idx: isize = match &index.index {
            ContainerOrIndex::Index(i) => *i,
            ContainerOrIndex::Container(c) => {
                let val = match Self::index_container_value(c, state, context) {
                    Ok(v) => v,
                    Err(e) => {
                        return Err(e);
                    },
                };
                let text = match val.text(&state.files) {
                    Ok(t) => t,
                    Err(e) => {
                        return Err(e);
                    },
                };
                match parse_isize(text.as_str()) {
                    Option::Some(i) => i,
                    Option::None => {
                        return Err(
                            EvalError::MalformedAccess("list index must be an integer"),
                        );
                    },
                }
            },
        };
        match &index.list {
            ListOrContainer::List(l) => {
                match to_unsigned(idx, l.patterns.len()) {
                    Option::Some(u) => {
                        if u < l.patterns.len() {
                            proof {
                                crate::state::lemma_pats_vars_ok_index(
                                    l.patterns@,
                                    state_sig(*state),
                                    u as int,
                                );
                            }
                            Self::from_pattern(&l.patterns[u], state, context)
                        } else {
                            let r = Self::from_constant_binding(&Constant::Undefined);
                            proof {
                                assert(r.deep_view() == undefined_binding_value());
                            }
                            Ok(r)
                        }
                    },
                    Option::None => {
                        let r = Self::from_constant_binding(&Constant::Undefined);
                        proof {
                            assert(r.deep_view() == undefined_binding_value());
                        }
                        Ok(r)
                    },
                }
            },
            ListOrContainer::Container(c) => Self::container_list_index(c, idx, state, context),
        }
    }

    /// Resolves the container an index expression reads its index from; a
    /// deferred pattern there is not a resolved integer and is a malformed
    /// access.
    #[verifier::loop_isolation(false)]
    fn index_container_value<C: ExecContext>(
        container: &Container,
        state: &mut State,
        context: &C,
    ) -> (r: Result<Self, EvalError>)
        requires
            state_wf(*old(state)),
            container_vars_ok(*container, state_sig(*old(state))),
        ensures
            eval_preserves(*old(state), *final(state)),
            final(state).files == old(state).files,
            container matches Container::Variable(v) ==> (*final(state) == *old(state) && (
            if spec_slot(*old(state), *v).pattern is Some {
                r matches Err(e) && e.deep_view() == EvalErrorV::MalformedAccess(
                    "list index must be resolved"@,
                )
            } else {
                match spec_slot(*old(state), *v).value {
                    Option::Some(val) => r matches Ok(out) && out.deep_view() == val.deep_view(),
                    Option::None => r matches Err(e) && e.deep_view()
                        == EvalErrorV::MalformedAccess("list index must be resolvable"@),
                }
            })),
        decreases stored_count(*old(state)), *container, 1int,
    {
        match container {
            Container::Variable(v) => {
                if slot_has_pattern(state, *v) {
                    Err(EvalError::MalformedAccess("list index must be resolved"))
                } else {
                    match slot_value_clone(state, *v) {
                        Option::Some(val) => Ok(val),
                        Option::None => Err(
                            EvalError::MalformedAccess("list index must be resolvable"),
                        ),
                    }
                }
            },
            Container::Accessor(a2) => Self::from_accessor(a2, state, context),
            Container::ListIndex(li2) => Self::from_list_index(li2, state, context),
            Container::FunctionCall(_) => Err(
                EvalError::MalformedAccess("cannot get the value of a function call"),
            ),
        }
    }

    /// Indexes whatever list a container resolves to: a deferred list
    /// literal yields the sub-pattern's value, and a deferred variable is
    /// followed one alias step; a resolved list yields a copy of the item,
    /// an unbound container `Undefined`, and anything that is not a list is
    /// a malformed access. A value bound into matched source is not a list
    /// here: the source tree and its child nodes stay with the host, so a
    /// binding's items cannot be enumerated and it answers as a non-list.
    #[verifier::loop_isolation(false)]
    fn container_list_index<C: ExecContext>(
        container: &Container,
        idx: isize,
        state: &mut State,
        context: &C,
    ) -> (r: Result<Self, EvalError>)
        requires
            state_wf(*old(state)),
            container_vars_ok(*container, state_sig(*old(state))),
        ensures
            eval_preserves(*old(state), *final(state)),
            final(state).files == old(state).files,
            container matches Container::Variable(v) ==> container_list_post(
                *v,
                idx as int,
                *old(state),
                *final(state),
                r,
            ),
        decreases stored_count(*old(state)), *container, 1int,
    {
        match container {
            Container::Variable(v) => {
                if slot_has_pattern(state, *v) {
                    let ghost st_in = *state;
                    let taken = swap_slot_pattern(state, *v, None);
                    match taken {
                        Option::Some(q) => {
                            let ghost s1 = *state;
                            proof {
                                assert(spec_slot(st_in, *v) == st_in.bindings@[
                                    v.scope as int
                                ]@.last()@[v.index as int]);
                                assert(pat_vars_ok(q, state_sig(st_in)));
                                assert(stored_count(*state) + 1 == stored_count(st_in));
                            }
                            let r = match &q {
                                Pattern::List(l) => {
                                    match to_unsigned(idx, l.patterns.len()) {
                                        Option::Some(u) => {
                                            if u < l.patterns.len() {
                                                proof {
                                                    crate::state::lemma_pats_vars_ok_index(
                                                        l.patterns@,
                                                        state_sig(*state),
                                                        u as int,
                                                    );
                                                }
                                                Self::from_pattern(&l.patterns[u], state, context)
                                            } else {
                                                Ok(Self::from_constant_binding(&Constant::Undefined))
                                            }
                                        },
                                        Option::None => Ok(
                                            Self::from_constant_binding(&Constant::Undefined),
                                        ),
                                    }
                                },
                                Pattern::Variable(v2) => {
                                    let alias = Container::Variable(*v2);
                                    proof {
                                        assert(container_vars_ok(alias, state_sig(*state)));
                                    }
                                    Self::container_list_index(&alias, idx, state, context)
                                },
                                _ => Err(
                                    EvalError::MalformedAccess(
                                        "left side of a listIndex must be a list",
                                    ),
                                ),
                            };
                            let ghost s2 = *state;
                            proof {
                                assert(crate::state::var_ok(*v, state_sig(*state)));
                            }
                            let _ = swap_slot_pattern(state, *v, Some(q));
                            proof {
                                restore_preserves(st_in, s1, s2, *state, *v);
                            }
                            r
                        },
                        Option::None => {
                            proof {
                                assert(false);
                            }
                            Err(EvalError::MissingBinding)
                        },
                    }
                } else {
                    match slot_value_clone(state, *v) {
                        Option::Some(val) => Self::list_value_index(val, idx),
                        Option::None => {
                            let out = Self::from_constant_binding(&Constant::Undefined);
                            proof {
                                assert(out.deep_view() == undefined_binding_value());
                            }
                            Ok(out)
                        },
                    }
                }
            },
            Container::Accessor(a2) => {
                match Self::from_accessor(a2, state, context) {
                    Ok(val) => Self::list_value_index(val, idx),
                    Err(e) => Err(e),
                }
            },
            Container::ListIndex(li2) => {
                match Self::from_list_index(li2, state, context) {
                    Ok(val) => Self::list_value_index(val, idx),
                    Err(e) => Err(e),
                }
            },
            Container::FunctionCall(_) => Err(
                EvalError::MalformedAccess("cannot get the value of a function call"),
            ),
        }
    }

    /// Indexes a resolved list value, per `spec_list_value_index`: a copy
    /// of the addressed item, `Undefined` where the index is out of range,
    /// and a malformed access where the value is not a list.
    #[verifier::loop_isolation(false)]
    fn list_value_index(val: GritResolvedPattern, idx: isize) -> (r: Result<Self, EvalError>)
        ensures
            resultv(r) == spec_list_value_index(val.deep_view(), idx as int),
    {
        let ghost vv = val.deep_view();
        match val {
            GritResolvedPattern::List(items) => {
                let ghost iv = crate::resolved_pattern::vviews(items@);
                proof {
                    crate::resolved_pattern::lemma_vviews(items@);
                    assert(vv == ValueV::List(iv));
                }
                match to_unsigned(idx, items.len()) {
                    Option::Some(u) => {
                        if u < items.len() {
                            let out = items[u].clone();
                            proof {
                                assert(out.deep_view() == iv[u as int]);
                            }
                            Ok(out)
                        } else {
                            let out = Self::from_constant_binding(&Constant::Undefined);
                            proof {
                                assert(out.deep_view() == undefined_binding_value());
                            }
                            Ok(out)
                        }
                    },
                    Option::None => {
                        let out = Self::from_constant_binding(&Constant::Undefined);
                        proof {
                            assert(out.deep_view() == undefined_binding_value());
                        }
                        Ok(out)
                    },
                }
            },
            _ => Err(EvalError::MalformedAccess("left side of a listIndex must be a list")),
        }
    }
}

} // verus!
