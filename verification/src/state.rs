use vstd::prelude::*;

use crate::binding::Binding;
use crate::files::FileRegistry;
use crate::pattern::{
    Accessor, AccessorKey, AccessorMap, Container, ContainerOrIndex, DynamicPattern,
    DynamicSnippetPart, ListIndex, ListOrContainer, Pattern, Variable,
};
use crate::resolved_pattern::GritResolvedPattern;

verus! {

/// The kind of a pending rewrite effect.
#[derive(Debug, Clone, Copy, PartialEq, Eq, Structural)]
pub enum EffectKind {
    Rewrite,
    Insert,
}

/// A pending textual rewrite: a binding to rewrite and the value that
/// replaces it, queued for a later linearization pass.
#[derive(Debug)]
pub struct Effect {
    pub binding: Binding,
    pub value: GritResolvedPattern,
    pub kind: EffectKind,
}

/// One variable slot: its name, an optional deferred pattern, and an
/// optional cached value.
#[derive(Debug)]
pub struct VariableContent {
    pub name: String,
    pub pattern: Option<Pattern>,
    pub value: Option<GritResolvedPattern>,
}

/// The variable-binding state an evaluation runs against: per scope id a
/// stack of frames, each frame a sequence of slots indexed by the
/// compiler; the pending-effect list; and the file registry.
#[derive(Debug)]
pub struct State {
    pub bindings: Vec<Vec<Vec<VariableContent>>>,
    pub effects: Vec<Effect>,
    pub files: FileRegistry,
}

/// The lookup signature of a state: per scope id, the slot count of the
/// innermost frame (`None` where the scope has no frame). Variable lookup
/// depends on the state only through this signature.
pub open spec fn state_sig(s: State) -> Seq<Option<nat>> {
    Seq::new(
        s.bindings@.len(),
        |i: int|
            if s.bindings@[i]@.len() == 0 {
                None
            } else {
                Some(s.bindings@[i]@.last()@.len() as nat)
            },
    )
}

/// Whether a variable reference is in bounds for a lookup signature.
/// Slot-index validity is a compiler invariant, required rather than
/// checked at runtime.
pub open spec fn var_ok(v: Variable, sig: Seq<Option<nat>>) -> bool {
    v.scope < sig.len() && (sig[v.scope as int] matches Some(n) && v.index < n)
}

/// The slot a variable refers to.
pub open spec fn spec_slot(s: State, v: Variable) -> VariableContent {
    s.bindings@[v.scope as int]@.last()@[v.index as int]
}

/// Every variable mentioned in the pattern is in bounds for the signature.
pub open spec fn pat_vars_ok(p: Pattern, sig: Seq<Option<nat>>) -> bool
    decreases p, 2int,
{
    match p {
        Pattern::Dynamic(dp) => dyn_vars_ok(dp, sig),
        Pattern::CodeSnippet(cs) => match cs.dynamic_snippet {
            Option::Some(dp) => dyn_vars_ok(dp, sig),
            Option::None => true,
        },
        Pattern::CallBuiltIn(c) => pats_vars_ok(c.args@, sig),
        Pattern::CallFunction(c) => pats_vars_ok(c.args@, sig),
        Pattern::Variable(v) => var_ok(v, sig),
        Pattern::List(l) => pats_vars_ok(l.patterns@, sig),
        Pattern::ListIndex(li) => list_index_vars_ok(*li, sig),
        Pattern::StrMap(m) => entries_vars_ok(m.elements@, sig),
        Pattern::Accessor(a) => accessor_vars_ok(*a, sig),
        Pattern::File(fp) => pat_vars_ok(fp.name, sig) && pat_vars_ok(fp.body, sig),
        Pattern::Add(b) | Pattern::Subtract(b) | Pattern::Multiply(b) | Pattern::Divide(b)
            | Pattern::Modulo(b) => pat_vars_ok(b.lhs, sig) && pat_vars_ok(b.rhs, sig),
        Pattern::Before(inner) | Pattern::After(inner) => pat_vars_ok(*inner, sig),
        _ => true,
    }
}

/// `pat_vars_ok` over a sequence of patterns.
pub open spec fn pats_vars_ok(ps: Seq<Pattern>, sig: Seq<Option<nat>>) -> bool
    decreases ps, 3int,
{
    if ps.len() == 0 {
        true
    } else {
        pat_vars_ok(ps.first(), sig) && pats_vars_ok(ps.drop_first(), sig)
    }
}

/// `pat_vars_ok` over map-literal entries.
pub open spec fn entries_vars_ok(es: Seq<(String, Pattern)>, sig: Seq<Option<nat>>) -> bool
    decreases es, 3int,
{
    if es.len() == 0 {
        true
    } else {
        pat_vars_ok(es.first().1, sig) && entries_vars_ok(es.drop_first(), sig)
    }
}

/// `pat_vars_ok` over a dynamic pattern.
pub open spec fn dyn_vars_ok(dp: DynamicPattern, sig: Seq<Option<nat>>) -> bool
    decreases dp, 2int,
{
    match dp {
        DynamicPattern::Variable(v) => var_ok(v, sig),
        DynamicPattern::Accessor(a) => accessor_vars_ok(*a, sig),
        DynamicPattern::ListIndex(li) => list_index_vars_ok(*li, sig),
        DynamicPattern::Snippet(sn) => snippet_vars_ok(sn.parts@, sig),
        DynamicPattern::List(dl) => dyns_vars_ok(dl.elements@, sig),
        DynamicPattern::CallBuiltIn(c) => pats_vars_ok(c.args@, sig),
        DynamicPattern::CallFunction(c) => pats_vars_ok(c.args@, sig),
        DynamicPattern::CallForeignFunction(_) => true,
    }
}

/// `dyn_vars_ok` over a sequence.
pub open spec fn dyns_vars_ok(ds: Seq<DynamicPattern>, sig: Seq<Option<nat>>) -> bool
    decreases ds, 3int,
{
    if ds.len() == 0 {
        true
    } else {
        dyn_vars_ok(ds.first(), sig) && dyns_vars_ok(ds.drop_first(), sig)
    }
}

/// Every variable splice of the template is in bounds.
pub open spec fn snippet_vars_ok(parts: Seq<DynamicSnippetPart>, sig: Seq<Option<nat>>) -> bool
    decreases parts,
{
    if parts.len() == 0 {
        true
    } else {
        (match parts.first() {
            DynamicSnippetPart::String(_) => true,
            DynamicSnippetPart::Variable(v) => var_ok(v, sig),
        }) && snippet_vars_ok(parts.drop_first(), sig)
    }
}

/// Variable validity over an accessor.
pub open spec fn accessor_vars_ok(a: Accessor, sig: Seq<Option<nat>>) -> bool
    decreases a, 1int,
{
    (match a.key {
        AccessorKey::String(_) => true,
        AccessorKey::Variable(v) => var_ok(v, sig),
    }) && (match a.map {
        AccessorMap::Container(c) => container_vars_ok(c, sig),
        AccessorMap::Literal(m) => entries_vars_ok(m.elements@, sig),
    })
}

/// Variable validity over a list index.
pub open spec fn list_index_vars_ok(li: ListIndex, sig: Seq<Option<nat>>) -> bool
    decreases li, 1int,
{
    (match li.list {
        ListOrContainer::Container(c) => container_vars_ok(c, sig),
        ListOrContainer::List(l) => pats_vars_ok(l.patterns@, sig),
    }) && (match li.index {
        ContainerOrIndex::Container(c) => container_vars_ok(c, sig),
        ContainerOrIndex::Index(_) => true,
    })
}

/// Variable validity over a container.
pub open spec fn container_vars_ok(c: Container, sig: Seq<Option<nat>>) -> bool
    decreases c, 2int,
{
    match c {
        Container::Variable(v) => var_ok(v, sig),
        Container::Accessor(a) => accessor_vars_ok(*a, sig),
        Container::ListIndex(li) => list_index_vars_ok(*li, sig),
        Container::FunctionCall(f) => pats_vars_ok(f.args@, sig),
    }
}

/// The number of deferred patterns stored in the innermost frames; the
/// measure that bounds recursion into deferred variables.
pub open spec fn stored_count(s: State) -> nat {
    stored_count_scopes(s.bindings@)
}

/// `stored_count` over the scopes.
pub open spec fn stored_count_scopes(scopes: Seq<Vec<Vec<VariableContent>>>) -> nat
    decreases scopes,
{
    if scopes.len() == 0 {
        0
    } else {
        stored_count_frame(scopes.first()@) + stored_count_scopes(scopes.drop_first())
    }
}

/// `stored_count` over one scope: only the innermost frame is reachable
/// by lookup, so only it is counted.
pub open spec fn stored_count_frame(frames: Seq<Vec<VariableContent>>) -> nat {
    if frames.len() == 0 {
        0
    } else {
        stored_count_slots(frames.last()@)
    }
}

/// `stored_count` over the slots of a frame.
pub open spec fn stored_count_slots(slots: Seq<VariableContent>) -> nat
    decreases slots,
{
    if slots.len() == 0 {
        0
    } else {
        (if slots.first().pattern is Some {
            1nat
        } else {
            0nat
        }) + stored_count_slots(slots.drop_first())
    }
}

/// Well-formedness of a state: every deferred pattern stored in a
/// reachable slot mentions only in-bounds variables.
pub open spec fn state_wf(s: State) -> bool {
    forall|sc: int, i: int|
        0 <= sc < s.bindings@.len() && s.bindings@[sc]@.len() > 0 && 0 <= i < s.bindings@[
            sc
        ]@.last()@.len() ==> (match (#[trigger] s.bindings@[sc]@.last()@[i]).pattern {
            Option::Some(p) => pat_vars_ok(p, state_sig(s)),
            Option::None => true,
        })
}

/// Whether each reachable slot holds a deferred pattern in `b` exactly
/// where it does in `a`; cached values may change, patterns may not
/// appear or disappear.
pub open spec fn patterns_preserved(a: State, b: State) -> bool {
    forall|sc: int, i: int|
        0 <= sc < a.bindings@.len() && a.bindings@[sc]@.len() > 0 && 0 <= i < a.bindings@[
            sc
        ]@.last()@.len() ==> ((#[trigger] b.bindings@[sc]@.last()@[i]).pattern is Some) == (
        a.bindings@[sc]@.last()@[i].pattern is Some)
}

/// Observational equality of two states: the same lookup signature, the
/// same slot contents in every innermost frame, the same effects and the
/// same files. A lookup cannot tell such states apart.
pub open spec fn state_equiv(a: State, b: State) -> bool {
    state_sig(b) == state_sig(a) && b.effects == a.effects && b.files == a.files && forall|
        sc: int,
        i: int,
    |
        0 <= sc < a.bindings@.len() && a.bindings@[sc]@.len() > 0 && 0 <= i < a.bindings@[
            sc
        ]@.last()@.len() ==> #[trigger] b.bindings@[sc]@.last()@[i] == a.bindings@[
            sc
        ]@.last()@[i]
}

/// What every evaluation step preserves of the state: its lookup
/// signature, which slots hold deferred patterns, the stored-pattern
/// count, and well-formedness.
pub open spec fn eval_preserves(a: State, b: State) -> bool {
    state_sig(b) == state_sig(a) && patterns_preserved(a, b) && stored_count(b) == stored_count(a)
        && (state_wf(a) ==> state_wf(b))
}

/// `stored_count_slots` under a single-slot update.
proof fn lemma_count_slots_update(slots: Seq<VariableContent>, i: int, x: VariableContent)
    requires
        0 <= i < slots.len(),
    ensures
        stored_count_slots(slots.update(i, x)) + (if slots[i].pattern is Some {
            1nat
        } else {
            0nat
        }) == stored_count_slots(slots) + (if x.pattern is Some {
            1nat
        } else {
            0nat
        }),
    decreases slots.len(),
{
    let upd = slots.update(i, x);
    if i == 0 {
        assert(upd.first() == x);
        assert(upd.drop_first() =~= slots.drop_first());
    } else {
        assert(upd.first() == slots.first());
        assert(upd.drop_first() =~= slots.drop_first().update(i - 1, x));
        lemma_count_slots_update(slots.drop_first(), i - 1, x);
        assert(slots.drop_first()[i - 1] == slots[i]);
    }
}

/// `stored_count_scopes` under a single-scope update.
proof fn lemma_count_scopes_update(
    scopes: Seq<Vec<Vec<VariableContent>>>,
    sc: int,
    x: Vec<Vec<VariableContent>>,
)
    requires
        0 <= sc < scopes.len(),
    ensures
        stored_count_scopes(scopes.update(sc, x)) + stored_count_frame(scopes[sc]@)
            == stored_count_scopes(scopes) + stored_count_frame(x@),
    decreases scopes.len(),
{
    let upd = scopes.update(sc, x);
    if sc == 0 {
        assert(upd.first() == x);
        assert(upd.drop_first() =~= scopes.drop_first());
    } else {
        assert(upd.first() == scopes.first());
        assert(upd.drop_first() =~= scopes.drop_first().update(sc - 1, x));
        lemma_count_scopes_update(scopes.drop_first(), sc - 1, x);
        assert(scopes.drop_first()[sc - 1] == scopes[sc]);
    }
}

/// Reads a copy of the cached value of the slot a variable refers to.
pub fn slot_value_clone(state: &State, v: Variable) -> (r: Option<GritResolvedPattern>)
    requires
        var_ok(v, state_sig(*state)),
    ensures
        (match spec_slot(*state, v).value {
            Option::Some(val) => r matches Some(out) && out.deep_view() == val.deep_view(),
            Option::None => r is None,
        }),
{
    let frames = &state.bindings[v.scope];
    let frame = &frames[frames.len() - 1];
    proof {
        assert(frame@ == state.bindings@[v.scope as int]@.last()@);
    }
    match &frame[v.index].value {
        Option::Some(val) => Some(val.clone()),
        Option::None => None,
    }
}

/// Reads a copy of the name of the slot a variable refers to.
pub fn slot_name_clone(state: &State, v: Variable) -> (r: String)
    requires
        var_ok(v, state_sig(*state)),
    ensures
        r@ == spec_slot(*state, v).name@,
{
    let frames = &state.bindings[v.scope];
    let frame = &frames[frames.len() - 1];
    proof {
        assert(frame@ == state.bindings@[v.scope as int]@.last()@);
    }
    frame[v.index].name.clone()
}

/// Whether the slot a variable refers to holds a deferred pattern.
pub fn slot_has_pattern(state: &State, v: Variable) -> (r: bool)
    requires
        var_ok(v, state_sig(*state)),
    ensures
        r == (spec_slot(*state, v).pattern is Some),
{
    let frames = &state.bindings[v.scope];
    let frame = &frames[frames.len() - 1];
    proof {
        assert(frame@ == state.bindings@[v.scope as int]@.last()@);
    }
    frame[v.index].pattern.is_some()
}

/// Exchanges the deferred pattern stored in a variable's slot, leaving the
/// slot's name and cached value in place. While a deferred pattern is
/// being evaluated its slot is cleared this way, so a slot that refers
/// back to itself resolves as unresolved instead of recursing forever.
#[verifier::loop_isolation(false)]
pub fn swap_slot_pattern(state: &mut State, v: Variable, p: Option<Pattern>) -> (r: Option<
    Pattern,
>)
    requires
        var_ok(v, state_sig(*old(state))),
    ensures
        r == spec_slot(*old(state), v).pattern,
        spec_slot(*final(state), v).pattern == p,
        spec_slot(*final(state), v).name == spec_slot(*old(state), v).name,
        spec_slot(*final(state), v).value == spec_slot(*old(state), v).value,
        state_sig(*final(state)) == state_sig(*old(state)),
        final(state).effects == old(state).effects,
        final(state).files == old(state).files,
        stored_count(*final(state)) + (if r is Some {
            1nat
        } else {
            0nat
        }) == stored_count(*old(state)) + (if p is Some {
            1nat
        } else {
            0nat
        }),
        (state_wf(*old(state)) && (p matches Some(q) ==> pat_vars_ok(
            q,
            state_sig(*old(state)),
        ))) ==> state_wf(*final(state)),
        forall|sc: int, i: int|
            0 <= sc < old(state).bindings@.len() && old(state).bindings@[sc]@.len() > 0 && 0 <= i
                < old(state).bindings@[sc]@.last()@.len() && !(sc == v.scope && i == v.index)
                ==> #[trigger] final(state).bindings@[sc]@.last()@[i] == old(
                state,
            ).bindings@[sc]@.last()@[i],
{
    let ghost old_state = *state;
    let ghost p_spec = p;
    let mut scope_frames: Vec<Vec<VariableContent>> = state.bindings.remove(v.scope);
    let fcount = scope_frames.len();
    let mut frame: Vec<VariableContent> = scope_frames.remove(fcount - 1);
    let content: VariableContent = frame.remove(v.index);
    let VariableContent { name, pattern, value } = content;
    let replaced = VariableContent { name, pattern: p, value };
    frame.insert(v.index, replaced);
    scope_frames.push(frame);
    state.bindings.insert(v.scope, scope_frames);
    proof {
        let sc = v.scope as int;
        let i = v.index as int;
        let oldb = old_state.bindings@;
        let newb = state.bindings@;
        let old_scope = oldb[sc];
        let old_frames = old_scope@;
        let old_frame = old_frames.last()@;
        assert(newb =~= oldb.update(sc, newb[sc]));
        assert(newb[sc]@ =~= old_frames.update(
            old_frames.len() - 1,
            newb[sc]@.last(),
        ));
        assert(newb[sc]@.last()@ =~= old_frame.update(i, newb[sc]@.last()@[i]));
        assert(state_sig(*state) =~= state_sig(old_state));
        lemma_count_scopes_update(oldb, sc, newb[sc]);
        lemma_count_slots_update(old_frame, i, newb[sc]@.last()@[i]);
        assert(stored_count_frame(newb[sc]@) == stored_count_slots(newb[sc]@.last()@));
        assert forall|sc2: int, i2: int|
            0 <= sc2 < oldb.len() && oldb[sc2]@.len() > 0 && 0 <= i2 < oldb[sc2]@.last()@.len()
                && !(sc2 == sc && i2 == i) implies #[trigger] newb[sc2]@.last()@[i2] == oldb[
            sc2
        ]@.last()@[i2] by {
            if sc2 == sc {
                assert(newb[sc2]@.last()@[i2] == old_frame[i2]);
            } else {
                assert(newb[sc2] == oldb[sc2]);
            }
        }
        if state_wf(old_state) && (p_spec matches Option::Some(q) ==> pat_vars_ok(
            q,
            state_sig(old_state),
        )) {
            assert forall|sc2: int, i2: int|
                0 <= sc2 < newb.len() && newb[sc2]@.len() > 0 && 0 <= i2 < newb[
                    sc2
                ]@.last()@.len() implies (match (#[trigger] newb[sc2]@.last()@[i2]).pattern {
                Option::Some(q2) => pat_vars_ok(q2, state_sig(*state)),
                Option::None => true,
            }) by {
                if sc2 == sc && i2 == i {
                } else if sc2 == sc {
                    assert(newb[sc2]@.last()@[i2] == old_frame[i2]);
                } else {
                    assert(newb[sc2] == oldb[sc2]);
                }
            }
        }
    }
    pattern
}

/// Each pattern of a valid sequence is itself valid.
pub proof fn lemma_pats_vars_ok_index(ps: Seq<Pattern>, sig: Seq<Option<nat>>, i: int)
    requires
        pats_vars_ok(ps, sig),
        0 <= i < ps.len(),
    ensures
        pat_vars_ok(ps[i], sig),
    decreases ps.len(),
{
    if i == 0 {
        assert(ps.first() == ps[0]);
    } else {
        assert(ps.drop_first()[i - 1] == ps[i]);
        lemma_pats_vars_ok_index(ps.drop_first(), sig, i - 1);
    }
}

/// Each value pattern of valid entries is itself valid.
pub proof fn lemma_entries_vars_ok_index(es: Seq<(String, Pattern)>, sig: Seq<Option<nat>>, i: int)
    requires
        entries_vars_ok(es, sig),
        0 <= i < es.len(),
    ensures
        pat_vars_ok(es[i].1, sig),
    decreases es.len(),
{
    if i == 0 {
        assert(es.first() == es[0]);
    } else {
        assert(es.drop_first()[i - 1] == es[i]);
        lemma_entries_vars_ok_index(es.drop_first(), sig, i - 1);
    }
}

/// Preservation composes across successive evaluation steps.
pub broadcast proof fn lemma_preserves_trans(a: State, b: State, c: State)
    requires
        #[trigger] eval_preserves(a, b),
        #[trigger] eval_preserves(b, c),
    ensures
        eval_preserves(a, c),
{
    assert forall|sc: int, i: int|
        0 <= sc < a.bindings@.len() && a.bindings@[sc]@.len() > 0 && 0 <= i < a.bindings@[
            sc
        ]@.last()@.len() implies ((#[trigger] c.bindings@[sc]@.last()@[i]).pattern is Some) == (
    a.bindings@[sc]@.last()@[i].pattern is Some) by {
        assert(state_sig(a).len() == state_sig(b).len());
        assert(b.bindings@.len() == a.bindings@.len());
        assert(state_sig(a)[sc] == state_sig(b)[sc]);
        assert(b.bindings@[sc]@.len() > 0);
        assert(b.bindings@[sc]@.last()@.len() == a.bindings@[sc]@.last()@.len());
        assert((b.bindings@[sc]@.last()@[i].pattern is Some) == (a.bindings@[sc]@.last()@[
            i
        ].pattern is Some));
    }
}

} // verus!
