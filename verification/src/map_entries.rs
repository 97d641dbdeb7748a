use vstd::prelude::*;
use vstd::string::*;

use crate::resolved_pattern::{
    entries_sorted, eviews, lemma_eviews, vview, GritResolvedPattern, ValueV,
};
use crate::strings::{lemma_lex_asymmetric, lemma_lex_total, lemma_lex_transitive, lex_lt, str_eq,
    str_lt};

verus! {

/// The position a key belongs at in sorted entries: the number of leading
/// entries whose keys are lexicographically smaller.
pub open spec fn insert_pos(entries: Seq<(Seq<char>, ValueV)>, k: Seq<char>) -> int
    decreases entries,
{
    if entries.len() == 0 {
        0
    } else if lex_lt(entries.first().0, k) {
        1 + insert_pos(entries.drop_first(), k)
    } else {
        0
    }
}

/// What inserting a key/value into map entries yields: an entry with an
/// equal key is replaced in place; otherwise the new entry is spliced in at
/// its sorted position.
pub open spec fn spec_entry_insert(
    entries: Seq<(Seq<char>, ValueV)>,
    k: Seq<char>,
    v: ValueV,
) -> Seq<(Seq<char>, ValueV)> {
    let p = insert_pos(entries, k);
    if p < entries.len() && entries[p].0 == k {
        entries.update(p, (k, v))
    } else {
        entries.insert(p, (k, v))
    }
}

/// `insert_pos` is the unique position with smaller keys strictly before it
/// and a not-smaller key at it.
pub proof fn lemma_insert_pos_char(entries: Seq<(Seq<char>, ValueV)>, k: Seq<char>, p: int)
    requires
        0 <= p <= entries.len(),
        forall|j: int| 0 <= j < p ==> lex_lt((#[trigger] entries[j]).0, k),
        p < entries.len() ==> !lex_lt(entries[p].0, k),
    ensures
        insert_pos(entries, k) == p,
    decreases entries.len(),
{
    if entries.len() > 0 {
        if p == 0 {
        } else {
            assert(lex_lt(entries[0].0, k));
            assert(entries.first() == entries[0]);
            let rest = entries.drop_first();
            assert forall|j: int| 0 <= j < p - 1 implies lex_lt((#[trigger] rest[j]).0, k) by {
                assert(rest[j] == entries[j + 1]);
            }
            if p - 1 < rest.len() {
                assert(rest[p - 1] == entries[p]);
            }
            lemma_insert_pos_char(rest, k, p - 1);
        }
    }
}

/// The basic bounds and prefix property of `insert_pos`.
pub proof fn lemma_insert_pos_bounds(entries: Seq<(Seq<char>, ValueV)>, k: Seq<char>)
    ensures
        0 <= insert_pos(entries, k) <= entries.len(),
        forall|j: int|
            0 <= j < insert_pos(entries, k) ==> lex_lt((#[trigger] entries[j]).0, k),
        insert_pos(entries, k) < entries.len() ==> !lex_lt(
            entries[insert_pos(entries, k)].0,
            k,
        ),
    decreases entries.len(),
{
    if entries.len() > 0 {
        lemma_insert_pos_bounds(entries.drop_first(), k);
        if lex_lt(entries.first().0, k) {
            let rest = entries.drop_first();
            let p = 1 + insert_pos(rest, k);
            assert forall|j: int| 0 <= j < p implies lex_lt((#[trigger] entries[j]).0, k) by {
                if j == 0 {
                    assert(entries[0] == entries.first());
                } else {
                    assert(rest[j - 1] == entries[j]);
                }
            }
            if p < entries.len() {
                assert(rest[p - 1] == entries[p]);
            }
        }
    }
}

/// Inserting into sorted entries keeps them sorted.
pub proof fn lemma_insert_preserves_sorted(
    entries: Seq<(Seq<char>, ValueV)>,
    k: Seq<char>,
    v: ValueV,
)
    requires
        entries_sorted(entries),
    ensures
        entries_sorted(spec_entry_insert(entries, k, v)),
{
    let p = insert_pos(entries, k);
    lemma_insert_pos_bounds(entries, k);
    if p < entries.len() && entries[p].0 == k {
        let out = entries.update(p, (k, v));
        assert forall|i: int, j: int| 0 <= i < j < out.len() implies lex_lt(
            out[i].0,
            out[j].0,
        ) by {
            assert(lex_lt(entries[i].0, entries[j].0));
        }
    } else {
        let out = entries.insert(p, (k, v));
        assert forall|i: int, j: int| 0 <= i < j < out.len() implies lex_lt(
            out[i].0,
            out[j].0,
        ) by {
            if i < p && j == p {
                assert(out[i] == entries[i]);
            } else if i == p && j > p {
                assert(out[j] == entries[j - 1]);
                if lex_lt(entries[j - 1].0, k) {
                    if j - 1 > p {
                        assert(lex_lt(entries[p].0, entries[j - 1].0));
                        lemma_lex_transitive(entries[p].0, entries[j - 1].0, k);
                    }
                    assert(false);
                }
                lemma_lex_total(k, entries[j - 1].0);
                if k == entries[j - 1].0 {
                    if j - 1 > p {
                        assert(lex_lt(entries[p].0, entries[j - 1].0));
                    }
                    assert(false);
                }
            } else if j < p {
                assert(out[i] == entries[i]);
                assert(out[j] == entries[j]);
            } else if i > p {
                assert(out[i] == entries[i - 1]);
                assert(out[j] == entries[j - 1]);
            } else {
                assert(i < p && j > p);
                assert(out[i] == entries[i]);
                assert(out[j] == entries[j - 1]);
                if j - 1 == i {
                    assert(lex_lt(entries[i].0, k));
                    assert(false);
                } else {
                    assert(lex_lt(entries[i].0, entries[j - 1].0));
                }
            }
        }
    }
}

/// Finds the sorted position for a key among the entries.
#[verifier::loop_isolation(false)]
fn find_pos(entries: &Vec<(String, GritResolvedPattern)>, key: &String) -> (p: usize)
    ensures
        p as int == insert_pos(eviews(entries@), key@),
        p <= entries.len(),
{
    let ghost ev = eviews(entries@);
    proof {
        lemma_eviews(entries@);
    }
    let mut i: usize = 0;
    while i < entries.len()
        invariant
            i <= entries.len(),
            forall|j: int| 0 <= j < i ==> lex_lt((#[trigger] ev[j]).0, key@),
        decreases entries.len() - i,
    {
        if !str_lt(entries[i].0.as_str(), key.as_str()) {
            proof {
                lemma_insert_pos_char(ev, key@, i as int);
            }
            return i;
        }
        i += 1;
    }
    proof {
        lemma_insert_pos_char(ev, key@, entries.len() as int);
    }
    entries.len()
}

/// Inserts a key/value pair into sorted map entries, replacing the entry
/// with an equal key if there is one; per `spec_entry_insert`.
#[verifier::loop_isolation(false)]
pub fn map_insert(
    entries: &mut Vec<(String, GritResolvedPattern)>,
    key: String,
    value: GritResolvedPattern,
)
    ensures
        eviews(final(entries)@) == spec_entry_insert(
            eviews(old(entries)@),
            key@,
            value.deep_view(),
        ),
{
    let ghost ev0 = eviews(old(entries)@);
    proof {
        lemma_eviews(old(entries)@);
    }
    let p = find_pos(entries, &key);
    let ghost vv = value.deep_view();
    if p < entries.len() && str_eq(entries[p].0.as_str(), key.as_str()) {
        entries.remove(p);
        entries.insert(p, (key, value));
        proof {
            lemma_eviews(entries@);
            assert(eviews(entries@) =~= ev0.update(p as int, (key@, vv)));
        }
    } else {
        entries.insert(p, (key, value));
        proof {
            lemma_eviews(entries@);
            assert(eviews(entries@) =~= ev0.insert(p as int, (key@, vv)));
        }
    }
}

/// Building a two-entry map is independent of insertion order: inserting
/// two distinct keys into the empty entry list yields the same sorted
/// entries either way, so rendering is deterministic regardless of
/// construction order.
pub proof fn lemma_insert_order_irrelevant(k1: Seq<char>, v1: ValueV, k2: Seq<char>, v2: ValueV)
    requires
        k1 != k2,
    ensures
        spec_entry_insert(spec_entry_insert(Seq::empty(), k1, v1), k2, v2) == spec_entry_insert(
            spec_entry_insert(Seq::empty(), k2, v2),
            k1,
            v1,
        ),
{
    lemma_lex_total(k1, k2);
    lemma_lex_asymmetric(k1, k2);
    let one1 = spec_entry_insert(Seq::empty(), k1, v1);
    let one2 = spec_entry_insert(Seq::empty(), k2, v2);
    assert(one1 =~= seq![(k1, v1)]);
    assert(one2 =~= seq![(k2, v2)]);
    if lex_lt(k1, k2) {
        lemma_insert_pos_char(one1, k2, 1);
        lemma_insert_pos_char(one2, k1, 0);
        assert(spec_entry_insert(one1, k2, v2) =~= seq![(k1, v1), (k2, v2)]);
        assert(spec_entry_insert(one2, k1, v1) =~= seq![(k1, v1), (k2, v2)]);
    } else {
        assert(lex_lt(k2, k1));
        lemma_insert_pos_char(one1, k2, 0);
        lemma_insert_pos_char(one2, k1, 1);
        assert(spec_entry_insert(one1, k2, v2) =~= seq![(k2, v2), (k1, v1)]);
        assert(spec_entry_insert(one2, k1, v1) =~= seq![(k2, v2), (k1, v1)]);
    }
}

} // verus!
