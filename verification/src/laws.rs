//! Laws of the query engine: what holds of every input, stated once and
//! proved, rather than only exercised on examples.

use vstd::prelude::*;

use crate::keys::{spec_field_key, spec_fields_wildcard, RESERVED_PREFIX, KEY_SEPARATOR};
use crate::query::{all_booleans, all_numeric, all_strings, any_true, dedup_firsts, entry_matches,
    fields_of, filtered, spec_lookup, spec_proj, spec_result_map, spec_view_all, values_of};
use crate::types::{Mismatch, SpecPatch, SpecProjected, SpecProjection, SpecQueryError,
    SpecVal, SpecView};

verus! {

/// The key prefix every field key of one entity shares; the entity's
/// wildcard is this prefix followed by the wildcard character.
pub open spec fn spec_entity_prefix(entity_id: Seq<char>) -> Seq<char> {
    seq![RESERVED_PREFIX] + entity_id + seq![KEY_SEPARATOR]
}

/// Law: every field key of an entity starts with the entity's key prefix,
/// and the entity's wildcard is exactly that prefix plus the wildcard
/// character. Deleting by the wildcard therefore enumerates every field
/// key the entity ever wrote: entity deletion is all-or-nothing across its
/// fields.
pub proof fn lemma_wildcard_covers_field_keys(entity_id: Seq<char>, field: Seq<char>)
    ensures
        spec_field_key(entity_id, field).take(spec_entity_prefix(entity_id).len() as int)
            == spec_entity_prefix(entity_id),
        spec_fields_wildcard(entity_id) == spec_entity_prefix(entity_id) + seq!['*'],
{
    assert(spec_field_key(entity_id, field).take(spec_entity_prefix(entity_id).len() as int)
        =~= spec_entity_prefix(entity_id));
    assert(spec_fields_wildcard(entity_id) =~= spec_entity_prefix(entity_id) + seq!['*']);
}

/// Two views that share field and range filter any history identically:
/// the filter reads nothing else of the view.
pub proof fn lemma_filtered_same(
    v1: SpecView,
    v2: SpecView,
    entries: Seq<(u64, SpecPatch)>,
)
    requires
        v1.field == v2.field,
        v1.range == v2.range,
    ensures
        filtered(v1, entries) == filtered(v2, entries),
    decreases entries.len(),
{
    if entries.len() > 0 {
        lemma_filtered_same(v1, v2, entries.drop_last());
    }
}

/// A matching entry's patch is in the filter's result.
pub proof fn lemma_filtered_contains(
    v: SpecView,
    entries: Seq<(u64, SpecPatch)>,
    i: int,
)
    requires
        0 <= i < entries.len(),
        entry_matches(v, entries[i]),
    ensures
        filtered(v, entries).contains(entries[i].1),
    decreases entries.len(),
{
    if i == entries.len() - 1 {
        assert(filtered(v, entries).last() == entries[i].1);
    } else {
        assert(entries.drop_last()[i] == entries[i]);
        lemma_filtered_contains(v, entries.drop_last(), i);
        let rest = filtered(v, entries.drop_last());
        let k = choose|k: int| 0 <= k < rest.len() && rest[k] == entries[i].1;
        if entry_matches(v, entries.last()) {
            assert(filtered(v, entries)[k] == entries[i].1);
        }
    }
}

/// Law: ingestion followed by `Latest` answers the most recently appended
/// value — the last in arrival order, not the largest. If a batch whose
/// patches all name the view's field is appended to the field's history,
/// each stamped with the one batch timestamp, an unranged `Latest` view
/// answers the last patch of the batch.
pub proof fn lemma_latest_after_append(
    v: SpecView,
    entries: Seq<(u64, SpecPatch)>,
    batch: Seq<SpecPatch>,
    ts: u64,
)
    requires
        v.projection is Latest,
        v.range is None,
        batch.len() > 0,
        forall|i: int| 0 <= i < batch.len() ==> (#[trigger] batch[i]).field == v.field,
    ensures
        spec_proj(v, entries + batch.map_values(|p: SpecPatch| (ts, p)))
            == Ok::<SpecProjected, SpecQueryError>(SpecProjected::One(batch.last().value)),
{
    let stamped = batch.map_values(|p: SpecPatch| (ts, p));
    let full = entries + stamped;
    assert(full.last() == (ts, batch.last()));
    assert(entry_matches(v, full.last()));
    assert(full.len() > 0);
    let flt = filtered(v, full);
    assert(flt == filtered(v, full.drop_last()).push(batch.last()));
    let vs = values_of(flt);
    assert(vs.last() == batch.last().value);
}

/// Law: one non-conforming value fails the whole typed aggregate with a
/// type-mismatch error; no partial aggregate over the conforming subset is
/// returned. `i` indexes any filtered value of the wrong type for the
/// view's aggregate.
pub proof fn lemma_mixed_stream_rejected(
    v: SpecView,
    entries: Seq<(u64, SpecPatch)>,
    i: int,
)
    requires
        0 <= i < values_of(filtered(v, entries)).len(),
        ({
            let x = values_of(filtered(v, entries))[i];
            match v.projection {
                SpecProjection::Sum => !(x is Num),
                SpecProjection::Avg => !(x is Num),
                SpecProjection::Concat(_) => !(x is Str),
                SpecProjection::All => !(x is Bool),
                SpecProjection::Any => !(x is Bool),
                SpecProjection::Nor => !(x is Bool),
                SpecProjection::Latest => false,
                SpecProjection::Collect => false,
            }
        }),
    ensures
        spec_proj(v, entries) matches Err(e) && e is TypeMismatch,
{
    let vs = values_of(filtered(v, entries));
    match v.projection {
        SpecProjection::Sum => {
            assert(!all_numeric(vs));
        },
        SpecProjection::Avg => {
            assert(!all_numeric(vs));
        },
        SpecProjection::Concat(_) => {
            assert(!all_strings(vs));
        },
        SpecProjection::All => {
            assert(!all_booleans(vs));
        },
        SpecProjection::Any => {
            assert(!all_booleans(vs));
        },
        SpecProjection::Nor => {
            assert(!all_booleans(vs));
        },
        _ => {},
    }
}

/// Law: the boolean projections on zero matches — `All` is vacuously true,
/// `Any` vacuously false, `Nor` vacuously true.
pub proof fn lemma_empty_boolean_projections(v: SpecView, entries: Seq<(u64, SpecPatch)>)
    requires
        filtered(v, entries).len() == 0,
    ensures
        v.projection is All ==> spec_proj(v, entries) == Ok::<SpecProjected, SpecQueryError>(
            SpecProjected::Bool(true),
        ),
        v.projection is Any ==> spec_proj(v, entries) == Ok::<SpecProjected, SpecQueryError>(
            SpecProjected::Bool(false),
        ),
        v.projection is Nor ==> spec_proj(v, entries) == Ok::<SpecProjected, SpecQueryError>(
            SpecProjected::Bool(true),
        ),
{
}

/// Law: `Nor` is the exact negation of `Any` on every boolean stream. Two
/// views that share field and range, one projecting `Any` and one `Nor`,
/// answer negated booleans over any history whose filtered values are all
/// booleans.
pub proof fn lemma_nor_negates_any(
    v_any: SpecView,
    v_nor: SpecView,
    entries: Seq<(u64, SpecPatch)>,
)
    requires
        v_any.projection is Any,
        v_nor.projection is Nor,
        v_any.field == v_nor.field,
        v_any.range == v_nor.range,
        all_booleans(values_of(filtered(v_any, entries))),
    ensures
        spec_proj(v_any, entries) == Ok::<SpecProjected, SpecQueryError>(
            SpecProjected::Bool(any_true(values_of(filtered(v_any, entries)))),
        ),
        spec_proj(v_nor, entries) == Ok::<SpecProjected, SpecQueryError>(
            SpecProjected::Bool(!any_true(values_of(filtered(v_any, entries)))),
        ),
{
    lemma_filtered_same(v_any, v_nor, entries);
}

/// Law: time-range filtering is inclusive on both ends. An entry of the
/// view's field whose timestamp is exactly `from` or exactly `to` of the
/// view's range survives the filter.
pub proof fn lemma_range_inclusive(v: SpecView, entries: Seq<(u64, SpecPatch)>, i: int)
    requires
        0 <= i < entries.len(),
        entries[i].1.field == v.field,
        v.range matches Some(rg) && rg.from <= rg.to && (entries[i].0 == rg.from || entries[i].0
            == rg.to),
    ensures
        filtered(v, entries).contains(entries[i].1),
{
    lemma_filtered_contains(v, entries, i);
}

/// Law: a view with zero matching patches yields the projection's neutral
/// answer — `Latest` the null value, `Collect` the empty sequence, `Sum`
/// zero, `Concat` the empty string — and `Avg` alone is an error, since an
/// empty stream has no average.
pub proof fn lemma_empty_stream_projections(v: SpecView, entries: Seq<(u64, SpecPatch)>)
    requires
        filtered(v, entries).len() == 0,
    ensures
        v.projection is Latest ==> spec_proj(v, entries) == Ok::<SpecProjected, SpecQueryError>(
            SpecProjected::Null,
        ),
        v.projection is Collect ==> spec_proj(v, entries) == Ok::<SpecProjected, SpecQueryError>(
            SpecProjected::Many(Seq::empty()),
        ),
        v.projection is Sum ==> spec_proj(v, entries) == Ok::<SpecProjected, SpecQueryError>(
            SpecProjected::Num(0),
        ),
        v.projection is Avg ==> spec_proj(v, entries) == Err::<SpecProjected, SpecQueryError>(
            SpecQueryError::TypeMismatch(Mismatch::EmptyAvg),
        ),
        v.projection matches SpecProjection::Concat(sep) ==> spec_proj(v, entries) == Ok::<
            SpecProjected,
            SpecQueryError,
        >(SpecProjected::Str(Seq::empty())),
{
    let vs = values_of(filtered(v, entries));
    assert(vs.len() == 0);
    if v.projection is Collect {
        assert(vs =~= Seq::<SpecVal>::empty());
    }
}

/// Every element of a sequence appears in its first-occurrence dedup.
pub proof fn lemma_dedup_contains(ss: Seq<Seq<char>>, i: int)
    requires
        0 <= i < ss.len(),
    ensures
        dedup_firsts(ss).contains(ss[i]),
    decreases ss.len(),
{
    if i == ss.len() - 1 {
        if ss.drop_last().contains(ss.last()) {
            let k = choose|k: int|
                0 <= k < ss.drop_last().len() && ss.drop_last()[k] == ss.last();
            lemma_dedup_contains(ss.drop_last(), k);
        } else {
            assert(dedup_firsts(ss).last() == ss[i]);
        }
    } else {
        assert(ss.drop_last()[i] == ss[i]);
        lemma_dedup_contains(ss.drop_last(), i);
        let rest = dedup_firsts(ss.drop_last());
        let k = choose|k: int| 0 <= k < rest.len() && rest[k] == ss[i];
        if !ss.drop_last().contains(ss.last()) {
            assert(dedup_firsts(ss)[k] == ss[i]);
        }
    }
}

/// A field name bound anywhere in the map is found by lookup.
pub proof fn lemma_lookup_finds(
    m: Seq<(Seq<char>, Seq<(u64, SpecPatch)>)>,
    f: Seq<char>,
    j: int,
)
    requires
        0 <= j < m.len(),
        m[j].0 == f,
    ensures
        spec_lookup(m, f) is Some,
    decreases m.len(),
{
    if m[0].0 != f {
        assert(m.drop_first()[j - 1] == m[j]);
        lemma_lookup_finds(m.drop_first(), f, j - 1);
    }
}

/// A projection fails only by its homogeneity rule: every error
/// `spec_proj` yields is a type mismatch.
pub proof fn lemma_proj_errors_are_type_mismatches(v: SpecView, entries: Seq<(u64, SpecPatch)>)
    ensures
        spec_proj(v, entries) matches Err(e) ==> e is TypeMismatch,
{
}

/// When every view's field is bound in the map, the whole query can fail
/// only by a homogeneity rule, never for want of a field.
pub proof fn lemma_bound_fields_never_miss(
    views: Seq<SpecView>,
    m: Seq<(Seq<char>, Seq<(u64, SpecPatch)>)>,
)
    requires
        forall|i: int| 0 <= i < views.len() ==> spec_lookup(
            m,
            (#[trigger] views[i]).field,
        ) is Some,
    ensures
        spec_view_all(views, m) matches Err(e) ==> e is TypeMismatch,
    decreases views.len(),
{
    if views.len() > 0 {
        assert forall|i: int| 0 <= i < views.drop_last().len() implies spec_lookup(
            m,
            (#[trigger] views.drop_last()[i]).field,
        ) is Some by {
            assert(views.drop_last()[i] == views[i]);
        }
        lemma_bound_fields_never_miss(views.drop_last(), m);
        assert(spec_lookup(m, views.last().field) is Some);
        lemma_proj_errors_are_type_mismatches(
            views.last(),
            spec_lookup(m, views.last().field)->Some_0,
        );
    }
}

/// Law: the read fan-out is complete. A map whose bindings are exactly the
/// views' distinct field names — as `distinct_fields` lists them and
/// `build_patch_map` binds them, one history per name — holds every field
/// any view references, so the query never fails for want of a field; only
/// a homogeneity rule can fail it.
pub proof fn lemma_fanout_reads_every_field(
    views: Seq<SpecView>,
    m: Seq<(Seq<char>, Seq<(u64, SpecPatch)>)>,
)
    requires
        m.len() == dedup_firsts(fields_of(views)).len(),
        forall|j: int| 0 <= j < m.len() ==> (#[trigger] m[j]).0 == dedup_firsts(
            fields_of(views),
        )[j],
    ensures
        spec_view_all(views, m) matches Err(e) ==> e is TypeMismatch,
{
    let names = dedup_firsts(fields_of(views));
    assert forall|i: int| 0 <= i < views.len() implies spec_lookup(
        m,
        (#[trigger] views[i]).field,
    ) is Some by {
        assert(fields_of(views)[i] == views[i].field);
        lemma_dedup_contains(fields_of(views), i);
        let k = choose|k: int| 0 <= k < names.len() && names[k] == views[i].field;
        lemma_lookup_finds(m, views[i].field, k);
    }
    lemma_bound_fields_never_miss(views, m);
}

/// Law: when several views produce the same label, the later one, in view
/// order, overwrites the earlier in the response map. The map binds each
/// label to the value of that label's last occurrence.
pub proof fn lemma_later_view_overwrites(s: Seq<(Seq<char>, SpecProjected)>, j: int)
    requires
        0 <= j < s.len(),
        forall|k: int| j < k < s.len() ==> (#[trigger] s[k]).0 != s[j].0,
    ensures
        spec_result_map(s).contains_key(s[j].0),
        spec_result_map(s)[s[j].0] == s[j].1,
    decreases s.len(),
{
    if j < s.len() - 1 {
        assert(s.drop_last()[j] == s[j]);
        lemma_later_view_overwrites(s.drop_last(), j);
    }
}

} // verus!
