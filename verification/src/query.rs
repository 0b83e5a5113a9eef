//! The view query engine and request orchestration.
//!
//! Given a field's full `(timestamp, patch)` history in arrival order, a
//! view first filters it — keeping entries whose patch belongs to the
//! view's field and, when a range is given, whose timestamp lies within
//! `[from, to]` inclusive — and then projects the matching values. Typed
//! aggregates enforce homogeneity: one non-conforming value fails the whole
//! projection; partial aggregates are never returned.

use vstd::prelude::*;
use vstd::view::View as _;

use crate::keys::{mk_field_key, mk_fields_wildcard, spec_field_key, spec_fields_wildcard,
    valid_entity_id, validate_entity_id};
use crate::outside::{now_millis, unique_strings};
use crate::types::{Mismatch, Patch, Projected, Projection, QueryError, Range, SpecPatch,
    SpecProjected, SpecProjection, SpecQueryError, SpecVal, SpecView, Val, View};

verus! {

/// Whether a timestamp lies within an optional inclusive range.
pub open spec fn in_range(t: u64, range: Option<Range>) -> bool {
    match range {
        Some(r) => r.from <= t && t <= r.to,
        None => true,
    }
}

/// Whether one log entry survives a view's filter: its patch names the
/// view's field and its timestamp lies within the view's range.
pub open spec fn entry_matches(v: SpecView, e: (u64, SpecPatch)) -> bool {
    e.1.field == v.field && in_range(e.0, v.range)
}

/// The patches of `entries` that survive `v`'s filter, in arrival order.
pub open spec fn filtered(v: SpecView, entries: Seq<(u64, SpecPatch)>) -> Seq<SpecPatch>
    decreases entries.len(),
{
    if entries.len() == 0 {
        Seq::empty()
    } else {
        let rest = filtered(v, entries.drop_last());
        if entry_matches(v, entries.last()) {
            rest.push(entries.last().1)
        } else {
            rest
        }
    }
}

/// The values of a patch sequence, in order.
pub open spec fn values_of(ps: Seq<SpecPatch>) -> Seq<SpecVal> {
    ps.map_values(|p: SpecPatch| p.value)
}

/// Keeps the entries of `patches` whose patch belongs to `view`'s field
/// and, when the view carries a range, whose timestamp lies within it —
/// both bounds inclusive. Arrival order is preserved.
pub fn apply_filters(view: &View, patches: &Vec<(u64, Patch)>) -> (r: Vec<Patch>)
    ensures
        r.deep_view() == filtered(view@, patches.deep_view()),
{
    let ghost all = patches.deep_view();
    let mut r: Vec<Patch> = Vec::new();
    let n = patches.len();
    assert(all.take(0int) =~= Seq::empty());
    for i in 0..n
        invariant
            n == patches.len(),
            all == patches.deep_view(),
            r.deep_view() == filtered(view@, all.take(i as int)),
    {
        let t = patches[i].0;
        let matches_field = patches[i].1.field == view.field;
        let matches_range = match &view.range {
            Some(rg) => rg.from <= t && t <= rg.to,
            None => true,
        };
        if matches_field && matches_range {
            r.push(patches[i].1.dup());
        }
        proof {
            let pre = all.take(i as int);
            let e = all[i as int];
            assert(all.take(i + 1).drop_last() =~= pre);
            assert(all.take(i + 1).last() == e);
            assert(entry_matches(view@, e) == (matches_field && matches_range));
            if entry_matches(view@, e) {
                assert(r.deep_view() =~= filtered(view@, pre).push(e.1));
            }
        }
    }
    proof {
        assert(all.take(n as int) =~= all);
    }
    r
}

/// Whether every value of the stream is a number.
pub open spec fn all_numeric(vs: Seq<SpecVal>) -> bool {
    forall|i: int| 0 <= i < vs.len() ==> (#[trigger] vs[i]) is Num
}

/// Whether every value of the stream is a string.
pub open spec fn all_strings(vs: Seq<SpecVal>) -> bool {
    forall|i: int| 0 <= i < vs.len() ==> (#[trigger] vs[i]) is Str
}

/// Whether every value of the stream is a boolean.
pub open spec fn all_booleans(vs: Seq<SpecVal>) -> bool {
    forall|i: int| 0 <= i < vs.len() ==> (#[trigger] vs[i]) is Bool
}

/// The sum of the first `k` values of a numeric stream.
pub open spec fn sum_first(vs: Seq<SpecVal>, k: int) -> int
    decreases k,
{
    if k <= 0 {
        0
    } else {
        sum_first(vs, k - 1) + vs[k - 1]->Num_0
    }
}

/// The sum of a numeric stream; an empty stream sums to zero.
pub open spec fn sum_of(vs: Seq<SpecVal>) -> int {
    sum_first(vs, vs.len() as int)
}

/// The first `k` strings of the stream joined with `sep`.
pub open spec fn join_first(vs: Seq<SpecVal>, sep: Seq<char>, k: int) -> Seq<char>
    decreases k,
{
    if k <= 0 {
        Seq::empty()
    } else if k == 1 {
        vs[0]->Str_0
    } else {
        join_first(vs, sep, k - 1) + sep + vs[k - 1]->Str_0
    }
}

/// The strings of the stream joined, in order, with `sep`; empty on an
/// empty stream.
pub open spec fn join_with(vs: Seq<SpecVal>, sep: Seq<char>) -> Seq<char> {
    join_first(vs, sep, vs.len() as int)
}

/// Whether every value of a boolean stream is true; vacuously true.
pub open spec fn all_true(vs: Seq<SpecVal>) -> bool {
    forall|i: int| 0 <= i < vs.len() ==> (#[trigger] vs[i])->Bool_0
}

/// Whether at least one value of a boolean stream is true; vacuously false.
pub open spec fn any_true(vs: Seq<SpecVal>) -> bool {
    exists|i: int| 0 <= i < vs.len() && (#[trigger] vs[i])->Bool_0
}

/// `Latest`: the value of the last patch in arrival order, or `Null` when
/// there is none. Zero matches is not an error.
pub fn latest(patches: &Vec<Patch>) -> (r: Projected)
    ensures
        r@ == (if patches.deep_view().len() == 0 {
            SpecProjected::Null
        } else {
            SpecProjected::One(patches.deep_view().last().value)
        }),
{
    if patches.len() == 0 {
        Projected::Null
    } else {
        Projected::One(patches[patches.len() - 1].value.dup())
    }
}

/// `Collect`: every value, in arrival order, duplicates retained.
pub fn collect(patches: &Vec<Patch>) -> (r: Projected)
    ensures
        r@ == SpecProjected::Many(values_of(patches.deep_view())),
{
    let ghost vals = values_of(patches.deep_view());
    let mut out: Vec<Val> = Vec::new();
    let n = patches.len();
    for i in 0..n
        invariant
            n == patches.len(),
            vals == values_of(patches.deep_view()),
            out.deep_view().len() == i as int,
            forall|j: int| 0 <= j < i ==> out.deep_view()[j] == vals[j],
    {
        out.push(patches[i].value.dup());
    }
    proof {
        assert(out.deep_view() =~= vals);
    }
    Projected::Many(out)
}

/// `Sum`: the arithmetic sum of a numeric stream; zero matches sums to
/// zero. One non-numeric value fails the whole projection.
pub fn sum(patches: &Vec<Patch>) -> (r: Result<Projected, QueryError>)
    ensures
        ({
            let vs = values_of(patches.deep_view());
            match r {
                Ok(p) => all_numeric(vs) && p@ == SpecProjected::Num(sum_of(vs)),
                Err(e) => !all_numeric(vs) && e@ == SpecQueryError::TypeMismatch(
                    Mismatch::NonNumericSum,
                ),
            }
        }),
{
    match sum_values(patches) {
        Some(acc) => Ok(Projected::Num(acc)),
        None => Err(QueryError::TypeMismatch(Mismatch::NonNumericSum)),
    }
}

/// The sum of the patches' values, or `None` when one of them is not a
/// number.
fn sum_values(patches: &Vec<Patch>) -> (r: Option<i128>)
    ensures
        ({
            let vs = values_of(patches.deep_view());
            match r {
                Some(acc) => all_numeric(vs) && acc as int == sum_of(vs),
                None => !all_numeric(vs),
            }
        }),
{
    let ghost vs = values_of(patches.deep_view());
    let mut acc: i128 = 0;
    let n = patches.len();
    for i in 0..n
        invariant
            n == patches.len(),
            vs == values_of(patches.deep_view()),
            forall|j: int| 0 <= j < i ==> (#[trigger] vs[j]) is Num,
            acc as int == sum_first(vs, i as int),
            -((i as int) * 0x8000_0000_0000_0000) <= acc as int <= (i as int)
                * 0x7fff_ffff_ffff_ffff,
    {
        match patches[i].value.as_num() {
            Some(v) => {
                proof {
                    let im = i as int;
                    assert((im + 1) * 0x7fff_ffff_ffff_ffff == im * 0x7fff_ffff_ffff_ffff
                        + 0x7fff_ffff_ffff_ffff) by (nonlinear_arith);
                    assert((im + 1) * 0x8000_0000_0000_0000 == im * 0x8000_0000_0000_0000
                        + 0x8000_0000_0000_0000) by (nonlinear_arith);
                    assert((im + 1) * 0x7fff_ffff_ffff_ffff <= 0xffff_ffff_ffff_ffff
                        * 0x7fff_ffff_ffff_ffff) by (nonlinear_arith)
                        requires
                            0 <= im + 1 <= 0xffff_ffff_ffff_ffff,
                    ;
                    assert((im + 1) * 0x8000_0000_0000_0000 <= 0xffff_ffff_ffff_ffff
                        * 0x8000_0000_0000_0000) by (nonlinear_arith)
                        requires
                            0 <= im + 1 <= 0xffff_ffff_ffff_ffff,
                    ;
                }
                acc = acc + v as i128;
            },
            None => {
                proof {
                    assert(0 <= (i as int) < vs.len() && !(vs[i as int] is Num));
                }
                return None;
            },
        }
    }
    Some(acc)
}

/// `Avg`: the exact average of a non-empty numeric stream, as the pair of
/// its sum and its count. Zero matches is an error, as is one non-numeric
/// value.
pub fn avg(patches: &Vec<Patch>) -> (r: Result<Projected, QueryError>)
    ensures
        ({
            let vs = values_of(patches.deep_view());
            match r {
                Ok(p) => all_numeric(vs) && vs.len() > 0 && p@ == SpecProjected::Ratio(
                    sum_of(vs),
                    vs.len() as int,
                ),
                Err(e) => !(all_numeric(vs) && vs.len() > 0) && e@ == SpecQueryError::TypeMismatch(
                    if !all_numeric(vs) {
                        Mismatch::NonNumericAvg
                    } else {
                        Mismatch::EmptyAvg
                    },
                ),
            }
        }),
{
    match sum_values(patches) {
        Some(acc) => {
            if patches.len() == 0 {
                Err(QueryError::TypeMismatch(Mismatch::EmptyAvg))
            } else {
                Ok(Projected::Ratio(acc, patches.len()))
            }
        },
        None => Err(QueryError::TypeMismatch(Mismatch::NonNumericAvg)),
    }
}

/// `Concat`: the strings of the stream joined, in arrival order, with
/// `sep`; zero matches yield the empty string. One non-string value fails
/// the whole projection.
pub fn concat(patches: &Vec<Patch>, sep: &str) -> (r: Result<Projected, QueryError>)
    ensures
        ({
            let vs = values_of(patches.deep_view());
            match r {
                Ok(p) => all_strings(vs) && p@ == SpecProjected::Str(join_with(vs, sep@)),
                Err(e) => !all_strings(vs) && e@ == SpecQueryError::TypeMismatch(
                    Mismatch::NonStringConcat,
                ),
            }
        }),
{
    let ghost vs = values_of(patches.deep_view());
    let mut acc = String::new();
    let n = patches.len();
    for i in 0..n
        invariant
            n == patches.len(),
            vs == values_of(patches.deep_view()),
            forall|j: int| 0 <= j < i ==> (#[trigger] vs[j]) is Str,
            acc@ == join_first(vs, sep@, i as int),
    {
        match patches[i].value.as_str() {
            Some(s) => {
                if i > 0 {
                    acc.append(sep);
                }
                acc.append(s);
            },
            None => {
                proof {
                    assert(0 <= (i as int) < vs.len() && !(vs[i as int] is Str));
                }
                return Err(QueryError::TypeMismatch(Mismatch::NonStringConcat));
            },
        }
    }
    Ok(Projected::Str(acc))
}

/// `All`: true iff every value of a boolean stream is true; vacuously true
/// on zero matches. One non-boolean value fails the whole projection.
pub fn all(patches: &Vec<Patch>) -> (r: Result<Projected, QueryError>)
    ensures
        ({
            let vs = values_of(patches.deep_view());
            match r {
                Ok(p) => all_booleans(vs) && p@ == SpecProjected::Bool(all_true(vs)),
                Err(e) => !all_booleans(vs) && e@ == SpecQueryError::TypeMismatch(
                    Mismatch::NonBooleanAll,
                ),
            }
        }),
{
    match conjunction(patches) {
        Some(b) => Ok(Projected::Bool(b)),
        None => Err(QueryError::TypeMismatch(Mismatch::NonBooleanAll)),
    }
}

/// `Any`: true iff at least one value of a boolean stream is true;
/// vacuously false on zero matches. One non-boolean value fails the whole
/// projection.
pub fn any(patches: &Vec<Patch>) -> (r: Result<Projected, QueryError>)
    ensures
        ({
            let vs = values_of(patches.deep_view());
            match r {
                Ok(p) => all_booleans(vs) && p@ == SpecProjected::Bool(any_true(vs)),
                Err(e) => !all_booleans(vs) && e@ == SpecQueryError::TypeMismatch(
                    Mismatch::NonBooleanAny,
                ),
            }
        }),
{
    match disjunction(patches) {
        Some(b) => Ok(Projected::Bool(b)),
        None => Err(QueryError::TypeMismatch(Mismatch::NonBooleanAny)),
    }
}

/// `Nor`, the joint denial: true iff no value of a boolean stream is true;
/// vacuously true on zero matches, and the exact negation of `Any` on every
/// boolean stream. One non-boolean value fails the whole projection.
pub fn nor(patches: &Vec<Patch>) -> (r: Result<Projected, QueryError>)
    ensures
        ({
            let vs = values_of(patches.deep_view());
            match r {
                Ok(p) => all_booleans(vs) && p@ == SpecProjected::Bool(!any_true(vs)),
                Err(e) => !all_booleans(vs) && e@ == SpecQueryError::TypeMismatch(
                    Mismatch::NonBooleanNor,
                ),
            }
        }),
{
    match disjunction(patches) {
        Some(b) => Ok(Projected::Bool(!b)),
        None => Err(QueryError::TypeMismatch(Mismatch::NonBooleanNor)),
    }
}

/// The conjunction of the patches' boolean values, or `None` when one of
/// them is not a boolean. Every value is inspected: a non-boolean fails the
/// stream even after a false.
fn conjunction(patches: &Vec<Patch>) -> (r: Option<bool>)
    ensures
        ({
            let vs = values_of(patches.deep_view());
            match r {
                Some(b) => all_booleans(vs) && b == all_true(vs),
                None => !all_booleans(vs),
            }
        }),
{
    let ghost vs = values_of(patches.deep_view());
    let mut acc = true;
    let n = patches.len();
    for i in 0..n
        invariant
            n == patches.len(),
            vs == values_of(patches.deep_view()),
            forall|j: int| 0 <= j < i ==> (#[trigger] vs[j]) is Bool,
            acc == (forall|j: int| 0 <= j < i ==> (#[trigger] vs[j])->Bool_0),
    {
        match patches[i].value.as_bool() {
            Some(b) => {
                acc = acc && b;
            },
            None => {
                proof {
                    assert(0 <= (i as int) < vs.len() && !(vs[i as int] is Bool));
                }
                return None;
            },
        }
    }
    Some(acc)
}

/// The disjunction of the patches' boolean values, or `None` when one of
/// them is not a boolean. Every value is inspected: a non-boolean fails the
/// stream even after a true.
fn disjunction(patches: &Vec<Patch>) -> (r: Option<bool>)
    ensures
        ({
            let vs = values_of(patches.deep_view());
            match r {
                Some(b) => all_booleans(vs) && b == any_true(vs),
                None => !all_booleans(vs),
            }
        }),
{
    let ghost vs = values_of(patches.deep_view());
    let mut acc = false;
    let n = patches.len();
    for i in 0..n
        invariant
            n == patches.len(),
            vs == values_of(patches.deep_view()),
            forall|j: int| 0 <= j < i ==> (#[trigger] vs[j]) is Bool,
            acc == (exists|j: int| 0 <= j < i && (#[trigger] vs[j])->Bool_0),
    {
        match patches[i].value.as_bool() {
            Some(b) => {
                acc = acc || b;
            },
            None => {
                proof {
                    assert(0 <= (i as int) < vs.len() && !(vs[i as int] is Bool));
                }
                return None;
            },
        }
    }
    Some(acc)
}

/// The result a projection evaluation models: the projected value or the
/// error, each by its mathematical view.
pub open spec fn res_view(r: Result<Projected, QueryError>) -> Result<
    SpecProjected,
    SpecQueryError,
> {
    match r {
        Ok(p) => Ok(p@),
        Err(e) => Err(e@),
    }
}

/// What projecting `v` over a field's full history yields: the filtered
/// values reduced by the view's projection, or the error its homogeneity
/// rule raises.
pub open spec fn spec_proj(v: SpecView, entries: Seq<(u64, SpecPatch)>) -> Result<
    SpecProjected,
    SpecQueryError,
> {
    let vs = values_of(filtered(v, entries));
    match v.projection {
        SpecProjection::Latest => Ok(
            if vs.len() == 0 {
                SpecProjected::Null
            } else {
                SpecProjected::One(vs.last())
            },
        ),
        SpecProjection::Collect => Ok(SpecProjected::Many(vs)),
        SpecProjection::Avg => if !all_numeric(vs) {
            Err(SpecQueryError::TypeMismatch(Mismatch::NonNumericAvg))
        } else if vs.len() == 0 {
            Err(SpecQueryError::TypeMismatch(Mismatch::EmptyAvg))
        } else {
            Ok(SpecProjected::Ratio(sum_of(vs), vs.len() as int))
        },
        SpecProjection::Sum => if all_numeric(vs) {
            Ok(SpecProjected::Num(sum_of(vs)))
        } else {
            Err(SpecQueryError::TypeMismatch(Mismatch::NonNumericSum))
        },
        SpecProjection::Concat(sep) => if all_strings(vs) {
            Ok(SpecProjected::Str(join_with(vs, sep)))
        } else {
            Err(SpecQueryError::TypeMismatch(Mismatch::NonStringConcat))
        },
        SpecProjection::All => if all_booleans(vs) {
            Ok(SpecProjected::Bool(all_true(vs)))
        } else {
            Err(SpecQueryError::TypeMismatch(Mismatch::NonBooleanAll))
        },
        SpecProjection::Any => if all_booleans(vs) {
            Ok(SpecProjected::Bool(any_true(vs)))
        } else {
            Err(SpecQueryError::TypeMismatch(Mismatch::NonBooleanAny))
        },
        SpecProjection::Nor => if all_booleans(vs) {
            Ok(SpecProjected::Bool(!any_true(vs)))
        } else {
            Err(SpecQueryError::TypeMismatch(Mismatch::NonBooleanNor))
        },
    }
}

/// Filters `patches` by `view` and applies the view's projection. Typed
/// aggregates fail on the first non-conforming value; no partial aggregate
/// is returned.
pub fn proj(view: &View, patches: &Vec<(u64, Patch)>) -> (r: Result<Projected, QueryError>)
    ensures
        res_view(r) == spec_proj(view@, patches.deep_view()),
{
    let flt = apply_filters(view, patches);
    let ghost vs = values_of(flt.deep_view());
    proof {
        if vs.len() > 0 {
            assert(vs.last() == flt.deep_view().last().value);
        }
    }
    match &view.projection {
        Projection::Latest => Ok(latest(&flt)),
        Projection::Collect => Ok(collect(&flt)),
        Projection::Avg => avg(&flt),
        Projection::Sum => sum(&flt),
        Projection::Concat(sep) => concat(&flt, sep.as_str()),
        Projection::All => all(&flt),
        Projection::Any => any(&flt),
        Projection::Nor => nor(&flt),
    }
}

/// A field-name-to-history map, as the app assembles it from one storage
/// read per distinct field. Lookup finds the first binding of a name.
pub struct PatchMap {
    pub inner: Vec<(String, Vec<(u64, Patch)>)>,
}

impl vstd::prelude::View for PatchMap {
    type V = Seq<(Seq<char>, Seq<(u64, SpecPatch)>)>;

    open spec fn view(&self) -> Seq<(Seq<char>, Seq<(u64, SpecPatch)>)> {
        self.inner.deep_view()
    }
}

/// The history bound to `field`: the first binding wins.
pub open spec fn spec_lookup(m: Seq<(Seq<char>, Seq<(u64, SpecPatch)>)>, field: Seq<char>) -> Option<
    Seq<(u64, SpecPatch)>,
>
    decreases m.len(),
{
    if m.len() == 0 {
        None
    } else if m[0].0 == field {
        Some(m[0].1)
    } else {
        spec_lookup(m.drop_first(), field)
    }
}

impl PatchMap {
    /// An empty map.
    pub fn new() -> (r: Self)
        ensures
            r@ =~= Seq::<(Seq<char>, Seq<(u64, SpecPatch)>)>::empty(),
    {
        PatchMap { inner: Vec::new() }
    }

    /// Binds `field` to `entries`. An earlier binding of the same name
    /// keeps priority on lookup.
    pub fn insert(&mut self, field: String, entries: Vec<(u64, Patch)>)
        ensures
            final(self)@ == old(self)@.push((field@, entries.deep_view())),
    {
        self.inner.push((field, entries));
        proof {
            assert(final(self)@ =~= old(self)@.push(
                (self.inner@.last().0@, self.inner@.last().1.deep_view()),
            ));
        }
    }

    /// The history bound to `field`, or `None` when the name is absent.
    pub fn get(&self, field: &String) -> (r: Option<&Vec<(u64, Patch)>>)
        ensures
            match r {
                Some(entries) => spec_lookup(self@, field@) == Some(entries.deep_view()),
                None => spec_lookup(self@, field@) is None,
            },
    {
        let n = self.inner.len();
        proof {
            assert(self@.skip(0int) =~= self@);
        }
        for i in 0..n
            invariant
                n == self.inner.len(),
                spec_lookup(self@, field@) == spec_lookup(self@.skip(i as int), field@),
        {
            proof {
                assert(self@.skip(i as int)[0] == self@[i as int]);
                assert(self@.skip(i as int).drop_first() =~= self@.skip(i + 1));
            }
            if self.inner[i].0 == *field {
                return Some(&self.inner[i].1);
            }
        }
        proof {
            assert(self@.skip(n as int).len() == 0);
        }
        None
    }
}

/// The label a view's result carries: the alias when present, else the
/// field name.
pub open spec fn label_of(v: SpecView) -> Seq<char> {
    match v.alias {
        Some(a) => a,
        None => v.field,
    }
}

/// What answering one view against the map yields: its labeled projection,
/// or the error of a failed lookup or projection.
pub open spec fn spec_view_one(
    v: SpecView,
    m: Seq<(Seq<char>, Seq<(u64, SpecPatch)>)>,
) -> Result<(Seq<char>, SpecProjected), SpecQueryError> {
    match spec_lookup(m, v.field) {
        Some(entries) => match spec_proj(v, entries) {
            Ok(p) => Ok((label_of(v), p)),
            Err(e) => Err(e),
        },
        None => Err(SpecQueryError::FieldNotFound),
    }
}

/// What answering every view yields: all labeled results in view order, or
/// the first error in view order. The whole query fails with that single
/// error; later views contribute nothing.
pub open spec fn spec_view_all(
    views: Seq<SpecView>,
    m: Seq<(Seq<char>, Seq<(u64, SpecPatch)>)>,
) -> Result<Seq<(Seq<char>, SpecProjected)>, SpecQueryError>
    decreases views.len(),
{
    if views.len() == 0 {
        Ok(Seq::empty())
    } else {
        match spec_view_all(views.drop_last(), m) {
            Ok(rs) => match spec_view_one(views.last(), m) {
                Ok(x) => Ok(rs.push(x)),
                Err(e) => Err(e),
            },
            Err(e) => Err(e),
        }
    }
}

/// Once a prefix of the views has failed, the whole list fails with the
/// same error: evaluation short-circuits on the first error in view order.
proof fn lemma_view_all_err_prefix(
    views: Seq<SpecView>,
    m: Seq<(Seq<char>, Seq<(u64, SpecPatch)>)>,
    k: int,
)
    requires
        0 <= k <= views.len(),
        spec_view_all(views.take(k), m) is Err,
    ensures
        spec_view_all(views, m) == spec_view_all(views.take(k), m),
    decreases views.len() - k,
{
    if k == views.len() {
        assert(views.take(k) =~= views);
    } else {
        assert(views.take(k + 1).drop_last() =~= views.take(k));
        assert(spec_view_all(views.take(k + 1), m) == spec_view_all(views.take(k), m));
        lemma_view_all_err_prefix(views, m, k + 1);
    }
}

/// Answers every view against the field histories in `map`: validates the
/// entity id, then evaluates each view independently. On success the
/// labeled results come back in view order; otherwise the first error in
/// view order is the whole query's answer.
pub fn view(entity_id: &str, views: &Vec<View>, map: &PatchMap) -> (r: Result<
    Vec<(String, Projected)>,
    QueryError,
>)
    ensures
        !valid_entity_id(entity_id@) ==> (r matches Err(e) && e@ == SpecQueryError::InvalidEntityId),
        valid_entity_id(entity_id@) ==> match spec_view_all(views.deep_view(), map@) {
            Ok(s) => r matches Ok(out) && out.deep_view() == s,
            Err(e) => r matches Err(err) && err@ == e,
        },
{
    if !validate_entity_id(entity_id) {
        return Err(QueryError::InvalidEntityId);
    }
    let ghost dv = views.deep_view();
    let mut out: Vec<(String, Projected)> = Vec::new();
    let n = views.len();
    proof {
        assert(dv.take(0int) =~= Seq::<SpecView>::empty());
        assert(out.deep_view() =~= Seq::<(Seq<char>, SpecProjected)>::empty());
    }
    for i in 0..n
        invariant
            n == views.len(),
            dv == views.deep_view(),
            valid_entity_id(entity_id@),
            spec_view_all(dv.take(i as int), map@) == Ok::<_, SpecQueryError>(out.deep_view()),
    {
        proof {
            assert(dv.take(i + 1).drop_last() =~= dv.take(i as int));
            assert(dv.take(i + 1).last() == dv[i as int]);
        }
        let label = match &views[i].alias {
            Some(a) => a.clone(),
            None => views[i].field.clone(),
        };
        match map.get(&views[i].field) {
            Some(entries) => {
                match proj(&views[i], entries) {
                    Ok(p) => {
                        out.push((label, p));
                        proof {
                            assert(out.deep_view() =~= spec_view_all(
                                dv.take(i as int),
                                map@,
                            )->Ok_0.push((label_of(dv[i as int]), p@)));
                        }
                    },
                    Err(e) => {
                        proof {
                            lemma_view_all_err_prefix(dv, map@, i + 1);
                        }
                        return Err(e);
                    },
                }
            },
            None => {
                proof {
                    lemma_view_all_err_prefix(dv, map@, i + 1);
                }
                return Err(QueryError::FieldNotFound);
            },
        }
    }
    proof {
        assert(dv.take(n as int) =~= dv);
    }
    Ok(out)
}

/// The response object a labeled result sequence denotes once it is keyed
/// by label, as the serialization layer assembles it: each label maps to
/// the value of the last view, in view order, that produced it.
pub open spec fn spec_result_map(s: Seq<(Seq<char>, SpecProjected)>) -> Map<
    Seq<char>,
    SpecProjected,
>
    decreases s.len(),
{
    if s.len() == 0 {
        Map::empty()
    } else {
        spec_result_map(s.drop_last()).insert(s.last().0, s.last().1)
    }
}

/// The field names of the views, in view order.
pub open spec fn fields_of(views: Seq<SpecView>) -> Seq<Seq<char>> {
    views.map_values(|v: SpecView| v.field)
}

/// The distinct elements of `ss`, each at its first occurrence, in order.
pub open spec fn dedup_firsts(ss: Seq<Seq<char>>) -> Seq<Seq<char>>
    decreases ss.len(),
{
    if ss.len() == 0 {
        Seq::empty()
    } else {
        let rest = dedup_firsts(ss.drop_last());
        if ss.drop_last().contains(ss.last()) {
            rest
        } else {
            rest.push(ss.last())
        }
    }
}

/// The distinct field names the views reference, in first-occurrence
/// order: the fields whose histories a query must read, each once.
pub fn distinct_fields(views: &Vec<View>) -> (r: Vec<String>)
    ensures
        r.deep_view() == dedup_firsts(fields_of(views.deep_view())),
{
    let mut fields: Vec<String> = Vec::new();
    let n = views.len();
    for i in 0..n
        invariant
            n == views.len(),
            fields@.len() == i as int,
            forall|j: int| 0 <= j < i ==> (#[trigger] fields@[j])@ == views@[j].field@,
    {
        fields.push(views[i].field.clone());
    }
    proof {
        assert(fields.deep_view() =~= fields_of(views.deep_view()));
    }
    unique_strings(fields)
}

/// Zips the distinct field names with the histories the app read for them,
/// in the same order, into the map the view engine consumes.
pub fn build_patch_map(fields: Vec<String>, histories: Vec<Vec<(u64, Patch)>>) -> (r: PatchMap)
    requires
        fields@.len() == histories@.len(),
    ensures
        r@.len() == fields@.len(),
        forall|j: int| 0 <= j < fields@.len() ==> r@[j] == (
            fields.deep_view()[j],
            histories.deep_view()[j],
        ),
{
    let ghost gf = fields.deep_view();
    let ghost gh = histories.deep_view();
    let mut r = PatchMap::new();
    let mut fields = fields;
    let mut histories = histories;
    let n = fields.len();
    let mut k: usize = 0;
    while k < n
        invariant
            k <= n,
            n == gf.len() == gh.len(),
            fields@.len() == histories@.len() == (n - k) as int,
            forall|j: int| 0 <= j < (n - k) as int ==> (#[trigger] fields@[j]).deep_view() == gf[k
                + j] && histories@[j].deep_view() == gh[k + j],
            r@.len() == k as int,
            forall|j: int| 0 <= j < k ==> r@[j] == (gf[j], gh[j]),
        decreases n - k,
    {
        let ghost pf = fields@;
        let ghost ph = histories@;
        let f = fields.remove(0);
        let h = histories.remove(0);
        r.insert(f, h);
        k = k + 1;
        proof {
            assert(f.deep_view() == gf[(k - 1) as int]);
            assert(h.deep_view() == gh[(k - 1) as int]);
            assert forall|j: int| 0 <= j < (n - k) as int implies (#[trigger] fields@[j]).deep_view()
                == gf[k + j] && histories@[j].deep_view() == gh[k + j] by {
                assert(fields@[j] == pf[j + 1]);
                assert(histories@[j] == ph[j + 1]);
            }
        }
    }
    r
}

/// One storage append an ingestion performs: the field's storage key and
/// the `(timestamp, patch)` entry to push onto its log.
pub struct AppendCmd {
    pub key: String,
    pub entry: (u64, Patch),
}

/// Mathematical model of an [`AppendCmd`].
#[verifier::ext_equal]
pub struct SpecAppendCmd {
    pub key: Seq<char>,
    pub entry: (u64, SpecPatch),
}

impl vstd::prelude::View for AppendCmd {
    type V = SpecAppendCmd;

    open spec fn view(&self) -> SpecAppendCmd {
        SpecAppendCmd { key: self.key@, entry: (self.entry.0, self.entry.1@) }
    }
}

impl DeepView for AppendCmd {
    type V = SpecAppendCmd;

    open spec fn deep_view(&self) -> SpecAppendCmd {
        self.view()
    }
}

/// The appends an ingestion of `patches` under `entity_id` performs, in
/// arrival order: each patch goes to its field's key, stamped with the one
/// batch timestamp.
pub open spec fn spec_appends(entity_id: Seq<char>, patches: Seq<SpecPatch>, ts: u64) -> Seq<
    SpecAppendCmd,
> {
    patches.map_values(
        |p: SpecPatch| SpecAppendCmd { key: spec_field_key(entity_id, p.field), entry: (ts, p) },
    )
}

/// A whole ingestion batch, ready for the store: the one timestamp every
/// patch was stamped with, and the appends in arrival order. The store must
/// apply them in one atomic transaction.
pub struct AppendPlan {
    pub timestamp: u64,
    pub appends: Vec<AppendCmd>,
}

/// Plans the ingestion of `patches` under `entity_id` at `timestamp`:
/// validates the id, then stamps every patch with that one timestamp and
/// routes it to its field's storage key, in arrival order.
pub fn append_plan(entity_id: &str, patches: &Vec<Patch>, timestamp: u64) -> (r: Result<
    Vec<AppendCmd>,
    QueryError,
>)
    ensures
        match r {
            Ok(cmds) => valid_entity_id(entity_id@) && cmds.deep_view() == spec_appends(
                entity_id@,
                patches.deep_view(),
                timestamp,
            ),
            Err(e) => !valid_entity_id(entity_id@) && e@ == SpecQueryError::InvalidEntityId,
        },
{
    if !validate_entity_id(entity_id) {
        return Err(QueryError::InvalidEntityId);
    }
    let ghost dv = patches.deep_view();
    let mut cmds: Vec<AppendCmd> = Vec::new();
    let n = patches.len();
    for i in 0..n
        invariant
            n == patches.len(),
            dv == patches.deep_view(),
            cmds@.len() == i as int,
            forall|j: int| 0 <= j < i ==> (#[trigger] cmds@[j])@ == (SpecAppendCmd {
                key: spec_field_key(entity_id@, dv[j].field),
                entry: (timestamp, dv[j]),
            }),
    {
        let key = mk_field_key(entity_id, patches[i].field.as_str());
        cmds.push(AppendCmd { key, entry: (timestamp, patches[i].dup()) });
    }
    proof {
        assert(cmds.deep_view() =~= spec_appends(entity_id@, dv, timestamp));
    }
    Ok(cmds)
}

/// Handles an ingestion request: validates the entity id, stamps the whole
/// batch with one reading of the server clock, and plans the appends. The
/// id is checked before anything else; an invalid id performs no storage
/// work.
pub fn patch(entity_id: &str, patches: &Vec<Patch>) -> (r: Result<AppendPlan, QueryError>)
    ensures
        match r {
            Ok(plan) => valid_entity_id(entity_id@) && plan.appends.deep_view() == spec_appends(
                entity_id@,
                patches.deep_view(),
                plan.timestamp,
            ),
            Err(e) => !valid_entity_id(entity_id@) && e@ == SpecQueryError::InvalidEntityId,
        },
{
    let t = now_millis();
    let timestamp: u64 = if t > u64::MAX as u128 {
        u64::MAX
    } else {
        t as u64
    };
    match append_plan(entity_id, patches, timestamp) {
        Ok(appends) => Ok(AppendPlan { timestamp, appends }),
        Err(e) => Err(e),
    }
}

/// Handles a deletion request: validates the entity id and yields the
/// pattern that enumerates every field key of the entity, for the store to
/// delete in one atomic transaction. Deletion never fails on a valid id:
/// an entity with no fields yields a pattern matching no keys, and the
/// store deletes nothing — deleting a nonexistent entity succeeds.
pub fn delete(entity_id: &str) -> (r: Result<String, QueryError>)
    ensures
        match r {
            Ok(pattern) => valid_entity_id(entity_id@) && pattern@ == spec_fields_wildcard(
                entity_id@,
            ),
            Err(e) => !valid_entity_id(entity_id@) && e@ == SpecQueryError::InvalidEntityId,
        },
{
    if !validate_entity_id(entity_id) {
        return Err(QueryError::InvalidEntityId);
    }
    Ok(mk_fields_wildcard(entity_id))
}

} // verus!
