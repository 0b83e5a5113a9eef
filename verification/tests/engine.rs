//! Projection and filter behaviour over concrete histories.

use eventity::query::all;
use eventity::query::any;
use eventity::query::apply_filters;
use eventity::query::avg;
use eventity::query::nor;
use eventity::query::proj;
use eventity::query::sum;
use eventity::types::{Mismatch, Patch, Projected, Projection, QueryError, Range, Val, View};

fn p(field: &str, value: Val) -> Patch {
    Patch { field: field.to_string(), value }
}

fn vq(field: &str, range: Option<Range>, projection: Projection) -> View {
    View { field: field.to_string(), alias: None, range, projection }
}

fn nums(field: &str, values: &[i64]) -> Vec<Patch> {
    values.iter().map(|n| p(field, Val::Num(*n))).collect()
}

fn num_of(r: &Projected) -> i128 {
    match r {
        Projected::Num(n) => *n,
        _ => panic!("expected a numeric projection"),
    }
}

fn mismatch_of(e: QueryError) -> Mismatch {
    match e {
        QueryError::TypeMismatch(m) => m,
        _ => panic!("expected a type mismatch"),
    }
}

#[test]
fn latest_returns_most_recent_not_largest() {
    let entries = vec![(1u64, p("x", Val::Num(5))), (2u64, p("x", Val::Num(3)))];
    let v = vq("x", None, Projection::Latest);
    match proj(&v, &entries).unwrap() {
        Projected::One(Val::Num(n)) => assert_eq!(n, 3),
        _ => panic!("latest must answer the last appended value"),
    }
}

#[test]
fn collect_preserves_order_count_and_duplicates() {
    let entries: Vec<(u64, Patch)> =
        [1i64, 2, 2, 1].iter().map(|n| (7u64, p("x", Val::Num(*n)))).collect();
    let v = vq("x", None, Projection::Collect);
    match proj(&v, &entries).unwrap() {
        Projected::Many(vals) => {
            let got: Vec<i64> = vals.iter().map(|v| v.as_num().unwrap()).collect();
            assert_eq!(got, vec![1, 2, 2, 1]);
        },
        _ => panic!("collect must answer the ordered values"),
    }
}

#[test]
fn sum_of_numbers_is_exact() {
    let r = sum(&nums("x", &[2, -3, 7])).unwrap();
    assert_eq!(num_of(&r), 6);
}

#[test]
fn avg_is_the_exact_ratio_of_sum_and_count() {
    match avg(&nums("x", &[2, 3, 4])).unwrap() {
        Projected::Ratio(sum, count) => {
            assert_eq!(sum, 9);
            assert_eq!(count, 3);
        },
        _ => panic!("avg must answer sum and count"),
    }
}

#[test]
fn concat_joins_in_order_with_separator() {
    let patches = vec![p("x", Val::Str("a".to_string())), p("x", Val::Str("b".to_string()))];
    match eventity::query::concat(&patches, ", ").unwrap() {
        Projected::Str(s) => assert_eq!(s, "a, b"),
        _ => panic!("concat must answer the joined string"),
    }
}

#[test]
fn boolean_projections_are_exact() {
    let tt = vec![p("x", Val::Bool(true)), p("x", Val::Bool(true))];
    let tf = vec![p("x", Val::Bool(true)), p("x", Val::Bool(false))];
    let ff = vec![p("x", Val::Bool(false)), p("x", Val::Bool(false))];
    assert!(matches!(all(&tt).unwrap(), Projected::Bool(true)));
    assert!(matches!(all(&tf).unwrap(), Projected::Bool(false)));
    assert!(matches!(any(&tf).unwrap(), Projected::Bool(true)));
    assert!(matches!(any(&ff).unwrap(), Projected::Bool(false)));
    assert!(matches!(nor(&ff).unwrap(), Projected::Bool(true)));
    assert!(matches!(nor(&tf).unwrap(), Projected::Bool(false)));
}

#[test]
fn vacuous_booleans_and_nor_negates_any() {
    let empty: Vec<Patch> = Vec::new();
    assert!(matches!(all(&empty).unwrap(), Projected::Bool(true)));
    assert!(matches!(any(&empty).unwrap(), Projected::Bool(false)));
    assert!(matches!(nor(&empty).unwrap(), Projected::Bool(true)));
    for stream in [vec![true, false], vec![false, false], vec![true, true], vec![false]] {
        let patches: Vec<Patch> = stream.iter().map(|b| p("x", Val::Bool(*b))).collect();
        let a = match any(&patches).unwrap() {
            Projected::Bool(b) => b,
            _ => unreachable!(),
        };
        let n = match nor(&patches).unwrap() {
            Projected::Bool(b) => b,
            _ => unreachable!(),
        };
        assert_eq!(n, !a);
    }
}

#[test]
fn mixed_streams_fail_without_partial_results() {
    let mixed = vec![p("x", Val::Num(1)), p("x", Val::Str("s".to_string()))];
    assert_eq!(mismatch_of(sum(&mixed).unwrap_err()), Mismatch::NonNumericSum);
    assert_eq!(mismatch_of(avg(&mixed).unwrap_err()), Mismatch::NonNumericAvg);
    assert_eq!(mismatch_of(eventity::query::concat(&mixed, "-").unwrap_err()), Mismatch::NonStringConcat);
    assert_eq!(mismatch_of(all(&mixed).unwrap_err()), Mismatch::NonBooleanAll);
    assert_eq!(mismatch_of(any(&mixed).unwrap_err()), Mismatch::NonBooleanAny);
    assert_eq!(mismatch_of(nor(&mixed).unwrap_err()), Mismatch::NonBooleanNor);
}

#[test]
fn boolean_stream_with_non_boolean_tail_still_fails() {
    // the conforming prefix already decides the reduction, but the
    // homogeneity rule must still reject the stream
    let patches = vec![p("x", Val::Bool(true)), p("x", Val::Num(1))];
    assert_eq!(mismatch_of(any(&patches).unwrap_err()), Mismatch::NonBooleanAny);
    let patches = vec![p("x", Val::Bool(false)), p("x", Val::Num(1))];
    assert_eq!(mismatch_of(all(&patches).unwrap_err()), Mismatch::NonBooleanAll);
}

#[test]
fn zero_matches_yield_neutral_answers() {
    let entries: Vec<(u64, Patch)> = Vec::new();
    let latest_v = vq("x", None, Projection::Latest);
    assert!(matches!(proj(&latest_v, &entries).unwrap(), Projected::Null));
    let collect_v = vq("x", None, Projection::Collect);
    match proj(&collect_v, &entries).unwrap() {
        Projected::Many(vals) => assert_eq!(vals.len(), 0),
        _ => panic!("collect over nothing must be empty"),
    }
    let sum_v = vq("x", None, Projection::Sum);
    assert_eq!(num_of(&proj(&sum_v, &entries).unwrap()), 0);
    let avg_v = vq("x", None, Projection::Avg);
    assert_eq!(mismatch_of(proj(&avg_v, &entries).unwrap_err()), Mismatch::EmptyAvg);
    let concat_v = vq("x", None, Projection::Concat(",".to_string()));
    match proj(&concat_v, &entries).unwrap() {
        Projected::Str(s) => assert_eq!(s, ""),
        _ => panic!("concat over nothing must be the empty string"),
    }
}

#[test]
fn range_filter_is_inclusive_on_both_ends() {
    let entries = vec![
        (4u64, p("x", Val::Num(1))),
        (5u64, p("x", Val::Num(2))),
        (8u64, p("x", Val::Num(3))),
        (10u64, p("x", Val::Num(4))),
        (11u64, p("x", Val::Num(5))),
    ];
    let v = vq("x", Some(Range { from: 5, to: 10 }), Projection::Collect);
    let kept = apply_filters(&v, &entries);
    let got: Vec<i64> = kept.iter().map(|q| q.value.as_num().unwrap()).collect();
    assert_eq!(got, vec![2, 3, 4]);
}

#[test]
fn filter_keeps_only_the_views_field() {
    let entries = vec![
        (1u64, p("x", Val::Num(1))),
        (2u64, p("y", Val::Num(2))),
        (3u64, p("x", Val::Num(3))),
    ];
    let v = vq("x", None, Projection::Collect);
    let kept = apply_filters(&v, &entries);
    let got: Vec<i64> = kept.iter().map(|q| q.value.as_num().unwrap()).collect();
    assert_eq!(got, vec![1, 3]);
}

#[test]
fn latest_and_collect_ignore_value_types() {
    let entries = vec![
        (1u64, p("x", Val::Str("a".to_string()))),
        (2u64, p("x", Val::Bool(true))),
        (3u64, p("x", Val::Num(9))),
    ];
    let v = vq("x", None, Projection::Collect);
    match proj(&v, &entries).unwrap() {
        Projected::Many(vals) => assert_eq!(vals.len(), 3),
        _ => panic!("collect accepts heterogeneous values"),
    }
    let l = vq("x", None, Projection::Latest);
    match proj(&l, &entries).unwrap() {
        Projected::One(val) => assert_eq!(val.as_num(), Some(9)),
        _ => panic!("latest accepts heterogeneous values"),
    }
}

#[test]
fn value_accessors_are_typed() {
    let s = Val::Str("a".to_string());
    let n = Val::Num(3);
    let b = Val::Bool(true);
    assert_eq!(s.as_str(), Some("a"));
    assert_eq!(s.as_num(), None);
    assert_eq!(s.as_bool(), None);
    assert_eq!(n.as_num(), Some(3));
    assert_eq!(n.as_str(), None);
    assert_eq!(b.as_bool(), Some(true));
    assert_eq!(b.as_num(), None);
}

#[test]
fn structured_values_pass_through_untouched() {
    let body = "{\"a\":[1,2]}".to_string();
    let entries = vec![
        (1u64, p("x", Val::Num(1))),
        (2u64, p("x", Val::Structured(body.clone()))),
    ];
    let v = vq("x", None, Projection::Latest);
    match proj(&v, &entries).unwrap() {
        Projected::One(Val::Structured(s)) => assert_eq!(s, body),
        _ => panic!("latest must hand a structured value back unchanged"),
    }
    let c = vq("x", None, Projection::Collect);
    match proj(&c, &entries).unwrap() {
        Projected::Many(vals) => {
            assert_eq!(vals.len(), 2);
            assert!(matches!(&vals[1], Val::Structured(s) if *s == body));
        },
        _ => panic!("collect must retain a structured value"),
    }
}

#[test]
fn structured_values_fail_every_typed_aggregate() {
    let patches = vec![p("x", Val::Structured("[1]".to_string()))];
    assert_eq!(mismatch_of(sum(&patches).unwrap_err()), Mismatch::NonNumericSum);
    assert_eq!(mismatch_of(avg(&patches).unwrap_err()), Mismatch::NonNumericAvg);
    assert_eq!(
        mismatch_of(eventity::query::concat(&patches, "-").unwrap_err()),
        Mismatch::NonStringConcat
    );
    assert_eq!(mismatch_of(all(&patches).unwrap_err()), Mismatch::NonBooleanAll);
    assert_eq!(mismatch_of(any(&patches).unwrap_err()), Mismatch::NonBooleanAny);
    assert_eq!(mismatch_of(nor(&patches).unwrap_err()), Mismatch::NonBooleanNor);
    let s = Val::Structured("[1]".to_string());
    assert_eq!(s.as_str(), None);
    assert_eq!(s.as_num(), None);
    assert_eq!(s.as_bool(), None);
}

#[test]
fn sum_handles_large_magnitudes() {
    let r = sum(&nums("x", &[i64::MAX, i64::MAX, i64::MIN])).unwrap();
    assert_eq!(num_of(&r), i64::MAX as i128 + i64::MAX as i128 + i64::MIN as i128);
}
