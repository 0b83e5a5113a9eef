//! Request orchestration: validation, key scheme, ingestion and deletion
//! planning, and whole view queries against an assembled patch map.

use eventity::keys::{mk_field_key, mk_fields_wildcard, validate_entity_id};
use eventity::query::{append_plan, build_patch_map, delete, distinct_fields, patch, view, PatchMap};
use eventity::types::{Mismatch, Patch, Projected, Projection, QueryError, Range, Val, View,
    ViewResponse};

fn p(field: &str, value: Val) -> Patch {
    Patch { field: field.to_string(), value }
}

fn vq(field: &str, range: Option<Range>, projection: Projection) -> View {
    View { field: field.to_string(), alias: None, range, projection }
}

#[test]
fn field_keys_follow_the_reserved_scheme() {
    assert_eq!(mk_field_key("user1", "score"), "_user1-score");
    assert_eq!(mk_fields_wildcard("user1"), "_user1-*");
    assert_eq!(mk_field_key("", ""), "_-");
}

#[test]
fn entity_id_validation_rejects_the_reserved_prefix() {
    assert!(validate_entity_id("user1"));
    assert!(validate_entity_id(""));
    assert!(!validate_entity_id("_user1"));
    assert!(!validate_entity_id("_"));
}

#[test]
fn reserved_entity_id_is_rejected_by_every_endpoint() {
    let patches = vec![p("x", Val::Num(1))];
    assert!(matches!(patch("_reserved", &patches), Err(QueryError::InvalidEntityId)));
    assert!(matches!(append_plan("_reserved", &patches, 7), Err(QueryError::InvalidEntityId)));
    assert!(matches!(delete("_reserved"), Err(QueryError::InvalidEntityId)));
    let views = vec![vq("x", None, Projection::Latest)];
    let map = PatchMap::new();
    assert!(matches!(view("_reserved", &views, &map), Err(QueryError::InvalidEntityId)));
}

#[test]
fn deleting_a_nonexistent_entity_succeeds_and_is_idempotent() {
    let first = delete("ghost").unwrap();
    let second = delete("ghost").unwrap();
    assert_eq!(first, "_ghost-*");
    assert_eq!(second, "_ghost-*");
}

#[test]
fn ingestion_stamps_the_whole_batch_once() {
    let patches = vec![p("x", Val::Num(1)), p("y", Val::Num(2)), p("x", Val::Num(3))];
    let plan = patch("e", &patches).unwrap();
    assert_eq!(plan.appends.len(), 3);
    for cmd in &plan.appends {
        assert_eq!(cmd.entry.0, plan.timestamp);
    }
    assert_eq!(plan.appends[0].key, "_e-x");
    assert_eq!(plan.appends[1].key, "_e-y");
    assert_eq!(plan.appends[2].key, "_e-x");
    assert_eq!(plan.appends[2].entry.1.value.as_num(), Some(3));
}

#[test]
fn round_trip_sum_collect_latest() {
    // ingest {x:1}, {x:2}, {x:3} in one batch, then query the field
    let batch = vec![p("x", Val::Num(1)), p("x", Val::Num(2)), p("x", Val::Num(3))];
    let appends = append_plan("e", &batch, 42).unwrap();
    let mut history: Vec<(u64, Patch)> = Vec::new();
    for cmd in appends {
        assert_eq!(cmd.key, "_e-x");
        history.push(cmd.entry);
    }
    let mut map = PatchMap::new();
    map.insert("x".to_string(), history);

    let views = vec![
        vq("x", None, Projection::Sum),
        vq("x", None, Projection::Collect),
        vq("x", None, Projection::Latest),
    ];
    let out = view("e", &views, &map).unwrap();
    assert_eq!(out.len(), 3);
    assert_eq!(out[0].0, "x");
    assert!(matches!(out[0].1, Projected::Num(6)));
    match &out[1].1 {
        Projected::Many(vals) => {
            let got: Vec<i64> = vals.iter().map(|v| v.as_num().unwrap()).collect();
            assert_eq!(got, vec![1, 2, 3]);
        },
        _ => panic!("collect must answer the ordered values"),
    }
    assert!(matches!(out[2].1, Projected::One(Val::Num(3))));
}

#[test]
fn view_labels_results_by_alias_when_present() {
    let mut map = PatchMap::new();
    map.insert("x".to_string(), vec![(1u64, p("x", Val::Num(5)))]);
    let aliased = View {
        field: "x".to_string(),
        alias: Some("renamed".to_string()),
        range: None,
        projection: Projection::Sum,
    };
    let plain = vq("x", None, Projection::Sum);
    let out = view("e", &vec![aliased, plain], &map).unwrap();
    assert_eq!(out[0].0, "renamed");
    assert_eq!(out[1].0, "x");
}

#[test]
fn view_reports_the_first_error_in_view_order() {
    let mut map = PatchMap::new();
    map.insert("s".to_string(), vec![(1u64, p("s", Val::Str("a".to_string())))]);
    let views = vec![
        vq("s", None, Projection::Collect),
        vq("s", None, Projection::Sum),
        vq("missing", None, Projection::Latest),
    ];
    match view("e", &views, &map) {
        Err(QueryError::TypeMismatch(m)) => assert_eq!(m, Mismatch::NonNumericSum),
        _ => panic!("the first failing view decides the error"),
    }
}

#[test]
fn view_fails_on_a_field_absent_from_the_map() {
    let map = PatchMap::new();
    let views = vec![vq("x", None, Projection::Latest)];
    assert!(matches!(view("e", &views, &map), Err(QueryError::FieldNotFound)));
}

#[test]
fn view_applies_the_time_range_per_view() {
    let mut map = PatchMap::new();
    map.insert(
        "x".to_string(),
        vec![(5u64, p("x", Val::Num(1))), (10u64, p("x", Val::Num(2))), (15u64, p("x", Val::Num(4)))],
    );
    let views = vec![
        vq("x", Some(Range { from: 5, to: 10 }), Projection::Sum),
        vq("x", None, Projection::Sum),
    ];
    let out = view("e", &views, &map).unwrap();
    assert!(matches!(out[0].1, Projected::Num(3)));
    assert!(matches!(out[1].1, Projected::Num(7)));
}

#[test]
fn distinct_fields_keeps_first_occurrences_only() {
    let views = vec![
        vq("a", None, Projection::Latest),
        vq("b", None, Projection::Sum),
        vq("a", None, Projection::Collect),
        vq("c", None, Projection::Latest),
        vq("b", None, Projection::Latest),
    ];
    assert_eq!(distinct_fields(&views), vec!["a", "b", "c"]);
}

#[test]
fn build_patch_map_binds_fields_to_their_histories() {
    let fields = vec!["x".to_string(), "y".to_string()];
    let histories = vec![
        vec![(1u64, p("x", Val::Num(1)))],
        vec![(2u64, p("y", Val::Num(2))), (3u64, p("y", Val::Num(3)))],
    ];
    let map = build_patch_map(fields, histories);
    assert_eq!(map.get(&"x".to_string()).unwrap().len(), 1);
    assert_eq!(map.get(&"y".to_string()).unwrap().len(), 2);
    assert!(map.get(&"z".to_string()).is_none());
}

#[test]
fn error_messages_are_descriptive() {
    assert_eq!(
        QueryError::TypeMismatch(Mismatch::NonNumericSum).message(),
        "Cannot sum non-numeric value stream"
    );
    assert_eq!(
        QueryError::TypeMismatch(Mismatch::EmptyAvg).message(),
        "Cannot average an empty stream"
    );
    assert_eq!(QueryError::FieldNotFound.message(), "Unable to find patches");
    assert_eq!(
        QueryError::InvalidEntityId.message(),
        "Entity id must not start with the reserved prefix"
    );
    assert_eq!(QueryError::StorageError("boom".to_string()).message(), "boom");
}

#[test]
fn view_response_wraps_success_and_error() {
    let ok = ViewResponse::create(Ok(vec![("x".to_string(), Projected::Num(6))]));
    match ok {
        ViewResponse::Success(out) => assert_eq!(out.len(), 1),
        _ => panic!("an Ok result becomes Success"),
    }
    let err = ViewResponse::create(Err(QueryError::FieldNotFound));
    assert!(matches!(err, ViewResponse::Error(QueryError::FieldNotFound)));
}
