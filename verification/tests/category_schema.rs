use noted_core::category_schema::{default_schema, evolve_schema, json_clone, merge_shape, Json};

fn object(fields: Vec<(&str, Json)>) -> Json {
    Json::Object(fields.into_iter().map(|(k, v)| (k.to_owned(), v)).collect())
}

fn text(s: &str) -> Json {
    Json::Text(s.to_owned())
}

fn field<'a>(json: &'a Json, key: &str) -> Option<&'a Json> {
    match json {
        Json::Object(fields) => fields.iter().find(|(k, _)| k == key).map(|(_, v)| v),
        _ => None,
    }
}

fn count_of(json: Option<&Json>) -> Option<i64> {
    match json {
        Some(Json::Int(n)) => Some(*n),
        _ => None,
    }
}

fn workout(sets: i64) -> Json {
    object(vec![
        (
            "exercises",
            Json::Array(vec![
                object(vec![("name", text("Squat")), ("sets", Json::Int(sets))]),
                object(vec![("name", text("Bench")), ("rpe", Json::Number("7.5".to_owned()))]),
            ]),
        ),
        ("notes", text("felt good")),
    ])
}

#[test]
fn a_first_entry_becomes_the_shape_and_counts_each_path() {
    let schema = evolve_schema(default_schema(), &workout(5));
    let shape = field(&schema, "shape").unwrap();
    let exercises = field(shape, "exercises").unwrap();
    // A field seen for the first time is copied whole.
    let (first, second) = match exercises {
        Json::Array(items) => {
            assert_eq!(items.len(), 2);
            (&items[0], &items[1])
        }
        _ => panic!("exercises keep their array shape"),
    };
    assert!(matches!(field(first, "name"), Some(Json::Text(t)) if t == "Squat"));
    assert_eq!(count_of(field(first, "sets")), Some(5));
    assert!(matches!(field(second, "rpe"), Some(Json::Number(t)) if t == "7.5"));
    let freq = field(&schema, "field_freq").unwrap();
    assert_eq!(count_of(field(freq, "exercises.name")), Some(2));
    assert_eq!(count_of(field(freq, "exercises.sets")), Some(1));
    assert_eq!(count_of(field(freq, "exercises.rpe")), Some(1));
    assert_eq!(count_of(field(freq, "notes")), Some(1));
}

#[test]
fn later_entries_add_fields_and_keep_first_samples() {
    let schema = evolve_schema(default_schema(), &workout(5));
    let next = object(vec![
        ("notes", text("tired")),
        ("mood", text("ok")),
    ]);
    let schema = evolve_schema(schema, &next);
    let shape = field(&schema, "shape").unwrap();
    assert!(matches!(field(shape, "notes"), Some(Json::Text(t)) if t == "felt good"));
    assert!(matches!(field(shape, "mood"), Some(Json::Text(t)) if t == "ok"));
    assert!(field(shape, "exercises").is_some());
    let freq = field(&schema, "field_freq").unwrap();
    assert_eq!(count_of(field(freq, "notes")), Some(2));
    assert_eq!(count_of(field(freq, "mood")), Some(1));
    assert_eq!(count_of(field(freq, "exercises.name")), Some(2));
}

#[test]
fn missing_or_odd_counters_start_over() {
    let schema = object(vec![(
        "field_freq",
        object(vec![
            ("notes", text("many")),
            ("mood", Json::Int(i64::MAX)),
        ]),
    )]);
    let data = object(vec![("notes", text("x")), ("mood", text("y"))]);
    let schema = evolve_schema(schema, &data);
    let freq = field(&schema, "field_freq").unwrap();
    assert_eq!(count_of(field(freq, "notes")), Some(1));
    assert_eq!(count_of(field(freq, "mood")), Some(i64::MIN));
    assert!(field(&schema, "shape").is_some());
    let schema = object(vec![("field_freq", text("broken"))]);
    let schema = evolve_schema(schema, &object(vec![("a", Json::Int(1))]));
    assert_eq!(count_of(field(field(&schema, "field_freq").unwrap(), "a")), Some(1));
}

#[test]
fn merging_keeps_samples_and_fills_nulls() {
    let merged = merge_shape(Json::Null, &text("first"));
    assert!(matches!(merged, Json::Text(ref t) if t == "first"));
    let merged = merge_shape(merged, &text("second"));
    assert!(matches!(merged, Json::Text(ref t) if t == "first"));
    let merged = merge_shape(Json::Array(vec![]), &Json::Array(vec![]));
    assert!(matches!(merged, Json::Array(ref items) if items.len() == 1 && matches!(items[0], Json::Null)));
    let nested = merge_shape(
        object(vec![("a", object(vec![("x", Json::Int(1))]))]),
        &object(vec![("a", object(vec![("y", Json::Bool(true))])), ("b", Json::Null)]),
    );
    let a = field(&nested, "a").unwrap();
    assert_eq!(count_of(field(a, "x")), Some(1));
    assert!(matches!(field(a, "y"), Some(Json::Bool(true))));
    assert!(matches!(field(&nested, "b"), Some(Json::Null)));
    let copy = json_clone(&nested);
    assert_eq!(format!("{copy:?}"), format!("{nested:?}"));
}

#[test]
fn arrays_already_in_the_shape_merge_every_element_into_their_first() {
    let schema = evolve_schema(default_schema(), &workout(5));
    let schema = evolve_schema(schema, &workout(3));
    let shape = field(&schema, "shape").unwrap();
    match field(shape, "exercises").unwrap() {
        Json::Array(items) => {
            assert_eq!(items.len(), 2);
            assert!(matches!(field(&items[0], "name"), Some(Json::Text(t)) if t == "Squat"));
            assert_eq!(count_of(field(&items[0], "sets")), Some(5));
            assert!(matches!(field(&items[0], "rpe"), Some(Json::Number(t)) if t == "7.5"));
            assert!(field(&items[1], "sets").is_none());
        }
        _ => panic!("exercises keep their array shape"),
    }
    let freq = field(&schema, "field_freq").unwrap();
    assert_eq!(count_of(field(freq, "exercises.name")), Some(4));
    assert_eq!(count_of(field(freq, "notes")), Some(2));
}
