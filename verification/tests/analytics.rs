use noted_core::analytics::{build_trends, ArrayField, ItemField, Leaf, TrendEntry, Trends};

fn text(key: &str, value: &str) -> ItemField {
    ItemField {
        key: key.to_owned(),
        value: Leaf::Text(value.to_owned()),
    }
}

fn number(key: &str, value: &str) -> ItemField {
    ItemField {
        key: key.to_owned(),
        value: Leaf::Number(value.to_owned()),
    }
}

fn other(key: &str) -> ItemField {
    ItemField {
        key: key.to_owned(),
        value: Leaf::Other,
    }
}

fn workout(date: &str, exercises: Vec<Vec<ItemField>>) -> TrendEntry {
    TrendEntry {
        date: date.to_owned(),
        fields: Some(vec![other("exercises"), text("notes", "felt good")]),
        arrays: vec![ArrayField {
            key: "exercises".to_owned(),
            elements: exercises.into_iter().map(Some).collect(),
        }],
    }
}

fn values(trends: &Trends, row: usize) -> Vec<(&str, &str)> {
    trends.rows[row]
        .values
        .iter()
        .map(|(metric, number)| (metric.as_str(), number.as_str()))
        .collect()
}

#[test]
fn workouts_pivot_into_one_row_per_exercise() {
    let entries = vec![
        workout(
            "2024-05-01",
            vec![
                vec![text("name", "Squat"), number("reps", "5"), number("weight", "100")],
                vec![text("name", "Bench"), number("reps", "5"), number("weight", "70.5")],
            ],
        ),
        workout(
            "2024-05-03",
            vec![vec![text("name", "Squat"), number("reps", "3"), number("rpe", "8")]],
        ),
    ];
    let trends = build_trends(&entries);
    assert_eq!(trends.items_field.as_deref(), Some("exercises"));
    assert_eq!(trends.label_field.as_deref(), Some("name"));
    assert_eq!(trends.metrics, vec!["reps", "rpe", "weight"]);
    assert_eq!(trends.labels, vec!["Squat", "Bench"]);
    assert_eq!(trends.rows.len(), 3);
    assert_eq!(trends.rows[0].date, "2024-05-01");
    assert_eq!(trends.rows[0].label, "Squat");
    assert_eq!(values(&trends, 0), vec![("reps", "5"), ("weight", "100")]);
    assert_eq!(values(&trends, 1), vec![("reps", "5"), ("weight", "70.5")]);
    assert_eq!(trends.rows[2].date, "2024-05-03");
    assert_eq!(values(&trends, 2), vec![("reps", "3"), ("rpe", "8")]);
    assert_eq!(
        trends.count_by_date,
        vec![("2024-05-01".to_owned(), 1), ("2024-05-03".to_owned(), 1)]
    );
}

#[test]
fn flat_entries_are_their_own_single_item() {
    let meal = |date: &str, food: &str, calories: &str| TrendEntry {
        date: date.to_owned(),
        fields: Some(vec![number("calories", calories), text("food", food)]),
        arrays: Vec::new(),
    };
    let entries = vec![
        meal("2024-06-02", "Oats", "350"),
        meal("2024-06-01", "Soup", "420"),
        meal("2024-06-02", "Oats", "360"),
    ];
    let trends = build_trends(&entries);
    assert_eq!(trends.items_field, None);
    assert_eq!(trends.label_field.as_deref(), Some("food"));
    assert_eq!(trends.metrics, vec!["calories"]);
    assert_eq!(trends.labels, vec!["Oats", "Soup"]);
    assert_eq!(trends.rows.len(), 3);
    assert_eq!(
        trends.count_by_date,
        vec![("2024-06-01".to_owned(), 1), ("2024-06-02".to_owned(), 2)]
    );
}

#[test]
fn without_a_preferred_name_the_commonest_text_field_labels() {
    let entry = |date: &str, kind: &str| TrendEntry {
        date: date.to_owned(),
        fields: Some(vec![
            text("mood", kind),
            number("hours", "7"),
            text("where", "home"),
        ]),
        arrays: Vec::new(),
    };
    let mut entries = vec![entry("2024-01-01", "calm"), entry("2024-01-02", "tired")];
    entries.push(TrendEntry {
        date: "2024-01-03".to_owned(),
        fields: Some(vec![text("mood", "fine"), number("hours", "6")]),
        arrays: Vec::new(),
    });
    let trends = build_trends(&entries);
    assert_eq!(trends.label_field.as_deref(), Some("mood"));
    assert_eq!(trends.labels, vec!["calm", "tired", "fine"]);
    assert_eq!(trends.metrics, vec!["hours"]);
}

#[test]
fn items_without_a_label_get_a_dash_and_non_objects_yield_nothing() {
    let entries = vec![
        TrendEntry {
            date: "2024-02-01".to_owned(),
            fields: Some(vec![other("blocks")]),
            arrays: vec![ArrayField {
                key: "blocks".to_owned(),
                elements: vec![Some(vec![number("minutes", "25")]), None],
            }],
        },
        TrendEntry {
            date: "2024-02-01".to_owned(),
            fields: None,
            arrays: Vec::new(),
        },
    ];
    let trends = build_trends(&entries);
    assert_eq!(trends.items_field.as_deref(), Some("blocks"));
    assert_eq!(trends.label_field, None);
    assert_eq!(trends.rows.len(), 1);
    assert_eq!(trends.rows[0].label, "\u{2014}");
    assert_eq!(values(&trends, 0), vec![("minutes", "25")]);
    assert_eq!(trends.labels, vec!["\u{2014}"]);
    assert_eq!(trends.count_by_date, vec![("2024-02-01".to_owned(), 2)]);
}

#[test]
fn the_label_field_is_never_a_metric() {
    let entries = vec![TrendEntry {
        date: "2024-03-01".to_owned(),
        fields: Some(vec![number("name", "3"), text("task", "write"), number("hours", "2")]),
        arrays: Vec::new(),
    }];
    let trends = build_trends(&entries);
    assert_eq!(trends.label_field.as_deref(), Some("task"));
    assert_eq!(trends.metrics, vec!["hours", "name"]);
    let entries = vec![TrendEntry {
        date: "2024-03-01".to_owned(),
        fields: Some(vec![text("name", "Run"), number("km", "5")]),
        arrays: Vec::new(),
    }];
    assert_eq!(build_trends(&entries).metrics, vec!["km"]);
}

#[test]
fn empty_categories_have_empty_trends() {
    let trends = build_trends(&[]);
    assert_eq!(trends.items_field, None);
    assert_eq!(trends.label_field, None);
    assert!(trends.metrics.is_empty() && trends.rows.is_empty() && trends.labels.is_empty());
    assert!(trends.count_by_date.is_empty());
}
