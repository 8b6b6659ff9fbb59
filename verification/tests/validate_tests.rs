use schema_check::node::Node;
use schema_check::validate::validate;

fn s(v: &str) -> Node {
    Node::Str(v.to_string())
}

fn obj(pairs: Vec<(&str, Node)>) -> Node {
    Node::Obj(pairs.into_iter().map(|(k, v)| (k.to_string(), v)).collect())
}

fn schema_requiring(names: Vec<&str>) -> Node {
    obj(vec![("required", Node::Arr(names.into_iter().map(s).collect()))])
}

#[test]
fn all_required_present_yields_no_errors() {
    let doc = obj(vec![("apiVersion", s("v1")), ("kind", s("Pod"))]);
    let schema = obj(vec![
        (
            "required",
            Node::Arr(vec![s("apiVersion"), s("kind")]),
        ),
        ("properties", obj(vec![])),
    ]);
    let errors = validate(&doc, &schema);
    assert!(errors.is_empty());
}

#[test]
fn each_missing_required_key_reported_once() {
    let doc = obj(vec![("kind", s("Pod"))]);
    let schema = schema_requiring(vec!["apiVersion", "kind", "metadata"]);
    let errors = validate(&doc, &schema);
    assert_eq!(
        errors,
        vec![
            "Missing required field: apiVersion".to_string(),
            "Missing required field: metadata".to_string(),
        ]
    );
}

#[test]
fn present_keys_are_never_reported() {
    let doc = obj(vec![("a", s("1")), ("b", s("2"))]);
    let schema = schema_requiring(vec!["a", "b"]);
    let errors = validate(&doc, &schema);
    assert!(errors.is_empty());
}

#[test]
fn non_string_required_entries_are_skipped() {
    let doc = obj(vec![]);
    let schema = obj(vec![(
        "required",
        Node::Arr(vec![Node::Num("3".to_string()), s("a"), Node::Null]),
    )]);
    let errors = validate(&doc, &schema);
    assert_eq!(errors, vec!["Missing required field: a".to_string()]);
}

#[test]
fn duplicated_required_name_is_reported_per_occurrence() {
    let doc = obj(vec![]);
    let schema = schema_requiring(vec!["a", "a"]);
    let errors = validate(&doc, &schema);
    assert_eq!(
        errors,
        vec![
            "Missing required field: a".to_string(),
            "Missing required field: a".to_string(),
        ]
    );
}

#[test]
fn absent_property_key_is_not_descended_into() {
    // The sub-schema under "spec" is as strict as can be, but the document
    // has no "spec" key, so it must contribute nothing.
    let doc = obj(vec![("other", s("x"))]);
    let schema = obj(vec![(
        "properties",
        obj(vec![(
            "spec",
            schema_requiring(vec!["replicas", "selector", "template"]),
        )]),
    )]);
    let errors = validate(&doc, &schema);
    assert!(errors.is_empty());
}

#[test]
fn nested_required_check_runs_for_present_key() {
    let doc = obj(vec![
        ("apiVersion", s("v1")),
        ("kind", s("X")),
        ("spec", obj(vec![])),
    ]);
    let schema = obj(vec![(
        "properties",
        obj(vec![("spec", schema_requiring(vec!["replicas"]))]),
    )]);
    let errors = validate(&doc, &schema);
    assert_eq!(errors, vec!["Missing required field: replicas".to_string()]);
}

#[test]
fn current_level_errors_come_before_nested_ones() {
    let doc = obj(vec![("spec", obj(vec![]))]);
    let schema = obj(vec![
        ("required", Node::Arr(vec![s("kind")])),
        (
            "properties",
            obj(vec![("spec", schema_requiring(vec!["replicas"]))]),
        ),
    ]);
    let errors = validate(&doc, &schema);
    assert_eq!(
        errors,
        vec![
            "Missing required field: kind".to_string(),
            "Missing required field: replicas".to_string(),
        ]
    );
}

#[test]
fn nested_results_follow_properties_order() {
    let doc = obj(vec![("b", obj(vec![])), ("a", obj(vec![]))]);
    let schema = obj(vec![(
        "properties",
        obj(vec![
            ("b", schema_requiring(vec!["x"])),
            ("a", schema_requiring(vec!["y"])),
        ]),
    )]);
    let errors = validate(&doc, &schema);
    assert_eq!(
        errors,
        vec![
            "Missing required field: x".to_string(),
            "Missing required field: y".to_string(),
        ]
    );
}

#[test]
fn validation_is_idempotent() {
    let doc = obj(vec![("kind", s("Pod")), ("spec", obj(vec![]))]);
    let schema = obj(vec![
        (
            "required",
            Node::Arr(vec![s("apiVersion"), s("kind")]),
        ),
        (
            "properties",
            obj(vec![("spec", schema_requiring(vec!["replicas"]))]),
        ),
    ]);
    let first = validate(&doc, &schema);
    let second = validate(&doc, &schema);
    assert_eq!(first, second);
}

#[test]
fn scalar_document_against_strict_schema_reports_all_required() {
    // A scalar has no keys: every required name is missing and there is no
    // descent into properties.
    let doc = s("just a string");
    let schema = obj(vec![
        ("required", Node::Arr(vec![s("a"), s("b")])),
        (
            "properties",
            obj(vec![("a", schema_requiring(vec!["c"]))]),
        ),
    ]);
    let errors = validate(&doc, &schema);
    assert_eq!(
        errors,
        vec![
            "Missing required field: a".to_string(),
            "Missing required field: b".to_string(),
        ]
    );
}

#[test]
fn schema_without_required_or_properties_reports_nothing() {
    let doc = obj(vec![("anything", s("goes"))]);
    let schema = obj(vec![("description", s("free-form"))]);
    let errors = validate(&doc, &schema);
    assert!(errors.is_empty());
}

#[test]
fn hundred_documents_validate_independently_and_identically() {
    let schema = obj(vec![
        (
            "required",
            Node::Arr(vec![s("apiVersion"), s("kind")]),
        ),
        (
            "properties",
            obj(vec![("spec", schema_requiring(vec!["replicas"]))]),
        ),
    ]);
    let mut first_pass: Vec<Vec<String>> = Vec::new();
    for i in 0..100usize {
        let doc = if i % 2 == 0 {
            obj(vec![("kind", s("Pod")), ("spec", obj(vec![]))])
        } else {
            obj(vec![("apiVersion", s("v1")), ("kind", s("Pod"))])
        };
        first_pass.push(validate(&doc, &schema));
    }
    for i in 0..100usize {
        let expected: Vec<String> = if i % 2 == 0 {
            vec![
                "Missing required field: apiVersion".to_string(),
                "Missing required field: replicas".to_string(),
            ]
        } else {
            Vec::new()
        };
        assert_eq!(first_pass[i], expected);
    }
}
