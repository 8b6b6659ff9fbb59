use schema_check::node::Node;
use schema_check::store::{resolve_schema, SchemaError, SchemaSource};

fn s(v: &str) -> Node {
    Node::Str(v.to_string())
}

fn sample_schema() -> Node {
    Node::Obj(vec![(
        "required".to_string(),
        Node::Arr(vec![s("apiVersion")]),
    )])
}

#[test]
fn cache_artifact_wins_and_is_returned_verbatim() {
    let cached = sample_schema();
    let r = resolve_schema(Some(cached), Some(s("remote"))).unwrap();
    assert!(matches!(r.1, SchemaSource::Cache));
    // The cached tree comes back exactly as handed in.
    match r.0 {
        Node::Obj(entries) => {
            assert_eq!(entries.len(), 1);
            assert_eq!(entries[0].0, "required");
            match &entries[0].1 {
                Node::Arr(items) => {
                    assert_eq!(items.len(), 1);
                    assert!(matches!(&items[0], Node::Str(v) if v == "apiVersion"));
                },
                _ => panic!("cached tree was altered"),
            }
        },
        _ => panic!("cached tree was altered"),
    }
}

#[test]
fn remote_schema_is_used_when_no_cache_exists() {
    let r = resolve_schema(None, Some(sample_schema())).unwrap();
    assert!(matches!(r.1, SchemaSource::Remote));
}

#[test]
fn no_cache_and_no_fetch_is_fatal() {
    let r = resolve_schema(None, None);
    assert_eq!(r.unwrap_err(), SchemaError::Unavailable);
}
