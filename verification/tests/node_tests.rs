use schema_check::node::Node;

fn s(v: &str) -> Node {
    Node::Str(v.to_string())
}

#[test]
fn lookup_finds_a_present_key() {
    let n = Node::Obj(vec![
        ("a".to_string(), s("1")),
        ("b".to_string(), s("2")),
    ]);
    assert!(matches!(n.get("b"), Some(Node::Str(v)) if v == "2"));
    assert!(n.get("c").is_none());
}

#[test]
fn lookup_takes_the_first_of_equal_keys() {
    let n = Node::Obj(vec![
        ("a".to_string(), s("first")),
        ("a".to_string(), s("second")),
    ]);
    assert!(matches!(n.get("a"), Some(Node::Str(v)) if v == "first"));
}

#[test]
fn scalars_and_sequences_contain_no_keys() {
    assert!(s("text").get("a").is_none());
    assert!(Node::Null.get("a").is_none());
    assert!(Node::Bool(true).get("a").is_none());
    assert!(Node::Arr(vec![s("a")]).get("a").is_none());
}
