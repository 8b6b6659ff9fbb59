use schema_check::locate::{has_doc_ext, select_documents, LocateError, PathKind};

#[test]
fn file_path_stands_for_itself() {
    let r = select_documents(PathKind::File, "manifests/pod.txt", Vec::new());
    assert_eq!(r.unwrap(), vec!["manifests/pod.txt".to_string()]);
}

#[test]
fn directory_keeps_only_matching_extensions() {
    let entries = vec![
        "manifests/pod.yaml".to_string(),
        "manifests/notes.txt".to_string(),
        "manifests/svc.yaml".to_string(),
        "manifests/old.yml".to_string(),
        "manifests/.yaml".to_string(),
    ];
    let r = select_documents(PathKind::Dir, "manifests", entries);
    assert_eq!(
        r.unwrap(),
        vec![
            "manifests/pod.yaml".to_string(),
            "manifests/svc.yaml".to_string(),
        ]
    );
}

#[test]
fn directory_without_matches_is_empty_and_successful() {
    let entries = vec!["a.json".to_string(), "b.txt".to_string()];
    let r = select_documents(PathKind::Dir, "dir", entries);
    assert_eq!(r.unwrap(), Vec::<String>::new());
}

#[test]
fn missing_path_is_an_error() {
    let r = select_documents(PathKind::Missing, "no/such/path", Vec::new());
    assert_eq!(r.unwrap_err(), LocateError::InvalidPath);
}

#[test]
fn extension_check_matches_file_names_only() {
    assert!(has_doc_ext("pod.yaml"));
    assert!(has_doc_ext("dir/pod.yaml"));
    assert!(has_doc_ext("a.b.yaml"));
    assert!(!has_doc_ext("pod.yml"));
    assert!(!has_doc_ext("pod.yaml.bak"));
    assert!(!has_doc_ext(".yaml"));
    assert!(!has_doc_ext("dir/.yaml"));
    assert!(!has_doc_ext("yaml"));
    assert!(!has_doc_ext(""));
    assert!(has_doc_ext("..yaml"));
    assert!(has_doc_ext("dir.yaml/x.yaml"));
    assert!(!has_doc_ext("dir.yaml/x.txt"));
}
