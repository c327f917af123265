use component_scan::components::{filter_component_paths, scan_for_component};

#[test]
fn test_scan_find_file() {
    let root = "/tmp/cmpt_scan_fixture";
    fs_err::remove_dir_all(root).ok();
    fs_err::create_dir_all("/tmp/cmpt_scan_fixture/resources/tests").unwrap();
    fs_err::write("/tmp/cmpt_scan_fixture/resources/Component.yaml", "Name: Geogos\n").unwrap();
    fs_err::write("/tmp/cmpt_scan_fixture/resources/tests/Component.yaml", "Name: Excluded\n")
        .unwrap();
    let result = scan_for_component(root);
    fs_err::remove_dir_all(root).ok();
    println!("{:?}", result);
    assert_eq!(
        vec!["/tmp/cmpt_scan_fixture/resources/Component.yaml".to_string()],
        result
    );
}

#[test]
fn scan_missing_root_is_empty() {
    let result = scan_for_component("/tmp/cmpt_no_such_root");
    assert!(result.is_empty());
}

#[test]
fn filter_keeps_descriptors_outside_test_paths() {
    let paths = vec![
        "./resources/Component.yaml".to_string(),
        "./resources/tests/Component.yaml".to_string(),
        "./resources/other.yaml".to_string(),
        "./resources".to_string(),
        "Component.yaml".to_string(),
        "./attested/Component.yaml".to_string(),
    ];
    let result = filter_component_paths(&paths);
    assert_eq!(
        vec!["./resources/Component.yaml".to_string(), "Component.yaml".to_string()],
        result
    );
}
