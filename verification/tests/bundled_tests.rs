use lacon_core::rules::bundled::{get_bundled, iter_bundled, BundledRules};

fn archive() -> BundledRules {
    BundledRules::new(vec![
        (".gitkeep".to_string(), Vec::new()),
        ("cargo-test.yaml".to_string(), b"id: cargo-test\n".to_vec()),
        ("README.md".to_string(), b"# rules\n".to_vec()),
        ("pnpm-install.yaml".to_string(), b"id: pnpm-install\n".to_vec()),
    ])
}

#[test]
fn bundled_iter_does_not_panic_and_filters_non_yaml() {
    let names: Vec<String> = iter_bundled(&archive());
    assert!(
        names.iter().all(|n| n.ends_with(".yaml")),
        "iter_bundled must yield only .yaml files; got {names:?}"
    );
    assert!(
        !names.iter().any(|n| n.ends_with(".gitkeep")),
        ".gitkeep must be filtered out; got {names:?}"
    );
    assert_eq!(names, vec!["cargo-test.yaml".to_string(), "pnpm-install.yaml".to_string()]);
}

#[test]
fn get_bundled_nonexistent_returns_none() {
    assert!(get_bundled(&archive(), "does-not-exist.yaml").is_none());
}

#[test]
fn get_bundled_existing_returns_bytes() {
    assert_eq!(get_bundled(&archive(), "pnpm-install.yaml"), Some(b"id: pnpm-install\n".to_vec()));
}

#[test]
fn bundled_rules_struct_compiles() {
    // The archive lists every entry, `.yaml` or not, in order.
    let _iter = archive().iter();
    assert_eq!(archive().iter().len(), 4);
}

#[test]
fn empty_archive_yields_nothing() {
    let a = BundledRules::new(Vec::new());
    assert!(iter_bundled(&a).is_empty());
    assert!(get_bundled(&a, "x.yaml").is_none());
}

#[test]
fn every_listed_name_has_bytes_and_no_other() {
    let a = archive();
    for name in a.iter() {
        assert!(a.get(&name).is_some(), "listed name {name} has bytes");
    }
    assert!(a.get("not-listed.yaml").is_none());
}
