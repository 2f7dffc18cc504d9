use traybridge::filechooser::{glob_patter_to_filter, join_filter_parts, mime_filter_parts};

#[test]
fn case_insensitive_glob_classes_collapse() {
    assert_eq!(glob_patter_to_filter("*.[jJ][pP][gG]"), "*.jpg");
    assert_eq!(glob_patter_to_filter("*.[tT][xX][tT]"), "*.txt");
}

#[test]
fn other_glob_patterns_are_kept() {
    assert_eq!(glob_patter_to_filter("*.txt"), "*.txt");
    assert_eq!(glob_patter_to_filter("[ab]"), "[ab]");
    assert_eq!(glob_patter_to_filter("[a]"), "[a]");
    assert_eq!(glob_patter_to_filter(""), "");
}

#[test]
fn mime_types_map_to_extension_parts() {
    let parts = mime_filter_parts("image/png").unwrap();
    assert!(parts.iter().any(|p| p == "*.png"));
    assert!(mime_filter_parts("application/x-surely-unknown-kind").is_none());
}

#[test]
fn filter_parts_join_with_semicolons() {
    let parts = vec![String::from("*.jpg"), String::from("*.jpeg"), String::from("*.png")];
    assert_eq!(join_filter_parts(&parts), "*.jpg;*.jpeg;*.png");
    let with_empty = vec![String::new(), String::from("*.png")];
    assert_eq!(join_filter_parts(&with_empty), "*.png");
    assert_eq!(join_filter_parts(&Vec::new()), "");
}
