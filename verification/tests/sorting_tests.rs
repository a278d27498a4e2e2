use superconfig::wildcard::sorting::{pattern_matches, pattern_priority, ConfigFile, MergeOrder};

fn file(name: &str) -> ConfigFile {
    ConfigFile::named(name)
}

fn sized(name: &str, size: u64, modified: i128) -> ConfigFile {
    ConfigFile { path: name.to_string(), size: Some(size), modified: Some(modified) }
}

#[test]
fn test_alphabetical_sorting() {
    let files = vec![file("config-z.toml"), file("config-a.toml"), file("config-m.toml")];

    let sorted = MergeOrder::Alphabetical.sort_files(files);

    assert_eq!(sorted[0].file_name(), "config-a.toml");
    assert_eq!(sorted[1].file_name(), "config-m.toml");
    assert_eq!(sorted[2].file_name(), "config-z.toml");
}

#[test]
fn test_reverse_sorting() {
    let files = vec![file("config-a.toml"), file("config-z.toml"), file("config-m.toml")];

    let sorted = MergeOrder::Reverse.sort_files(files);

    assert_eq!(sorted[0].file_name(), "config-z.toml");
    assert_eq!(sorted[1].file_name(), "config-m.toml");
    assert_eq!(sorted[2].file_name(), "config-a.toml");
}

#[test]
fn test_pattern_matching() {
    assert!(pattern_matches("config.toml", "config.*"));
    assert!(pattern_matches("base.yaml", "base.*"));
    assert!(pattern_matches("env-prod.toml", "env-*.toml"));
    assert!(pattern_matches("local", "local"));
    assert!(!pattern_matches("other.json", "config.*"));
}

#[test]
fn test_custom_sorting() {
    let files = vec![file("local.toml"), file("base.yaml"), file("env-prod.toml"), file("other.json")];

    let patterns = vec!["base.*".to_string(), "env-*.toml".to_string(), "local.*".to_string()];

    let sorted = MergeOrder::Custom(patterns).sort_files(files);

    assert_eq!(sorted[0].file_name(), "base.yaml");
    assert_eq!(sorted[1].file_name(), "env-prod.toml");
    assert_eq!(sorted[2].file_name(), "local.toml");
    assert_eq!(sorted[3].file_name(), "other.json");
}

#[test]
fn size_and_time_orders() {
    let files = vec![sized("a", 30, 5), sized("b", 10, 7), sized("c", 20, 1)];
    let up = MergeOrder::SizeAscending.sort_files(files.clone());
    assert_eq!(up.iter().map(|f| f.path.as_str()).collect::<Vec<_>>(), vec!["b", "c", "a"]);
    let down = MergeOrder::SizeDescending.sort_files(files.clone());
    assert_eq!(down.iter().map(|f| f.path.as_str()).collect::<Vec<_>>(), vec!["a", "c", "b"]);
    let old_first = MergeOrder::ModificationTimeAscending.sort_files(files.clone());
    assert_eq!(old_first.iter().map(|f| f.path.as_str()).collect::<Vec<_>>(), vec!["c", "a", "b"]);
    let new_first = MergeOrder::ModificationTimeDescending.sort_files(files);
    assert_eq!(new_first.iter().map(|f| f.path.as_str()).collect::<Vec<_>>(), vec!["b", "a", "c"]);
}

#[test]
fn sorting_is_stable_for_equal_keys() {
    let files = vec![sized("dir1/x.toml", 1, 0), sized("dir2/x.toml", 1, 0), sized("dir0/a.toml", 1, 0)];
    let sorted = MergeOrder::Alphabetical.sort_files(files.clone());
    assert_eq!(
        sorted.iter().map(|f| f.path.as_str()).collect::<Vec<_>>(),
        vec!["dir0/a.toml", "dir1/x.toml", "dir2/x.toml"]
    );
    let by_size = MergeOrder::SizeAscending.sort_files(files);
    assert_eq!(
        by_size.iter().map(|f| f.path.as_str()).collect::<Vec<_>>(),
        vec!["dir1/x.toml", "dir2/x.toml", "dir0/a.toml"]
    );
}

#[test]
fn file_names_of_paths() {
    assert_eq!(file("/etc/app/config.toml").file_name(), "config.toml");
    assert_eq!(file("dir/sub/").file_name(), "sub");
    assert_eq!(file("plain").file_name(), "plain");
    assert_eq!(file("dir/..").file_name(), "");
    assert_eq!(file("/").file_name(), "");
}

#[test]
fn pattern_priorities() {
    let patterns = vec!["base.*".to_string(), "*.toml".to_string()];
    assert_eq!(pattern_priority(&file("conf/base.yaml"), &patterns), 0);
    assert_eq!(pattern_priority(&file("app.toml"), &patterns), 1);
    assert_eq!(pattern_priority(&file("app.json"), &patterns), usize::MAX);
    assert!(pattern_matches("a.toml", "*.toml"));
    assert!(pattern_matches("config.local.toml", "config*"));
    assert!(!pattern_matches("x", "a*b*c"));
    assert!(pattern_matches("a*b*c", "a*b*c"));
}

#[test]
fn merge_order_default_is_alphabetical() {
    assert!(matches!(MergeOrder::default(), MergeOrder::Alphabetical));
}

#[test]
fn unreadable_files_are_sorted_alphabetically() {
    let files = vec![file("/nonexistent/b.toml"), file("/nonexistent/a.toml")];
    let sorted = MergeOrder::SizeAscending.sort_files(files);
    assert_eq!(
        sorted.iter().map(|f| f.path.as_str()).collect::<Vec<_>>(),
        vec!["/nonexistent/a.toml", "/nonexistent/b.toml"]
    );
    let mixed = vec![file("z.toml"), sized("y.toml", 0, 0), file("x.toml"), sized("w.toml", 5, 3)];
    let by_time = MergeOrder::ModificationTimeAscending.sort_files(mixed);
    assert_eq!(
        by_time.iter().map(|f| f.path.as_str()).collect::<Vec<_>>(),
        vec!["x.toml", "y.toml", "z.toml", "w.toml"]
    );
    let tie = vec![file("a.toml"), sized("b.toml", 0, 0)];
    let by_size = MergeOrder::SizeAscending.sort_files(tie);
    assert_eq!(by_size.iter().map(|f| f.path.as_str()).collect::<Vec<_>>(), vec!["a.toml", "b.toml"]);
}

#[test]
fn question_mark_matches_one_character() {
    assert!(pattern_matches("a.toml", "a.tom?"));
    assert!(pattern_matches("env-1.toml", "env-?.*"));
    assert!(!pattern_matches("a.tom", "a.tom?"));
    assert!(pattern_matches("config.yaml", "*.y?ml"));
}

#[test]
fn file_names_skip_trailing_current_dir() {
    assert_eq!(file("foo.txt/.").file_name(), "foo.txt");
    assert_eq!(file("dir/foo.txt/").file_name(), "foo.txt");
    assert_eq!(file("dir/..").file_name(), "");
    assert_eq!(file(".").file_name(), "");
    let patterns = vec!["foo.txt".to_string()];
    assert_eq!(pattern_priority(&file("foo.txt/."), &patterns), 0);
}
