use superconfig::wildcard::parsing::{
    parse_brace_expansion, parse_multiple_patterns, parse_path_pattern, parse_pattern, parse_recursive_pattern,
    resolve_combined_strategy, PatternError, SearchStrategy,
};

#[test]
fn test_parse_simple_pattern() {
    let (strategy, patterns) = parse_pattern("*.toml").unwrap();

    match strategy {
        SearchStrategy::Current => {}
        _ => panic!("Expected Current strategy"),
    }

    assert_eq!(patterns, vec!["*.toml"]);
}

#[test]
fn test_parse_path_pattern() {
    let (strategy, patterns) = parse_pattern("./config/*.yaml").unwrap();

    match strategy {
        SearchStrategy::Directories(dirs) => {
            assert_eq!(dirs.len(), 1);
            assert_eq!(dirs[0], "./config");
        }
        _ => panic!("Expected Directories strategy"),
    }

    assert_eq!(patterns, vec!["*.yaml"]);
}

#[test]
fn test_parse_recursive_pattern() {
    let (strategy, patterns) = parse_pattern("**/*.json").unwrap();

    match strategy {
        SearchStrategy::Recursive { roots, max_depth } => {
            assert_eq!(roots.len(), 1);
            assert_eq!(roots[0], ".");
            assert_eq!(max_depth, None);
        }
        _ => panic!("Expected Recursive strategy"),
    }

    assert_eq!(patterns, vec!["*.json"]);
}

#[test]
fn test_parse_brace_expansion() {
    let (strategy, patterns) = parse_pattern("{./config,~/.config}/*.toml").unwrap();

    match strategy {
        SearchStrategy::Directories(dirs) => {
            assert_eq!(dirs.len(), 2);
            assert!(dirs.contains(&"./config".to_string()));
            assert!(dirs.contains(&"~/.config".to_string()));
        }
        _ => panic!("Expected Directories strategy"),
    }

    assert_eq!(patterns, vec!["*.toml"]);
}

#[test]
fn test_parse_multiple_patterns_same_type() {
    let patterns = vec!["*.toml".to_string(), "*.yaml".to_string()];
    let (strategy, combined_patterns) = parse_multiple_patterns(&patterns).unwrap();

    match strategy {
        SearchStrategy::Current => {}
        _ => panic!("Expected Current strategy for simple patterns"),
    }

    assert_eq!(combined_patterns.len(), 2);
    assert!(combined_patterns.contains(&"*.toml".to_string()));
    assert!(combined_patterns.contains(&"*.yaml".to_string()));
}

#[test]
fn test_parse_multiple_patterns_mixed_types() {
    let patterns = vec!["./config/*.toml".to_string(), "**/*.yaml".to_string()];
    let (strategy, _) = parse_multiple_patterns(&patterns).unwrap();

    match strategy {
        SearchStrategy::Recursive { .. } => {}
        _ => panic!("Expected Recursive strategy for mixed patterns"),
    }
}

#[test]
fn test_parse_path_pattern_helper() {
    let (dir, file) = parse_path_pattern("./config/app.toml");
    assert_eq!(dir, "./config");
    assert_eq!(file, "app.toml");
}

#[test]
fn test_parse_recursive_pattern_helper() {
    let (roots, pattern) = parse_recursive_pattern("./config/**/*.yaml");
    assert_eq!(roots, vec!["./config".to_string()]);
    assert_eq!(pattern, "*.yaml");
}

#[test]
fn test_parse_brace_expansion_helper() {
    let result = parse_brace_expansion("{dir1,dir2}/config.toml");
    assert!(result.is_some());

    let (dirs, pattern) = result.unwrap();
    assert_eq!(dirs.len(), 2);
    assert!(dirs.contains(&"dir1".to_string()));
    assert!(dirs.contains(&"dir2".to_string()));
    assert_eq!(pattern, "config.toml");
}

#[test]
fn empty_patterns_are_refused() {
    match parse_pattern("") {
        Err(e) => {
            assert!(matches!(e, PatternError::EmptyPattern));
            assert_eq!(e.message(), "Pattern cannot be empty");
        }
        Ok(_) => panic!("empty pattern accepted"),
    }
    let none: Vec<String> = vec![];
    match parse_multiple_patterns(&none) {
        Err(e) => assert_eq!(e.message(), "At least one pattern is required"),
        Ok(_) => panic!("no pattern accepted"),
    }
    let with_empty = vec!["*.toml".to_string(), "".to_string()];
    assert!(matches!(parse_multiple_patterns(&with_empty), Err(PatternError::EmptyPattern)));
}

#[test]
fn path_and_recursive_edge_cases() {
    assert_eq!(parse_path_pattern("/config.toml"), ("/".to_string(), "config.toml".to_string()));
    assert_eq!(parse_path_pattern("config.toml"), (".".to_string(), "config.toml".to_string()));
    assert_eq!(parse_path_pattern("/etc/myapp/config.*"), ("/etc/myapp".to_string(), "config.*".to_string()));
    let (roots, file) = parse_recursive_pattern("dir1/**/subdir/*.json");
    assert_eq!(roots, vec!["dir1".to_string()]);
    assert_eq!(file, "subdir/*.json");
    let (roots, file) = parse_recursive_pattern("./**/x.toml");
    assert_eq!(roots, vec![".".to_string()]);
    assert_eq!(file, "x.toml");
    let (roots, file) = parse_recursive_pattern("config/**");
    assert_eq!(roots, vec!["config".to_string()]);
    assert_eq!(file, "*");
    let (roots, _) = parse_recursive_pattern("a//**/b");
    assert_eq!(roots, vec!["a".to_string()]);
}

#[test]
fn brace_expansion_trims_and_strips() {
    let (dirs, file) = parse_brace_expansion("{ a , b\t}app.yaml").unwrap();
    assert_eq!(dirs, vec!["a".to_string(), "b".to_string()]);
    assert_eq!(file, "app.yaml");
    assert!(parse_brace_expansion("no-brace/*.toml").is_none());
    assert!(parse_brace_expansion("{unclosed/*.toml").is_none());
    let (dirs, file) = parse_brace_expansion("{}/x").unwrap();
    assert_eq!(dirs, vec!["".to_string()]);
    assert_eq!(file, "x");
}

#[test]
fn combined_strategies_sort_and_deduplicate() {
    let s = resolve_combined_strategy(vec![
        SearchStrategy::Directories(vec!["b".to_string(), "a".to_string()]),
        SearchStrategy::Current,
        SearchStrategy::Directories(vec!["a/".to_string(), "./c".to_string()]),
    ]);
    match s {
        SearchStrategy::Directories(dirs) => {
            assert_eq!(dirs, vec![".".to_string(), "./c".to_string(), "a".to_string(), "b".to_string()]);
        }
        _ => panic!("Expected Directories"),
    }
    let s = resolve_combined_strategy(vec![
        SearchStrategy::Recursive { roots: vec!["z".to_string()], max_depth: Some(2) },
        SearchStrategy::Directories(vec!["q".to_string()]),
        SearchStrategy::Recursive { roots: vec!["/abs".to_string(), "z".to_string()], max_depth: None },
    ]);
    match s {
        SearchStrategy::Recursive { roots, max_depth } => {
            assert_eq!(roots, vec!["/abs".to_string(), "z".to_string()]);
            assert_eq!(max_depth, None);
        }
        _ => panic!("Expected Recursive"),
    }
    assert!(matches!(
        resolve_combined_strategy(vec![SearchStrategy::Current, SearchStrategy::Current]),
        SearchStrategy::Current
    ));
}

#[test]
fn multiple_patterns_keep_file_patterns_in_order() {
    let patterns = vec!["conf/*.toml".to_string(), "{x,y}/*.yaml".to_string(), "*.json".to_string()];
    let (strategy, files) = parse_multiple_patterns(&patterns).unwrap();
    assert_eq!(files, vec!["*.toml".to_string(), "*.yaml".to_string(), "*.json".to_string()]);
    match strategy {
        SearchStrategy::Directories(dirs) => {
            assert_eq!(dirs, vec![".".to_string(), "conf".to_string(), "x".to_string(), "y".to_string()]);
        }
        _ => panic!("Expected Directories"),
    }
}

#[test]
fn invalid_glob_syntax_and_unclosed_braces_are_refused() {
    match parse_pattern("[invalid") {
        Err(PatternError::InvalidPattern { pattern, .. }) => assert_eq!(pattern, "[invalid"),
        other => panic!("expected an invalid pattern, got {:?}", other),
    }
    match parse_pattern("{a,b/*.toml") {
        Err(e) => {
            assert!(matches!(e, PatternError::MalformedBraces { .. }));
            assert_eq!(e.message(), "Malformed brace expansion in pattern '{a,b/*.toml': missing '}'");
        }
        Ok(_) => panic!("unclosed brace accepted"),
    }
    match parse_pattern("./conf/[x.toml") {
        Err(PatternError::InvalidPattern { pattern, .. }) => assert_eq!(pattern, "[x.toml"),
        other => panic!("expected an invalid pattern, got {:?}", other),
    }
    let mixed = vec!["*.toml".to_string(), "[bad".to_string(), "".to_string()];
    assert!(matches!(parse_multiple_patterns(&mixed), Err(PatternError::InvalidPattern { .. })));
}

#[test]
fn custom_strategies_combine() {
    let all_custom = resolve_combined_strategy(vec![
        SearchStrategy::Custom(vec!["a.toml".to_string()]),
        SearchStrategy::Custom(vec!["b.yaml".to_string(), "c.json".to_string()]),
    ]);
    match all_custom {
        SearchStrategy::Custom(paths) => assert_eq!(paths, vec!["a.toml", "b.yaml", "c.json"]),
        other => panic!("expected a custom strategy, got {:?}", other),
    }
    let mixed = resolve_combined_strategy(vec![
        SearchStrategy::Custom(vec!["a.toml".to_string()]),
        SearchStrategy::Recursive { roots: vec!["./conf".to_string()], max_depth: Some(2) },
        SearchStrategy::Directories(vec!["d".to_string()]),
    ]);
    match mixed {
        SearchStrategy::Recursive { roots, max_depth } => {
            assert_eq!(roots, vec![".".to_string(), "./conf".to_string()]);
            assert_eq!(max_depth, None);
        }
        other => panic!("expected a recursive strategy, got {:?}", other),
    }
    let with_current = resolve_combined_strategy(vec![SearchStrategy::Current, SearchStrategy::Custom(vec![])]);
    assert!(matches!(with_current, SearchStrategy::Recursive { ref roots, .. } if roots == &vec![".".to_string()]));
}
