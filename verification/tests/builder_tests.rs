use superconfig::wildcard::parsing::{PatternError, SearchStrategy};
use superconfig::wildcard::sorting::{ConfigFile, MergeOrder};
use superconfig::{Wildcard, WildcardBuilder};

#[test]
fn test_builder_basic() {
    let provider = WildcardBuilder::new().pattern("*.toml").unwrap().build().unwrap();

    assert_eq!(provider.patterns(), &["*.toml"]);
}

#[test]
fn test_builder_multiple_patterns() {
    let patterns = vec!["*.toml".to_string(), "*.yaml".to_string()];
    let provider = WildcardBuilder::new().patterns(&patterns).unwrap().build().unwrap();

    assert_eq!(provider.patterns().len(), 2);
    assert!(provider.patterns().contains(&"*.toml".to_string()));
    assert!(provider.patterns().contains(&"*.yaml".to_string()));
}

#[test]
fn test_builder_with_search_strategy() {
    let provider = WildcardBuilder::new().pattern("*.toml").unwrap().current_directory().build().unwrap();

    match provider.search_strategy() {
        SearchStrategy::Current => {}
        _ => panic!("Expected Current search strategy"),
    }
}

#[test]
fn test_builder_with_merge_order() {
    let provider = WildcardBuilder::new().pattern("*.toml").unwrap().reverse_alphabetical().build().unwrap();

    match provider.merge_order() {
        MergeOrder::Reverse => {}
        _ => panic!("Expected Reverse merge order"),
    }
}

#[test]
fn test_builder_recursive() {
    let roots = vec!["./config".to_string()];
    let provider = WildcardBuilder::new().pattern("*.toml").unwrap().recursive(&roots, Some(3)).build().unwrap();

    match provider.search_strategy() {
        SearchStrategy::Recursive { roots: r, max_depth } => {
            assert_eq!(r.len(), 1);
            assert_eq!(r[0], "./config");
            assert_eq!(*max_depth, Some(3));
        }
        _ => panic!("Expected Recursive search strategy"),
    }
}

#[test]
fn test_builder_custom_priority() {
    let patterns = vec!["base.*".to_string(), "local.*".to_string()];
    let provider = WildcardBuilder::new().pattern("*.toml").unwrap().custom_priority(&patterns).build().unwrap();

    match provider.merge_order() {
        MergeOrder::Custom(priorities) => {
            assert_eq!(priorities.len(), 2);
            assert_eq!(priorities[0], "base.*");
            assert_eq!(priorities[1], "local.*");
        }
        _ => panic!("Expected Custom merge order"),
    }
}

#[test]
fn test_builder_invalid_pattern() {
    let result = match WildcardBuilder::new().pattern("[invalid") {
        Err(e) => e,
        Ok(_) => panic!("invalid pattern accepted"),
    };
    let error_str = result.message();
    assert!(error_str.contains("invalid") || error_str.contains("bracket") || error_str.contains("Pattern"));
    assert!(error_str.starts_with("Invalid pattern '[invalid': "));
}

#[test]
fn test_builder_no_patterns() {
    let result = match WildcardBuilder::new().build() {
        Err(e) => e,
        Ok(_) => panic!("builder without patterns built"),
    };

    assert!(result.message().contains("At least one pattern is required"));
}

#[test]
fn builder_orders_and_directories() {
    let dirs = vec!["a".to_string(), "b".to_string()];
    let provider = WildcardBuilder::new()
        .pattern("*.toml")
        .unwrap()
        .directories(&dirs)
        .by_file_size(true)
        .build()
        .unwrap();
    match provider.search_strategy() {
        SearchStrategy::Directories(d) => assert_eq!(d, &dirs),
        _ => panic!("Expected Directories"),
    }
    assert!(matches!(provider.merge_order(), MergeOrder::SizeDescending));

    let provider = WildcardBuilder::new().pattern("*.toml").unwrap().by_modification_time(false).build().unwrap();
    assert!(matches!(provider.merge_order(), MergeOrder::ModificationTimeAscending));
    let provider = WildcardBuilder::new().pattern("*.toml").unwrap().by_modification_time(true).build().unwrap();
    assert!(matches!(provider.merge_order(), MergeOrder::ModificationTimeDescending));
    let provider = WildcardBuilder::new().pattern("*.toml").unwrap().by_file_size(false).alphabetical().build().unwrap();
    assert!(matches!(provider.merge_order(), MergeOrder::Alphabetical));
}

#[test]
fn builder_patterns_refuses_all_when_one_is_invalid() {
    let patterns = vec!["*.toml".to_string(), "a{b".to_string(), "[x".to_string()];
    match WildcardBuilder::new().patterns(&patterns) {
        Err(PatternError::InvalidPattern { pattern, .. }) => assert_eq!(pattern, "a{b"),
        _ => panic!("Expected the first invalid pattern"),
    }
}

#[test]
fn builder_refuses_empty_pattern_at_build() {
    match WildcardBuilder::new().pattern("").unwrap().build() {
        Err(PatternError::EmptyPattern) => {}
        _ => panic!("Expected the empty pattern to be refused"),
    }
}

#[test]
fn test_from_pattern() {
    let provider = Wildcard::from_pattern("*.toml");
    assert_eq!(provider.patterns(), &["*.toml"]);
    assert!(provider.is_valid());
}

#[test]
fn test_from_patterns() {
    let patterns = vec!["*.toml".to_string(), "*.yaml".to_string()];
    let provider = Wildcard::from_patterns(&patterns);
    assert_eq!(provider.patterns(), &patterns);
}

#[test]
fn test_with_merge_order() {
    let provider = Wildcard::from_pattern("*.toml").with_merge_order(MergeOrder::Reverse);
    match provider.merge_order() {
        MergeOrder::Reverse => {}
        _ => panic!("Expected Reverse merge order"),
    }
}

#[test]
fn test_hierarchical_convenience() {
    let provider = Wildcard::hierarchical("config", "myapp");
    let patterns = provider.patterns();

    assert!(patterns.iter().any(|p| p.contains("~/.config/myapp")));
    assert!(patterns.iter().any(|p| p.contains("./myapp")));
    assert!(patterns.iter().any(|p| p.contains("**/myapp.")));
}

#[test]
fn test_xdg_convenience() {
    let provider = Wildcard::xdg("myapp");
    let patterns = provider.patterns();

    assert!(patterns.iter().any(|p| p.contains("~/.config/myapp")));
    assert!(patterns.iter().any(|p| p.contains("~/.local/share/myapp")));
    assert!(patterns.iter().any(|p| p.contains("/etc/myapp")));
}

#[test]
fn test_development_convenience() {
    let provider = Wildcard::development("config");
    let patterns = provider.patterns();

    assert!(patterns.iter().any(|p| p.contains("config/")));
    assert!(patterns.iter().any(|p| p == "config.toml"));

    match provider.merge_order() {
        MergeOrder::Custom(_) => {}
        _ => panic!("Expected Custom merge order for development provider"),
    }
}

#[test]
fn test_convenience_constructors() {
    let hierarchical = Wildcard::hierarchical("config", "myapp");
    assert!(hierarchical.patterns().len() > 10);

    let xdg = Wildcard::xdg("myapp");
    assert!(xdg.patterns().iter().any(|p| p.contains("~/.config")));

    let dev = Wildcard::development("config");
    assert!(matches!(dev.merge_order(), MergeOrder::Custom(_)));
}

#[test]
fn convenience_layouts_in_order() {
    let xdg = Wildcard::xdg("myapp");
    assert_eq!(xdg.patterns().len(), 12);
    assert_eq!(xdg.patterns()[0], "~/.config/myapp/*.toml");
    assert!(xdg.is_valid());

    let hierarchical = Wildcard::hierarchical("config", "myapp");
    assert_eq!(hierarchical.patterns().len(), 16);
    assert_eq!(hierarchical.patterns()[4], "~/.myapp/*.toml");
    assert_eq!(hierarchical.patterns()[15], "**/myapp.json");
    assert!(matches!(hierarchical.merge_order(), MergeOrder::Alphabetical));

    let dev = Wildcard::development("config");
    match dev.merge_order() {
        MergeOrder::Custom(p) => assert_eq!(p[0], "base.*"),
        _ => panic!("Expected Custom merge order"),
    }
}

#[test]
fn invalid_patterns_leave_an_error() {
    let provider = Wildcard::from_pattern("[oops");
    assert!(!provider.is_valid());
    assert!(provider.has_errors().unwrap().starts_with("Invalid pattern '[oops': "));
    assert!(matches!(provider.search_strategy(), SearchStrategy::Current));

    let empty = Wildcard::from_pattern("");
    assert_eq!(empty.has_errors().unwrap(), "Pattern cannot be empty");
}

#[test]
fn provider_orders_found_files() {
    let provider = Wildcard::from_pattern("./conf/*.toml").with_merge_order(MergeOrder::Reverse);
    let files = vec![ConfigFile::named("conf/a.toml"), ConfigFile::named("conf/c.toml"), ConfigFile::named("conf/b.toml")];
    let ordered = provider.order_files(files);
    assert_eq!(
        ordered.iter().map(|f| f.file_name()).collect::<Vec<_>>(),
        vec!["c.toml".to_string(), "b.toml".to_string(), "a.toml".to_string()]
    );
    match provider.search_strategy() {
        SearchStrategy::Directories(d) => assert_eq!(d, &vec!["./conf".to_string()]),
        _ => panic!("Expected Directories"),
    }
}

#[test]
fn development_layout_merges_base_env_local_then_top_level() {
    let provider = Wildcard::development("config");
    let files = vec![
        ConfigFile::named("config.toml"),
        ConfigFile::named("config/local.toml"),
        ConfigFile::named("config/base.toml"),
        ConfigFile::named("config/env-prod.toml"),
    ];
    let ordered: Vec<String> = provider.order_files(files).iter().map(|f| f.path.clone()).collect();
    assert_eq!(
        ordered,
        vec![
            "config/base.toml".to_string(),
            "config/env-prod.toml".to_string(),
            "config/local.toml".to_string(),
            "config.toml".to_string(),
        ]
    );
}
