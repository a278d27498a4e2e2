use superconfig::cascade::{
    config_file_candidates, find_config_files, generate_default_search_paths, merge_members_into,
    merge_profile_configs,
};
use superconfig::value::ConfigValue;

fn s(x: &str) -> ConfigValue {
    ConfigValue::Str(x.to_string())
}

fn arr(items: Vec<ConfigValue>) -> ConfigValue {
    ConfigValue::Array(items)
}

fn obj(members: Vec<(&str, ConfigValue)>) -> Vec<(String, ConfigValue)> {
    members.into_iter().map(|(k, v)| (k.to_string(), v)).collect()
}

fn get<'a>(ms: &'a [(String, ConfigValue)], key: &str) -> &'a ConfigValue {
    &ms.iter().find(|(k, _)| k == key).unwrap().1
}

fn strings(v: &ConfigValue) -> Vec<String> {
    match v {
        ConfigValue::Array(items) => items
            .iter()
            .map(|i| match i {
                ConfigValue::Str(x) => x.clone(),
                _ => panic!("not a string"),
            })
            .collect(),
        _ => panic!("not an array"),
    }
}

#[test]
fn later_files_override_and_objects_merge_deeply() {
    let mut base = obj(vec![
        ("name", s("base")),
        ("db", ConfigValue::Object(obj(vec![("host", s("localhost")), ("port", ConfigValue::UInt(5432))]))),
    ]);
    let over = obj(vec![("name", s("local")), ("db", ConfigValue::Object(obj(vec![("host", s("db.internal"))])))]);
    merge_members_into(&mut base, &over);
    assert!(get(&base, "name").equals(&s("local")));
    match get(&base, "db") {
        ConfigValue::Object(db) => {
            assert!(get(db, "host").equals(&s("db.internal")));
            assert!(get(db, "port").equals(&ConfigValue::UInt(5432)));
        }
        _ => panic!("db is not an object"),
    }
}

#[test]
fn add_and_remove_operations_of_all_files_apply_together() {
    let system = obj(vec![("paths", arr(vec![s("a"), s("b")])), ("paths_add", arr(vec![s("c")]))]);
    let user = obj(vec![("paths_add", arr(vec![s("d")])), ("paths_remove", arr(vec![s("a")]))]);
    let merged = merge_profile_configs(vec![system, user]);
    assert_eq!(strings(get(&merged, "paths")), vec!["b", "c", "d"]);
    assert!(merged.iter().all(|(k, _)| k != "paths_add" && k != "paths_remove"));
}

#[test]
fn single_and_no_configuration() {
    assert!(merge_profile_configs(vec![]).is_empty());
    let only = obj(vec![("x_add", arr(vec![s("1")]))]);
    let merged = merge_profile_configs(vec![only]);
    assert_eq!(strings(get(&merged, "x")), vec!["1"]);
}

#[test]
fn plain_arrays_are_replaced() {
    let mut base = obj(vec![("list", arr(vec![s("a")]))]);
    merge_members_into(&mut base, &obj(vec![("list", arr(vec![s("b")]))]));
    assert_eq!(strings(get(&base, "list")), vec!["b"]);
}

#[test]
fn config_files_are_chosen_per_directory() {
    let dirs = vec!["/etc".to_string(), "/home/u".to_string(), "/home/u/proj".to_string()];
    let candidates: Vec<Vec<String>> = dirs.iter().map(|d| config_file_candidates(d, "app")).collect();
    assert_eq!(candidates[0][0], "/etc/app.toml");
    assert_eq!(candidates[0][5], "/etc/app");
    let present = vec![
        vec![false, true, true, false, false, false],
        vec![false, false, false, false, false, true],
        vec![false, false, false, false, false, false],
    ];
    let files = find_config_files(&candidates, &present);
    assert_eq!(files, vec!["/etc/app.yaml".to_string(), "/home/u/app".to_string()]);
}

#[test]
fn duplicate_files_are_listed_once() {
    let candidates = vec![config_file_candidates("a", "c"), config_file_candidates("a/", "c")];
    let present = vec![vec![true, false, false, false, false, false], vec![true, false, false, false, false, false]];
    let files = find_config_files(&candidates, &present);
    assert_eq!(files, vec!["a/c.toml".to_string()]);
}

#[test]
fn default_search_paths_run_from_root_to_user() {
    let ancestors = vec!["/home/u/proj".to_string(), "/home/u".to_string(), "/home".to_string(), "/".to_string()];
    let paths = generate_default_search_paths("app", Some("/home/u"), &ancestors);
    assert_eq!(
        paths,
        vec!["/", "/home", "/home/u", "/home/u/proj", "/home/u", "/home/u/.app", "/home/u/.config/app"]
            .into_iter()
            .map(String::from)
            .collect::<Vec<_>>()
    );
    let no_home = generate_default_search_paths("app", None, &vec![".".to_string()]);
    assert_eq!(no_home, vec![".".to_string()]);
}

#[test]
fn earlier_search_paths_have_lower_priority() {
    let candidates = vec![config_file_candidates("a", "config"), config_file_candidates("b", "config")];
    let present = vec![vec![true, false, false, false, false, false], vec![true, false, false, false, false, false]];
    let files = find_config_files(&candidates, &present);
    assert_eq!(files, vec!["a/config.toml".to_string(), "b/config.toml".to_string()]);
}
