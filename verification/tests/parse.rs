use rusk::config::{find_config_file_from, search_paths};
use rusk::error::ConfigError;

#[test]
fn test_find_config_in_current_dir() {
    let config_path = "/tmp/project/rusk.yml".to_string();

    let found = find_config_file_from("/tmp/project".to_string(), &vec![config_path.clone()])
        .unwrap();
    assert_eq!(found, config_path);
}

#[test]
fn test_find_config_in_parent_dir() {
    let config_path = "/tmp/project/rusk.yml".to_string();
    let sub_dir = "/tmp/project/subdir".to_string();

    let found = find_config_file_from(sub_dir, &vec![config_path.clone()]).unwrap();
    assert_eq!(found, config_path);
}

#[test]
fn test_config_not_found() {
    let result = find_config_file_from("/tmp/empty".to_string(), &vec![]);
    assert!(result.is_err());
    assert!(matches!(result, Err(ConfigError::NotFound(_))));
}

#[test]
fn search_goes_up_to_the_root() {
    assert_eq!(
        search_paths("/a/b"),
        vec![
            "/a/b/rusk.yml",
            "/a/b/rusk.yaml",
            "/a/rusk.yml",
            "/a/rusk.yaml",
            "/rusk.yml",
            "/rusk.yaml"
        ]
    );
    assert_eq!(search_paths(""), vec!["rusk.yml", "rusk.yaml"]);
    assert_eq!(
        search_paths("rel/dir"),
        vec![
            "rel/dir/rusk.yml",
            "rel/dir/rusk.yaml",
            "rel/rusk.yml",
            "rel/rusk.yaml",
            "rusk.yml",
            "rusk.yaml"
        ]
    );
}

#[test]
fn nearest_file_wins_and_yml_comes_first() {
    let files = vec![
        "/a/rusk.yml".to_string(),
        "/a/b/rusk.yaml".to_string(),
        "/a/b/rusk.yml".to_string(),
        "/elsewhere/rusk.yml".to_string(),
    ];
    assert_eq!(find_config_file_from("/a/b".to_string(), &files).unwrap(), "/a/b/rusk.yml");
    assert_eq!(
        find_config_file_from("/a/b".to_string(), &files[..2].to_vec()).unwrap(),
        "/a/b/rusk.yaml"
    );
    assert_eq!(
        find_config_file_from("/a/b/c/d".to_string(), &files[..1].to_vec()).unwrap(),
        "/a/rusk.yml"
    );
}

#[test]
fn not_found_lists_every_place() {
    assert!(matches!(
        find_config_file_from("/x".to_string(), &vec!["/elsewhere/rusk.yml".to_string()]),
        Err(ConfigError::NotFound(places))
            if places == "/x/rusk.yml, /x/rusk.yaml, /rusk.yml, /rusk.yaml"
    ));
}
