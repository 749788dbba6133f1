use cmdhub::config::{config_candidates, join_listed, resolve_config_path, ConfigError};

fn strings(list: &[&str]) -> Vec<String> {
    list.iter().map(|s| s.to_string()).collect()
}

#[test]
fn candidates_with_everything_known() {
    assert_eq!(
        config_candidates(Some("/etc/hub"), Some("/work"), Some("/xdg"), Some("/home/u")),
        strings(&[
            "/etc/hub/config.toml",
            "/work/config.toml",
            "/xdg/cmdhub/config.toml",
            "/home/u/.cmdhub/config.toml",
        ])
    );
}

#[test]
fn candidates_fall_back_to_dot_config() {
    assert_eq!(
        config_candidates(None, Some("/work"), None, Some("/home/u")),
        strings(&[
            "/work/config.toml",
            "/home/u/.config/cmdhub/config.toml",
            "/home/u/.cmdhub/config.toml",
        ])
    );
}

#[test]
fn candidates_with_nothing_known() {
    assert_eq!(config_candidates(None, None, None, None), Vec::<String>::new());
    assert_eq!(config_candidates(None, None, Some("/x"), None), strings(&["/x/cmdhub/config.toml"]));
}

#[test]
fn first_existing_candidate_wins() {
    let c = strings(&["/a", "/b", "/c"]);
    assert_eq!(resolve_config_path(&c, &vec![false, true, true]), Ok("/b".to_string()));
    assert_eq!(resolve_config_path(&c, &vec![true, false, false]), Ok("/a".to_string()));
    assert_eq!(resolve_config_path(&c, &vec![false, false, true]), Ok("/c".to_string()));
}

#[test]
fn no_existing_candidate_lists_the_places() {
    let c = strings(&["/a", "/b", "/c"]);
    let err = resolve_config_path(&c, &vec![false, false, false]).unwrap_err();
    assert_eq!(err, ConfigError::NotFound { searched: "/a, /b, /c".to_string() });
    assert_eq!(err.message(), "config.toml not found; searched: /a, /b, /c");
    let none = resolve_config_path(&Vec::new(), &Vec::new()).unwrap_err();
    assert_eq!(none.message(), "config.toml not found; searched: ");
}

#[test]
fn missing_probes_count_as_absent() {
    let c = strings(&["/a", "/b"]);
    assert_eq!(
        resolve_config_path(&c, &vec![false]),
        Err(ConfigError::NotFound { searched: "/a, /b".to_string() })
    );
    assert_eq!(resolve_config_path(&c, &vec![false, true, true, true]), Ok("/b".to_string()));
    assert_eq!(join_listed(&strings(&["x"])), "x");
}
