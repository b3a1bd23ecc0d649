use envlock::config::{choose_path, folder_of_path, resolve_paths, EnvLockConfig};

fn some(s: &str) -> Option<String> {
    Some(s.to_string())
}

#[test]
fn default_paths() {
    let config = EnvLockConfig::defaults();
    assert_eq!(config.env_file(), ".env");
    assert_eq!(config.encrypted_file(), ".env.enc");
    assert_eq!(config.meta_file(), ".env.meta.json");
}

#[test]
fn given_paths_are_kept() {
    let config = EnvLockConfig::new("a".to_string(), "b".to_string(), "c".to_string());
    assert_eq!((config.env_file(), config.encrypted_file(), config.meta_file()), ("a", "b", "c"));
}

#[test]
fn nothing_given_resolves_to_the_defaults() {
    let config = resolve_paths((None, None, None), (None, None, None));
    assert_eq!(config.env_file(), ".env");
    assert_eq!(config.encrypted_file(), ".env.enc");
    assert_eq!(config.meta_file(), ".env.meta.json");
}

#[test]
fn configuration_file_wins_over_the_defaults() {
    let config = resolve_paths((None, None, None), (some("prod.env"), None, some("prod.json")));
    assert_eq!(config.env_file(), "prod.env");
    assert_eq!(config.encrypted_file(), ".env.enc");
    assert_eq!(config.meta_file(), "prod.json");
}

#[test]
fn command_line_wins_over_the_configuration_file() {
    let config = resolve_paths(
        (some("cli.env"), some("cli.enc"), None),
        (some("file.env"), None, some("file.json")),
    );
    assert_eq!(config.env_file(), "cli.env");
    assert_eq!(config.encrypted_file(), "cli.enc");
    assert_eq!(config.meta_file(), "file.json");
}

#[test]
fn overrides_replace_only_what_is_given() {
    let config = EnvLockConfig::defaults().with_overrides(None, some("x/y.enc"), None);
    assert_eq!(config.env_file(), ".env");
    assert_eq!(config.encrypted_file(), "x/y.enc");
    assert_eq!(config.meta_file(), ".env.meta.json");
}

#[test]
fn a_choice_wins_over_its_fallback() {
    assert_eq!(choose_path(some("chosen"), "fallback".to_string()), "chosen");
    assert_eq!(choose_path(None, "fallback".to_string()), "fallback");
    assert_eq!(choose_path(some(""), "fallback".to_string()), "");
}

#[test]
fn folder_of_a_path() {
    assert_eq!(folder_of_path("a/b/c.txt"), "a/b");
    assert_eq!(folder_of_path(".envlock/config.json"), ".envlock");
    assert_eq!(folder_of_path("/etc/secrets/.env.enc"), "/etc/secrets");
    assert_eq!(folder_of_path(".env"), "");
    assert_eq!(folder_of_path(""), "");
    assert_eq!(folder_of_path("/c.txt"), "");
    assert_eq!(folder_of_path("a/b/"), "a/b");
    assert_eq!(folder_of_path("a//b"), "a/");
    assert_eq!(folder_of_path("ä/ö/ü"), "ä/ö");
}

#[test]
fn folder_agrees_with_split_and_join() {
    for path in ["a/b/c", "x", "", "/", "//", "a/", "/a", "a/b/c/d.e", "./.env"] {
        let mut parts: Vec<&str> = path.split('/').collect();
        parts.pop();
        assert_eq!(folder_of_path(path), parts.join("/"));
    }
}
