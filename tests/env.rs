use kube_viewer::env::parse_env;
use kube_viewer::env::Env;
use kube_viewer::load_status::LoadStatus;

#[test]
fn test_parse_env() {
    let env = r#"
            USER=praveen
            HOMEBREW_PREFIX=/opt/homebrew
            HOMEBREW_CELLAR=/opt/homebrew/Cellar
            HOMEBREW_REPOSITORY=/opt/homebrew
            FNM_DIR=/Users/praveen/Library/Application Support/fnm
            FNM_NODE_DIST_MIRROR=https://nodejs.org/dist
            FNM_ARCH=arm64
            FNM_MULTISHELL_PATH=/Users/praveen/Library/Caches/fnm_multishells/5532_1682350032728:/bin/sh
            FNM_VERSION_FILE_STRATEGY=local
            FNM_LOGLEVEL=info
        "#;

    let parsed_env = parse_env(env);

    assert_eq!(parsed_env.get("USER").unwrap(), "praveen");
    assert_eq!(parsed_env.get("HOMEBREW_PREFIX").unwrap(), "/opt/homebrew");
    assert_eq!(
        parsed_env.get("FNM_MULTISHELL_PATH").unwrap(),
        "/Users/praveen/Library/Caches/fnm_multishells/5532_1682350032728:/bin/sh"
    )
}

#[test]
fn parse_env_later_value_wins_and_lines_without_equals_are_skipped() {
    let parsed = parse_env("A=1\nnot a pair\n\n  B = two words  \nA=3\r\n=empty\nC==x");
    assert_eq!(parsed.get("A").unwrap(), "3");
    assert_eq!(parsed.get("B").unwrap(), "two words");
    assert_eq!(parsed.get("").unwrap(), "empty");
    assert_eq!(parsed.get("C").unwrap(), "=x");
    assert!(parsed.get("not a pair").is_none());
    assert_eq!(parsed.len(), 5);
}

#[test]
fn parse_env_of_empty_text_is_empty() {
    assert_eq!(parse_env("").len(), 0);
}

#[test]
fn env_takes_search_path_from_shell_output() {
    let env = Env::from_env_output("HOME=/home/u\nPATH=/usr/bin:/bin\n");
    assert_eq!(env.path, Some("/usr/bin:/bin".to_string()));
    assert_eq!(Env::from_env_output("HOME=/home/u\n").path, None);
}

#[test]
fn load_status_queries() {
    let loaded: LoadStatus<Vec<u8>> = LoadStatus::Loaded(vec![]);
    assert!(loaded.is_loaded());
    assert!(!loaded.is_loading());
    let loading: LoadStatus<Vec<u8>> = LoadStatus::Loading;
    assert!(loading.is_loading());
    let failed: LoadStatus<Vec<u8>> = LoadStatus::Error("x".to_string());
    assert!(!failed.is_loaded());
}
