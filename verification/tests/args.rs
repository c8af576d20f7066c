use cloudflare_dns_updater::args::config_path_from_args;

#[test]
fn default_path_without_flag() {
    let args = vec!["updater".to_string()];
    assert_eq!(config_path_from_args(&args), "config.json");
}

#[test]
fn flag_selects_the_next_argument() {
    let args = vec!["updater".to_string(), "-c".to_string(), "mine.json".to_string()];
    assert_eq!(config_path_from_args(&args), "mine.json");
}

#[test]
fn trailing_flag_changes_nothing() {
    let args = vec!["updater".to_string(), "-c".to_string()];
    assert_eq!(config_path_from_args(&args), "config.json");
}

#[test]
fn later_flag_wins() {
    let args = vec![
        "updater".to_string(),
        "-c".to_string(),
        "first.json".to_string(),
        "-c".to_string(),
        "second.json".to_string(),
    ];
    assert_eq!(config_path_from_args(&args), "second.json");
}

#[test]
fn unrelated_arguments_are_ignored() {
    let args = vec![
        "updater".to_string(),
        "--verbose".to_string(),
        "-c".to_string(),
        "mine.json".to_string(),
        "extra".to_string(),
    ];
    assert_eq!(config_path_from_args(&args), "mine.json");
}

#[test]
fn flag_consumes_even_another_flag() {
    let args = vec!["updater".to_string(), "-c".to_string(), "-c".to_string(), "x".to_string()];
    assert_eq!(config_path_from_args(&args), "-c");
}
