use minigrep::Config;
use minigrep::ErrorKind;

fn args(items: &[&str]) -> Vec<String> {
    items.iter().map(|s| s.to_string()).collect()
}

#[test]
fn build_without_query_fails() {
    assert_eq!(Err(ErrorKind::MissingQuery), Config::build(&args(&["prog"]), false));
    assert_eq!(Err(ErrorKind::MissingQuery), Config::build(&args(&[]), false));
}

#[test]
fn build_without_file_path_fails() {
    assert_eq!(Err(ErrorKind::MissingFilePath), Config::build(&args(&["prog", "needle"]), false));
}

#[test]
fn build_with_query_and_path_succeeds() {
    let config = Config::build(&args(&["prog", "needle", "file.txt"]), false).unwrap();
    assert_eq!("needle", config.query);
    assert_eq!("file.txt", config.file_path);
    assert!(!config.ignore_case);
}

#[test]
fn build_keeps_ignore_case_flag() {
    let config = Config::build(&args(&["prog", "needle", "file.txt"]), true).unwrap();
    assert!(config.ignore_case);
}

#[test]
fn build_ignores_extra_arguments() {
    let config = Config::build(&args(&["prog", "needle", "file.txt", "extra", "more"]), false)
        .unwrap();
    assert_eq!("needle", config.query);
    assert_eq!("file.txt", config.file_path);
}
