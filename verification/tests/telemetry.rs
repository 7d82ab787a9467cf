use ecosystem::telemetry::{log_dir, rust_log_overrides, rust_log_typo};

#[test]
fn log_directory_choice() {
    assert_eq!(log_dir(None), Some("logs".to_owned()));
    assert_eq!(log_dir(Some("   ")), None);
    assert_eq!(log_dir(Some("")), None);
    assert_eq!(log_dir(Some("/var/log/app")), Some("/var/log/app".to_owned()));
}

#[test]
fn rust_log_override() {
    assert!(!rust_log_overrides(None));
    assert!(!rust_log_overrides(Some(" \t")));
    assert!(rust_log_overrides(Some("debug")));
}

#[test]
fn rust_log_typo_hint() {
    assert_eq!(rust_log_typo(None), None);
    assert_eq!(rust_log_typo(Some("  ")), None);
    assert_eq!(rust_log_typo(Some(" INFO ")), None);
    assert_eq!(rust_log_typo(Some("off")), None);
    assert_eq!(rust_log_typo(Some("3")), None);
    assert_eq!(rust_log_typo(Some("+05")), None);
    assert_eq!(rust_log_typo(Some("my_crate=debug")), None);
    assert_eq!(rust_log_typo(Some("info,hyper=warn")), None);
    assert_eq!(rust_log_typo(Some("infoo")), Some("infoo".to_owned()));
    assert_eq!(rust_log_typo(Some(" 6 ")), Some("6".to_owned()));
    assert_eq!(rust_log_typo(Some("-1")), Some("-1".to_owned()));
}
