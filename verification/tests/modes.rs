use ecosystem::mode::ModeParseError;
use ecosystem::{parse_mode, ConfigError, LogLevel, Mode};

#[test]
fn mode_roundtrips_through_strum() {
    for mode in Mode::iter() {
        assert_eq!(mode.to_string().parse::<Mode>().unwrap(), mode);
    }
}

#[test]
fn parse_mode_trims_and_ignores_case() {
    assert_eq!(parse_mode("  STAGING ").unwrap(), Mode::Staging);
}

#[test]
fn parse_mode_error_lists_every_variant() {
    let msg = parse_mode("nope").unwrap_err().message();
    for mode in Mode::iter() {
        assert!(msg.contains(&mode.to_string()), "缺少变体 {}", mode.to_string());
    }
}

#[test]
fn unknown_mode_message_is_exact() {
    let err = parse_mode("  nope\n").unwrap_err();
    assert!(matches!(&err, ConfigError::UnknownMode { value } if value == "nope"));
    assert_eq!(err.message(), "未知的运行模式 nope，可选值：dev / staging / prod / test");
    assert!(err.source_message().is_none());
}

#[test]
fn parse_mode_trims_unicode_whitespace() {
    assert_eq!(parse_mode("\u{3000}prod\t\u{a0}").unwrap(), Mode::Prod);
    assert_eq!(parse_mode("Dev").unwrap(), Mode::Dev);
    assert_eq!(parse_mode("tEsT").unwrap(), Mode::Test);
    assert!(parse_mode("de v").is_err());
    assert!(parse_mode("").is_err());
}

#[test]
fn mode_names_and_conversions() {
    let names: Vec<&str> = Mode::iter().iter().map(|m| m.as_str()).collect();
    assert_eq!(names, vec!["dev", "staging", "prod", "test"]);
    assert_eq!(Mode::try_from("PROD".to_owned()), Ok(Mode::Prod));
    assert_eq!(Mode::try_from("prod ".to_owned()), Err(ModeParseError::VariantNotFound));
    assert_eq!("x".parse::<Mode>().unwrap_err().message(), "Matching variant not found");
}

#[test]
fn level_names() {
    assert_eq!(LogLevel::from_name("debug"), Some(LogLevel::Debug));
    assert_eq!(LogLevel::from_name("Debug"), None);
    assert_eq!(LogLevel::Error.as_str(), "error");
}

#[test]
fn mode_into_string_and_variant_names() {
    assert_eq!(String::from(Mode::Staging), "staging");
    let names: Vec<String> = Mode::iter().into_iter().map(String::from).collect();
    assert_eq!(names, Mode::VARIANTS);
    assert_eq!(Mode::VARIANTS.join(" / "), "dev / staging / prod / test");
}

#[test]
fn padding_and_upper_case_change_nothing() {
    for raw in ["dev", "Prod", "nope", " test", ""] {
        let padded = format!("\t\u{2003}{raw} \n");
        match (parse_mode(raw), parse_mode(&padded)) {
            (Ok(a), Ok(b)) => assert_eq!(a, b),
            (Err(ConfigError::UnknownMode { value: a }), Err(ConfigError::UnknownMode { value: b })) => {
                assert_eq!(a, b)
            }
            other => panic!("padding changed the result for {raw:?}: {other:?}"),
        }
        assert_eq!(parse_mode(&raw.to_ascii_uppercase()).ok(), parse_mode(raw).ok());
    }
}
