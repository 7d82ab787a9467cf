use ecosystem::config::{config_from_document, ConfigField, FormatError, SchemaError, TomlError, ValueKind};
use ecosystem::document::{read_integer, IntegerReading, Span, TomlDocument, TomlEntry, TomlValue, Unexpected};
use ecosystem::{load_config_from, parse_config, Config, ConfigError, LogLevel, Mode, ReadOutcome};

/// A minimal valid TOML text.
fn toml_of(port: &str, mode: &str) -> String {
    format!("port = {port}\nmode = \"{mode}\"\n")
}

/// The text of the next cause in the error chain.
fn source_of(err: &ConfigError) -> String {
    err.source_message().expect("这个变体应该带 source")
}

fn int_value(digits: &str) -> TomlValue {
    TomlValue::Integer { digits: digits.to_owned(), radix: 10 }
}

fn schema_error(err: ConfigError) -> SchemaError {
    match err {
        ConfigError::Toml(TomlError::Schema { error, .. }) => error,
        other => panic!("expected a schema error, got {other:?}"),
    }
}

fn format_error(err: ConfigError) -> FormatError {
    schema_error(err).problem
}

fn span(start: usize, end: usize) -> Span {
    Span { start, end }
}

/// An entry whose key stands at `key_at` and whose value stands at `value_at`.
fn entry(key: &str, key_at: Span, value: TomlValue, value_at: Span) -> TomlEntry {
    TomlEntry { key: key.to_owned(), key_span: key_at, value, value_span: value_at }
}

fn document(entries: Vec<TomlEntry>) -> TomlDocument {
    TomlDocument { span: span(0, 0), entries }
}

#[test]
fn parses_a_valid_config() {
    let config = parse_config(&toml_of("8080", "prod")).unwrap();
    assert_eq!(
        config,
        Config {
            port: 8080,
            mode: Mode::Prod,
            log_level: None,
        }
    );
}

#[test]
fn comments_and_blank_lines_are_fine() {
    let text = "# 服务端口\nport = 443\n\nmode = \"dev\"  # 本地开发\n";
    assert_eq!(parse_config(text).unwrap().port, 443);
}

#[test]
fn missing_field_is_a_toml_error() {
    let err = parse_config("port = 8080\n").unwrap_err();
    assert!(matches!(err, ConfigError::Toml(_)));
    assert!(source_of(&err).contains("missing field"));
}

#[test]
fn port_out_of_u16_range_is_a_toml_error() {
    let err = parse_config(&toml_of("70000", "prod")).unwrap_err();
    assert!(matches!(err, ConfigError::Toml(_)));
}

#[test]
fn not_even_toml() {
    let err = parse_config("这不是 TOML {{{").unwrap_err();
    assert!(matches!(err, ConfigError::Toml(_)));
}

#[test]
fn strum_and_serde_agree_on_every_name() {
    for mode in Mode::iter() {
        let text = toml_of("8080", &mode.to_string());
        assert_eq!(
            parse_config(&text).unwrap().mode,
            mode,
            "strum 打印成 {}，但 serde 不认这个名字",
            mode.to_string()
        );
    }
}

#[test]
fn loads_config_from_a_real_file() {
    let outcome = ReadOutcome::Text(toml_of("8080", "staging"));
    let config = load_config_from("ecosystem-test-ok.toml", outcome).unwrap();
    assert_eq!(config.mode, Mode::Staging);
}

#[test]
fn missing_file_reports_not_found() {
    let err = load_config_from("ecosystem-test-missing.toml", ReadOutcome::Missing).unwrap_err();
    assert!(matches!(err, ConfigError::NotFound { .. }));
    assert!(err.source_message().is_none());
}

#[test]
fn directory_reports_io_error() {
    let failure = std::io::Error::from(std::io::ErrorKind::IsADirectory);
    let err = load_config_from("/tmp", ReadOutcome::Failed(failure)).unwrap_err();
    assert!(matches!(err, ConfigError::Io { .. }));
}

#[test]
fn io_error_keeps_its_source() {
    let failure = std::io::Error::from(std::io::ErrorKind::IsADirectory);
    let err = load_config_from("/tmp", ReadOutcome::Failed(failure)).unwrap_err();
    assert!(err.message().contains("读取配置文件"));
    match &err {
        ConfigError::Io { source, .. } => assert_eq!(source.kind(), std::io::ErrorKind::IsADirectory),
        other => panic!("Io 变体应该带 source, got {other:?}"),
    }
    assert!(err.source_message().is_some());
}

#[test]
fn typo_in_optional_field_is_rejected() {
    let err = parse_config("port = 8080\nmode = \"dev\"\nloglevel = \"debug\"\n").unwrap_err();
    assert!(matches!(err, ConfigError::Toml(_)));
    assert!(source_of(&err).contains("unknown field"));
}

#[test]
fn unknown_mode_is_rejected() {
    let err = parse_config(&toml_of("8080", "nope")).unwrap_err();
    assert!(matches!(err, ConfigError::Toml(_)));
    assert!(source_of(&err).contains("Matching variant not found"));
}

#[test]
fn zero_port_is_rejected_by_serde() {
    let err = parse_config(&toml_of("0", "prod")).unwrap_err();
    assert!(matches!(err, ConfigError::Toml(_)));
    assert!(source_of(&err).contains("端口不能为 0"));
}

#[test]
fn log_level_is_read_by_its_exact_name() {
    let config = parse_config("port = 1\nmode = \"TEST\"\nlog_level = \"warn\"\n").unwrap();
    assert_eq!(
        config,
        Config {
            port: 1,
            mode: Mode::Test,
            log_level: Some(LogLevel::Warn),
        }
    );
    let err = format_error(parse_config("port = 1\nmode = \"dev\"\nlog_level = \"WARN\"\n").unwrap_err());
    assert!(matches!(&err, FormatError::UnknownLogLevel(s) if s == "WARN"));
    assert_eq!(
        err.message(),
        "unknown variant `WARN`, expected one of `trace`, `debug`, `info`, `warn`, `error`"
    );
}

#[test]
fn missing_fields_are_reported_port_first() {
    let err = format_error(parse_config("").unwrap_err());
    assert!(matches!(err, FormatError::MissingField(ConfigField::Port)));
    assert_eq!(err.message(), "missing field `port`");
    let err = format_error(parse_config("port = 80\n").unwrap_err());
    assert!(matches!(err, FormatError::MissingField(ConfigField::Mode)));
    assert_eq!(err.message(), "missing field `mode`");
}

#[test]
fn keys_are_checked_in_table_order() {
    // The table keeps its keys sorted: `mode`, `port`, `zzz`; the zero port
    // is met before the unknown key.
    let err = format_error(parse_config("zzz = 1\nport = 0\nmode = \"dev\"\n").unwrap_err());
    assert!(matches!(err, FormatError::ZeroPort));
    let err = format_error(parse_config("zzz = 1\nport = 5\nmode = \"dev\"\n").unwrap_err());
    assert!(matches!(&err, FormatError::UnknownField(k) if k == "zzz"));
    assert_eq!(
        err.message(),
        "unknown field `zzz`, expected one of `port`, `mode`, `log_level`"
    );
}

#[test]
fn port_values_of_every_kind() {
    let err = format_error(parse_config(&toml_of("70000", "prod")).unwrap_err());
    assert!(matches!(err, FormatError::InvalidValue(Unexpected::Signed(70000))));
    assert_eq!(err.message(), "invalid value: integer `70000`, expected u16");
    let err = format_error(parse_config(&toml_of("-1", "prod")).unwrap_err());
    assert_eq!(err.message(), "invalid value: integer `-1`, expected u16");
    let err = format_error(parse_config("port = \"8080\"\nmode = \"dev\"\n").unwrap_err());
    assert!(matches!(err, FormatError::InvalidType(ConfigField::Port, Unexpected::Text(_))));
    assert_eq!(err.message(), "invalid type: string \"8080\", expected u16");
    let err = format_error(parse_config("port = 1.5\nmode = \"dev\"\n").unwrap_err());
    assert_eq!(err.message(), "invalid type: floating point `1.5`, expected u16");
    let err = format_error(parse_config("port = 2e3\nmode = \"dev\"\n").unwrap_err());
    assert_eq!(err.message(), "invalid type: floating point `2000.0`, expected u16");
    let err = format_error(parse_config("port = true\nmode = \"dev\"\n").unwrap_err());
    assert_eq!(err.message(), "invalid type: boolean `true`, expected u16");
    let err = format_error(parse_config("port = [1]\nmode = \"dev\"\n").unwrap_err());
    assert_eq!(err.message(), "invalid type: sequence, expected u16");
    assert_eq!(parse_config(&toml_of("65535", "dev")).unwrap().port, 65535);
}

#[test]
fn mode_and_level_values_of_the_wrong_kind() {
    let err = format_error(parse_config("port = 1\nmode = 5\n").unwrap_err());
    assert!(matches!(err, FormatError::InvalidType(ConfigField::Mode, Unexpected::Signed(5))));
    assert_eq!(err.message(), "invalid type: integer `5`, expected a string");
    let err = format_error(parse_config("port = 1\nmode = \"dev\"\nlog_level = 3\n").unwrap_err());
    assert!(matches!(err, FormatError::LevelWrongKind));
    assert_eq!(err.message(), "wanted string or table");
    let err = format_error(parse_config("port = 1\nmode = \" dev\"\n").unwrap_err());
    assert!(matches!(&err, FormatError::UnknownMode(s) if s == " dev"));
    assert_eq!(err.message(), "Matching variant not found");
}

#[test]
fn syntax_errors_keep_the_reader_text() {
    let err = parse_config("port = = 1").unwrap_err();
    assert!(matches!(err, ConfigError::Toml(TomlError::Syntax(_))));
    assert!(source_of(&err).starts_with("TOML parse error at line 1"));
    let err = parse_config("port = 1\nport = 2\nmode = \"dev\"\n").unwrap_err();
    assert!(matches!(err, ConfigError::Toml(TomlError::Syntax(_))));
    assert_eq!(err.message(), "配置文件格式错误");
}

#[test]
fn duplicate_keys_are_refused_by_the_schema() {
    let entries = vec![
        entry("port", span(0, 4), int_value("1"), span(7, 8)),
        entry("port", span(9, 13), int_value("2"), span(16, 17)),
    ];
    let err = config_from_document(&TomlDocument { span: span(0, 0), entries }).unwrap_err();
    assert!(matches!(err.problem, FormatError::DuplicateField(ConfigField::Port)));
    assert_eq!(err.problem.message(), "duplicate field `port`");
    assert_eq!(err.span, span(0, 0));
}

#[test]
fn entries_decode_in_their_own_order() {
    let entries = vec![
        entry("port", span(0, 4), int_value("9000"), span(7, 11)),
        entry("mode", span(12, 16), TomlValue::Text("Staging".to_owned()), span(19, 28)),
        entry("log_level", span(29, 38), TomlValue::Text("trace".to_owned()), span(41, 48)),
    ];
    assert_eq!(
        config_from_document(&document(entries)).unwrap(),
        Config { port: 9000, mode: Mode::Staging, log_level: Some(LogLevel::Trace) }
    );
    let entries = vec![
        entry("other", span(3, 8), TomlValue::Table(vec![]), span(11, 13)),
        entry("port", span(14, 18), int_value("0"), span(21, 22)),
    ];
    let err = config_from_document(&document(entries)).unwrap_err();
    assert!(matches!(err.problem, FormatError::UnknownField(_)));
    assert_eq!(err.span, span(3, 8));
}

#[test]
fn default_config_values() {
    assert_eq!(
        Config::default(),
        Config { port: 8080, mode: Mode::Dev, log_level: None }
    );
}

#[test]
fn error_messages() {
    let err = load_config_from("a.toml", ReadOutcome::Missing).unwrap_err();
    assert_eq!(err.message(), "找不到配置文件: a.toml");
    let failure = std::io::Error::from(std::io::ErrorKind::PermissionDenied);
    let err = load_config_from("b.toml", ReadOutcome::Failed(failure)).unwrap_err();
    assert_eq!(err.message(), "读取配置文件 b.toml 失败");
}

#[test]
fn log_level_as_a_one_key_table() {
    let base = "port = 1\nmode = \"dev\"\n";
    let level = |text: &str| parse_config(&format!("{base}{text}\n"));
    assert_eq!(level("log_level = { info = {} }").unwrap().log_level, Some(LogLevel::Info));
    assert_eq!(level("log_level = { trace = [] }").unwrap().log_level, Some(LogLevel::Trace));
    let cases = [
        ("log_level = {}", "wanted exactly 1 element, found 0 elements"),
        ("log_level = { info = {}, warn = {} }", "wanted exactly 1 element, more than 1 element"),
        ("log_level = { info = 1 }", "expected table, found integer"),
        ("log_level = { info = \"x\" }", "expected table, found string"),
        ("log_level = { info = [1] }", "expected empty array"),
        ("log_level = { info = { a = 1 } }", "expected empty table"),
        ("log_level = { nope = {} }", "unknown variant `nope`, expected one of `trace`, `debug`, `info`, `warn`, `error`"),
        ("log_level = [\"info\"]", "wanted string or table"),
    ];
    for (text, message) in cases {
        let err = format_error(level(text).unwrap_err());
        assert_eq!(err.message(), message, "{text}");
    }
    let err = format_error(level("log_level = { info = 1.0 }").unwrap_err());
    assert!(matches!(err, FormatError::LevelNotTable(ValueKind::Float)));
}

#[test]
fn large_integers_read_as_the_reader_hands_them_on() {
    let err = format_error(parse_config("port = 18446744073709551615\nmode = \"dev\"\n").unwrap_err());
    assert!(matches!(err, FormatError::InvalidValue(Unexpected::Unsigned(18446744073709551615))));
    assert_eq!(err.message(), "invalid value: integer `18446744073709551615`, expected u16");
    let err = format_error(parse_config("port = 99999999999999999999\nmode = \"dev\"\n").unwrap_err());
    assert_eq!(
        err.message(),
        "invalid type: integer `99999999999999999999` as i128, expected u16"
    );
    let err = format_error(parse_config("port = 1\nmode = 18446744073709551615\n").unwrap_err());
    assert_eq!(
        err.message(),
        "invalid type: integer `18446744073709551615`, expected a string"
    );
    assert_eq!(parse_config("port = 0x1F90\nmode = \"dev\"\n").unwrap().port, 8080);
    assert_eq!(parse_config("port = +443\nmode = \"dev\"\n").unwrap().port, 443);
}

#[test]
fn overflowing_numbers() {
    let err = format_error(parse_config("port = 1e400\nmode = \"dev\"\n").unwrap_err());
    assert!(matches!(err, FormatError::FloatOverflow));
    assert_eq!(err.message(), "floating-point number overflowed");
    let digits = "9".repeat(60);
    let err = format_error(parse_config(&format!("port = {digits}\nmode = \"dev\"\n")).unwrap_err());
    assert!(matches!(err, FormatError::IntegerOverflow));
    assert_eq!(err.message(), "integer number overflowed");
}

#[test]
fn strings_are_quoted_as_debug_writes_them() {
    let err = format_error(parse_config("port = \"a\\\"b\"\nmode = \"dev\"\n").unwrap_err());
    assert_eq!(err.message(), "invalid type: string \"a\\\"b\", expected u16");
}

#[test]
fn integer_readings() {
    assert_eq!(read_integer("-9223372036854775808", 10), IntegerReading::Signed(i64::MIN));
    assert_eq!(read_integer("ff", 16), IntegerReading::Signed(255));
    assert_eq!(read_integer("+5", 10), IntegerReading::Signed(5));
    assert_eq!(read_integer("-0", 10), IntegerReading::Signed(0));
    assert_eq!(read_integer("9223372036854775808", 10), IntegerReading::Unsigned(9223372036854775808));
    assert_eq!(read_integer("-9223372036854775809", 10), IntegerReading::WideSigned(-9223372036854775809));
    assert_eq!(
        read_integer("340282366920938463463374607431768211455", 10),
        IntegerReading::WideUnsigned(u128::MAX)
    );
    assert_eq!(read_integer("340282366920938463463374607431768211456", 10), IntegerReading::Overflow);
    assert_eq!(read_integer("-", 10), IntegerReading::Overflow);
    assert_eq!(read_integer("12", 2), IntegerReading::Overflow);
    assert_eq!(read_integer("", 10), IntegerReading::Overflow);
}

#[test]
fn schema_errors_show_their_place() {
    let err = parse_config("port = 0\nmode = \"dev\"\n").unwrap_err();
    assert_eq!(
        source_of(&err),
        "TOML parse error at line 1, column 8\n  |\n1 | port = 0\n  |        ^\n端口不能为 0\n"
    );
    let err = parse_config("port = 8080\n").unwrap_err();
    assert_eq!(
        source_of(&err),
        "TOML parse error at line 1, column 1\n  |\n1 | port = 8080\n  | ^\nmissing field `mode`\n"
    );
    let err = parse_config("port = 1\nmode = \"dev\"\nzzz = 1\n").unwrap_err();
    assert_eq!(
        source_of(&err),
        "TOML parse error at line 3, column 1\n  |\n3 | zzz = 1\n  | ^^^\n\
         unknown field `zzz`, expected one of `port`, `mode`, `log_level`\n"
    );
    let err = parse_config("port = 1\nmode = \"é\"\n").unwrap_err();
    assert_eq!(
        source_of(&err),
        "TOML parse error at line 2, column 8\n  |\n2 | mode = \"é\"\n  |        ^^^^\nMatching variant not found\n"
    );
    let err = parse_config("port = 1\nmode = \"dev\"\nlog_level = { nope = {} }\n").unwrap_err();
    assert_eq!(schema_error(parse_config("port = 1\nmode = \"dev\"\nlog_level = { nope = {} }\n").unwrap_err()).span, span(36, 40));
    assert_eq!(
        source_of(&err),
        "TOML parse error at line 3, column 15\n  |\n3 | log_level = { nope = {} }\n  |               ^^^^\n\
         unknown variant `nope`, expected one of `trace`, `debug`, `info`, `warn`, `error`\n"
    );
    let text = format!("{}port = 0\nmode = \"dev\"\n", "#\n".repeat(9));
    let err = parse_config(&text).unwrap_err();
    assert_eq!(
        source_of(&err),
        "TOML parse error at line 10, column 8\n   |\n10 | port = 0\n   |        ^\n端口不能为 0\n"
    );
}
