use ecosystem::document::Span;
use ecosystem::place::framed_error_text;

fn span(start: usize, end: usize) -> Span {
    Span { start, end }
}

#[test]
fn empty_text_frames_an_empty_line() {
    assert_eq!(
        framed_error_text("", span(0, 0), "m"),
        "TOML parse error at line 1, column 1\n  |\n1 | \n  | ^\nm\n"
    );
}

#[test]
fn position_past_the_end_counts_beyond_the_last_byte() {
    assert_eq!(
        framed_error_text("ab\n", span(5, 6), "m"),
        "TOML parse error at line 1, column 6\n  |\n1 | ab\n  |      ^\nm\n"
    );
}

#[test]
fn columns_count_characters_and_carets_count_bytes() {
    assert_eq!(
        framed_error_text("aéb", span(3, 4), "m"),
        "TOML parse error at line 1, column 3\n  |\n1 | aéb\n  |   ^\nm\n"
    );
    assert_eq!(
        framed_error_text("aé", span(1, 3), "m"),
        "TOML parse error at line 1, column 2\n  |\n1 | aé\n  |  ^^\nm\n"
    );
}

#[test]
fn carets_stop_at_the_line_end() {
    assert_eq!(
        framed_error_text("x = 1\ny = [\n1]\n", span(10, 15), "m"),
        "TOML parse error at line 2, column 5\n  |\n2 | y = [\n  |     ^\nm\n"
    );
}
