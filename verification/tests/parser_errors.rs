use colored::control::set_override;
use queryscript::ast::Location;
use queryscript::error::MultiError;
use queryscript::parser::error::{
    annotate_report, pretty_line, source_of, unexpected_token, Code, ErrorLocation, FormattedError,
    ParserError, PrettyError, SQLParserError, TokenWithLocation, TokenizerError,
};

fn single(file: &str, line: u64, column: u64) -> ErrorLocation {
    ErrorLocation::Single(file.to_string(), Location { line, column })
}

fn show(location: &ErrorLocation) -> String {
    match location {
        ErrorLocation::Unknown => "<unknown>".to_string(),
        ErrorLocation::Single(file, at) => format!("{}:{}:{}", file, at.line, at.column),
    }
}

fn mark_nothing(_location: &ErrorLocation, _contents: &String) -> Option<String> {
    None
}

fn mark_all(location: &ErrorLocation, contents: &String) -> Option<String> {
    Some(format!("[{}] {}", show(location), contents))
}

fn token_error() -> ParserError {
    let token = TokenWithLocation {
        token: "Comma".to_string(),
        location: Location { line: 3, column: 14 },
    };
    let failed: Result<(), ParserError> =
        unexpected_token("a.qs".to_string(), token, "expected a name".to_string());
    failed.unwrap_err()
}

fn tokenizer_error() -> ParserError {
    ParserError::TokenizerError {
        source: TokenizerError { message: "unterminated string".to_string(), line: 7, col: 120 },
        file: "b.qs".to_string(),
    }
}

fn messages(err: ParserError) -> Vec<String> {
    err.into_errors().iter().map(|e| e.to_string()).collect()
}

#[test]
fn unexpected_token_shows_the_token_and_its_place() {
    let err = token_error();
    assert_eq!(
        err.to_string(),
        "Unexpected token TokenWithLocation { token: Comma, location: Location { line: 3, column: 14 } }: expected a name"
    );
    assert_eq!(err.location(), single("a.qs", 3, 14));
}

#[test]
fn token_is_shown_as_the_tokenizers_own_token() {
    let token = sqlparser::tokenizer::TokenWithLocation::new(
        sqlparser::tokenizer::Token::SingleQuotedString("x".to_string()),
        1,
        20,
    );
    let ours = TokenWithLocation {
        token: format!("{:?}", token.token),
        location: Location { line: token.location.line, column: token.location.column },
    };
    assert_eq!(ours.debug_text(), format!("{:?}", token));
}

#[test]
fn tokenizer_error_is_shown_with_line_and_column() {
    let err = tokenizer_error();
    assert_eq!(
        err.to_string(),
        "Tokenizer error: unterminated string at Line: 7, Column 120"
    );
    assert_eq!(err.location(), single("b.qs", 7, 120));
}

#[test]
fn sources_are_shown_as_by_the_sql_parser() {
    let tokenizer = sqlparser::tokenizer::TokenizerError {
        message: "bad".to_string(),
        line: 10,
        col: 0,
    };
    let ours = TokenizerError { message: "bad".to_string(), line: 10, col: 0 };
    assert_eq!(ours.display_text(), tokenizer.to_string());

    let theirs = sqlparser::parser::ParserError::ParserError("no".to_string());
    assert_eq!(SQLParserError::ParserError("no".to_string()).display_text(), theirs.to_string());
    let theirs = sqlparser::parser::ParserError::TokenizerError("no".to_string());
    assert_eq!(SQLParserError::TokenizerError("no".to_string()).display_text(), theirs.to_string());
    let theirs = sqlparser::parser::ParserError::RecursionLimitExceeded;
    assert_eq!(SQLParserError::RecursionLimitExceeded.display_text(), theirs.to_string());
}

#[test]
fn sql_parser_error_is_shown_at_its_location() {
    let err = ParserError::SQLParserError {
        source: SQLParserError::RecursionLimitExceeded,
        loc: single("c.qs", 1, 1),
    };
    assert_eq!(
        err.to_string(),
        "SQL parser error: sql parser error: recursion limit exceeded"
    );
    assert_eq!(err.location(), single("c.qs", 1, 1));
}

#[test]
fn unimplemented_and_invalid_keep_their_location() {
    let err = ParserError::unimplemented(single("d.qs", 2, 5), "window functions");
    assert_eq!(err.to_string(), "Unimplemented: window functions");
    assert_eq!(err.location(), single("d.qs", 2, 5));
    let err = ParserError::invalid(ErrorLocation::Unknown, "two names");
    assert_eq!(err.to_string(), "Invalid syntax: two names");
    assert_eq!(err.location(), ErrorLocation::Unknown);
}

#[test]
fn several_errors_are_shown_as_the_first() {
    let inner = ParserError::new_multi_error(vec![tokenizer_error(), token_error()]);
    let err = ParserError::new_multi_error(vec![inner, token_error()]);
    assert!(err.is_reportable());
    assert_eq!(err.location(), single("b.qs", 7, 120));
    assert_eq!(err.to_string(), tokenizer_error().to_string());
}

#[test]
fn no_errors_cannot_be_reported() {
    assert!(!ParserError::new_multi_error(vec![]).is_reportable());
    let empty_first =
        ParserError::new_multi_error(vec![ParserError::new_multi_error(vec![]), token_error()]);
    assert!(!empty_first.is_reportable());
    assert_eq!(empty_first.into_errors().len(), 1);
}

#[test]
fn into_errors_flattens_all_levels() {
    let a = || ParserError::invalid(ErrorLocation::Unknown, "a");
    let b = || ParserError::invalid(ErrorLocation::Unknown, "b");
    let c = || ParserError::invalid(ErrorLocation::Unknown, "c");
    let deep = ParserError::new_multi_error(vec![ParserError::new_multi_error(vec![a(), b()])]);
    let err = ParserError::new_multi_error(vec![deep, ParserError::new_multi_error(vec![]), c()]);
    assert_eq!(
        messages(err),
        vec!["Invalid syntax: a", "Invalid syntax: b", "Invalid syntax: c"]
    );
}

#[test]
fn a_single_error_stands_for_itself() {
    let parts = token_error().into_errors();
    assert_eq!(parts.len(), 1);
    assert_eq!(parts[0].to_string(), token_error().to_string());
}

#[test]
fn regrouping_keeps_the_errors_and_what_is_shown() {
    let nested = || {
        ParserError::new_multi_error(vec![
            ParserError::new_multi_error(vec![tokenizer_error()]),
            token_error(),
        ])
    };
    let regrouped = ParserError::new_multi_error(nested().into_errors());
    assert_eq!(regrouped.to_string(), nested().to_string());
    assert_eq!(regrouped.location(), nested().location());
    assert_eq!(messages(regrouped), messages(nested()));
}

#[test]
fn pretty_is_plain_where_styles_are_off() {
    set_override(false);
    let err = ParserError::invalid(single("x.qs", 4, 9), "nothing here");
    assert_eq!(err.pretty(&show), "x.qs:4:9: error: Invalid syntax: nothing here");
}

#[test]
fn pretty_is_styled_where_styles_are_on() {
    set_override(true);
    let err = FormattedError { location: ErrorLocation::Unknown, text: "broken".to_string() };
    assert_eq!(
        err.pretty(&show),
        "<unknown>\u{1b}[1;37m:\u{1b}[0m \u{1b}[91merror:\u{1b}[0m broken"
    );
}

#[test]
fn pretty_starts_with_the_place_and_ends_with_the_message() {
    for on in [false, true] {
        set_override(on);
        let err = FormattedError { location: single("x.qs", 1, 2), text: "broken".to_string() };
        let report = err.pretty(&show);
        assert!(report.starts_with("x.qs:1:2"));
        assert!(report.ends_with("broken"));
    }
}

#[test]
fn pretty_with_code_annotates_the_errors_file() {
    set_override(false);
    let mut code = Code::new();
    code.insert("x.qs".to_string(), "let x = 1;".to_string());
    code.insert("y.qs".to_string(), "let y = 2;".to_string());
    let err = FormattedError { location: single("y.qs", 1, 5), text: "broken".to_string() };
    assert_eq!(
        err.pretty_with_code(&show, &mark_all, &code),
        "y.qs:1:5: error: broken\n\n[y.qs:1:5] let y = 2;"
    );
}

#[test]
fn pretty_with_code_is_the_report_where_there_is_nothing_to_mark() {
    set_override(false);
    let mut code = Code::new();
    code.insert("x.qs".to_string(), "let x = 1;".to_string());
    let known = FormattedError { location: single("x.qs", 1, 1), text: "a".to_string() };
    assert_eq!(known.pretty_with_code(&show, &mark_nothing, &code), "x.qs:1:1: error: a");
    let other = FormattedError { location: single("z.qs", 1, 1), text: "b".to_string() };
    assert_eq!(other.pretty_with_code(&show, &mark_all, &code), "z.qs:1:1: error: b");
    let nowhere = FormattedError { location: ErrorLocation::Unknown, text: "c".to_string() };
    assert_eq!(nowhere.pretty_with_code(&show, &mark_all, &code), "<unknown>: error: c");
}

#[test]
fn report_parts_are_put_together_in_order() {
    assert_eq!(pretty_line("L", ":", "E", "M"), "L: E M");
    assert_eq!(annotate_report("R".to_string(), Some("S".to_string())), "R\n\nS");
    assert_eq!(annotate_report("R".to_string(), None), "R");
}

#[test]
fn source_is_found_by_file_name() {
    let mut code = Code::new();
    code.insert("x.qs".to_string(), "one".to_string());
    assert_eq!(source_of(&single("x.qs", 1, 1), &code), Some(&"one".to_string()));
    assert_eq!(source_of(&single("y.qs", 1, 1), &code), None);
    assert_eq!(source_of(&ErrorLocation::Unknown, &code), None);
}

#[test]
fn formatted_error_clones_to_the_same_error() {
    let err = FormattedError { location: single("x.qs", 8, 1), text: "t".to_string() };
    let copy = err.clone();
    assert_eq!(copy.location(), err.location());
    assert_eq!(copy.to_string(), "t");
}
