use lox::error::lox_error;
use lox::scanner::Scanner;

#[test]
fn diagnostic_line_format() {
    assert_eq!(lox_error(7, "boom".to_string()), "[line 7] Error(): boom");
    assert_eq!(lox_error(0, "".to_string()), "[line 0] Error(): ");
    assert_eq!(
        lox_error(1205, "Unterminated string.".to_string()),
        "[line 1205] Error(): Unterminated string."
    );
}

#[test]
fn scanner_errors_format_as_diagnostic_lines() {
    let mut scanner = Scanner::new("~\n\"open".to_string());
    scanner.scan_tokens();
    let rendered: Vec<String> =
        scanner.errors().iter().map(|e| lox_error(e.line, e.message.clone())).collect();
    assert_eq!(
        rendered,
        vec![
            "[line 1] Error(): Unexpected character: ~".to_string(),
            "[line 2] Error(): Unterminated string.".to_string(),
        ]
    );
}
