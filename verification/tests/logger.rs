use mish::error::{Error, ErrorKind, ErrorLogger, ParseError};
use mish::token::Span;

fn error(message: &str) -> Error {
    Error {
        message: message.to_string(),
        kind: ErrorKind::Parse(ParseError::UnexpectedToken),
        span: Span { start: 1, end: 2 },
    }
}

#[test]
fn logger_starts_empty() {
    let logger = ErrorLogger::new("let");
    assert_eq!(logger.len(), 0);
    assert!(logger.dump().is_empty());
}

#[test]
fn logger_reports_errors_in_order() {
    let mut logger = ErrorLogger::new("let");
    logger.add_error(error("first"));
    assert_eq!(logger.dump(), vec!["error: first".to_string()]);
    logger.add_error(error("second"));
    assert_eq!(logger.dump(), vec!["error: first".to_string(), "error: second".to_string()]);
    assert_eq!(logger.len(), 2);
    assert_eq!(logger.get(1).message, "second");
    assert_eq!(logger.get(0).span, Span { start: 1, end: 2 });
    assert_eq!(logger.get(0).kind, ErrorKind::Parse(ParseError::UnexpectedToken));
}
