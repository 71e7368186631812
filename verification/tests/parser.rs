use bisect_bot::command::{Command, ParseError};

fn bisect(start: Option<&str>, end: &str, code: &str) -> Command {
    Command::Bisect {
        start: start.map(|s| s.to_string()),
        end: end.to_string(),
        code: code.to_string(),
    }
}

#[test]
fn parser_success() {
    assert_eq!(
        Command::parse_comment(
            "bisect-bot bisect start=2021-01-01 end=2021-02-01\n```rust\nfn main(){}\n```"
        ),
        Ok(Some(bisect(Some("2021-01-01"), "2021-02-01", "fn main(){}")))
    );
}

#[test]
fn parser_success_without_start() {
    assert_eq!(
        Command::parse_comment("bisect-bot bisect end=nightly-2021-05-01\n```rust\nfn main(){}\n```"),
        Ok(Some(bisect(None, "nightly-2021-05-01", "fn main(){}")))
    );
}

#[test]
fn parser_totality_without_prefix() {
    assert_eq!(Command::parse_comment(""), Ok(None));
    assert_eq!(Command::parse_comment("just a comment\nwith two lines"), Ok(None));
    assert_eq!(Command::parse_comment("bisect-bot"), Ok(None));
    assert_eq!(Command::parse_comment("Bisect-bot bisect end=a"), Ok(None));
    assert_eq!(Command::parse_comment("```rust\nfn main(){}\n```"), Ok(None));
}

#[test]
fn prefix_inside_a_line_is_no_invocation() {
    assert_eq!(Command::parse_comment("please, bisect-bot bisect end=a"), Ok(None));
}

#[test]
fn parser_failure_missing_end() {
    assert_eq!(
        Command::parse_comment("bisect-bot bisect start=2021-01-01\n```rust\nfn main(){}\n```"),
        Err(ParseError::MissingEnd)
    );
    assert_eq!(Command::parse_comment("bisect-bot bisect"), Err(ParseError::MissingEnd));
}

#[test]
fn parser_failure_missing_code_fence() {
    assert_eq!(
        Command::parse_comment("bisect-bot bisect end=2021-02-01"),
        Err(ParseError::MissingCodeFence)
    );
    assert_eq!(
        Command::parse_comment("bisect-bot bisect end=2021-02-01\nfn main(){}\n```"),
        Err(ParseError::MissingCodeFence)
    );
}

#[test]
fn opening_fence_before_the_directive_does_not_count() {
    assert_eq!(
        Command::parse_comment("```rust\nfn main(){}\n```\nbisect-bot bisect end=a"),
        Err(ParseError::MissingCodeFence)
    );
}

#[test]
fn duplicate_key() {
    assert_eq!(
        Command::parse_comment("bisect-bot bisect end=a end=b\n```rust\nfn main(){}\n```"),
        Err(ParseError::DuplicateKey("end".to_string()))
    );
    assert_eq!(
        Command::parse_comment("bisect-bot bisect start=a end=b start=c\n```rust\n```"),
        Err(ParseError::DuplicateKey("start".to_string()))
    );
}

#[test]
fn unknown_command() {
    assert_eq!(
        Command::parse_comment("bisect-bot cancel 12"),
        Err(ParseError::UnknownCommand("cancel".to_string()))
    );
    assert_eq!(
        Command::parse_comment("  bisect-bot  \nnext"),
        Ok(None)
    );
    assert_eq!(
        Command::parse_comment("bisect-bot  bisect end=a"),
        Err(ParseError::MissingCodeFence)
    );
    assert_eq!(
        Command::parse_comment("bisect-bot Bisect end=a"),
        Err(ParseError::UnknownCommand("Bisect".to_string()))
    );
}

#[test]
fn unknown_argument() {
    assert_eq!(
        Command::parse_comment("bisect-bot bisect end=a verbose\n```rust\n```"),
        Err(ParseError::UnknownArgument("verbose".to_string()))
    );
    assert_eq!(
        Command::parse_comment("bisect-bot bisect end=a  start=b\n```rust\n```"),
        Err(ParseError::UnknownArgument("".to_string()))
    );
    assert_eq!(
        Command::parse_comment("bisect-bot bisect END=a\n```rust\n```"),
        Err(ParseError::UnknownArgument("END=a".to_string()))
    );
}

#[test]
fn first_error_in_token_order_decides() {
    assert_eq!(
        Command::parse_comment("bisect-bot bisect bogus end=a end=b"),
        Err(ParseError::UnknownArgument("bogus".to_string()))
    );
    assert_eq!(
        Command::parse_comment("bisect-bot bisect end=a end=b bogus"),
        Err(ParseError::DuplicateKey("end".to_string()))
    );
}

#[test]
fn empty_values_are_values() {
    assert_eq!(
        Command::parse_comment("bisect-bot bisect start= end=\n```rust\n```"),
        Ok(Some(bisect(Some(""), "", "")))
    );
}

#[test]
fn code_is_kept_verbatim() {
    let comment = "intro\n  bisect-bot bisect end=1.50.0  \nsome prose\n  ```rust  \nfn main() {\n    let x = 1;\t\n\n}\n ``` \nafter\n```rust\nignored\n```";
    assert_eq!(
        Command::parse_comment(comment),
        Ok(Some(bisect(None, "1.50.0", "fn main() {\n    let x = 1;\t\n\n}")))
    );
}

#[test]
fn code_without_closing_fence_runs_to_the_end() {
    assert_eq!(
        Command::parse_comment("bisect-bot bisect end=a\n```rust\nline one\nline two\n"),
        Ok(Some(bisect(None, "a", "line one\nline two")))
    );
}

#[test]
fn carriage_returns_end_lines() {
    assert_eq!(
        Command::parse_comment("bisect-bot bisect end=a\r\n```rust\r\nfn main(){}\r\nfn f(){}\r\n```\r\n"),
        Ok(Some(bisect(None, "a", "fn main(){}\nfn f(){}")))
    );
}

#[test]
fn only_the_first_invocation_counts() {
    assert_eq!(
        Command::parse_comment("bisect-bot frobnicate\nbisect-bot bisect end=a\n```rust\n```"),
        Err(ParseError::UnknownCommand("frobnicate".to_string()))
    );
    assert_eq!(
        Command::parse_comment("bisect-bot bisect end=a\n```rust\nx\n```\nbisect-bot frobnicate"),
        Ok(Some(bisect(None, "a", "x")))
    );
}
