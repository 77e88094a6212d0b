use brooks_cli::cli::CliError;
use brooks_cli::diagnostics::{
    format_analysis_error, format_compiler_error, format_error, format_in_context,
    render_analyze_outcome, render_interpret_outcome, AnalysisFailure, AnalyzeOutcome,
    CompilerFailure, CompilerFailureKind, InterpretOutcome, SourceSpan,
};
use brooks_cli::diagnostics::{
    analysis_failure_renderable, analyze_outcome_renderable, compiler_failure_renderable,
    interpret_outcome_renderable, span_renderable,
};
use brooks_cli::text::{push_decimal, trim_newlines};

const UL: &str = "\x1b[4m";
const RED_UL: &str = "\x1b[4;31m";
const RESET: &str = "\x1b[0m";

fn span(start: usize, extent: usize) -> SourceSpan {
    SourceSpan { start, extent }
}

#[test]
fn error_in_the_middle_has_context_on_both_sides() {
    let r = format_in_context("unexpected", "abcdefghij", "p.mel", span(5, 2));
    assert_eq!(
        r,
        format!("{UL}Error:{RESET} unexpected:\n\t...cde{RED_UL}fg{RESET}hij...\n\tat p.mel:5,7")
    );
}

#[test]
fn error_at_the_start_has_no_leading_ellipsis() {
    let r = format_in_context("m", "abc\n", "f", span(0, 1));
    assert_eq!(r, format!("{UL}Error:{RESET} m:\n\t{RED_UL}a{RESET}bc\n\tat f:0,1"));
}

#[test]
fn error_near_the_start_shows_what_precedes_it() {
    let r = format_in_context("m", "abcdefgh", "f", span(2, 1));
    assert_eq!(r, format!("{UL}Error:{RESET} m:\n\tab{RED_UL}c{RESET}def...\n\tat f:2,3"));
}

#[test]
fn error_at_the_end_has_no_trailing_ellipsis() {
    let r = format_in_context("m", "abcdefgh\n", "f", span(6, 2));
    assert_eq!(r, format!("{UL}Error:{RESET} m:\n\t...def{RED_UL}gh{RESET}\n\tat f:6,8"));
}

#[test]
fn empty_span_and_large_positions() {
    let r = format_in_context("m", "abcdefghijklmnop", "f", span(12, 0));
    assert_eq!(r, format!("{UL}Error:{RESET} m:\n\t...jkl{RED_UL}{RESET}mno...\n\tat f:12,12"));
}

#[test]
fn multibyte_source_is_cut_at_characters() {
    // 'é' takes two bytes.
    let r = format_in_context("m", "xyzé+1", "f", span(5, 1));
    assert_eq!(r, format!("{UL}Error:{RESET} m:\n\t...zé{RED_UL}+{RESET}1...\n\tat f:5,6"));
}

#[test]
fn decimal_numbers_are_written_like_format() {
    for n in [0usize, 7, 10, 99, 100, 12345, usize::MAX] {
        let mut s = String::from("n=");
        push_decimal(&mut s, n);
        assert_eq!(s, format!("n={}", n));
    }
}

#[test]
fn trailing_newlines_are_trimmed() {
    assert_eq!(trim_newlines("ab\n\n"), "ab");
    assert_eq!(trim_newlines("\n"), "");
    assert_eq!(trim_newlines("a\nb"), "a\nb");
}

fn syntax(msg: &str, start: usize, extent: usize) -> CompilerFailure {
    CompilerFailure {
        error: CompilerFailureKind::SyntaxError(msg.to_string()),
        location: span(start, extent),
    }
}

#[test]
fn compiler_and_analysis_errors_are_formatted() {
    let source = "1 + + 2";
    let c = format_compiler_error(&syntax("bad token", 4, 1), source, "e.mel");
    assert_eq!(c, format_in_context("bad token", source, "e.mel", span(4, 1)));

    let a = AnalysisFailure {
        message: "type mismatch".to_string(),
        compiler_error: None,
        location: span(0, 1),
    };
    let expected = format_in_context("type mismatch", source, "e.mel", span(0, 1));
    assert_eq!(format_analysis_error(&a, source, "e.mel"), expected);
    assert_eq!(format_error(&a, source, "e.mel"), expected);

    let wrapped = AnalysisFailure {
        message: "compiler error".to_string(),
        compiler_error: Some(syntax("bad token", 4, 1)),
        location: span(0, 7),
    };
    assert_eq!(format_error(&wrapped, source, "e.mel"), c);
}

#[test]
fn analyze_outcomes_are_rendered() {
    let source = "1 + + 2";
    assert_eq!(
        render_analyze_outcome(&AnalyzeOutcome::Typed("Integer".to_string()), source, "e"),
        "Expression Type: Integer\n"
    );
    let c = syntax("bad", 4, 1);
    assert_eq!(
        render_analyze_outcome(&AnalyzeOutcome::CompileFailed(c.clone()), source, "e"),
        format_compiler_error(&c, source, "e") + "\n"
    );
}

#[test]
fn interpret_outcomes_are_rendered() {
    let out = render_interpret_outcome(
        &InterpretOutcome::Evaluated { value: Some("9".to_string()), log: "trace".to_string() },
        "5 + 4",
        "e",
    );
    assert_eq!(out.unwrap(), "9\nLog:\ntrace\n");
    let out = render_interpret_outcome(
        &InterpretOutcome::Evaluated { value: None, log: String::new() },
        "5 + 4",
        "e",
    );
    assert_eq!(out.unwrap(), "Value missing\nLog:\n\n");
    let out = render_interpret_outcome(&InterpretOutcome::EvaluationFailed("boom".into()), "x", "e");
    assert_eq!(out.unwrap(), "Error: boom");
    let out = render_interpret_outcome(&InterpretOutcome::AnalysisFailed("bad".into()), "x", "e");
    match out {
        Err(CliError::AnalysisError(m)) => assert_eq!(m, "bad"),
        _ => panic!("expected an analysis error"),
    }
}

#[test]
fn renderable_spans_are_recognised() {
    assert!(span_renderable("abcdef", span(2, 2)));
    assert!(span_renderable("abcdef", span(6, 0)));
    assert!(!span_renderable("abcdef", span(5, 2)));
    assert!(!span_renderable("abcdef", span(usize::MAX, 1)));
    // a cut inside 'é' (bytes 1..3) is refused
    assert!(!span_renderable("aéb", span(2, 1)));
    assert!(span_renderable("aéb", span(3, 1)));
    // the context before the error may not start inside a character either
    assert!(!span_renderable("éabc", span(4, 0)));

    let bad = CompilerFailure { error: CompilerFailureKind::Unrenderable, location: span(0, 1) };
    assert!(!compiler_failure_renderable(&bad, "abc"));
    assert!(compiler_failure_renderable(&syntax("m", 0, 1), "abc"));
    let wrapped = AnalysisFailure {
        message: "m".into(),
        compiler_error: Some(bad.clone()),
        location: span(0, 1),
    };
    assert!(!analysis_failure_renderable(&wrapped, "abc"));
    assert!(analyze_outcome_renderable(&AnalyzeOutcome::Typed("t".into()), ""));
    assert!(!analyze_outcome_renderable(&AnalyzeOutcome::CompileFailed(bad.clone()), "abc"));
    assert!(interpret_outcome_renderable(&InterpretOutcome::EvaluationFailed("e".into()), ""));
    assert!(!interpret_outcome_renderable(&InterpretOutcome::CompileFailed(bad), "abc"));
}
