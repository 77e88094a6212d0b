//! Rendering of MEL compiler and analysis errors in the context of the
//! source text they point into.

use vstd::prelude::*;
use vstd::string::*;
use vstd::utf8::*;
use crate::text::{byte_range_text, byte_slice, decimal_text, push_decimal, trim_newlines, trim_trailing_newlines};

verus! {

/// Where in the source (in bytes) an error lies.
#[derive(Debug, Clone, Copy, PartialEq, Eq, Structural)]
pub struct SourceSpan {
    pub start: usize,
    pub extent: usize,
}

/// What the MEL compiler reported.
#[derive(Debug, Clone)]
pub enum CompilerFailureKind {
    /// A syntax error, with its message.
    SyntaxError(String),
    /// Any other compiler error, which this tool cannot render.
    Unrenderable,
}

/// A compiler error together with its location.
#[derive(Debug, Clone)]
pub struct CompilerFailure {
    pub error: CompilerFailureKind,
    pub location: SourceSpan,
}

/// An analysis error: its message, the compiler error it wraps (if it wraps
/// one), and its location.
#[derive(Debug, Clone)]
pub struct AnalysisFailure {
    pub message: String,
    pub compiler_error: Option<CompilerFailure>,
    pub location: SourceSpan,
}

/// The escape sequence that starts underlined text.
pub open spec fn underline_code() -> Seq<char> {
    seq!['\x1b', '[', '4', 'm']
}

/// The escape sequence that starts red, underlined text.
pub open spec fn red_underline_code() -> Seq<char> {
    seq!['\x1b', '[', '4', ';', '3', '1', 'm']
}

/// The escape sequence that ends styled text.
pub open spec fn reset_code() -> Seq<char> {
    seq!['\x1b', '[', '0', 'm']
}

/// Calls ansi_term's `Style::underline` and `Style::paint` on `text` and
/// renders the result with `to_string`. Claimed: the output is the escape
/// code for underlining (`ESC[4m`), the text, and the reset code (`ESC[0m`).
#[verifier::external_body]
fn underlined(text: &str) -> (r: String)
    ensures
        r@ == underline_code() + text@ + reset_code(),
{
    ansi_term::Style::new().underline().paint(text).to_string()
}

/// Calls ansi_term's `Colour::underline` (on `Red`) and `Style::paint` on
/// `text` and renders the result with `to_string`. Claimed: the output is the
/// escape code for red underlined text (`ESC[4;31m`), the text, and the reset
/// code (`ESC[0m`).
#[verifier::external_body]
fn red_underlined(text: &str) -> (r: String)
    ensures
        r@ == red_underline_code() + text@ + reset_code(),
{
    ansi_term::Colour::Red.underline().paint(text).to_string()
}

/// The number of bytes of context shown on each side of an error.
pub open spec fn context_len() -> int {
    3
}

/// Where the context before an error starts.
pub open spec fn context_start(start: int) -> int {
    if start >= context_len() {
        start - context_len()
    } else {
        0
    }
}

/// Where the context after an error ends.
pub open spec fn context_end(len: int, end: int) -> int {
    if end + context_len() <= len {
        end + context_len()
    } else {
        len
    }
}

/// The length of the source without one final newline.
pub open spec fn semantic_len(bytes: Seq<u8>) -> int {
    if bytes.len() > 0 && bytes.last() == 10u8 {
        bytes.len() - 1
    } else {
        bytes.len() as int
    }
}

/// The inputs on which an error can be shown in context: its span lies in
/// the source, and every cut falls on a character boundary.
pub open spec fn renderable_span(source: Seq<char>, location: SourceSpan) -> bool {
    let bytes = encode_utf8(source);
    let start = location.start as int;
    let end = start + location.extent;
    &&& end + context_len() <= usize::MAX
    &&& start <= i64::MAX
    &&& end <= bytes.len()
    &&& is_char_boundary(bytes, context_start(start))
    &&& is_char_boundary(bytes, start)
    &&& is_char_boundary(bytes, end)
    &&& is_char_boundary(bytes, context_end(bytes.len() as int, end))
}

/// The first line of an error report: the underlined word `Error:` and the message.
pub open spec fn report_heading(message: Seq<char>) -> Seq<char> {
    underline_code() + "Error:"@ + reset_code() + " "@ + message + ":\n"@
}

/// The second line of an error report: the erroneous part of the source,
/// underlined in red, between up to three bytes of context on each side,
/// with `...` where the source goes on.
pub open spec fn report_context(source: Seq<char>, location: SourceSpan) -> Seq<char> {
    let bytes = encode_utf8(source);
    let start = location.start as int;
    let end = start + location.extent;
    let pre = context_start(start);
    let post_end = context_end(bytes.len() as int, end);
    context_line(
        pre != 0,
        byte_range_text(source, pre, start),
        byte_range_text(source, start, end),
        trim_trailing_newlines(byte_range_text(source, end, post_end)),
        post_end <= semantic_len(bytes),
    )
}

/// The last line of an error report: the path and the byte range of the error.
pub open spec fn report_position(path: Seq<char>, location: SourceSpan) -> Seq<char> {
    "\tat "@ + path + ":"@ + decimal_text(location.start as nat) + ","@ + decimal_text(
        (location.start + location.extent) as nat,
    )
}

/// Whether an error at `location` can be shown in the context of `source`.
pub fn span_renderable(source: &str, location: SourceSpan) -> (b: bool)
    ensures
        b == renderable_span(source@, location),
{
    let len = source.as_bytes().len();
    let start = location.start;
    if start > usize::MAX - location.extent {
        return false;
    }
    let end = start + location.extent;
    if end > usize::MAX - 3 {
        return false;
    }
    let pre: usize = if start >= 3 {
        start - 3
    } else {
        0
    };
    let post: usize = if end + 3 <= len {
        end + 3
    } else {
        len
    };
    (start as u64) <= (i64::MAX as u64) && end <= len && source.is_char_boundary(pre)
        && source.is_char_boundary(start) && source.is_char_boundary(end)
        && source.is_char_boundary(post)
}

/// An error message followed by the erroneous part of the source in context
/// and the position of the error.
pub open spec fn error_report(
    message: Seq<char>,
    source: Seq<char>,
    path: Seq<char>,
    location: SourceSpan,
) -> Seq<char> {
    report_heading(message) + report_context(source, location) + report_position(path, location)
}

/// The context line built from its pieces.
pub open spec fn context_line(
    leading_ellipsis: bool,
    before: Seq<char>,
    erroneous: Seq<char>,
    after: Seq<char>,
    trailing_ellipsis: bool,
) -> Seq<char> {
    "\t"@ + (if leading_ellipsis {
        "..."@
    } else {
        Seq::empty()
    }) + before + red_underline_code() + erroneous + reset_code() + after + (if trailing_ellipsis {
        "..."@
    } else {
        Seq::empty()
    }) + "\n"@
}

fn append_context_line(
    result: &mut String,
    leading_ellipsis: bool,
    before: &str,
    erroneous: &str,
    after: &str,
    trailing_ellipsis: bool,
)
    ensures
        final(result)@ == old(result)@ + context_line(
            leading_ellipsis,
            before@,
            erroneous@,
            after@,
            trailing_ellipsis,
        ),
{
    let ghost start = result@;
    result.append("\t");
    if leading_ellipsis {
        result.append("...");
    }
    result.append(before);
    let painted = red_underlined(erroneous);
    result.append(painted.as_str());
    result.append(after);
    if trailing_ellipsis {
        result.append("...");
    }
    result.append("\n");
    assert(result@ =~= start + context_line(
        leading_ellipsis,
        before@,
        erroneous@,
        after@,
        trailing_ellipsis,
    ));
}

fn append_context(result: &mut String, source: &str, location: SourceSpan)
    requires
        renderable_span(source@, location),
    ensures
        final(result)@ == old(result)@ + report_context(source@, location),
{
    let context_len: usize = 3;
    let bytes = source.as_bytes();
    let source_len = bytes.len();
    let semantic_source_len = if source_len > 0 && bytes[source_len - 1] == 10u8 {
        source_len - 1
    } else {
        source_len
    };

    let error_start = location.start;
    let error_end = error_start + location.extent;

    let pre_error_start: usize = if error_start >= context_len {
        error_start - context_len
    } else {
        0
    };
    let pre_error_end = location.start;

    let post_error_start = if source_len < error_end {
        source_len
    } else {
        error_end
    };
    let post_error_end = if source_len < error_end + context_len {
        source_len
    } else {
        error_end + context_len
    };
    assert(semantic_source_len == semantic_len(source.spec_bytes()));

    let pre_context = byte_slice(source, pre_error_start, pre_error_end);
    let erroneous = byte_slice(source, error_start, error_end);
    let post_context = trim_newlines(byte_slice(source, post_error_start, post_error_end));
    append_context_line(
        result,
        pre_error_start != 0,
        pre_context,
        erroneous,
        post_context,
        post_error_end <= semantic_source_len,
    );
}

fn append_position(result: &mut String, path: &str, location: SourceSpan)
    requires
        location.start + location.extent <= usize::MAX,
    ensures
        final(result)@ == old(result)@ + report_position(path@, location),
{
    let ghost before = result@;
    let error_end = location.start + location.extent;
    result.append("\tat ");
    result.append(path);
    result.append(":");
    push_decimal(result, location.start);
    result.append(",");
    push_decimal(result, error_end);
    assert(result@ =~= before + report_position(path@, location));
}

/// Shows an error in the context of the source it points into.
pub fn format_in_context(message: &str, source: &str, path: &str, location: SourceSpan) -> (r:
    String)
    requires
        renderable_span(source@, location),
    ensures
        r@ == error_report(message@, source@, path@, location),
{
    let mut result = underlined("Error:");
    result.append(" ");
    result.append(message);
    result.append(":\n");
    assert(result@ =~= report_heading(message@));
    append_context(&mut result, source, location);
    append_position(&mut result, path, location);
    assert(result@ =~= error_report(message@, source@, path@, location));
    result
}

} // verus!

verus! {

/// Whether a compiler error is one that can be shown in context.
pub open spec fn renderable_compiler_failure(error: CompilerFailure, source: Seq<char>) -> bool {
    error.error is SyntaxError && renderable_span(source, error.location)
}

/// Whether a compiler error can be shown in the context of `source`.
pub fn compiler_failure_renderable(error: &CompilerFailure, source: &str) -> (b: bool)
    ensures
        b == renderable_compiler_failure(*error, source@),
{
    match &error.error {
        CompilerFailureKind::SyntaxError(_) => span_renderable(source, error.location),
        CompilerFailureKind::Unrenderable => false,
    }
}

/// How a compiler error is shown.
pub open spec fn compiler_failure_report(
    error: CompilerFailure,
    source: Seq<char>,
    path: Seq<char>,
) -> Seq<char> {
    match error.error {
        CompilerFailureKind::SyntaxError(msg) => error_report(msg@, source, path, error.location),
        CompilerFailureKind::Unrenderable => Seq::empty(),
    }
}

/// Whether an analysis error can be shown by `format_error`.
pub open spec fn renderable_analysis_failure(error: AnalysisFailure, source: Seq<char>) -> bool {
    match error.compiler_error {
        Some(c) => renderable_compiler_failure(c, source),
        None => renderable_span(source, error.location),
    }
}

/// Whether `format_error` can show an analysis error in the context of `source`.
pub fn analysis_failure_renderable(error: &AnalysisFailure, source: &str) -> (b: bool)
    ensures
        b == renderable_analysis_failure(*error, source@),
{
    match &error.compiler_error {
        Some(c) => compiler_failure_renderable(c, source),
        None => span_renderable(source, error.location),
    }
}

/// How `format_error` shows an analysis error: a wrapped compiler error as
/// itself, any other error with its own message and location.
pub open spec fn analysis_failure_report(
    error: AnalysisFailure,
    source: Seq<char>,
    path: Seq<char>,
) -> Seq<char> {
    match error.compiler_error {
        Some(c) => compiler_failure_report(c, source, path),
        None => error_report(error.message@, source, path, error.location),
    }
}

/// Shows a syntax error in the context of the source.
pub fn format_compiler_error(error: &CompilerFailure, source: &str, path: &str) -> (r: String)
    requires
        renderable_compiler_failure(*error, source@),
    ensures
        r@ == compiler_failure_report(*error, source@, path@),
{
    match &error.error {
        CompilerFailureKind::SyntaxError(msg) => format_in_context(
            msg.as_str(),
            source,
            path,
            error.location,
        ),
        CompilerFailureKind::Unrenderable => String::new(),
    }
}

/// An analysis error is shown exactly as a syntax error with the same
/// message and location would be.
pub proof fn lemma_analysis_report_is_compiler_report(
    message: String,
    source: Seq<char>,
    path: Seq<char>,
    location: SourceSpan,
)
    ensures
        compiler_failure_report(
            CompilerFailure { error: CompilerFailureKind::SyntaxError(message), location },
            source,
            path,
        ) == error_report(message@, source, path, location),
{
}

/// Shows an analysis error, with its own message, in the context of the source.
pub fn format_analysis_error(error: &AnalysisFailure, source: &str, path: &str) -> (r: String)
    requires
        renderable_span(source@, error.location),
    ensures
        r@ == error_report(error.message@, source@, path@, error.location),
{
    format_in_context(error.message.as_str(), source, path, error.location)
}

/// Shows an analysis error; one that wraps a compiler error is shown as that
/// compiler error.
pub fn format_error(error: &AnalysisFailure, source: &str, path: &str) -> (r: String)
    requires
        renderable_analysis_failure(*error, source@),
    ensures
        r@ == analysis_failure_report(*error, source@, path@),
{
    match &error.compiler_error {
        Some(c) => format_compiler_error(c, source, path),
        None => format_analysis_error(error, source, path),
    }
}

/// What compiling and analysing a MEL expression gave.
#[derive(Debug, Clone)]
pub enum AnalyzeOutcome {
    /// The expression did not compile.
    CompileFailed(CompilerFailure),
    /// The expression compiled but did not pass the analysis.
    AnalysisFailed(AnalysisFailure),
    /// The expression has the type with this name.
    Typed(String),
}

pub open spec fn renderable_analyze_outcome(outcome: AnalyzeOutcome, source: Seq<char>) -> bool {
    match outcome {
        AnalyzeOutcome::CompileFailed(e) => renderable_compiler_failure(e, source),
        AnalyzeOutcome::AnalysisFailed(e) => renderable_analysis_failure(e, source),
        AnalyzeOutcome::Typed(_) => true,
    }
}

/// Whether the outcome of the `analyze` command can be rendered.
pub fn analyze_outcome_renderable(outcome: &AnalyzeOutcome, source: &str) -> (b: bool)
    ensures
        b == renderable_analyze_outcome(*outcome, source@),
        outcome matches AnalyzeOutcome::CompileFailed(c) ==> (b <==> (c.error is SyntaxError
            && renderable_span(source@, c.location))),
        outcome matches AnalyzeOutcome::AnalysisFailed(e) ==> (b <==> match e.compiler_error {
            Some(c) => c.error is SyntaxError && renderable_span(source@, c.location),
            None => renderable_span(source@, e.location),
        }),
        outcome is Typed ==> b,
{
    match outcome {
        AnalyzeOutcome::CompileFailed(e) => compiler_failure_renderable(e, source),
        AnalyzeOutcome::AnalysisFailed(e) => analysis_failure_renderable(e, source),
        AnalyzeOutcome::Typed(_) => true,
    }
}

/// What the `analyze` command prints.
pub open spec fn analyze_output(outcome: AnalyzeOutcome, source: Seq<char>, path: Seq<char>) -> Seq<
    char,
> {
    match outcome {
        AnalyzeOutcome::CompileFailed(e) => compiler_failure_report(e, source, path) + "\n"@,
        AnalyzeOutcome::AnalysisFailed(e) => analysis_failure_report(e, source, path) + "\n"@,
        AnalyzeOutcome::Typed(t) => "Expression Type: "@ + t@ + "\n"@,
    }
}

/// The text that the `analyze` command prints for the outcome of compiling
/// and analysing `source`.
pub fn render_analyze_outcome(outcome: &AnalyzeOutcome, source: &str, path: &str) -> (r: String)
    requires
        renderable_analyze_outcome(*outcome, source@),
    ensures
        r@ == analyze_output(*outcome, source@, path@),
        outcome matches AnalyzeOutcome::CompileFailed(c) ==> match c.error {
            CompilerFailureKind::SyntaxError(m) => r@ == error_report(
                m@,
                source@,
                path@,
                c.location,
            ) + "\n"@,
            CompilerFailureKind::Unrenderable => true,
        },
        outcome matches AnalyzeOutcome::AnalysisFailed(e) ==> match e.compiler_error {
            Some(c) => match c.error {
                CompilerFailureKind::SyntaxError(m) => r@ == error_report(
                    m@,
                    source@,
                    path@,
                    c.location,
                ) + "\n"@,
                CompilerFailureKind::Unrenderable => true,
            },
            None => r@ == error_report(e.message@, source@, path@, e.location) + "\n"@,
        },
{
    let mut r = match outcome {
        AnalyzeOutcome::CompileFailed(e) => format_compiler_error(e, source, path),
        AnalyzeOutcome::AnalysisFailed(e) => format_error(e, source, path),
        AnalyzeOutcome::Typed(t) => {
            let mut s = String::new();
            s.append("Expression Type: ");
            s.append(t.as_str());
            s
        },
    };
    r.append("\n");
    r
}

/// What compiling, analysing and interpreting a MEL expression gave.
#[derive(Debug, Clone)]
pub enum InterpretOutcome {
    /// The expression did not compile.
    CompileFailed(CompilerFailure),
    /// The expression did not pass the analysis; the text describes why.
    AnalysisFailed(String),
    /// The expression was evaluated, to a value (shown as text) or to none,
    /// with the interpreter's log.
    Evaluated { value: Option<String>, log: String },
    /// The interpreter failed; the text describes why.
    EvaluationFailed(String),
}

pub open spec fn renderable_interpret_outcome(outcome: InterpretOutcome, source: Seq<char>) -> bool {
    match outcome {
        InterpretOutcome::CompileFailed(e) => renderable_compiler_failure(e, source),
        _ => true,
    }
}

/// Whether the outcome of the `interpret` command can be rendered.
pub fn interpret_outcome_renderable(outcome: &InterpretOutcome, source: &str) -> (b: bool)
    ensures
        b == renderable_interpret_outcome(*outcome, source@),
        outcome matches InterpretOutcome::CompileFailed(c) ==> (b <==> (c.error is SyntaxError
            && renderable_span(source@, c.location))),
        !(outcome is CompileFailed) ==> b,
{
    match outcome {
        InterpretOutcome::CompileFailed(e) => compiler_failure_renderable(e, source),
        _ => true,
    }
}

/// What the `interpret` command prints, or the error it ends with.
pub open spec fn interpret_output(
    outcome: InterpretOutcome,
    source: Seq<char>,
    path: Seq<char>,
) -> Result<Seq<char>, Seq<char>> {
    match outcome {
        InterpretOutcome::CompileFailed(e) => Ok(compiler_failure_report(e, source, path) + "\n"@),
        InterpretOutcome::AnalysisFailed(m) => Err(m@),
        InterpretOutcome::Evaluated { value, log } => Ok(
            match value {
                Some(v) => v@,
                None => "Value missing"@,
            } + "\n"@ + "Log:"@ + "\n"@ + log@ + "\n"@,
        ),
        InterpretOutcome::EvaluationFailed(m) => Ok("Error: "@ + m@),
    }
}

/// The text that the `interpret` command prints for the outcome of running
/// `source`, or, when the analysis failed, the error that ends the command.
pub fn render_interpret_outcome(outcome: &InterpretOutcome, source: &str, path: &str) -> (r: Result<
    String,
    crate::cli::CliError,
>)
    requires
        renderable_interpret_outcome(*outcome, source@),
    ensures
        match interpret_output(*outcome, source@, path@) {
            Ok(text) => r matches Ok(s) && s@ == text,
            Err(m) => r matches Err(crate::cli::CliError::AnalysisError(s)) && s@ == m,
        },
        outcome matches InterpretOutcome::CompileFailed(c) ==> match c.error {
            CompilerFailureKind::SyntaxError(m) => r matches Ok(s) && s@ == error_report(
                m@,
                source@,
                path@,
                c.location,
            ) + "\n"@,
            CompilerFailureKind::Unrenderable => true,
        },
{
    match outcome {
        InterpretOutcome::CompileFailed(e) => {
            let mut s = format_compiler_error(e, source, path);
            s.append("\n");
            Ok(s)
        },
        InterpretOutcome::AnalysisFailed(m) => Err(crate::cli::CliError::AnalysisError(m.clone())),
        InterpretOutcome::Evaluated { value, log } => {
            let mut s = String::new();
            match value {
                Some(v) => s.append(v.as_str()),
                None => s.append("Value missing"),
            }
            s.append("\n");
            s.append("Log:");
            s.append("\n");
            s.append(log.as_str());
            s.append("\n");
            Ok(s)
        },
        InterpretOutcome::EvaluationFailed(m) => {
            let mut s = String::new();
            s.append("Error: ");
            s.append(m.as_str());
            Ok(s)
        },
    }
}

/// The `interpret` command, on an expression with a syntax error, prints
/// exactly the report that `format_compiler_error` gives for that error,
/// followed by one newline: never nothing, it begins with the underlined
/// `Error:` heading and the error's message, and it ends with the position
/// line `\tat path:start,end` and a newline.
pub proof fn lemma_interpret_shows_syntax_error(
    message: String,
    location: SourceSpan,
    source: Seq<char>,
    path: Seq<char>,
)
    ensures
        ({
            let c = CompilerFailure { error: CompilerFailureKind::SyntaxError(message), location };
            let heading = underline_code() + "Error:"@ + reset_code() + " "@ + message@;
            let position = "\tat "@ + path + ":"@ + decimal_text(location.start as nat) + ","@
                + decimal_text((location.start + location.extent) as nat) + "\n"@;
            interpret_output(InterpretOutcome::CompileFailed(c), source, path) matches Ok(t) && {
                &&& t == compiler_failure_report(c, source, path) + "\n"@
                &&& t == error_report(message@, source, path, location) + "\n"@
                &&& t.len() > 0
                &&& t.last() == '\n'
                &&& t.take(heading.len() as int) == heading
                &&& t.skip(t.len() - position.len()) == position
            }
        }),
{
    lemma_error_report_shape(message@, source, path, location);
}

/// The `analyze` command, on an expression that does not pass the analysis,
/// prints what `format_error` gives for the failure, followed by one
/// newline: the report of its own message and location, or, where it wraps
/// a syntax error, the report of that error. Either way the output begins
/// with the underlined `Error:` heading and the message, and ends with the
/// position line `\tat path:start,end` and a newline.
pub proof fn lemma_analyze_shows_analysis_error(
    error: AnalysisFailure,
    source: Seq<char>,
    path: Seq<char>,
)
    requires
        !(error.compiler_error matches Some(c) && c.error is Unrenderable),
    ensures
        ({
            let (message, location) = match error.compiler_error {
                Some(c) => match c.error {
                    CompilerFailureKind::SyntaxError(m) => (m@, c.location),
                    CompilerFailureKind::Unrenderable => (error.message@, error.location),
                },
                None => (error.message@, error.location),
            };
            let t = analyze_output(AnalyzeOutcome::AnalysisFailed(error), source, path);
            let heading = underline_code() + "Error:"@ + reset_code() + " "@ + message;
            let position = "\tat "@ + path + ":"@ + decimal_text(location.start as nat) + ","@
                + decimal_text((location.start + location.extent) as nat) + "\n"@;
            &&& t == error_report(message, source, path, location) + "\n"@
            &&& t.len() > 0
            &&& t.last() == '\n'
            &&& t.take(heading.len() as int) == heading
            &&& t.skip(t.len() - position.len()) == position
        }),
{
    match error.compiler_error {
        Some(c) => match c.error {
            CompilerFailureKind::SyntaxError(m) => {
                lemma_error_report_shape(m@, source, path, c.location);
            },
            CompilerFailureKind::Unrenderable => {},
        },
        None => {
            lemma_error_report_shape(error.message@, source, path, error.location);
        },
    }
}

/// What the `interpret` command does on the outcomes other than a compile
/// failure: a failed analysis ends the command with the analysis error's own
/// text; an evaluation prints the value (or `Value missing`), the line
/// `Log:` and the log, each followed by a newline; a failed evaluation prints
/// `Error: ` and the reason, with no newline after it.
pub proof fn lemma_interpret_prints_value_and_log(
    outcome: InterpretOutcome,
    source: Seq<char>,
    path: Seq<char>,
)
    ensures
        outcome matches InterpretOutcome::AnalysisFailed(m) ==> interpret_output(
            outcome,
            source,
            path,
        ) == Err::<Seq<char>, Seq<char>>(m@),
        outcome matches InterpretOutcome::Evaluated { value, log } ==> interpret_output(
            outcome,
            source,
            path,
        ) == Ok::<Seq<char>, Seq<char>>(
            match value {
                Some(v) => v@,
                None => "Value missing"@,
            } + "\nLog:\n"@ + log@ + "\n"@,
        ),
        outcome matches InterpretOutcome::EvaluationFailed(m) ==> interpret_output(
            outcome,
            source,
            path,
        ) == Ok::<Seq<char>, Seq<char>>("Error: "@ + m@),
{
    reveal_strlit("\nLog:\n");
    reveal_strlit("\n");
    reveal_strlit("Log:");
    if let InterpretOutcome::Evaluated { value, log } = outcome {
        let v = match value {
            Some(v) => v@,
            None => "Value missing"@,
        };
        assert(v + "\n"@ + "Log:"@ + "\n"@ + log@ + "\n"@ =~= v + "\nLog:\n"@ + log@ + "\n"@);
    }
}

proof fn lemma_error_report_shape(
    message: Seq<char>,
    source: Seq<char>,
    path: Seq<char>,
    location: SourceSpan,
)
    ensures
        ({
            let t = error_report(message, source, path, location) + "\n"@;
            let heading = underline_code() + "Error:"@ + reset_code() + " "@ + message;
            let position = "\tat "@ + path + ":"@ + decimal_text(location.start as nat) + ","@
                + decimal_text((location.start + location.extent) as nat) + "\n"@;
            &&& t.len() > 0
            &&& t.last() == '\n'
            &&& t.take(heading.len() as int) == heading
            &&& t.skip(t.len() - position.len()) == position
        }),
{
    reveal_strlit("\n");
    let t = error_report(message, source, path, location) + "\n"@;
    let heading = underline_code() + "Error:"@ + reset_code() + " "@ + message;
    let position = "\tat "@ + path + ":"@ + decimal_text(location.start as nat) + ","@
        + decimal_text((location.start + location.extent) as nat) + "\n"@;
    let rest = ":\n"@ + report_context(source, location) + report_position(path, location)
        + "\n"@;
    assert(t =~= heading + rest);
    assert(t.take(heading.len() as int) =~= heading);
    let front = report_heading(message) + report_context(source, location);
    assert(t =~= front + position);
    assert(t.skip(t.len() - position.len()) =~= position);
}

/// The outcome of the `analyze` command can be shown exactly when
/// `format_error` (or `format_compiler_error`) can show it: a compile
/// failure, or an analysis failure that wraps one, when it is a syntax error
/// whose span is renderable; an analysis failure that wraps none when its own
/// span lies in the source with every cut on a character boundary; a type
/// always.
pub proof fn lemma_analyze_renderable_exactly(outcome: AnalyzeOutcome, source: Seq<char>)
    ensures
        renderable_analyze_outcome(outcome, source) <==> match outcome {
            AnalyzeOutcome::CompileFailed(c) => c.error is SyntaxError && renderable_span(
                source,
                c.location,
            ),
            AnalyzeOutcome::AnalysisFailed(e) => match e.compiler_error {
                Some(c) => c.error is SyntaxError && renderable_span(source, c.location),
                None => renderable_span(source, e.location),
            },
            AnalyzeOutcome::Typed(_) => true,
        },
{
}

} // verus!
