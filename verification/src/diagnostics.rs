//! What the diagnostics log accepts and how each line reads.
use vstd::prelude::*;
use crate::text::{concat_str, decimal, decimal_string, str_eq, string_push};

verus! {

pub const LOG_FILE_NAME: &'static str = "orcestr-real-translate.log";
/// The most characters of one field that reach the log.
pub const MAX_FIELD_LENGTH: usize = 8 * 1024;

/// The first `MAX_FIELD_LENGTH` characters of `s`.
pub open spec fn bounded_seq(s: Seq<char>) -> Seq<char> {
    if s.len() <= MAX_FIELD_LENGTH {
        s
    } else {
        s.take(MAX_FIELD_LENGTH as int)
    }
}

/// A line break turned into a space.
pub open spec fn single_line_char(c: char) -> char {
    if c == '\r' || c == '\n' {
        ' '
    } else {
        c
    }
}

/// `s` bounded, with every line break replaced by a space.
pub open spec fn sanitized_seq(s: Seq<char>) -> Seq<char> {
    bounded_seq(s).map_values(|c: char| single_line_char(c))
}

/// The first `MAX_FIELD_LENGTH` characters of `value`.
pub fn bounded(value: &str) -> (r: String)
    ensures
        r@ == bounded_seq(value@),
{
    let mut out = String::new();
    let mut count: usize = 0;
    for c in it: value.chars()
        invariant
            it.seq() == value@,
            count == out@.len(),
            out@ == bounded_seq(value@.take(it.index() as int)),
            count <= MAX_FIELD_LENGTH,
    {
        let ghost i = it.index();
        if count < MAX_FIELD_LENGTH {
            string_push(&mut out, c);
            count = count + 1;
        }
        proof {
            assert(value@.take(i + 1).take(i) =~= value@.take(i));
            assert(bounded_seq(value@.take(i + 1)) =~= out@);
        }
    }
    proof {
        assert(value@.take(value@.len() as int) =~= value@);
    }
    out
}

/// `value` bounded and on one line: each `\r` and `\n` becomes a space.
pub fn sanitize(value: &str) -> (r: String)
    ensures
        r@ == sanitized_seq(value@),
        r@.len() <= MAX_FIELD_LENGTH,
        forall|i: int| 0 <= i < r@.len() ==> r@[i] != '\r' && r@[i] != '\n',
{
    let b = bounded(value);
    let mut out = String::new();
    for c in it: b.as_str().chars()
        invariant
            it.seq() == b@,
            b@ == bounded_seq(value@),
            out@ == b@.take(it.index() as int).map_values(|c: char| single_line_char(c)),
    {
        let ghost before = out@;
        if c == '\r' || c == '\n' {
            string_push(&mut out, ' ');
        } else {
            string_push(&mut out, c);
        }
        proof {
            assert(b@.take(it.index() + 1).map_values(|c: char| single_line_char(c)) =~= out@);
        }
    }
    proof {
        assert(b@.take(b@.len() as int) =~= b@);
    }
    out
}

/// The log level of a renderer report.
pub fn renderer_level(level: &str) -> (r: Result<&'static str, String>)
    ensures
        level@ == "info"@ ==> (r matches Ok(l) && l@ == "INFO"@),
        level@ == "warning"@ ==> (r matches Ok(l) && l@ == "WARN"@),
        level@ == "error"@ ==> (r matches Ok(l) && l@ == "ERROR"@),
        level@ != "info"@ && level@ != "warning"@ && level@ != "error"@ ==> (r matches Err(e)
            && e@ == "Unsupported diagnostics level"@),
{
    proof {
        reveal_strlit("info");
        reveal_strlit("warning");
        reveal_strlit("error");
        assert("info"@[0] != "warning"@[0]);
        assert("info"@[0] != "error"@[0]);
        assert("warning"@[0] != "error"@[0]);
    }
    if str_eq(level, "info") {
        Ok("INFO")
    } else if str_eq(level, "warning") {
        Ok("WARN")
    } else if str_eq(level, "error") {
        Ok("ERROR")
    } else {
        Err("Unsupported diagnostics level".to_owned())
    }
}

/// `":"` and the number, where there is one.
pub open spec fn position_part(n: Option<u32>) -> Seq<char> {
    match n {
        Some(v) => ":"@ + decimal(v as nat),
        None => Seq::empty(),
    }
}

/// The text logged for a renderer report: its message, then its source
/// with line and column and its stack where they are not empty, each field
/// bounded.
pub open spec fn renderer_details_seq(
    message: Seq<char>,
    source: Option<Seq<char>>,
    line: Option<u32>,
    column: Option<u32>,
    stack: Option<Seq<char>>,
) -> Seq<char> {
    let head = "Renderer: "@ + bounded_seq(message);
    let with_source = match source {
        Some(s) if s.len() > 0 => head + " | source="@ + bounded_seq(s) + position_part(line)
            + position_part(column),
        _ => head,
    };
    match stack {
        Some(s) if s.len() > 0 => with_source + " | stack="@ + bounded_seq(s),
        _ => with_source,
    }
}

pub open spec fn opt_string_view(o: Option<String>) -> Option<Seq<char>> {
    match o {
        Some(s) => Some(s@),
        None => None,
    }
}

fn position_text(n: Option<u32>) -> (r: String)
    ensures
        r@ == position_part(n),
{
    match n {
        Some(v) => {
            let digits = decimal_string(v as u64);
            concat_str(":", digits.as_str())
        },
        None => String::new(),
    }
}

/// The details of a renderer report, as the log records them.
pub fn renderer_details(
    message: &str,
    source: Option<String>,
    line: Option<u32>,
    column: Option<u32>,
    stack: Option<String>,
) -> (r: String)
    ensures
        r@ == renderer_details_seq(
            message@,
            opt_string_view(source),
            line,
            column,
            opt_string_view(stack),
        ),
{
    let bounded_message = bounded(message);
    let mut details = concat_str("Renderer: ", bounded_message.as_str());
    match &source {
        Some(s) => {
            if !s.as_str().is_empty() {
                let bounded_source = bounded(s.as_str());
                details = concat_str(details.as_str(), " | source=");
                details = concat_str(details.as_str(), bounded_source.as_str());
                let line_text = position_text(line);
                details = concat_str(details.as_str(), line_text.as_str());
                let column_text = position_text(column);
                details = concat_str(details.as_str(), column_text.as_str());
            }
        },
        None => {},
    }
    match &stack {
        Some(s) => {
            if !s.as_str().is_empty() {
                let bounded_stack = bounded(s.as_str());
                details = concat_str(details.as_str(), " | stack=");
                details = concat_str(details.as_str(), bounded_stack.as_str());
            }
        },
        None => {},
    }
    details
}

/// One line of the log: the time in seconds, the level, and the message
/// sanitized.
pub fn log_line(timestamp: u64, level: &str, message: &str) -> (r: String)
    ensures
        r@ == "["@ + decimal(timestamp as nat) + "] "@ + level@ + " "@ + sanitized_seq(message@),
{
    let stamp = decimal_string(timestamp);
    let clean = sanitize(message);
    let mut line = concat_str("[", stamp.as_str());
    line = concat_str(line.as_str(), "] ");
    line = concat_str(line.as_str(), level);
    line = concat_str(line.as_str(), " ");
    line = concat_str(line.as_str(), clean.as_str());
    line
}

/// Diagnostics answer the main window only.
pub fn ensure_main_window(label: &str) -> (r: Result<(), String>)
    ensures
        r is Ok == (label@ == "main"@),
        r matches Err(e) ==> e@ == "Diagnostics are not available to the current window"@,
{
    if str_eq(label, "main") {
        Ok(())
    } else {
        Err("Diagnostics are not available to the current window".to_owned())
    }
}

} // verus!
