//! What a finished command prints, and where: plain text (stdout on
//! success, stderr on error) or a JSON envelope on stdout.
use crate::errors::{displays_as, Error, ErrorView};
use crate::git::text_result;
use crate::text::{cat, json_quoted, json_str};
use vstd::prelude::*;

verus! {

/// The result of running a command, ready for the output layer.
pub struct CommandResult {
    /// The command's answer.
    pub result: Result<String, Error>,
    /// Print a JSON envelope instead of text.
    pub json: bool,
}

/// Text to print, and whether it goes to stderr (else stdout). A newline
/// follows it.
pub struct Rendered {
    pub text: String,
    pub to_stderr: bool,
}

/// The JSON envelope of an answer: `{"data":...}` on success and
/// `{"error":{"message":...,"source":...}}` on failure.
pub open spec fn envelope(r: Result<Seq<char>, ErrorView>) -> Seq<char> {
    match r {
        Ok(d) => "{\"data\":"@ + json_str(d) + "}"@,
        Err(e) => "{\"error\":{\"message\":"@ + json_str(e.message) + ",\"source\":"@ + json_str(
            e.source,
        ) + "}}"@,
    }
}

/// `r` shows the answer as text: the data on stdout, or two newlines and
/// the displayed error on stderr.
pub open spec fn text_form(result: Result<String, Error>, r: Rendered) -> bool {
    match result {
        Ok(d) => r.text@ == d@ && !r.to_stderr,
        Err(e) => r.to_stderr && r.text@.len() >= 2 && r.text@.take(2) == "\n\n"@ && displays_as(
            r.text@.skip(2),
            e@,
        ),
    }
}

/// The answer as text: the data on stdout, or two newlines and the
/// displayed error on stderr.
pub fn output_text(result: &Result<String, Error>) -> (r: Rendered)
    ensures
        text_form(*result, r),
{
    match result {
        Ok(d) => Rendered { text: d.clone(), to_stderr: false },
        Err(e) => {
            let shown = e.to_string();
            let text = cat("\n\n", shown.as_str());
            proof {
                reveal_strlit("\n\n");
                assert(text@.take(2) =~= "\n\n"@);
                assert(text@.skip(2) =~= shown@);
            }
            Rendered { text, to_stderr: true }
        },
    }
}

/// The answer as a JSON envelope on stdout.
pub fn output_json(result: &Result<String, Error>) -> (r: Rendered)
    ensures
        r.text@ == envelope(text_result(*result)),
        !r.to_stderr,
{
    match result {
        Ok(d) => {
            let mut text = crate::text::owned("{\"data\":");
            text.append(json_quoted(d.as_str()).as_str());
            text.append("}");
            Rendered { text, to_stderr: false }
        },
        Err(e) => {
            let mut text = crate::text::owned("{\"error\":{\"message\":");
            text.append(json_quoted(e.message.as_str()).as_str());
            text.append(",\"source\":");
            text.append(json_quoted(e.source.as_str()).as_str());
            text.append("}}");
            Rendered { text, to_stderr: false }
        },
    }
}

/// What a command result prints: the JSON envelope when asked for, else
/// the text form.
pub fn output_result(cr: &CommandResult) -> (r: Rendered)
    ensures
        cr.json ==> r.text@ == envelope(text_result(cr.result)) && !r.to_stderr,
        !cr.json ==> text_form(cr.result, r),
{
    if cr.json {
        output_json(&cr.result)
    } else {
        output_text(&cr.result)
    }
}

impl CommandResult {
    /// Whether the command failed (the process then exits with status 1).
    pub fn failed(&self) -> (r: bool)
        ensures
            r == self.result is Err,
    {
        self.result.is_err()
    }
}

} // verus!
