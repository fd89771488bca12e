//! Declarative command executions and the evaluation of their outcome.
use crate::text::{int_text, push_int, push_str, string_of};
use vstd::prelude::*;

verus! {

/// What a command produced: captured stdout, stderr and exit status.
/// A field is `None` where nothing was captured (or, as an expectation,
/// where anything is accepted).
#[derive(Debug)]
pub struct Output {
    pub stdout: Option<String>,
    pub stderr: Option<String>,
    pub status: Option<i32>,
}

/// An expected text field: unset is a wildcard, set must match exactly.
pub open spec fn text_matches(expected: Option<String>, observed: Option<String>) -> bool {
    match expected {
        None => true,
        Some(e) => match observed {
            None => false,
            Some(o) => o@ == e@,
        },
    }
}

/// An expected exit status: unset is a wildcard, set must match exactly.
pub open spec fn status_matches(expected: Option<i32>, observed: Option<i32>) -> bool {
    match expected {
        None => true,
        Some(e) => observed == Some(e),
    }
}

/// `observed` meets every expectation that `expected` sets.
pub open spec fn satisfies(observed: Output, expected: Output) -> bool {
    &&& text_matches(expected.stdout, observed.stdout)
    &&& text_matches(expected.stderr, observed.stderr)
    &&& status_matches(expected.status, observed.status)
}

/// Unset expectations are wildcards: expecting only exit status 0 is met by
/// every output with status 0, whatever its stdout and stderr.
pub proof fn lemma_status_only_expectation(observed: Output)
    requires
        observed.status == Some(0i32),
    ensures
        satisfies(observed, Output { stdout: None, stderr: None, status: Some(0i32) }),
{
}

/// Expected texts match exactly, with no trimming: an observed stdout that
/// differs from the expected one in any character (a trailing newline
/// included) fails the expectation.
pub proof fn lemma_text_exact(observed: Output, expected: Output)
    requires
        expected.stdout matches Some(e) && observed.stdout matches Some(o) && o@ != e@,
    ensures
        !satisfies(observed, expected),
{
}

fn text_field_ok(expected: &Option<String>, observed: &Option<String>) -> (r: bool)
    ensures
        r == text_matches(*expected, *observed),
{
    match expected {
        None => true,
        Some(e) => match observed {
            None => false,
            Some(o) => *o == *e,
        },
    }
}

/// One line of `describe`: the label, then the text or `N/A`.
pub open spec fn field_line(label: Seq<char>, value: Option<Seq<char>>) -> Seq<char> {
    match value {
        Some(v) => label + ": "@ + v,
        None => label + ": N/A"@,
    }
}

pub open spec fn opt_text_view(o: Option<String>) -> Option<Seq<char>> {
    match o {
        Some(s) => Some(s@),
        None => None,
    }
}

pub open spec fn opt_status_view(o: Option<i32>) -> Option<Seq<char>> {
    match o {
        Some(n) => Some(int_text(n as int)),
        None => None,
    }
}

/// The three lines that describe an output.
pub open spec fn output_text(o: Output) -> Seq<char> {
    field_line("stdout"@, opt_text_view(o.stdout)) + "\n"@ + field_line(
        "stderr"@,
        opt_text_view(o.stderr),
    ) + "\n"@ + field_line("status"@, opt_status_view(o.status))
}

fn push_text_line(out: &mut Vec<char>, label: &str, value: &Option<String>)
    ensures
        final(out)@ == old(out)@ + field_line(label@, opt_text_view(*value)),
{
    push_str(out, label);
    match value {
        Some(v) => {
            push_str(out, ": ");
            push_str(out, v.as_str());
            proof {
                reveal_strlit(": ");
            }
            assert(final(out)@ =~= old(out)@ + field_line(label@, opt_text_view(*value)));
        },
        None => {
            push_str(out, ": N/A");
            assert(final(out)@ =~= old(out)@ + field_line(label@, opt_text_view(*value)));
        },
    }
}

impl Output {
    /// Describes the output in three lines: `stdout: ...`, `stderr: ...`,
    /// `status: ...`, with `N/A` for what was not captured.
    pub fn describe(&self) -> (r: String)
        ensures
            r@ == output_text(*self),
    {
        let mut out: Vec<char> = Vec::new();
        push_text_line(&mut out, "stdout", &self.stdout);
        push_str(&mut out, "\n");
        push_text_line(&mut out, "stderr", &self.stderr);
        push_str(&mut out, "\n");
        let ghost before = out@;
        push_str(&mut out, "status");
        match self.status {
            Some(n) => {
                push_str(&mut out, ": ");
                push_int(&mut out, n);
                proof {
                    reveal_strlit(": ");
                }
                assert(out@ =~= before + field_line("status"@, opt_status_view(self.status)));
            },
            None => {
                push_str(&mut out, ": N/A");
                assert(out@ =~= before + field_line("status"@, opt_status_view(self.status)));
            },
        }
        assert(out@ =~= output_text(*self));
        string_of(&out)
    }

    /// Whether this observed output meets `expected`; no trimming or
    /// normalisation is applied to the texts.
    pub fn satisfy(&self, expected: &Output) -> (r: bool)
        ensures
            r == satisfies(*self, *expected),
    {
        if !text_field_ok(&expected.stdout, &self.stdout) {
            return false;
        }
        if !text_field_ok(&expected.stderr, &self.stderr) {
            return false;
        }
        match expected.status {
            None => true,
            Some(e) => match self.status {
                None => false,
                Some(s) => s == e,
            },
        }
    }
}


pub(crate) fn copy_text(o: &Option<String>) -> (r: Option<String>)
    ensures
        r == *o,
{
    match o {
        None => None,
        Some(s) => Some(s.clone()),
    }
}

/// The channel kind through which a command is run.
#[derive(PartialEq, Eq, Structural, Clone, Copy, Debug, Hash)]
pub enum ExecType {
    Console,
    Local,
    Ssh,
}

/// A declarative command with its expectations.
#[derive(Hash)]
pub struct Exec {
    pub exec_type: ExecType,
    /// Host on which the command runs; `None` means any or local.
    pub host: Option<String>,
    pub command: String,
    pub expect_stdout: Option<String>,
    pub expect_stderr: Option<String>,
    pub expect_status: Option<i32>,
    /// Carried from the configuration and recorded; running the phases
    /// does not stop on a failed command.
    pub abort_on_failure: bool,
}

impl Exec {
    /// The expectations of this command as an `Output`.
    pub fn expected(&self) -> (r: Output)
        ensures
            r.stdout == self.expect_stdout,
            r.stderr == self.expect_stderr,
            r.status == self.expect_status,
    {
        Output {
            stdout: copy_text(&self.expect_stdout),
            stderr: copy_text(&self.expect_stderr),
            status: self.expect_status,
        }
    }
}

/// The recorded outcome of running one command.
#[derive(Debug)]
pub struct ExecResult {
    pub host: String,
    pub command: String,
    pub expected: Output,
    pub result: Output,
    pub passed: bool,
}

impl ExecResult {
    /// `passed` is derived from the two outputs, as `Output::satisfy` decides.
    pub open spec fn wf(&self) -> bool {
        self.passed == satisfies(self.result, self.expected)
    }

    /// Records `observed` against the expectations of `exec`, run on `host`.
    pub fn record(exec: &Exec, host: String, observed: Output) -> (r: ExecResult)
        ensures
            r.wf(),
            r.host == host,
            r.command@ == exec.command@,
            r.expected.stdout == exec.expect_stdout,
            r.expected.stderr == exec.expect_stderr,
            r.expected.status == exec.expect_status,
            r.result == observed,
            r.passed == satisfies(observed, r.expected),
    {
        let expected = exec.expected();
        let passed = observed.satisfy(&expected);
        ExecResult { host, command: exec.command.clone(), expected, result: observed, passed }
    }
}

} // verus!
