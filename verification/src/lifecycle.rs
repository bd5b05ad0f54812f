//! Outcome classification for one run of the external download tool, and the
//! log lines each outcome appends to its job.

use vstd::prelude::*;
use vstd::string::StringExecFns;
use crate::job::JobStatus;
use crate::numfmt::{i32_string, spec_idec};
use crate::text::{chars_of, spec_lines, split_lines, string_of};

verus! {

/// What one finished invocation of the external tool yielded: its exit
/// condition and the full captured output, as text.
pub struct Capture {
    pub exit_success: bool,
    pub exit_code: Option<i32>,
    pub stdout: String,
    pub stderr: String,
}

/// Mathematical model of a capture.
pub struct CaptureView {
    pub exit_success: bool,
    pub exit_code: Option<i32>,
    pub stdout: Seq<char>,
    pub stderr: Seq<char>,
}

impl View for Capture {
    type V = CaptureView;

    open spec fn view(&self) -> CaptureView {
        CaptureView {
            exit_success: self.exit_success,
            exit_code: self.exit_code,
            stdout: self.stdout@,
            stderr: self.stderr@,
        }
    }
}

/// The classified outcome of one job attempt: the tool succeeded, the tool
/// ran and failed, or it could not be started at all.
pub enum Outcome {
    Succeeded { stdout: Vec<String>, stderr: Vec<String> },
    Failed { code: i32, stderr: Vec<String>, stdout: Vec<String> },
    SpawnError { message: String },
}

/// Mathematical model of an outcome, output split into lines.
pub enum OutcomeView {
    Succeeded { stdout: Seq<Seq<char>>, stderr: Seq<Seq<char>> },
    Failed { code: i32, stderr: Seq<Seq<char>>, stdout: Seq<Seq<char>> },
    SpawnError { message: Seq<char> },
}

impl View for Outcome {
    type V = OutcomeView;

    open spec fn view(&self) -> OutcomeView {
        match self {
            Outcome::Succeeded { stdout, stderr } => OutcomeView::Succeeded {
                stdout: stdout.deep_view(),
                stderr: stderr.deep_view(),
            },
            Outcome::Failed { code, stderr, stdout } => OutcomeView::Failed {
                code: *code,
                stderr: stderr.deep_view(),
                stdout: stdout.deep_view(),
            },
            Outcome::SpawnError { message } => OutcomeView::SpawnError { message: message@ },
        }
    }
}

/// The exit code reported in the logs: the tool's own, or -1 when the
/// platform reported none.
pub open spec fn spec_code(c: Option<i32>) -> int {
    match c {
        Some(x) => x as int,
        None => -1,
    }
}

/// The lines of a string, each as its own string.
pub fn split_string_lines(s: &str) -> (r: Vec<String>)
    ensures
        r.deep_view() == spec_lines(s@),
{
    let cs = chars_of(s);
    let parts = split_lines(&cs);
    let mut r: Vec<String> = Vec::new();
    let mut i: usize = 0;
    proof {
        assert(r.deep_view() =~= parts.deep_view().take(0));
    }
    while i < parts.len()
        invariant
            i <= parts@.len(),
            parts.deep_view() == spec_lines(s@),
            parts.deep_view().len() == parts@.len(),
            r.deep_view() == parts.deep_view().take(i as int),
        decreases parts@.len() - i,
    {
        let ghost pre = r.deep_view();
        let line = string_of(&parts[i]);
        r.push(line);
        proof {
            assert(parts@[i as int].deep_view() =~= line@);
            assert(r.deep_view() =~= pre.push(parts.deep_view()[i as int]));
            assert(r.deep_view() =~= parts.deep_view().take(i + 1 as int));
        }
        i += 1;
    }
    proof {
        assert(parts.deep_view().take(i as int) =~= parts.deep_view());
    }
    r
}

/// Classifies what the attempt to run the tool yielded: exit success is a
/// completed download, a non-success exit is a failure carrying the exit
/// code (-1 when none was reported), and a spawn error carries its message.
pub fn classify(capture: Result<Capture, String>) -> (r: Outcome)
    ensures
        capture matches Ok(c) ==> r@ == (if c.exit_success {
            OutcomeView::Succeeded { stdout: spec_lines(c.stdout@), stderr: spec_lines(c.stderr@) }
        } else {
            OutcomeView::Failed {
                code: spec_code(c.exit_code) as i32,
                stderr: spec_lines(c.stderr@),
                stdout: spec_lines(c.stdout@),
            }
        }),
        capture matches Err(m) ==> r@ == (OutcomeView::SpawnError { message: m@ }),
{
    match capture {
        Ok(c) => {
            let stdout = split_string_lines(c.stdout.as_str());
            let stderr = split_string_lines(c.stderr.as_str());
            if c.exit_success {
                Outcome::Succeeded { stdout, stderr }
            } else {
                let code: i32 = match c.exit_code {
                    Some(x) => x,
                    None => -1,
                };
                Outcome::Failed { code, stderr, stdout }
            }
        },
        Err(message) => Outcome::SpawnError { message },
    }
}

/// Every line given, each with the prefix in front.
pub open spec fn prefix_all(prefix: Seq<char>, lines: Seq<Seq<char>>) -> Seq<Seq<char>> {
    lines.map_values(|l: Seq<char>| prefix + l)
}

/// At most the first `n` of the lines.
pub open spec fn take_n(lines: Seq<Seq<char>>, n: int) -> Seq<Seq<char>> {
    if lines.len() <= n {
        lines
    } else {
        lines.take(n)
    }
}

/// The status an outcome drives its job to.
pub open spec fn outcome_status(o: OutcomeView) -> JobStatus {
    match o {
        OutcomeView::Succeeded { .. } => JobStatus::Completed,
        OutcomeView::Failed { .. } => JobStatus::Failed,
        OutcomeView::SpawnError { .. } => JobStatus::Failed,
    }
}

/// The progress an outcome leaves behind: full only on completion.
pub open spec fn outcome_progress(o: OutcomeView) -> u8 {
    if o is Succeeded {
        100
    } else {
        0
    }
}

/// The log line a job gets when its lifecycle task starts.
pub open spec fn starting_line(url: Seq<char>) -> Seq<char> {
    "Starting download: "@ + url
}

/// Builds the starting log line for a url.
pub fn make_starting_line(url: &str) -> (r: String)
    ensures
        r@ == starting_line(url@),
{
    let mut s = String::from_str("Starting download: ");
    s.append(url);
    s
}

/// The log lines an outcome appends to its job: a headline, then the
/// captured output. A success carries all of it; a failure carries at most
/// ten error lines and five output lines; a spawn error carries only its
/// message.
pub open spec fn outcome_log_lines(o: OutcomeView) -> Seq<Seq<char>> {
    match o {
        OutcomeView::Succeeded { stdout, stderr } => seq!["Download completed successfully"@]
            + prefix_all("[stdout] "@, stdout) + prefix_all("[stderr] "@, stderr),
        OutcomeView::Failed { code, stderr, stdout } => seq![
            "Download failed with exit code: "@ + spec_idec(code as int),
        ] + prefix_all("Error: "@, take_n(stderr, 10)) + prefix_all("Output: "@, take_n(stdout, 5)),
        OutcomeView::SpawnError { message } => seq!["Failed to execute command: "@ + message],
    }
}

/// One line with a prefix in front.
fn prefixed_line(prefix: &str, line: &str) -> (r: String)
    ensures
        r@ == prefix@ + line@,
{
    let mut s = String::from_str(prefix);
    s.append(line);
    s
}

/// At most the first `cap` lines, each with the prefix in front.
fn prefixed_first(prefix: &str, lines: &Vec<String>, cap: usize) -> (r: Vec<String>)
    ensures
        r.deep_view() == prefix_all(prefix@, take_n(lines.deep_view(), cap as int)),
{
    let limit = if lines.len() < cap {
        lines.len()
    } else {
        cap
    };
    let ghost target = prefix_all(prefix@, take_n(lines.deep_view(), cap as int));
    proof {
        assert(take_n(lines.deep_view(), cap as int) =~= lines.deep_view().take(limit as int));
    }
    let mut r: Vec<String> = Vec::new();
    let mut i: usize = 0;
    proof {
        assert(r.deep_view() =~= target.take(0));
    }
    while i < limit
        invariant
            i <= limit,
            limit <= lines@.len(),
            lines.deep_view().len() == lines@.len(),
            target == prefix_all(prefix@, lines.deep_view().take(limit as int)),
            target.len() == limit,
            r.deep_view() == target.take(i as int),
        decreases limit - i,
    {
        let ghost pre = r.deep_view();
        let line = prefixed_line(prefix, lines[i].as_str());
        r.push(line);
        proof {
            assert(r.deep_view() =~= pre.push(prefix@ + lines.deep_view()[i as int]));
            assert(target[i as int] == prefix@ + lines.deep_view()[i as int]);
            assert(r.deep_view() =~= target.take(i + 1 as int));
        }
        i += 1;
    }
    proof {
        assert(target.take(limit as int) =~= target);
    }
    r
}

/// Every line, each with the prefix in front.
fn prefixed_all(prefix: &str, lines: &Vec<String>) -> (r: Vec<String>)
    ensures
        r.deep_view() == prefix_all(prefix@, lines.deep_view()),
{
    let r = prefixed_first(prefix, lines, lines.len());
    proof {
        assert(take_n(lines.deep_view(), lines@.len() as int) =~= lines.deep_view());
    }
    r
}

/// Builds the log lines recorded for an outcome.
pub fn build_outcome_logs(o: &Outcome) -> (r: Vec<String>)
    ensures
        r.deep_view() == outcome_log_lines(o@),
{
    match o {
        Outcome::Succeeded { stdout, stderr } => {
            let mut r: Vec<String> = Vec::new();
            r.push(String::from_str("Download completed successfully"));
            let mut a = prefixed_all("[stdout] ", stdout);
            let ghost av = a.deep_view();
            r.append(&mut a);
            let mut b = prefixed_all("[stderr] ", stderr);
            let ghost bv = b.deep_view();
            r.append(&mut b);
            proof {
                assert(r.deep_view() =~= seq!["Download completed successfully"@] + av + bv);
            }
            r
        },
        Outcome::Failed { code, stderr, stdout } => {
            let mut head = String::from_str("Download failed with exit code: ");
            let digits = i32_string(*code);
            head.append(digits.as_str());
            let mut r: Vec<String> = Vec::new();
            r.push(head);
            let mut a = prefixed_first("Error: ", stderr, 10);
            let ghost av = a.deep_view();
            r.append(&mut a);
            let mut b = prefixed_first("Output: ", stdout, 5);
            let ghost bv = b.deep_view();
            r.append(&mut b);
            proof {
                assert(r.deep_view() =~= seq![
                    "Download failed with exit code: "@ + spec_idec(*code as int),
                ] + av + bv);
            }
            r
        },
        Outcome::SpawnError { message } => {
            let mut r: Vec<String> = Vec::new();
            r.push(prefixed_line("Failed to execute command: ", message.as_str()));
            proof {
                assert(r.deep_view() =~= outcome_log_lines(o@));
            }
            r
        },
    }
}

} // verus!
