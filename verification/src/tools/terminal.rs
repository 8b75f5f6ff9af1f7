//! The terminal tool: runs a shell command and reports what it printed.

use vstd::prelude::*;
use super::{param, DefaultView, ParamDefault, ParamKind, ParamSpec, ParamView, reports_failure, ToolInfo, ToolResult};
use crate::text::{push_signed_decimal, signed_decimal, trim, trimmed};

verus! {

/// The tool's name.
pub const NAME: &'static str = "terminal";

/// The tool's description for the model.
pub const DESCRIPTION: &'static str = "Execute a shell command and return the output";

/// Seconds a command may run when the model gives no timeout.
pub fn default_timeout() -> (n: u64)
    ensures
        n == 30,
{
    30
}

/// How running a command ended.
pub enum CommandOutcome {
    /// The command ran to its end: whether its exit status was success,
    /// its exit code when it had one, and what it printed (decoded as text).
    Finished { success: bool, code: Option<i32>, stdout: String, stderr: String },
    /// The command could not be started; the system's message.
    SpawnFailed { detail: String },
    /// The task that ran the command failed; its message.
    Panicked { detail: String },
    /// The command did not finish within its timeout.
    TimedOut,
}

/// Standard output and standard error together: each only when it is not
/// empty, separated by a `STDERR:` header when both are there.
pub open spec fn combined_output(out: Seq<char>, err: Seq<char>) -> Seq<char> {
    if err.len() == 0 {
        out
    } else if out.len() == 0 {
        err
    } else {
        out + "\nSTDERR:\n"@ + err
    }
}

/// The error reported for a command that exited unsuccessfully, with code
/// -1 when the system gave none.
pub open spec fn exit_message(code: Option<i32>) -> Seq<char> {
    "Command exited with code: "@ + signed_decimal(
        match code {
            Some(c) => c as int,
            None => -1,
        },
    )
}

/// What the tool reports for each way a command can end.
pub open spec fn reports_outcome(r: ToolResult, outcome: CommandOutcome) -> bool {
    match outcome {
        CommandOutcome::Finished { success, code, stdout, stderr } => {
            &&& r.success == success
            &&& r.output@ == trim(combined_output(stdout@, stderr@))
            &&& success ==> r.error is None
            &&& !success ==> (r.error matches Some(e) && e@ == exit_message(code))
        },
        CommandOutcome::SpawnFailed { detail } => reports_failure(
            r,
            "Failed to execute command: "@ + detail@,
        ),
        CommandOutcome::Panicked { detail } => reports_failure(r, "Task panicked: "@ + detail@),
        CommandOutcome::TimedOut => reports_failure(r, "Command timed out"@),
    }
}

/// Runs shell commands.
pub struct TerminalTool;

/// The tool's parameters, in the order its schema lists them.
pub open spec fn parameters() -> Seq<ParamView> {
    seq![
        param(
            "command"@,
            ParamKind::Text,
            "The shell command to execute"@,
            DefaultView::Absent,
            true,
        ),
        param(
            "timeout"@,
            ParamKind::Integer,
            "Timeout in seconds (default: 30)"@,
            DefaultView::Integer(30),
            false,
        ),
    ]
}

impl TerminalTool {
    /// The tool's name.
    pub fn name(&self) -> (r: &'static str)
        ensures
            r@ == NAME@,
    {
        NAME
    }

    /// The tool's description.
    pub fn description(&self) -> (r: &'static str)
        ensures
            r@ == DESCRIPTION@,
    {
        DESCRIPTION
    }

    /// The tool's entry in a registry.
    pub fn info(&self) -> (t: ToolInfo)
        ensures
            t@ == (NAME@, DESCRIPTION@),
    {
        ToolInfo::new(NAME, DESCRIPTION)
    }

    /// The tool's parameters, from which its JSON schema is built.
    pub fn parameter_specs(&self) -> (ps: Vec<ParamSpec>)
        ensures
            ps@.map_values(|p: ParamSpec| p@) == parameters(),
    {
        let mut ps: Vec<ParamSpec> = Vec::new();
        ps.push(ParamSpec {
            name: "command",
            kind: ParamKind::Text,
            description: "The shell command to execute",
            default: ParamDefault::Absent,
            required: true,
        });
        ps.push(ParamSpec {
            name: "timeout",
            kind: ParamKind::Integer,
            description: "Timeout in seconds (default: 30)",
            default: ParamDefault::Integer(30),
            required: false,
        });
        assert(ps@.map_values(|p: ParamSpec| p@) =~= parameters());
        ps
    }

    /// The result for how a command ended.
    pub fn render(&self, outcome: CommandOutcome) -> (r: ToolResult)
        ensures
            reports_outcome(r, outcome),
    {
        match outcome {
            CommandOutcome::Finished { success, code, stdout, stderr } => {
                let mut combined = String::new();
                let has_out = stdout.as_str().unicode_len() > 0;
                if has_out {
                    combined.append(stdout.as_str());
                }
                if stderr.as_str().unicode_len() > 0 {
                    if has_out {
                        combined.append("\nSTDERR:\n");
                    }
                    combined.append(stderr.as_str());
                }
                assert(combined@ =~= combined_output(stdout@, stderr@));
                let output = trimmed(combined.as_str());
                let error = if success {
                    None
                } else {
                    let mut msg = String::from_str("Command exited with code: ");
                    let c: i32 = match code {
                        Some(c) => c,
                        None => -1,
                    };
                    push_signed_decimal(&mut msg, c);
                    Some(msg)
                };
                ToolResult { success, output, error }
            },
            CommandOutcome::SpawnFailed { detail } => {
                let mut msg = String::from_str("Failed to execute command: ");
                msg.append(detail.as_str());
                ToolResult::failed(msg)
            },
            CommandOutcome::Panicked { detail } => {
                let mut msg = String::from_str("Task panicked: ");
                msg.append(detail.as_str());
                ToolResult::failed(msg)
            },
            CommandOutcome::TimedOut => ToolResult::failed(String::from_str("Command timed out")),
        }
    }
}

/// Law: what a finished command printed is reported the same whether it
/// exited successfully or not; the exit status decides only `success` and
/// the error.
pub proof fn lemma_output_ignores_status(
    ok: ToolResult,
    failed: ToolResult,
    ok_code: Option<i32>,
    failed_code: Option<i32>,
    stdout: String,
    stderr: String,
)
    requires
        reports_outcome(
            ok,
            CommandOutcome::Finished { success: true, code: ok_code, stdout, stderr },
        ),
        reports_outcome(
            failed,
            CommandOutcome::Finished { success: false, code: failed_code, stdout, stderr },
        ),
    ensures
        ok.output@ == failed.output@,
{
}

/// Law: a finished command's report holds its standard error as well as
/// its standard output, whatever its exit status: standard error alone
/// when nothing went to standard output, standard output alone when
/// nothing went to standard error, and both, separated by a `STDERR:`
/// header, otherwise; trimmed.
pub proof fn lemma_output_holds_both_streams(
    r: ToolResult,
    success: bool,
    code: Option<i32>,
    stdout: String,
    stderr: String,
)
    requires
        reports_outcome(r, CommandOutcome::Finished { success, code, stdout, stderr }),
    ensures
        stdout@.len() == 0 ==> r.output@ == trim(stderr@),
        stderr@.len() == 0 ==> r.output@ == trim(stdout@),
        stdout@.len() > 0 && stderr@.len() > 0 ==> r.output@ == trim(
            stdout@ + "\nSTDERR:\n"@ + stderr@,
        ),
{
}

} // verus!
