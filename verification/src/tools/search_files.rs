//! The search_files tool: searches files for a pattern with grep and
//! reports the matching lines.

use vstd::prelude::*;
use super::{param, DefaultView, ParamDefault, ParamKind, ParamSpec, ParamView, reports_success, ToolInfo, ToolResult};
use crate::text::{decimal, lines, push_char, push_decimal, split_lines};

verus! {

/// The tool's name.
pub const NAME: &'static str = "search_files";

/// The tool's description for the model.
pub const DESCRIPTION: &'static str = "Search for a pattern in files (like grep). Returns matching lines with file names and line numbers.";

/// The directory searched when the model gives none.
pub fn default_path() -> (p: String)
    ensures
        p@ == "."@,
{
    String::from_str(".")
}

/// How many matching lines are reported when the model gives no limit.
pub fn default_limit() -> (n: usize)
    ensures
        n == 20,
{
    20
}

/// The arguments handed to `grep`: recursive search with line numbers,
/// binary files skipped, no colour, the file filter when one is given,
/// then the pattern and the directory.
pub open spec fn grep_args_of(pattern: Seq<char>, path: Seq<char>, file_glob: Option<Seq<char>>) -> Seq<
    Seq<char>,
> {
    seq!["-rn"@, "-I"@, "--color=never"@] + match file_glob {
        Some(g) => seq!["--include"@, g],
        None => Seq::<Seq<char>>::empty(),
    } + seq![pattern, path]
}

/// The lines, each followed by a line feed.
pub open spec fn joined_lines(ls: Seq<Seq<char>>) -> Seq<char>
    decreases ls.len(),
{
    if ls.len() == 0 {
        seq![]
    } else {
        joined_lines(ls.drop_last()) + ls.last() + seq!['\n']
    }
}

/// How many lines of grep's output are reported.
pub open spec fn shown_count(stdout: Seq<char>, limit: usize) -> nat {
    if limit < lines(stdout).len() {
        limit as nat
    } else {
        lines(stdout).len()
    }
}

/// What the tool reports for grep's exit status and output: when grep
/// failed without output, or no line is to be shown, that nothing was
/// found; else the number of lines shown and the first `limit` lines.
pub open spec fn search_report(exit_success: bool, stdout: Seq<char>, limit: usize) -> Seq<char> {
    let n = shown_count(stdout, limit);
    if !exit_success && stdout.len() == 0 {
        "No matches found."@
    } else if n == 0 {
        "No matches found."@
    } else {
        "Found "@ + decimal(n) + " matches:\n\n"@ + joined_lines(lines(stdout).take(n as int))
    }
}

/// Searches files for a pattern.
pub struct SearchFilesTool;

/// The tool's parameters, in the order its schema lists them.
pub open spec fn parameters() -> Seq<ParamView> {
    seq![
        param(
            "pattern"@,
            ParamKind::Text,
            "Text or regex pattern to search for"@,
            DefaultView::Absent,
            true,
        ),
        param(
            "path"@,
            ParamKind::Text,
            "Directory to search in (default: current directory)"@,
            DefaultView::Text("."@),
            false,
        ),
        param(
            "file_glob"@,
            ParamKind::Text,
            "File pattern to filter (e.g., '*.rs', '*.py')"@,
            DefaultView::Absent,
            false,
        ),
        param(
            "limit"@,
            ParamKind::Integer,
            "Maximum number of results (default: 20)"@,
            DefaultView::Integer(20),
            false,
        ),
    ]
}

impl SearchFilesTool {
    /// The tool's name.
    pub fn name(&self) -> (r: &'static str)
        ensures
            r@ == NAME@,
    {
        NAME
    }

    /// The tool's description.
    pub fn description(&self) -> (r: &'static str)
        ensures
            r@ == DESCRIPTION@,
    {
        DESCRIPTION
    }

    /// The tool's entry in a registry.
    pub fn info(&self) -> (t: ToolInfo)
        ensures
            t@ == (NAME@, DESCRIPTION@),
    {
        ToolInfo::new(NAME, DESCRIPTION)
    }

    /// The tool's parameters, from which its JSON schema is built.
    pub fn parameter_specs(&self) -> (ps: Vec<ParamSpec>)
        ensures
            ps@.map_values(|p: ParamSpec| p@) == parameters(),
    {
        let mut ps: Vec<ParamSpec> = Vec::new();
        ps.push(ParamSpec {
            name: "pattern",
            kind: ParamKind::Text,
            description: "Text or regex pattern to search for",
            default: ParamDefault::Absent,
            required: true,
        });
        ps.push(ParamSpec {
            name: "path",
            kind: ParamKind::Text,
            description: "Directory to search in (default: current directory)",
            default: ParamDefault::Text("."),
            required: false,
        });
        ps.push(ParamSpec {
            name: "file_glob",
            kind: ParamKind::Text,
            description: "File pattern to filter (e.g., '*.rs', '*.py')",
            default: ParamDefault::Absent,
            required: false,
        });
        ps.push(ParamSpec {
            name: "limit",
            kind: ParamKind::Integer,
            description: "Maximum number of results (default: 20)",
            default: ParamDefault::Integer(20),
            required: false,
        });
        assert(ps@.map_values(|p: ParamSpec| p@) =~= parameters());
        ps
    }

    /// The arguments for `grep`.
    pub fn grep_args(&self, pattern: &str, path: &str, file_glob: Option<&str>) -> (args: Vec<
        String,
    >)
        ensures
            args@.map_values(|a: String| a@) == grep_args_of(
                pattern@,
                path@,
                match file_glob {
                    Some(g) => Some(g@),
                    None => None,
                },
            ),
    {
        let mut args: Vec<String> = Vec::new();
        args.push(String::from_str("-rn"));
        args.push(String::from_str("-I"));
        args.push(String::from_str("--color=never"));
        match file_glob {
            Some(g) => {
                args.push(String::from_str("--include"));
                args.push(String::from_str(g));
            },
            None => {},
        }
        args.push(String::from_str(pattern));
        args.push(String::from_str(path));
        assert(args@.map_values(|a: String| a@) =~= grep_args_of(
            pattern@,
            path@,
            match file_glob {
                Some(g) => Some(g@),
                None => None,
            },
        ));
        args
    }

    /// The result for grep's exit status and standard output (decoded as
    /// text), showing at most `limit` lines.
    pub fn render(&self, exit_success: bool, stdout: &str, limit: usize) -> (r: ToolResult)
        ensures
            reports_success(r, search_report(exit_success, stdout@, limit)),
    {
        let ls = split_lines(stdout);
        let n = if limit < ls.len() { limit } else { ls.len() };
        if (!exit_success && stdout.unicode_len() == 0) || n == 0 {
            return ToolResult::succeeded(String::from_str("No matches found."));
        }
        let ghost all = lines(stdout@);
        let mut body = String::new();
        let mut i: usize = 0;
        assert(all.take(0) =~= Seq::<Seq<char>>::empty());
        while i < n
            invariant
                i <= n <= ls.len(),
                ls.len() == all.len(),
                forall|k: int| 0 <= k < ls.len() ==> #[trigger] ls[k]@ == all[k],
                body@ == joined_lines(all.take(i as int)),
            decreases n - i,
        {
            let ghost before = body@;
            body.append(ls[i].as_str());
            push_char(&mut body, '\n');
            assert(all.take(i + 1).drop_last() =~= all.take(i as int));
            assert(body@ =~= before + all[i as int] + seq!['\n']);
            i += 1;
        }
        let mut out = String::from_str("Found ");
        push_decimal(&mut out, n as u64);
        out.append(" matches:\n\n");
        out.append(body.as_str());
        ToolResult::succeeded(out)
    }
}

} // verus!
