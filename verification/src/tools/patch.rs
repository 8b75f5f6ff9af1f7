//! The patch tool: replaces a string in a file, once when it occurs once,
//! or everywhere when asked to.

use vstd::prelude::*;
use super::{param, DefaultView, ParamDefault, ParamKind, ParamSpec, ParamView, reports_failure, reports_success, ToolInfo, ToolResult};
use crate::text::{chars_of, count_in, count_matches, decimal, push_decimal, replace_all, replace_all_in, replace_first, replace_first_in};

verus! {

/// The tool's name.
pub const NAME: &'static str = "patch";

/// The tool's description for the model.
pub const DESCRIPTION: &'static str = "Make targeted edits to a file by replacing old_string with new_string. More precise than rewriting the whole file.";

/// Edits a file by string replacement.
pub struct PatchTool;

/// What a patch decided: the result to report, and the new text of the
/// file when it is to be written.
pub struct PatchOutcome {
    pub result: ToolResult,
    pub new_content: Option<String>,
}

/// The error when the string occurs more than once and a single
/// replacement was asked for.
pub open spec fn ambiguous_message(n: nat) -> Seq<char> {
    "String appears "@ + decimal(n)
        + " times. Use replace_all=true or make the string more specific."@
}

/// The report of a successful patch of the file at `path`.
pub open spec fn patched_message(n: nat, replace_all: bool, path: Seq<char>) -> Seq<char> {
    if replace_all {
        "Replaced "@ + decimal(n) + " occurrence(s)"@ + " in "@ + path
    } else {
        "Replaced 1 occurrence"@ + " in "@ + path
    }
}

/// The tool's parameters, in the order its schema lists them.
pub open spec fn parameters() -> Seq<ParamView> {
    seq![
        param(
            "path"@,
            ParamKind::Text,
            "Path to the file to edit"@,
            DefaultView::Absent,
            true,
        ),
        param(
            "old_string"@,
            ParamKind::Text,
            "Text to find and replace (must be unique unless replace_all=true)"@,
            DefaultView::Absent,
            true,
        ),
        param(
            "new_string"@,
            ParamKind::Text,
            "Replacement text (can be empty to delete)"@,
            DefaultView::Absent,
            true,
        ),
        param(
            "replace_all"@,
            ParamKind::Boolean,
            "Replace all occurrences instead of requiring unique match (default: false)"@,
            DefaultView::Boolean(false),
            false,
        ),
    ]
}

impl PatchTool {
    /// The tool's name.
    pub fn name(&self) -> (r: &'static str)
        ensures
            r@ == NAME@,
    {
        NAME
    }

    /// The tool's description.
    pub fn description(&self) -> (r: &'static str)
        ensures
            r@ == DESCRIPTION@,
    {
        DESCRIPTION
    }

    /// The tool's entry in a registry.
    pub fn info(&self) -> (t: ToolInfo)
        ensures
            t@ == (NAME@, DESCRIPTION@),
    {
        ToolInfo::new(NAME, DESCRIPTION)
    }

    /// The tool's parameters, from which its JSON schema is built.
    pub fn parameter_specs(&self) -> (ps: Vec<ParamSpec>)
        ensures
            ps@.map_values(|p: ParamSpec| p@) == parameters(),
    {
        let mut ps: Vec<ParamSpec> = Vec::new();
        ps.push(ParamSpec {
            name: "path",
            kind: ParamKind::Text,
            description: "Path to the file to edit",
            default: ParamDefault::Absent,
            required: true,
        });
        ps.push(ParamSpec {
            name: "old_string",
            kind: ParamKind::Text,
            description: "Text to find and replace (must be unique unless replace_all=true)",
            default: ParamDefault::Absent,
            required: true,
        });
        ps.push(ParamSpec {
            name: "new_string",
            kind: ParamKind::Text,
            description: "Replacement text (can be empty to delete)",
            default: ParamDefault::Absent,
            required: true,
        });
        ps.push(ParamSpec {
            name: "replace_all",
            kind: ParamKind::Boolean,
            description: "Replace all occurrences instead of requiring unique match (default: false)",
            default: ParamDefault::Boolean(false),
            required: false,
        });
        assert(ps@.map_values(|p: ParamSpec| p@) =~= parameters());
        ps
    }

    /// Decides a patch of a file with text `content` (at `path`, as the
    /// model gave it): replace `old` by `new`, everywhere when
    /// `replace_all`, else only when `old` occurs exactly once.
    pub fn apply(&self, content: &str, old: &str, new: &str, replace_all: bool, path: &str) -> (out:
        PatchOutcome)
        requires
            content@.len() < usize::MAX,
        ensures
            ({
                let n = count_matches(content@, old@);
                if n == 0 {
                    &&& reports_failure(out.result, "String not found in file"@)
                    &&& out.new_content is None
                } else if n > 1 && !replace_all {
                    &&& reports_failure(out.result, ambiguous_message(n))
                    &&& out.new_content is None
                } else {
                    &&& reports_success(out.result, patched_message(n, replace_all, path@))
                    &&& out.new_content matches Some(t) && t@ == if replace_all {
                        crate::text::replace_all(content@, old@, new@)
                    } else {
                        replace_first(content@, old@, new@)
                    }
                }
            }),
    {
        let text = chars_of(content);
        let pattern = chars_of(old);
        let count = count_in(&text, &pattern);
        if count == 0 {
            return PatchOutcome {
                result: ToolResult::failed(String::from_str("String not found in file")),
                new_content: None,
            };
        }
        if count > 1 && !replace_all {
            let mut msg = String::from_str("String appears ");
            push_decimal(&mut msg, count as u64);
            msg.append(" times. Use replace_all=true or make the string more specific.");
            return PatchOutcome { result: ToolResult::failed(msg), new_content: None };
        }
        let new_content = if replace_all {
            replace_all_in(&text, &pattern, new)
        } else {
            replace_first_in(&text, &pattern, new)
        };
        let mut report = if replace_all {
            let mut a = String::from_str("Replaced ");
            push_decimal(&mut a, count as u64);
            a.append(" occurrence(s)");
            a
        } else {
            String::from_str("Replaced 1 occurrence")
        };
        report.append(" in ");
        report.append(path);
        PatchOutcome { result: ToolResult::succeeded(report), new_content: Some(new_content) }
    }
}

} // verus!
