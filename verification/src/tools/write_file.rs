//! The write_file tool: writes a whole file, creating it and its parent
//! directories when needed.

use vstd::prelude::*;
use super::{param, DefaultView, ParamDefault, ParamKind, ParamSpec, ParamView, reports_success, ToolInfo, ToolResult};

verus! {

/// The tool's name.
pub const NAME: &'static str = "write_file";

/// The tool's description for the model.
pub const DESCRIPTION: &'static str = "Write content to a file, creating it if it doesn't exist";

/// Writes content to a file.
pub struct WriteFileTool;

/// The tool's parameters, in the order its schema lists them.
pub open spec fn parameters() -> Seq<ParamView> {
    seq![
        param(
            "path"@,
            ParamKind::Text,
            "Path to the file to write"@,
            DefaultView::Absent,
            true,
        ),
        param(
            "content"@,
            ParamKind::Text,
            "Content to write to the file"@,
            DefaultView::Absent,
            true,
        ),
    ]
}

impl WriteFileTool {
    /// The tool's name.
    pub fn name(&self) -> (r: &'static str)
        ensures
            r@ == NAME@,
    {
        NAME
    }

    /// The tool's description.
    pub fn description(&self) -> (r: &'static str)
        ensures
            r@ == DESCRIPTION@,
    {
        DESCRIPTION
    }

    /// The tool's entry in a registry.
    pub fn info(&self) -> (t: ToolInfo)
        ensures
            t@ == (NAME@, DESCRIPTION@),
    {
        ToolInfo::new(NAME, DESCRIPTION)
    }

    /// The tool's parameters, from which its JSON schema is built.
    pub fn parameter_specs(&self) -> (ps: Vec<ParamSpec>)
        ensures
            ps@.map_values(|p: ParamSpec| p@) == parameters(),
    {
        let mut ps: Vec<ParamSpec> = Vec::new();
        ps.push(ParamSpec {
            name: "path",
            kind: ParamKind::Text,
            description: "Path to the file to write",
            default: ParamDefault::Absent,
            required: true,
        });
        ps.push(ParamSpec {
            name: "content",
            kind: ParamKind::Text,
            description: "Content to write to the file",
            default: ParamDefault::Absent,
            required: true,
        });
        assert(ps@.map_values(|p: ParamSpec| p@) =~= parameters());
        ps
    }

    /// The result once the file at `path` (as the model gave it) has been
    /// written: `File written: <path>`.
    pub fn written(&self, path: &str) -> (r: ToolResult)
        ensures
            reports_success(r, "File written: "@ + path@),
    {
        let mut out = String::from_str("File written: ");
        out.append(path);
        ToolResult::succeeded(out)
    }
}

} // verus!
