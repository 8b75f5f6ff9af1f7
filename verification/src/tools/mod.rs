//! The tools that the assistant can call: what a call and its result
//! hold, the registry of available tools, and the system prompt that
//! describes them to the model.

use vstd::prelude::*;

pub mod patch;
pub mod read_file;
pub mod search_files;
pub mod terminal;
pub mod write_file;

verus! {

#[verifier::external_type_specification]
#[verifier::external_body]
pub struct ExJsonValue(serde_json::Value);

/// A request from the model to run a tool: the tool's name and its
/// parameters, a JSON value that the tool itself interprets.
pub struct ToolCall {
    pub name: String,
    pub parameters: serde_json::Value,
}

/// What running a tool gave: whether it succeeded, its output, and an
/// error message when it failed.
#[derive(Clone, Debug)]
pub struct ToolResult {
    pub success: bool,
    pub output: String,
    pub error: Option<String>,
}

/// `r` reports success with output `out` and no error.
pub open spec fn reports_success(r: ToolResult, out: Seq<char>) -> bool {
    &&& r.success
    &&& r.output@ == out
    &&& r.error is None
}

/// `r` reports failure with no output and the error message `msg`.
pub open spec fn reports_failure(r: ToolResult, msg: Seq<char>) -> bool {
    &&& !r.success
    &&& r.output@ == Seq::<char>::empty()
    &&& r.error matches Some(e) && e@ == msg
}

impl ToolResult {
    /// A successful result with the given output.
    pub fn succeeded(output: String) -> (r: ToolResult)
        ensures
            reports_success(r, output@),
    {
        ToolResult { success: true, output, error: None }
    }

    /// A failed result with the given error message.
    pub fn failed(error: String) -> (r: ToolResult)
        ensures
            reports_failure(r, error@),
    {
        ToolResult { success: false, output: String::new(), error: Some(error) }
    }

    /// The result for a file that does not exist: `File not found: <path>`.
    pub fn file_not_found(path: &str) -> (r: ToolResult)
        ensures
            reports_failure(r, "File not found: "@ + path@),
    {
        let mut msg = String::from_str("File not found: ");
        msg.append(path);
        ToolResult::failed(msg)
    }
}

/// `p` begins with a tilde that stands for the home directory: `~` alone,
/// or `~` followed by a path separator.
pub open spec fn names_home(p: Seq<char>) -> bool {
    &&& p.len() > 0
    &&& p[0] == '~'
    &&& (p.len() == 1 || p[1] == '/' || p[1] == '\\')
}

/// `shellexpand::tilde`: a leading `~` that stands for the home directory
/// is replaced by the home directory, when the environment gives one that
/// is valid Unicode. The contract states what holds whatever the
/// environment holds: a path that does not begin so comes back unchanged,
/// and one that does comes back ending with what followed the tilde. Which
/// home directory is put in front is left unsaid: it depends on the
/// environment.
#[verifier::external_body]
fn expand_tilde(path: &str) -> (res: String)
    ensures
        !names_home(path@) ==> res@ == path@,
        names_home(path@) ==> res@.len() >= path@.len() - 1 && res@.skip(
            res@.len() - (path@.len() - 1),
        ) == path@.drop_first(),
{
    shellexpand::tilde(path).into_owned()
}

/// The path that a tool acts on: the given path with a leading `~` that
/// stands for the home directory replaced by it.
pub fn resolve_path(path: &str) -> (res: String)
    ensures
        !names_home(path@) ==> res@ == path@,
        names_home(path@) ==> res@.len() >= path@.len() - 1 && res@.skip(
            res@.len() - (path@.len() - 1),
        ) == path@.drop_first(),
{
    expand_tilde(path)
}

/// The JSON type of a tool parameter.
#[derive(Clone, Copy, Debug, PartialEq, Eq, Structural)]
pub enum ParamKind {
    /// `"string"`.
    Text,
    /// `"integer"`.
    Integer,
    /// `"boolean"`.
    Boolean,
}

/// The default a tool parameter takes when the model leaves it out.
#[derive(Clone, Copy, Debug)]
pub enum ParamDefault {
    /// None is given.
    Absent,
    Integer(u64),
    Boolean(bool),
    Text(&'static str),
}

/// A parameter default as plain values.
pub enum DefaultView {
    Absent,
    Integer(u64),
    Boolean(bool),
    Text(Seq<char>),
}

impl View for ParamDefault {
    type V = DefaultView;

    open spec fn view(&self) -> DefaultView {
        match *self {
            ParamDefault::Absent => DefaultView::Absent,
            ParamDefault::Integer(n) => DefaultView::Integer(n),
            ParamDefault::Boolean(b) => DefaultView::Boolean(b),
            ParamDefault::Text(t) => DefaultView::Text(t@),
        }
    }
}

/// One parameter of a tool's schema: its name, JSON type, description for
/// the model, default, and whether the model must give it.
#[derive(Clone, Copy, Debug)]
pub struct ParamSpec {
    pub name: &'static str,
    pub kind: ParamKind,
    pub description: &'static str,
    pub default: ParamDefault,
    pub required: bool,
}

/// A parameter of a tool's schema as plain values.
pub struct ParamView {
    pub name: Seq<char>,
    pub kind: ParamKind,
    pub description: Seq<char>,
    pub default: DefaultView,
    pub required: bool,
}

impl View for ParamSpec {
    type V = ParamView;

    open spec fn view(&self) -> ParamView {
        ParamView {
            name: self.name@,
            kind: self.kind,
            description: self.description@,
            default: self.default@,
            required: self.required,
        }
    }
}

/// The parameter `name` of type `kind`, described by `description`, with
/// default `default`, required or not.
pub open spec fn param(
    name: Seq<char>,
    kind: ParamKind,
    description: Seq<char>,
    default: DefaultView,
    required: bool,
) -> ParamView {
    ParamView { name, kind, description, default, required }
}

/// What the registry knows of a tool: its name and its description.
#[derive(Clone, Debug)]
pub struct ToolInfo {
    pub name: String,
    pub description: String,
}

impl View for ToolInfo {
    type V = (Seq<char>, Seq<char>);

    open spec fn view(&self) -> (Seq<char>, Seq<char>) {
        (self.name@, self.description@)
    }
}

impl ToolInfo {
    /// A tool description from its name and its description.
    pub fn new(name: &str, description: &str) -> (t: ToolInfo)
        ensures
            t@ == (name@, description@),
    {
        ToolInfo { name: String::from_str(name), description: String::from_str(description) }
    }
}

/// `i` is the first position in `ts` of a tool named `name`.
pub open spec fn is_first_named(ts: Seq<(Seq<char>, Seq<char>)>, name: Seq<char>, i: int) -> bool {
    &&& 0 <= i < ts.len()
    &&& ts[i].0 == name
    &&& forall|j: int| 0 <= j < i ==> ts[j].0 != name
}

/// Some tool in `ts` is named `name`.
pub open spec fn has_tool_named(ts: Seq<(Seq<char>, Seq<char>)>, name: Seq<char>) -> bool {
    exists|j: int| 0 <= j < ts.len() && ts[j].0 == name
}

/// The tools that a new registry holds, in order: read_file, write_file,
/// terminal, search_files, patch.
pub open spec fn builtin_tools() -> Seq<(Seq<char>, Seq<char>)> {
    seq![
        (read_file::NAME@, read_file::DESCRIPTION@),
        (write_file::NAME@, write_file::DESCRIPTION@),
        (terminal::NAME@, terminal::DESCRIPTION@),
        (search_files::NAME@, search_files::DESCRIPTION@),
        (patch::NAME@, patch::DESCRIPTION@),
    ]
}

/// The opening of the system prompt, before the list of tools.
pub const SYSTEM_PROMPT_HEAD: &'static str = "You are Opie, a local AI coding assistant. You help with programming tasks by reading files, \
searching code, making edits, and running commands.

TOOL USAGE:
When you need to use a tool, respond with EXACTLY this format:
TOOL_CALL: {\"name\": \"tool_name\", \"parameters\": {\"param\": \"value\"}}

After calling a tool, you'll receive the result. Then respond naturally to the user.

AVAILABLE TOOLS:\n\n";

/// The close of the system prompt, after the list of tools.
pub const SYSTEM_PROMPT_TAIL: &'static str = "\nGUIDANCE:
- Use tools proactively. If the user asks about code, read it first.
- For \"change X to Y\" requests, use search_files to find it, then patch to edit.
- For \"what does this do\" questions, use read_file then explain.
- Keep responses concise and helpful.
- Don't apologize or ask permission - just do the task.
- If a file path is mentioned, use it exactly as given.

TOOL CALL FORMAT EXAMPLES:
TOOL_CALL: {\"name\": \"read_file\", \"parameters\": {\"path\": \"src/main.rs\"}}
TOOL_CALL: {\"name\": \"search_files\", \"parameters\": {\"pattern\": \"TODO\", \"file_glob\": \"*.rs\"}}
TOOL_CALL: {\"name\": \"patch\", \"parameters\": {\"path\": \"config.yaml\", \"old_string\": \"debug: false\", \"new_string\": \"debug: true\"}}
TOOL_CALL: {\"name\": \"write_file\", \"parameters\": {\"path\": \"test.txt\", \"content\": \"Hello world\"}}
TOOL_CALL: {\"name\": \"terminal\", \"parameters\": {\"command\": \"cargo test\"}}

Respond naturally when no tool is needed. Only output TOOL_CALL when you need to perform an action.";

/// One tool as the system prompt lists it: `- <name>: <description>\n`.
pub open spec fn tool_line(t: (Seq<char>, Seq<char>)) -> Seq<char> {
    seq!['-', ' '] + t.0 + seq![':', ' '] + t.1 + seq!['\n']
}

/// The list of tools in the system prompt, one line per tool, in order.
pub open spec fn tool_lines(ts: Seq<(Seq<char>, Seq<char>)>) -> Seq<char>
    decreases ts.len(),
{
    if ts.len() == 0 {
        seq![]
    } else {
        tool_lines(ts.drop_last()) + tool_line(ts.last())
    }
}

/// The system prompt for a list of tools.
pub open spec fn system_prompt_of(ts: Seq<(Seq<char>, Seq<char>)>) -> Seq<char> {
    SYSTEM_PROMPT_HEAD@ + tool_lines(ts) + SYSTEM_PROMPT_TAIL@
}

/// The tools that the assistant may call, in the order they were
/// registered.
pub struct ToolRegistry {
    tools: Vec<ToolInfo>,
}

impl View for ToolRegistry {
    type V = Seq<(Seq<char>, Seq<char>)>;

    closed spec fn view(&self) -> Seq<(Seq<char>, Seq<char>)> {
        self.tools@.map_values(|t: ToolInfo| t@)
    }
}

impl ToolRegistry {
    /// A registry holding the built-in tools: read_file, write_file,
    /// terminal, search_files and patch, in that order.
    pub fn new() -> (r: ToolRegistry)
        ensures
            r@ == builtin_tools(),
    {
        let mut registry = ToolRegistry { tools: Vec::new() };
        registry.register(read_file::ReadFileTool.info());
        registry.register(write_file::WriteFileTool.info());
        registry.register(terminal::TerminalTool.info());
        registry.register(search_files::SearchFilesTool.info());
        registry.register(patch::PatchTool.info());
        assert(registry@ =~= builtin_tools());
        registry
    }

    /// Adds a tool after those already registered.
    pub fn register(&mut self, tool: ToolInfo)
        ensures
            final(self)@ == old(self)@.push(tool@),
    {
        self.tools.push(tool);
        assert(self@ =~= old(self)@.push(tool@));
    }

    /// Position of the first registered tool named `name`, if any.
    pub fn position(&self, name: &str) -> (r: Option<usize>)
        ensures
            match r {
                Some(i) => is_first_named(self@, name@, i as int),
                None => !has_tool_named(self@, name@),
            },
    {
        let wanted = String::from_str(name);
        let mut i: usize = 0;
        while i < self.tools.len()
            invariant
                i <= self.tools.len(),
                wanted@ == name@,
                forall|j: int| 0 <= j < i ==> self@[j].0 != name@,
            decreases self.tools.len() - i,
        {
            if self.tools[i].name == wanted {
                return Some(i);
            }
            i += 1;
        }
        None
    }

    /// The first registered tool named `name`, if any.
    pub fn get(&self, name: &str) -> (r: Option<&ToolInfo>)
        ensures
            match r {
                Some(t) => exists|i: int| is_first_named(self@, name@, i) && t@ == self@[i],
                None => !has_tool_named(self@, name@),
            },
    {
        match self.position(name) {
            Some(i) => Some(&self.tools[i]),
            None => None,
        }
    }

    /// All registered tools, in order.
    pub fn all(&self) -> (r: &Vec<ToolInfo>)
        ensures
            r@.map_values(|t: ToolInfo| t@) == self@,
    {
        &self.tools
    }

    /// The system prompt that describes the assistant, the tool call
    /// format and every registered tool, one line each.
    pub fn system_prompt(&self) -> (p: String)
        ensures
            p@ == system_prompt_of(self@),
    {
        let mut prompt = String::from_str(SYSTEM_PROMPT_HEAD);
        let mut i: usize = 0;
        assert(self@.take(0) =~= Seq::<(Seq<char>, Seq<char>)>::empty());
        while i < self.tools.len()
            invariant
                i <= self.tools.len(),
                prompt@ == SYSTEM_PROMPT_HEAD@ + tool_lines(self@.take(i as int)),
            decreases self.tools.len() - i,
        {
            let tool = &self.tools[i];
            let ghost before = prompt@;
            crate::text::push_char(&mut prompt, '-');
            crate::text::push_char(&mut prompt, ' ');
            prompt.append(tool.name.as_str());
            crate::text::push_char(&mut prompt, ':');
            crate::text::push_char(&mut prompt, ' ');
            prompt.append(tool.description.as_str());
            crate::text::push_char(&mut prompt, '\n');
            assert(self@.take(i + 1).drop_last() =~= self@.take(i as int));
            assert(self@.take(i + 1).last() == tool@);
            assert(prompt@ =~= before + tool_line(tool@));
            i += 1;
        }
        assert(self@.take(i as int) =~= self@);
        prompt.append(SYSTEM_PROMPT_TAIL);
        prompt
    }
}

/// Law: once a tool is registered, looking up its name finds a tool of
/// that name: the first one registered under it.
pub proof fn lemma_registered_tool_is_found(ts: Seq<(Seq<char>, Seq<char>)>, t: (Seq<char>, Seq<char>))
    ensures
        has_tool_named(ts.push(t), t.0),
{
    assert(ts.push(t)[ts.len() as int].0 == t.0);
}

/// Law: registering a tool does not change what an earlier successful
/// lookup found: the first tool of a name stays the first.
pub proof fn lemma_register_keeps_lookups(
    ts: Seq<(Seq<char>, Seq<char>)>,
    t: (Seq<char>, Seq<char>),
    name: Seq<char>,
    i: int,
)
    requires
        is_first_named(ts, name, i),
    ensures
        is_first_named(ts.push(t), name, i),
{
}

} // verus!
