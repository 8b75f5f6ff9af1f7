//! The read_file tool: shows a window of a text file's lines, numbered,
//! with the file's total line count.

use vstd::prelude::*;
use super::{param, DefaultView, ParamDefault, ParamKind, ParamSpec, ParamView, reports_success, ToolInfo, ToolResult};
use crate::text::{decimal, lines, pad_left, push_char, push_padded_decimal, push_decimal, split_lines};

verus! {

/// The tool's name.
pub const NAME: &'static str = "read_file";

/// The tool's description for the model.
pub const DESCRIPTION: &'static str = "Read a text file with line numbers and pagination";

/// The first line shown when the model gives none (lines count from 1).
pub fn default_offset() -> (n: usize)
    ensures
        n == 1,
{
    1
}

/// How many lines are shown when the model gives no limit.
pub fn default_limit() -> (n: usize)
    ensures
        n == 500,
{
    500
}

/// Index of the first line shown for a 1-based `offset` (`offset - 1`,
/// and 0 for an offset of 0).
pub open spec fn window_start(offset: usize) -> int {
    if offset == 0 {
        0
    } else {
        offset - 1
    }
}

/// Index just past the last line shown.
pub open spec fn window_end(total: int, offset: usize, limit: usize) -> int {
    if window_start(offset) + limit < total {
        window_start(offset) + limit
    } else {
        total
    }
}

/// Whether the window can be shown: it must not start past the last line,
/// and its end must be a machine number.
pub open spec fn window_fits(content: Seq<char>, offset: usize, limit: usize) -> bool {
    &&& window_start(offset) <= lines(content).len()
    &&& window_start(offset) + limit <= usize::MAX
}

/// Line `i` (0-based) shown with its 1-based number right-aligned in six
/// columns, a bar, the text and a line feed.
pub open spec fn numbered_line(i: int, line: Seq<char>) -> Seq<char> {
    pad_left(decimal((i + 1) as nat), 6) + seq!['|'] + line + seq!['\n']
}

/// Lines `start..end` of `ls`, each numbered.
pub open spec fn numbered_lines(ls: Seq<Seq<char>>, start: int, end: int) -> Seq<char>
    decreases end - start,
{
    if end <= start {
        seq![]
    } else {
        numbered_lines(ls, start, end - 1) + numbered_line(end - 1, ls[end - 1])
    }
}

/// What the tool shows for a file: the numbered lines of the window, then
/// a blank line and `Total lines: <n>`.
pub open spec fn listing(content: Seq<char>, offset: usize, limit: usize) -> Seq<char> {
    let ls = lines(content);
    numbered_lines(ls, window_start(offset), window_end(ls.len() as int, offset, limit))
        + "\nTotal lines: "@ + decimal(ls.len())
}

/// Reads a text file in windows of lines.
pub struct ReadFileTool;

/// The tool's parameters, in the order its schema lists them.
pub open spec fn parameters() -> Seq<ParamView> {
    seq![
        param(
            "path"@,
            ParamKind::Text,
            "Path to the file to read"@,
            DefaultView::Absent,
            true,
        ),
        param(
            "offset"@,
            ParamKind::Integer,
            "Line number to start from (1-indexed, default: 1)"@,
            DefaultView::Integer(1),
            false,
        ),
        param(
            "limit"@,
            ParamKind::Integer,
            "Maximum number of lines to read (default: 500)"@,
            DefaultView::Integer(500),
            false,
        ),
    ]
}

impl ReadFileTool {
    /// The tool's name.
    pub fn name(&self) -> (r: &'static str)
        ensures
            r@ == NAME@,
    {
        NAME
    }

    /// The tool's description.
    pub fn description(&self) -> (r: &'static str)
        ensures
            r@ == DESCRIPTION@,
    {
        DESCRIPTION
    }

    /// The tool's entry in a registry.
    pub fn info(&self) -> (t: ToolInfo)
        ensures
            t@ == (NAME@, DESCRIPTION@),
    {
        ToolInfo::new(NAME, DESCRIPTION)
    }

    /// The tool's parameters, from which its JSON schema is built.
    pub fn parameter_specs(&self) -> (ps: Vec<ParamSpec>)
        ensures
            ps@.map_values(|p: ParamSpec| p@) == parameters(),
    {
        let mut ps: Vec<ParamSpec> = Vec::new();
        ps.push(ParamSpec {
            name: "path",
            kind: ParamKind::Text,
            description: "Path to the file to read",
            default: ParamDefault::Absent,
            required: true,
        });
        ps.push(ParamSpec {
            name: "offset",
            kind: ParamKind::Integer,
            description: "Line number to start from (1-indexed, default: 1)",
            default: ParamDefault::Integer(1),
            required: false,
        });
        ps.push(ParamSpec {
            name: "limit",
            kind: ParamKind::Integer,
            description: "Maximum number of lines to read (default: 500)",
            default: ParamDefault::Integer(500),
            required: false,
        });
        assert(ps@.map_values(|p: ParamSpec| p@) =~= parameters());
        ps
    }

    /// Whether `render` can show this window of `content`.
    pub fn window_fits(&self, content: &str, offset: usize, limit: usize) -> (b: bool)
        ensures
            b == window_fits(content@, offset, limit),
    {
        let total = split_lines(content).len();
        let start = if offset == 0 { 0 } else { offset - 1 };
        start <= total && limit <= usize::MAX - start
    }

    /// The result for a file with text `content`: the lines from the
    /// 1-based `offset` on, at most `limit` of them, numbered, then the
    /// total line count.
    pub fn render(&self, content: &str, offset: usize, limit: usize) -> (r: ToolResult)
        requires
            window_fits(content@, offset, limit),
        ensures
            reports_success(r, listing(content@, offset, limit)),
    {
        let ls = split_lines(content);
        let total = ls.len();
        let start = if offset == 0 { 0 } else { offset - 1 };
        let end = if start + limit < total { start + limit } else { total };
        let ghost all = lines(content@);
        let mut output = String::new();
        let mut i = start;
        while i < end
            invariant
                start <= i <= end <= total,
                total == all.len(),
                ls.len() == total,
                forall|k: int| 0 <= k < ls.len() ==> #[trigger] ls[k]@ == all[k],
                output@ == numbered_lines(all, start as int, i as int),
            decreases end - i,
        {
            let ghost before = output@;
            push_padded_decimal(&mut output, (i + 1) as u64, 6);
            push_char(&mut output, '|');
            output.append(ls[i].as_str());
            push_char(&mut output, '\n');
            assert(output@ =~= before + numbered_line(i as int, all[i as int]));
            i += 1;
        }
        output.append("\nTotal lines: ");
        push_decimal(&mut output, total as u64);
        ToolResult::succeeded(output)
    }
}

/// Law: a numbered line shows the line itself, unchanged: the number
/// right-aligned in at least six columns, a bar, every character of the
/// line as it is, and a line feed.
pub proof fn lemma_numbered_line_shows_line(i: int, line: Seq<char>)
    requires
        i >= 0,
    ensures
        ({
            let n = pad_left(decimal((i + 1) as nat), 6);
            let shown = numbered_line(i, line);
            &&& shown.len() == n.len() + line.len() + 2
            &&& shown.take(n.len() as int) == n
            &&& shown[n.len() as int] == '|'
            &&& shown.subrange(n.len() + 1 as int, n.len() + 1 + line.len() as int) == line
            &&& shown.last() == '\n'
        }),
{
    let n = pad_left(decimal((i + 1) as nat), 6);
    let shown = numbered_line(i, line);
    assert(shown.take(n.len() as int) =~= n);
    assert(shown.subrange(n.len() + 1 as int, n.len() + 1 + line.len() as int) =~= line);
}

/// Law: the shown lines are the lines of the window, each numbered, one
/// after the other: line `k` of the window stands between the lines before
/// it and the lines after it.
pub proof fn lemma_window_holds_each_line(ls: Seq<Seq<char>>, start: int, end: int, k: int)
    requires
        start <= k < end,
    ensures
        numbered_lines(ls, start, end) == numbered_lines(ls, start, k) + numbered_line(k, ls[k])
            + numbered_lines(ls, k + 1, end),
    decreases end - start,
{
    if k == end - 1 {
        assert(numbered_lines(ls, k + 1, end) =~= Seq::<char>::empty());
        assert(numbered_lines(ls, start, end) =~= numbered_lines(ls, start, k) + numbered_line(
            k,
            ls[k],
        ) + numbered_lines(ls, k + 1, end));
    } else {
        lemma_window_holds_each_line(ls, start, end - 1, k);
        assert(numbered_lines(ls, start, end) =~= numbered_lines(ls, start, k) + numbered_line(
            k,
            ls[k],
        ) + numbered_lines(ls, k + 1, end));
    }
}

/// Law: every line of the window appears in what the tool shows, whole
/// and numbered by its place in the file, and the listing ends with the
/// file's total line count.
pub proof fn lemma_listing_shows_each_line(content: Seq<char>, offset: usize, limit: usize, k: int)
    requires
        window_start(offset) <= k < window_end(lines(content).len() as int, offset, limit),
    ensures
        exists|before: Seq<char>, after: Seq<char>|
            listing(content, offset, limit) == before + #[trigger] numbered_line(
                k,
                lines(content)[k],
            ) + after,
        ({
            let tail = "\nTotal lines: "@ + decimal(lines(content).len());
            listing(content, offset, limit).len() >= tail.len() && listing(content, offset, limit).skip(
                listing(content, offset, limit).len() - tail.len(),
            ) == tail
        }),
{
    let ls = lines(content);
    let start = window_start(offset);
    let end = window_end(ls.len() as int, offset, limit);
    lemma_window_holds_each_line(ls, start, end, k);
    let before = numbered_lines(ls, start, k);
    let tail = "\nTotal lines: "@ + decimal(ls.len());
    let after = numbered_lines(ls, k + 1, end) + tail;
    assert(listing(content, offset, limit) =~= before + numbered_line(k, ls[k]) + after);
    let l = listing(content, offset, limit);
    assert(l.skip(l.len() - tail.len()) =~= tail);
}

} // verus!
