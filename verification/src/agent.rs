//! The agent's turn: the decisions of the loop in which the model answers
//! the user, possibly asking for tools to be run first. The model and the
//! tools are reached from outside this crate; each function here takes
//! what came back and says what to do next.

use vstd::prelude::*;
use crate::session::{appended, estimated_tokens, lemma_trim_idempotent, lemma_within_budget_untouched, prompt_of, total_chars, Role, Session};
use crate::text::{chars_of, find, find_bounds, lemma_find_is_first, lemma_trim_strips_ends, stripped_of, find_in, rfind_char, rfind_char_in, string_of_range, trim, trimmed};
use crate::tools::{has_tool_named, is_first_named, system_prompt_of, ToolCall, ToolRegistry, ToolResult};

verus! {

/// How many completions one turn may ask for.
pub const MAX_ITERATIONS: usize = 10;

/// The marker that opens a tool call in the model's answer.
pub const TOOL_CALL_MARKER: &'static str = "TOOL_CALL:";

/// What the agent does next.
pub enum AgentStep {
    /// Ask the model to complete `prompt`; `iteration` counts the requests
    /// of this turn from 0.
    Generate { prompt: String, iteration: usize },
    /// Run the registered tool at position `tool` with `call`, which the
    /// model's `response` asked for.
    RunTool { tool: usize, call: ToolCall, response: String, iteration: usize },
    /// The turn is over and `response` is the answer.
    Done { response: String },
    /// The model asked for tools in every request the turn allows.
    Exhausted,
}

/// The system message that reports a tool's result to the model.
pub open spec fn tool_report(r: ToolResult) -> Seq<char> {
    if r.success {
        "Tool result: "@ + r.output@
    } else {
        "Tool error: "@ + match r.error {
            Some(e) => e@,
            None => Seq::<char>::empty(),
        }
    }
}

/// The error for a call of a tool that is not registered.
pub open spec fn not_found_message(name: Seq<char>) -> Seq<char> {
    "Tool '"@ + name + "' not found"@
}

/// After request `iteration` was answered and the conversation became
/// `ms`: the next request, with the prompt for `ms`, when the turn allows
/// one more; else the turn is exhausted.
pub open spec fn continues(ms: Seq<(Role, Seq<char>)>, iteration: usize, step: AgentStep) -> bool {
    if iteration + 1 < MAX_ITERATIONS {
        step matches AgentStep::Generate { prompt, iteration: k } && prompt@ == prompt_of(ms) && k
            == iteration + 1
    } else {
        step is Exhausted
    }
}

/// The conversation at the start of a turn, under the budget `max`: the
/// system prompt first when the conversation is new, then the user's
/// message.
pub open spec fn opened_turn(
    ms: Seq<(Role, Seq<char>)>,
    system: Seq<char>,
    input: Seq<char>,
    max: nat,
) -> Seq<(Role, Seq<char>)> {
    if ms.len() == 0 {
        appended(appended(ms, (Role::System, system), max), (Role::User, input), max)
    } else {
        appended(ms, (Role::User, input), max)
    }
}

/// The conversation after the model's `response` and the report `report`
/// about it were added, under the budget `max`.
pub open spec fn answered(
    ms: Seq<(Role, Seq<char>)>,
    response: Seq<char>,
    report: Seq<char>,
    max: nat,
) -> Seq<(Role, Seq<char>)> {
    appended(appended(ms, (Role::Assistant, response), max), (Role::System, report), max)
}

/// The text after the tool call marker in an answer, trimmed, if the
/// trimmed answer holds the marker.
pub open spec fn payload_of(response: Seq<char>) -> Option<Seq<char>> {
    let t = trim(response);
    match find(t, TOOL_CALL_MARKER@) {
        Some(k) => Some(trim(t.skip(k + TOOL_CALL_MARKER@.len() as int))),
        None => None,
    }
}

/// The first `{` and the last `}` of a text, when it has both.
pub open spec fn braces(p: Seq<char>) -> Option<(nat, nat)> {
    match (find(p, seq!['{']), rfind_char(p, '}')) {
        (Some(s), Some(e)) => Some((s, e)),
        _ => None,
    }
}

/// The last `}` of `p` stands more than one place before its first `{`,
/// so that no text runs from the one to the other.
pub open spec fn braces_inverted_in(p: Seq<char>) -> bool {
    braces(p) matches Some((s, e)) && e + 1 < s
}

/// The text from the first `{` to the last `}` of `p`, both included.
pub open spec fn brace_span_of(p: Seq<char>) -> Option<Seq<char>> {
    match braces(p) {
        Some((s, e)) => Some(p.subrange(s as int, e + 1 as int)),
        None => None,
    }
}

/// The text after the tool call marker in the model's answer, where a
/// tool call's JSON is looked for first.
pub fn tool_call_payload(response: &str) -> (r: Option<String>)
    ensures
        match payload_of(response@) {
            Some(p) => r matches Some(s) && s@ == p,
            None => r is None,
        },
{
    let t = trimmed(response);
    let v = chars_of(t.as_str());
    let marker = chars_of(TOOL_CALL_MARKER);
    match find_in(&v, &marker) {
        Some(k) => {
            proof {
                find_bounds(v@, marker@);
                assert(k + marker.len() <= v.len());
            }
            let rest = string_of_range(&v, k + marker.len(), v.len());
            assert(rest@ =~= v@.skip(k + marker.len()));
            Some(trimmed(rest.as_str()))
        },
        None => None,
    }
}

fn brace_positions(p: &str) -> (r: Option<(usize, usize)>)
    ensures
        match r {
            Some((s, e)) => braces(p@) == Some((s as nat, e as nat)) && s < p@.len() && e < p@.len(),
            None => braces(p@) is None,
        },
{
    let v = chars_of(p);
    let mut open: Vec<char> = Vec::new();
    open.push('{');
    assert(open@ =~= seq!['{']);
    let first = find_in(&v, &open);
    let last = rfind_char_in(&v, '}');
    proof {
        find_bounds(v@, open@);
    }
    match (first, last) {
        (Some(s), Some(e)) => Some((s, e)),
        _ => None,
    }
}

/// Whether the last `}` of the payload stands more than one place before
/// its first `{`.
pub fn braces_inverted(payload: &str) -> (b: bool)
    ensures
        b == braces_inverted_in(payload@),
{
    match brace_positions(payload) {
        Some((s, e)) => s > 0 && e < s - 1,
        None => false,
    }
}

/// The text from the first `{` to the last `}` of the payload, where a
/// tool call's JSON is looked for second.
pub fn brace_span(payload: &str) -> (r: Option<String>)
    requires
        !braces_inverted_in(payload@),
    ensures
        match brace_span_of(payload@) {
            Some(t) => r matches Some(s) && s@ == t,
            None => r is None,
        },
{
    let v = chars_of(payload);
    match brace_positions(payload) {
        Some((s, e)) => Some(string_of_range(&v, s, e + 1)),
        None => None,
    }
}

/// Law: a turn asks the model at most `MAX_ITERATIONS` times. Each request
/// that a turn goes on to carries the index one past the request before
/// it, and every index is below `MAX_ITERATIONS`; the request after the
/// last allowed one is never made, the turn is exhausted instead.
pub proof fn lemma_requests_bounded(ms: Seq<(Role, Seq<char>)>, iteration: usize, step: AgentStep)
    requires
        continues(ms, iteration, step),
    ensures
        step matches AgentStep::Generate { iteration: k, .. } ==> k == iteration + 1 && k
            < MAX_ITERATIONS,
        iteration + 1 >= MAX_ITERATIONS ==> step is Exhausted,
{
}

/// Law: within the budget, taking a tool's result adds exactly two
/// messages after the conversation so far: the model's response as the
/// assistant's, then the report as a system message.
pub proof fn lemma_answered_within_budget(
    ms: Seq<(Role, Seq<char>)>,
    response: Seq<char>,
    report: Seq<char>,
    max: nat,
)
    requires
        estimated_tokens(ms + seq![(Role::Assistant, response), (Role::System, report)]) <= max,
    ensures
        answered(ms, response, report, max) == ms + seq![
            (Role::Assistant, response),
            (Role::System, report),
        ],
{
    let one = ms.push((Role::Assistant, response));
    let two = one.push((Role::System, report));
    assert(ms + seq![(Role::Assistant, response), (Role::System, report)] =~= two);
    assert(two.drop_last() =~= one);
    assert(total_chars(two) == total_chars(one) + report.len());
    assert(estimated_tokens(one) <= estimated_tokens(two));
    lemma_within_budget_untouched(ms, (Role::Assistant, response), max);
    lemma_within_budget_untouched(one, (Role::System, report), max);
}

/// The tool call marker stands at `k` in `t`, and nowhere before.
pub open spec fn marker_first_at(t: Seq<char>, k: int) -> bool {
    &&& 0 <= k
    &&& k + TOOL_CALL_MARKER@.len() <= t.len()
    &&& t.subrange(k, k + TOOL_CALL_MARKER@.len()) == TOOL_CALL_MARKER@
    &&& forall|j: int|
        0 <= j < k ==> #[trigger] t.subrange(j, j + TOOL_CALL_MARKER@.len()) != TOOL_CALL_MARKER@
}

/// Law: the payload of an answer that holds the tool call marker is all of
/// the trimmed answer after the first marker, with only the white space at
/// its two ends taken off (line feeds inside it stay); an answer without
/// the marker has no payload.
pub proof fn lemma_payload_is_whole_rest(response: Seq<char>)
    ensures
        payload_of(response) is None <==> (forall|j: int|
            0 <= j && j + TOOL_CALL_MARKER@.len() <= trim(response).len() ==> #[trigger] trim(
                response,
            ).subrange(j, j + TOOL_CALL_MARKER@.len()) != TOOL_CALL_MARKER@),
        payload_of(response) matches Some(p) ==> exists|k: int|
            #[trigger] marker_first_at(trim(response), k) && (exists|lo: int, hi: int|
                #[trigger] stripped_of(
                    trim(response).skip(k + TOOL_CALL_MARKER@.len()),
                    lo,
                    hi,
                    p,
                )),
{
    let t = trim(response);
    let m = TOOL_CALL_MARKER@;
    lemma_find_is_first(t, m);
    match find(t, m) {
        Some(k) => {
            let ki = k as int;
            let rest = t.skip(ki + m.len());
            lemma_trim_strips_ends(rest);
            assert(t.subrange(ki, ki + m.len()) == m);
            assert(payload_of(response) == Some(trim(rest)));
            assert(marker_first_at(t, ki));
            let pl = trim(rest);
            let (lo, hi) = choose|lo: int, hi: int| #[trigger] stripped_of(rest, lo, hi, pl);
            assert(stripped_of(trim(response).skip(ki + TOOL_CALL_MARKER@.len()), lo, hi, pl));
            assert(payload_of(response) matches Some(q) && q == pl);
        },
        None => {
            assert(payload_of(response) is None);
        },
    }
}

/// The agent: the tools it may call, and the decisions of its turns.
pub struct Agent {
    tools: ToolRegistry,
}

impl View for Agent {
    type V = Seq<(Seq<char>, Seq<char>)>;

    /// The tools the agent may call.
    closed spec fn view(&self) -> Seq<(Seq<char>, Seq<char>)> {
        self.tools@
    }
}

impl Agent {
    /// An agent with the built-in tools.
    pub fn new() -> (a: Agent)
        ensures
            a@ == crate::tools::builtin_tools(),
    {
        Agent { tools: ToolRegistry::new() }
    }

    /// An agent with the given tools.
    pub fn with_tools(tools: ToolRegistry) -> (a: Agent)
        ensures
            a@ == tools@,
    {
        Agent { tools }
    }

    /// The tools the agent may call.
    pub fn tools(&self) -> (t: &ToolRegistry)
        ensures
            t@ == self@,
    {
        &self.tools
    }

    /// Opens a turn for the user's message: a new conversation first gets
    /// the system prompt; then the message is added and the first
    /// completion is asked for.
    pub fn start(&self, session: &mut Session, user_input: &str) -> (step: AgentStep)
        ensures
            final(session)@ == opened_turn(
                old(session)@,
                system_prompt_of(self@),
                user_input@,
                old(session).max_context as nat,
            ),
            final(session).max_context == old(session).max_context,
            step matches AgentStep::Generate { prompt, iteration } && prompt@ == prompt_of(
                final(session)@,
            ) && iteration == 0,
    {
        if session.is_empty() {
            let system = self.tools.system_prompt();
            session.add_system_message(system.as_str());
        }
        let ghost before = session@;
        session.add_user_message(user_input);
        proof {
            lemma_trim_idempotent(before.push((Role::User, user_input@)), session.max_context as nat);
        }
        AgentStep::Generate { prompt: session.to_prompt(), iteration: 0 }
    }

    /// Takes the model's answer to request `iteration`, with the tool call
    /// read from it, if any. Without a call the answer ends the turn. A
    /// call of a registered tool is to be run. A call of an unknown tool
    /// is reported to the model as an error and the turn goes on.
    pub fn on_response(
        &self,
        session: &mut Session,
        iteration: usize,
        response: String,
        call: Option<ToolCall>,
    ) -> (step: AgentStep)
        requires
            iteration < MAX_ITERATIONS,
        ensures
            final(session).max_context == old(session).max_context,
            match call {
                None => {
                    &&& final(session)@ == appended(
                        old(session)@,
                        (Role::Assistant, response@),
                        old(session).max_context as nat,
                    )
                    &&& step matches AgentStep::Done { response: r } && r@ == response@
                },
                Some(c) => if has_tool_named(self@, c.name@) {
                    &&& final(session)@ == old(session)@
                    &&& step matches AgentStep::RunTool { tool, call: sc, response: r, iteration: k }
                        && is_first_named(self@, c.name@, tool as int) && sc == c && r@ == response@
                        && k == iteration
                } else {
                    &&& final(session)@ == answered(
                        old(session)@,
                        response@,
                        "Tool error: "@ + not_found_message(c.name@),
                        old(session).max_context as nat,
                    )
                    &&& continues(final(session)@, iteration, step)
                },
            },
    {
        match call {
            None => {
                session.add_assistant_message(response.as_str());
                AgentStep::Done { response }
            },
            Some(c) => match self.tools.position(c.name.as_str()) {
                Some(tool) => AgentStep::RunTool { tool, call: c, response, iteration },
                None => {
                    let mut msg = String::from_str("Tool '");
                    msg.append(c.name.as_str());
                    msg.append("' not found");
                    let result = ToolResult::failed(msg);
                    self.on_tool_result(session, iteration, response.as_str(), &result)
                },
            },
        }
    }

    /// Takes the result of the tool that the model's `response` to request
    /// `iteration` asked for: the response and a report of the result join
    /// the conversation, and the turn goes on.
    pub fn on_tool_result(
        &self,
        session: &mut Session,
        iteration: usize,
        response: &str,
        result: &ToolResult,
    ) -> (step: AgentStep)
        requires
            iteration < MAX_ITERATIONS,
        ensures
            final(session)@ == answered(
                old(session)@,
                response@,
                tool_report(*result),
                old(session).max_context as nat,
            ),
            estimated_tokens(
                old(session)@ + seq![(Role::Assistant, response@), (Role::System, tool_report(*result))],
            ) <= old(session).max_context ==> final(session)@ == old(session)@ + seq![
                (Role::Assistant, response@),
                (Role::System, tool_report(*result)),
            ],
            final(session).max_context == old(session).max_context,
            continues(final(session)@, iteration, step),
    {
        let ghost start = session@;
        session.add_assistant_message(response);
        let report = if result.success {
            let mut m = String::from_str("Tool result: ");
            m.append(result.output.as_str());
            m
        } else {
            let mut m = String::from_str("Tool error: ");
            match &result.error {
                Some(e) => m.append(e.as_str()),
                None => {},
            }
            m
        };
        assert(Seq::<char>::empty() + Seq::<char>::empty() =~= Seq::<char>::empty());
        let ghost before = session@;
        session.add_system_message(report.as_str());
        proof {
            lemma_trim_idempotent(before.push((Role::System, report@)), session.max_context as nat);
            if estimated_tokens(
                start + seq![(Role::Assistant, response@), (Role::System, tool_report(*result))],
            ) <= session.max_context {
                lemma_answered_within_budget(
                    start,
                    response@,
                    tool_report(*result),
                    session.max_context as nat,
                );
            }
        }
        if iteration + 1 < MAX_ITERATIONS {
            AgentStep::Generate { prompt: session.to_prompt(), iteration: iteration + 1 }
        } else {
            AgentStep::Exhausted
        }
    }
}

} // verus!
