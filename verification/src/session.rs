//! Conversations: messages with their roles, and the prompt that a
//! conversation is rendered to for a completion model.

use vstd::prelude::*;

verus! {

/// Who wrote a message.
#[derive(Clone, Copy, Debug, PartialEq, Eq, Structural)]
pub enum Role {
    User,
    Assistant,
    System,
}

/// One message of a conversation.
#[derive(Clone, Debug)]
pub struct Message {
    pub role: Role,
    pub content: String,
}

impl View for Message {
    type V = (Role, Seq<char>);

    open spec fn view(&self) -> (Role, Seq<char>) {
        (self.role, self.content@)
    }
}

impl Message {
    /// A message with the given role and text.
    pub fn new(role: Role, content: &str) -> (m: Message)
        ensures
            m@ == (role, content@),
    {
        Message { role, content: String::from_str(content) }
    }

    /// A copy of this message.
    pub fn duplicate(&self) -> (m: Message)
        ensures
            m@ == self@,
    {
        Message { role: self.role, content: self.content.clone() }
    }
}

/// How many tokens a conversation may take before its older messages are
/// dropped.
pub const DEFAULT_MAX_CONTEXT: usize = 6000;

/// A conversation: the messages exchanged so far, oldest first, and the
/// token budget that adding a message keeps it within.
#[derive(Debug)]
pub struct Session {
    pub messages: Vec<Message>,
    pub max_context: usize,
}

impl View for Session {
    type V = Seq<(Role, Seq<char>)>;

    open spec fn view(&self) -> Seq<(Role, Seq<char>)> {
        self.messages@.map_values(|m: Message| m@)
    }
}

/// The label that introduces a message of role `r` in a prompt.
pub open spec fn role_label(r: Role) -> Seq<char> {
    match r {
        Role::System => "System: "@,
        Role::User => "User: "@,
        Role::Assistant => "Assistant: "@,
    }
}

/// A message as it stands in a prompt: its label, its text, a blank line.
pub open spec fn render_message(m: (Role, Seq<char>)) -> Seq<char> {
    role_label(m.0) + m.1 + "\n\n"@
}

/// All messages, rendered one after the other.
pub open spec fn render_all(ms: Seq<(Role, Seq<char>)>) -> Seq<char>
    decreases ms.len(),
{
    if ms.len() == 0 {
        seq![]
    } else {
        render_all(ms.drop_last()) + render_message(ms.last())
    }
}

/// Number of characters of all message texts.
pub open spec fn total_chars(ms: Seq<(Role, Seq<char>)>) -> nat
    decreases ms.len(),
{
    if ms.len() == 0 {
        0
    } else {
        total_chars(ms.drop_last()) + ms.last().1.len()
    }
}

/// The tokens a conversation is estimated to take: one per four
/// characters of message text.
pub open spec fn estimated_tokens(ms: Seq<(Role, Seq<char>)>) -> nat {
    total_chars(ms) / 4
}

/// How many leading messages trimming keeps: the first message when it is
/// a system message (the instructions), else none.
pub open spec fn kept_head(ms: Seq<(Role, Seq<char>)>) -> nat {
    if ms.len() > 0 && ms[0].0 == Role::System {
        1
    } else {
        0
    }
}

/// `ms` with its oldest messages after the first `keep` dropped, one at a
/// time, until it is within `max` tokens or only those `keep` and the
/// newest message remain.
pub open spec fn trim_from(ms: Seq<(Role, Seq<char>)>, keep: nat, max: nat) -> Seq<(Role, Seq<char>)>
    decreases ms.len(),
{
    if estimated_tokens(ms) <= max || ms.len() <= keep + 1 {
        ms
    } else {
        trim_from(ms.remove(keep as int), keep, max)
    }
}

/// `ms` trimmed to `max` tokens, keeping a leading system message.
pub open spec fn trim_context(ms: Seq<(Role, Seq<char>)>, max: nat) -> Seq<(Role, Seq<char>)> {
    trim_from(ms, kept_head(ms), max)
}

/// The conversation `ms` after message `m` is added under the budget
/// `max`.
pub open spec fn appended(ms: Seq<(Role, Seq<char>)>, m: (Role, Seq<char>), max: nat) -> Seq<
    (Role, Seq<char>),
> {
    trim_context(ms.push(m), max)
}

/// The prompt for a conversation: every message rendered in order, then
/// the label that invites the assistant to answer.
pub open spec fn prompt_of(ms: Seq<(Role, Seq<char>)>) -> Seq<char> {
    render_all(ms) + "Assistant: "@
}

impl Session {
    /// An empty conversation.
    pub fn new() -> (s: Session)
        ensures
            s@ == Seq::<(Role, Seq<char>)>::empty(),
            s.max_context == DEFAULT_MAX_CONTEXT,
    {
        let s = Session { messages: Vec::new(), max_context: DEFAULT_MAX_CONTEXT };
        assert(s@ =~= Seq::<(Role, Seq<char>)>::empty());
        s
    }

    /// A conversation made of the given messages.
    pub fn from_messages(messages: Vec<Message>) -> (s: Session)
        ensures
            s.messages@ == messages@,
            s.max_context == DEFAULT_MAX_CONTEXT,
    {
        Session { messages, max_context: DEFAULT_MAX_CONTEXT }
    }

    /// Number of messages.
    pub fn len(&self) -> (n: usize)
        ensures
            n == self@.len(),
    {
        self.messages.len()
    }

    /// Whether the conversation has no message yet.
    pub fn is_empty(&self) -> (b: bool)
        ensures
            b == (self@.len() == 0),
    {
        self.messages.len() == 0
    }

    /// Whether the conversation takes more than its budget of tokens.
    fn over_budget(&self) -> (b: bool)
        ensures
            b == (estimated_tokens(self@) > self.max_context),
    {
        let limit: u128 = (self.max_context as u128) * 4 + 3;
        let mut sum: u128 = 0;
        let mut i: usize = 0;
        assert(self@.take(0) =~= Seq::<(Role, Seq<char>)>::empty());
        while i < self.messages.len()
            invariant
                i <= self.messages.len(),
                limit == (self.max_context as u128) * 4 + 3,
                sum == total_chars(self@.take(i as int)),
                sum <= limit,
            decreases self.messages.len() - i,
        {
            let len = self.messages[i].content.as_str().unicode_len();
            assert(self@.take(i + 1).drop_last() =~= self@.take(i as int));
            if len as u128 > limit - sum {
                proof {
                    lemma_total_chars_prefix(self@, i + 1);
                }
                return true;
            }
            sum = sum + len as u128;
            i += 1;
        }
        assert(self@.take(i as int) =~= self@);
        false
    }

    /// Drops the oldest messages after the first `keep` until the
    /// conversation is within its budget or only those and the newest
    /// message remain.
    fn trim_to_budget(&mut self, keep: usize)
        requires
            keep <= 1,
        ensures
            final(self)@ == trim_from(old(self)@, keep as nat, old(self).max_context as nat),
            final(self).max_context == old(self).max_context,
        decreases old(self)@.len(),
    {
        if self.over_budget() && self.messages.len() > keep + 1 {
            let ghost before = self@;
            let _dropped = self.messages.remove(keep);
            assert(self@ =~= before.remove(keep as int));
            self.trim_to_budget(keep);
        }
    }

    fn push_message(&mut self, role: Role, content: &str)
        ensures
            final(self)@ == appended(old(self)@, (role, content@), old(self).max_context as nat),
            final(self).max_context == old(self).max_context,
    {
        let m = Message::new(role, content);
        self.messages.push(m);
        assert(self@ =~= old(self)@.push((role, content@)));
        let keep: usize = match self.messages[0].role {
            Role::System => 1,
            _ => 0,
        };
        self.trim_to_budget(keep);
    }

    /// Appends a message written by the user; older messages are dropped
    /// if the conversation then exceeds its budget.
    pub fn add_user_message(&mut self, content: &str)
        ensures
            final(self)@ == appended(old(self)@, (Role::User, content@), old(self).max_context as nat),
            final(self).max_context == old(self).max_context,
    {
        self.push_message(Role::User, content);
    }

    /// Appends a message written by the assistant; older messages are
    /// dropped if the conversation then exceeds its budget.
    pub fn add_assistant_message(&mut self, content: &str)
        ensures
            final(self)@ == appended(old(self)@, (Role::Assistant, content@), old(self).max_context as nat),
            final(self).max_context == old(self).max_context,
    {
        self.push_message(Role::Assistant, content);
    }

    /// Appends a system message (instructions or a tool's report); older
    /// messages are dropped if the conversation then exceeds its budget.
    pub fn add_system_message(&mut self, content: &str)
        ensures
            final(self)@ == appended(old(self)@, (Role::System, content@), old(self).max_context as nat),
            final(self).max_context == old(self).max_context,
    {
        self.push_message(Role::System, content);
    }

    /// The prompt for this conversation, trimmed to its budget: the
    /// conversation that adding a message would leave (oldest messages
    /// after a leading system message dropped until it is within
    /// `max_context` tokens or only that head and the newest message
    /// remain), each message as `"<Role>: <text>\n\n"`, then
    /// `"Assistant: "`. The conversation itself is not changed.
    pub fn to_prompt(&self) -> (p: String)
        ensures
            p@ == prompt_of(trim_context(self@, self.max_context as nat)),
    {
        if !self.over_budget() {
            return render_prompt(&self.messages);
        }
        let mut copy = Session { messages: self.messages_copy(), max_context: self.max_context };
        assert(copy@ == self@);
        let keep: usize = if copy.messages.len() > 0 {
            match copy.messages[0].role {
                Role::System => 1,
                _ => 0,
            }
        } else {
            0
        };
        copy.trim_to_budget(keep);
        render_prompt(&copy.messages)
    }

    /// A copy of the messages, in order.
    pub fn messages_copy(&self) -> (v: Vec<Message>)
        ensures
            v@.map_values(|m: Message| m@) == self@,
    {
        let mut v: Vec<Message> = Vec::new();
        let mut i: usize = 0;
        while i < self.messages.len()
            invariant
                i <= self.messages.len(),
                v.len() == i,
                forall|j: int| 0 <= j < i ==> #[trigger] v@[j]@ == self.messages@[j]@,
            decreases self.messages.len() - i,
        {
            v.push(self.messages[i].duplicate());
            i += 1;
        }
        assert(v@.map_values(|m: Message| m@) =~= self@);
        v
    }
}

/// The prompt for the messages `messages`, all of them, in order.
fn render_prompt(messages: &Vec<Message>) -> (p: String)
    ensures
        p@ == prompt_of(messages@.map_values(|m: Message| m@)),
{
    let ghost ms = messages@.map_values(|m: Message| m@);
    let mut prompt = String::new();
    let mut i: usize = 0;
    assert(ms.take(0) =~= Seq::<(Role, Seq<char>)>::empty());
    while i < messages.len()
        invariant
            i <= messages.len(),
            ms == messages@.map_values(|m: Message| m@),
            prompt@ == render_all(ms.take(i as int)),
        decreases messages.len() - i,
    {
        let msg = &messages[i];
        match msg.role {
            Role::System => prompt.append("System: "),
            Role::User => prompt.append("User: "),
            Role::Assistant => prompt.append("Assistant: "),
        }
        prompt.append(msg.content.as_str());
        prompt.append("\n\n");
        assert(ms.take(i + 1).drop_last() =~= ms.take(i as int));
        assert(ms.take(i + 1).last() == msg@);
        i += 1;
    }
    assert(ms.take(i as int) =~= ms);
    prompt.append("Assistant: ");
    prompt
}

proof fn lemma_total_chars_prefix(ms: Seq<(Role, Seq<char>)>, n: int)
    requires
        0 <= n <= ms.len(),
    ensures
        total_chars(ms.take(n)) <= total_chars(ms),
    decreases ms.len() - n,
{
    if n < ms.len() {
        lemma_total_chars_prefix(ms, n + 1);
        assert(ms.take(n + 1).drop_last() =~= ms.take(n));
    } else {
        assert(ms.take(n) =~= ms);
    }
}

/// Law: a conversation within its budget is not trimmed; adding a message
/// that keeps it within the budget only appends it.
pub proof fn lemma_within_budget_untouched(ms: Seq<(Role, Seq<char>)>, m: (Role, Seq<char>), max: nat)
    requires
        estimated_tokens(ms.push(m)) <= max,
    ensures
        appended(ms, m, max) == ms.push(m),
{
}

/// Law: trimming leaves a conversation within its budget, unless only the
/// kept leading messages and the newest one remain.
pub proof fn lemma_trim_within_budget(ms: Seq<(Role, Seq<char>)>, keep: nat, max: nat)
    ensures
        estimated_tokens(trim_from(ms, keep, max)) <= max || trim_from(ms, keep, max).len() <= keep
            + 1,
    decreases ms.len(),
{
    if estimated_tokens(ms) <= max || ms.len() <= keep + 1 {
    } else {
        lemma_trim_within_budget(ms.remove(keep as int), keep, max);
    }
}

/// Law: trimming drops the oldest messages after the kept leading ones
/// and nothing else: what remains is those leading messages followed by
/// the newest messages, in order, the newest of all among them.
pub proof fn lemma_trim_drops_oldest(ms: Seq<(Role, Seq<char>)>, keep: nat, max: nat)
    requires
        ms.len() > keep,
    ensures
        exists|k: int|
            keep <= k < ms.len() && #[trigger] trim_from(ms, keep, max) == ms.take(keep as int)
                + ms.skip(k),
    decreases ms.len(),
{
    if estimated_tokens(ms) <= max || ms.len() <= keep + 1 {
        assert(ms == ms.take(keep as int) + ms.skip(keep as int));
    } else {
        let shorter = ms.remove(keep as int);
        lemma_trim_drops_oldest(shorter, keep, max);
        let k = choose|k: int|
            keep <= k < shorter.len() && #[trigger] trim_from(shorter, keep, max) == shorter.take(
                keep as int,
            ) + shorter.skip(k);
        assert(shorter.take(keep as int) =~= ms.take(keep as int));
        assert(shorter.skip(k) =~= ms.skip(k + 1));
        assert(trim_from(ms, keep, max) == ms.take(keep as int) + ms.skip(k + 1));
    }
}

/// Law: after a message is added, it is the newest message of the
/// conversation, and a leading system message is still the first.
pub proof fn lemma_added_message_kept(ms: Seq<(Role, Seq<char>)>, m: (Role, Seq<char>), max: nat)
    ensures
        appended(ms, m, max).len() > 0,
        appended(ms, m, max).last() == m,
        ms.len() > 0 && ms[0].0 == Role::System ==> appended(ms, m, max)[0] == ms[0],
{
    let grown = ms.push(m);
    let keep = kept_head(grown);
    if grown.len() > keep {
        lemma_trim_drops_oldest(grown, keep, max);
        let k = choose|k: int|
            keep <= k < grown.len() && #[trigger] trim_from(grown, keep, max) == grown.take(
                keep as int,
            ) + grown.skip(k);
        let r = trim_from(grown, keep, max);
        assert(r.last() == grown.last());
        if ms.len() > 0 && ms[0].0 == Role::System {
            assert(grown[0] == ms[0]);
            assert(r[0] == grown[0]);
        }
    }
}

/// Law: rendering a conversation that grew by `later` messages yields the
/// rendering of the earlier conversation followed by the rendering of the
/// new messages; the history part of a prompt never changes as the
/// conversation goes on.
pub proof fn lemma_render_concat(earlier: Seq<(Role, Seq<char>)>, later: Seq<(Role, Seq<char>)>)
    ensures
        render_all(earlier + later) == render_all(earlier) + render_all(later),
    decreases later.len(),
{
    if later.len() == 0 {
        assert(earlier + later =~= earlier);
        assert(render_all(earlier) + render_all(later) =~= render_all(earlier));
    } else {
        lemma_render_concat(earlier, later.drop_last());
        assert((earlier + later).drop_last() =~= earlier + later.drop_last());
        assert((earlier + later).last() == later.last());
        assert(render_all(earlier + later) =~= render_all(earlier) + render_all(later));
    }
}

/// Law: the prompt of a conversation after one more message is the
/// rendering of the conversation before it, then that message, then the
/// invitation for the assistant.
pub proof fn lemma_prompt_after_message(ms: Seq<(Role, Seq<char>)>, m: (Role, Seq<char>))
    ensures
        prompt_of(ms.push(m)) == render_all(ms) + render_message(m) + "Assistant: "@,
{
    assert(ms.push(m).drop_last() =~= ms);
}

/// Law: trimming twice trims no more than trimming once; a conversation
/// that adding messages left is already trimmed, so its prompt is the
/// rendering of all its messages.
pub proof fn lemma_trim_idempotent(ms: Seq<(Role, Seq<char>)>, max: nat)
    ensures
        trim_context(trim_context(ms, max), max) == trim_context(ms, max),
{
    let keep = kept_head(ms);
    let r = trim_context(ms, max);
    lemma_trim_within_budget(ms, keep, max);
    if estimated_tokens(r) <= max {
    } else if ms.len() <= keep + 1 {
        assert(r == ms);
        if keep == 1 {
            assert(r[0] == ms[0]);
        }
    } else {
        lemma_trim_drops_oldest(ms, keep, max);
        let k = choose|k: int|
            keep <= k < ms.len() && #[trigger] trim_from(ms, keep, max) == ms.take(keep as int)
                + ms.skip(k);
        if keep == 1 {
            assert(r[0] == ms[0]);
        }
    }
}

/// Law: the prompt of a conversation stays within its budget: the
/// conversation it renders is within `max` tokens, unless only a leading
/// system message and the newest message remain; the newest message (the
/// user's last words) is always among those rendered, last, and a leading
/// system message stays first.
pub proof fn lemma_prompt_within_budget(ms: Seq<(Role, Seq<char>)>, max: nat)
    ensures
        estimated_tokens(trim_context(ms, max)) <= max || trim_context(ms, max).len()
            <= kept_head(ms) + 1,
        ms.len() > 0 ==> trim_context(ms, max).len() > 0 && trim_context(ms, max).last()
            == ms.last(),
        ms.len() > 0 && ms[0].0 == Role::System ==> trim_context(ms, max)[0] == ms[0],
{
    let keep = kept_head(ms);
    lemma_trim_within_budget(ms, keep, max);
    if ms.len() > keep {
        lemma_trim_drops_oldest(ms, keep, max);
        let k = choose|k: int|
            keep <= k < ms.len() && #[trigger] trim_from(ms, keep, max) == ms.take(keep as int)
                + ms.skip(k);
        let r = trim_from(ms, keep, max);
        assert(r.last() == ms.last());
        if keep == 1 {
            assert(r[0] == ms[0]);
        }
    }
}

} // verus!
