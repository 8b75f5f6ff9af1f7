//! The decisions of the interactive chat: what a typed line asks for,
//! whether an answer confirms, and how the saved sessions are listed.

use vstd::prelude::*;
use crate::text::{chars_of, trim, trimmed, string_of_range};

verus! {

/// What a line typed in the chat asks for.
pub enum ChatInput {
    /// Nothing was typed.
    Skip,
    /// `quit` or `exit`.
    Quit,
    /// `/save <name>`: save the conversation under `name` and leave.
    Save { name: String },
    /// `/save ` without a name.
    SaveUsage,
    /// A message for the assistant.
    Message { text: String },
}

/// The prefix of the save command.
pub const SAVE_PREFIX: &'static str = "/save ";

/// What the line `line` asks for, judged on the line without surrounding
/// white space.
pub open spec fn chat_input_of(line: Seq<char>, input: ChatInput) -> bool {
    let t = trim(line);
    if t.len() == 0 {
        input is Skip
    } else if t == "quit"@ || t == "exit"@ {
        input is Quit
    } else if t.len() >= SAVE_PREFIX@.len() && t.take(SAVE_PREFIX@.len() as int) == SAVE_PREFIX@ {
        let name = trim(t.skip(SAVE_PREFIX@.len() as int));
        if name.len() > 0 {
            input matches ChatInput::Save { name: n } && n@ == name
        } else {
            input is SaveUsage
        }
    } else {
        input matches ChatInput::Message { text } && text@ == t
    }
}

/// Reads a line typed in the chat.
pub fn classify_input(line: &str) -> (input: ChatInput)
    ensures
        chat_input_of(line@, input),
{
    let t = trimmed(line);
    let v = chars_of(t.as_str());
    if v.len() == 0 {
        return ChatInput::Skip;
    }
    let quit = String::from_str("quit");
    let exit = String::from_str("exit");
    if t == quit || t == exit {
        return ChatInput::Quit;
    }
    let prefix = chars_of(SAVE_PREFIX);
    if v.len() >= prefix.len() && crate::text::matches_at(&v, &prefix, 0) {
        assert(v@.take(prefix.len() as int) =~= v@.subrange(0, prefix.len() as int));
        let rest = string_of_range(&v, prefix.len(), v.len());
        assert(rest@ =~= v@.skip(prefix.len() as int));
        let name = trimmed(rest.as_str());
        if chars_of(name.as_str()).len() > 0 {
            return ChatInput::Save { name };
        } else {
            return ChatInput::SaveUsage;
        }
    }
    assert(!(v@.len() >= SAVE_PREFIX@.len() && v@.take(SAVE_PREFIX@.len() as int) == SAVE_PREFIX@)) by {
        if v@.len() >= SAVE_PREFIX@.len() {
            assert(v@.take(prefix.len() as int) =~= v@.subrange(0, prefix.len() as int));
        }
    }
    ChatInput::Message { text: t }
}

/// The lower-case form of a text, as `str::to_lowercase` gives it
/// (Unicode lower-case mapping).
pub uninterp spec fn lowercase(s: Seq<char>) -> Seq<char>;

/// Every character of `s` is ASCII.
pub open spec fn all_ascii(s: Seq<char>) -> bool {
    forall|i: int| 0 <= i < s.len() ==> (#[trigger] s[i] as u32) < 128
}

/// The lower-case form of an ASCII character: `A`-`Z` become `a`-`z`,
/// every other character stays.
pub open spec fn ascii_lower(c: char) -> char {
    if 65 <= (c as u32) && (c as u32) <= 90 {
        ((c as u32) + 32) as char
    } else {
        c
    }
}

/// `str::to_lowercase`. Its result is a function of the text alone, and
/// the contract names it; it also states the ASCII part: a text of ASCII
/// characters has each of its letters `A`-`Z` turned into `a`-`z` and
/// every other character kept. For other characters the Unicode case
/// tables decide, which the name leaves unsaid.
#[verifier::external_body]
fn to_lowercase(s: &str) -> (r: String)
    ensures
        r@ == lowercase(s@),
        all_ascii(s@) ==> r@ == s@.map_values(|c: char| ascii_lower(c)),
{
    s.to_lowercase()
}

/// Whether an answer to a yes/no question is yes: the answer without
/// surrounding white space, in lower case, is `y`.
pub fn confirms(answer: &str) -> (yes: bool)
    ensures
        yes == (lowercase(trim(answer@)) == "y"@),
        all_ascii(answer@) ==> (yes <==> (trim(answer@) == "y"@ || trim(answer@) == "Y"@)),
{
    let t = trimmed(answer);
    let low = to_lowercase(t.as_str());
    let y = String::from_str("y");
    proof {
        reveal_strlit("y");
        reveal_strlit("Y");
        if all_ascii(answer@) {
            lemma_trim_keeps_ascii(answer@);
            let tv = t@;
            assert(all_ascii(tv));
            assert(low@ == tv.map_values(|c: char| ascii_lower(c)));
            if tv == "y"@ || tv == "Y"@ {
                assert(low@ =~= "y"@);
            }
            if low@ == "y"@ {
                assert(tv.map_values(|c: char| ascii_lower(c)).len() == tv.len());
                assert("y"@.len() == 1);
                assert(tv.len() == 1);
                let c = tv[0];
                assert(low@[0] == ascii_lower(c));
                assert(ascii_lower(c) == 'y');
                if 65 <= (c as u32) && (c as u32) <= 90 {
                    assert(((c as u32) + 32) as char == 'y');
                    assert((c as u32) == 89);
                    assert(('Y' as u32) == 89);
                    vstd::utf8::char_u32_cast(c, c as u32);
                    vstd::utf8::char_u32_cast('Y', 'Y' as u32);
                    assert(c == 'Y');
                    assert(tv =~= "Y"@);
                } else {
                    assert(c == 'y');
                    assert(tv =~= "y"@);
                }
            }
        }
    }
    low == y
}

proof fn lemma_trim_start_keeps_ascii(s: Seq<char>)
    requires
        all_ascii(s),
    ensures
        all_ascii(crate::text::trim_start(s)),
    decreases s.len(),
{
    if s.len() > 0 && crate::text::is_white_space(s[0]) {
        assert forall|i: int| 0 <= i < s.drop_first().len() implies (#[trigger] s.drop_first()[i]
            as u32) < 128 by {
            assert(s.drop_first()[i] == s[i + 1]);
        }
        lemma_trim_start_keeps_ascii(s.drop_first());
    }
}

proof fn lemma_trim_end_keeps_ascii(s: Seq<char>)
    requires
        all_ascii(s),
    ensures
        all_ascii(crate::text::trim_end(s)),
    decreases s.len(),
{
    if s.len() > 0 && crate::text::is_white_space(s.last()) {
        assert forall|i: int| 0 <= i < s.drop_last().len() implies (#[trigger] s.drop_last()[i]
            as u32) < 128 by {
            assert(s.drop_last()[i] == s[i]);
        }
        lemma_trim_end_keeps_ascii(s.drop_last());
    }
}

/// Trimming an ASCII text leaves an ASCII text.
proof fn lemma_trim_keeps_ascii(s: Seq<char>)
    requires
        all_ascii(s),
    ensures
        all_ascii(trim(s)),
{
    lemma_trim_start_keeps_ascii(s);
    lemma_trim_end_keeps_ascii(crate::text::trim_start(s));
}

/// The text that lists saved sessions, one per line, with a hint on how
/// to load one; or a note that there is none.
pub open spec fn listing_of(names: Seq<Seq<char>>) -> Seq<char> {
    if names.len() == 0 {
        "No saved sessions found.\n"@
    } else {
        "Saved sessions:\n"@ + name_lines(names) + "\nLoad with: opie chat --load <name>\n"@
    }
}

/// Each name as a bulleted line.
pub open spec fn name_lines(names: Seq<Seq<char>>) -> Seq<char>
    decreases names.len(),
{
    if names.len() == 0 {
        seq![]
    } else {
        name_lines(names.drop_last()) + "  - "@ + names.last() + seq!['\n']
    }
}

/// The listing of the saved sessions `names`.
pub fn session_listing(names: &Vec<String>) -> (text: String)
    ensures
        text@ == listing_of(names@.map_values(|n: String| n@)),
{
    let ghost ns = names@.map_values(|n: String| n@);
    if names.len() == 0 {
        return String::from_str("No saved sessions found.\n");
    }
    let mut body = String::new();
    let mut i: usize = 0;
    assert(ns.take(0) =~= Seq::<Seq<char>>::empty());
    while i < names.len()
        invariant
            i <= names.len(),
            ns == names@.map_values(|n: String| n@),
            body@ == name_lines(ns.take(i as int)),
        decreases names.len() - i,
    {
        let ghost before = body@;
        body.append("  - ");
        body.append(names[i].as_str());
        crate::text::push_char(&mut body, '\n');
        assert(ns.take(i + 1).drop_last() =~= ns.take(i as int));
        assert(ns.take(i + 1).last() == names@[i as int]@);
        assert(body@ =~= before + "  - "@ + names@[i as int]@ + seq!['\n']);
        i += 1;
    }
    assert(ns.take(i as int) =~= ns);
    let mut text = String::from_str("Saved sessions:\n");
    text.append(body.as_str());
    text.append("\nLoad with: opie chat --load <name>\n");
    text
}

} // verus!
