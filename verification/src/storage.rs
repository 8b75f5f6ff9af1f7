//! Saved conversations: where each one is stored, how a name becomes a
//! file name, what a saved file records, and the list of saved names.

use vstd::prelude::*;
use vstd::relations::{sorted_by, total_ordering};
use crate::paths::{join, join_path};
use crate::session::{Message, Session};
use crate::text::{char_is_alphanumeric, chars_of, is_alphanumeric, push_char, rfind_char, rfind_char_in, string_of_range};

verus! {

/// `std::path::Path::exists`: whether the file system holds something at
/// `path`. It depends on the disk, so nothing is stated of the result.
#[verifier::external_body]
fn path_exists(path: &str) -> bool {
    std::path::Path::new(path).exists()
}

/// A character that may stand in a session's file name as it is: a letter
/// or digit, `-` or `_`.
pub open spec fn kept_in_file_name(c: char) -> bool {
    is_alphanumeric(c) || c == '-' || c == '_'
}

/// `name` with every character that may not stand in a file name replaced
/// by `_`.
pub open spec fn sanitized(name: Seq<char>) -> Seq<char> {
    name.map_values(|c: char| if kept_in_file_name(c) { c } else { '_' })
}

/// The file that holds the session saved under `name` in `dir`.
pub open spec fn session_file(dir: Seq<char>, name: Seq<char>) -> Seq<char> {
    join_path(dir, sanitized(name) + ".json"@)
}

/// The name under which a directory entry called `file` lists a saved
/// session: the part before the last `.`, when what follows it is `json`
/// and the part before it is not empty (how `Path::extension` and
/// `Path::file_stem` read a file name).
pub open spec fn json_stem(file: Seq<char>) -> Option<Seq<char>> {
    match rfind_char(file, '.') {
        Some(k) => if k > 0 && file.skip(k + 1 as int) == "json"@ {
            Some(file.take(k as int))
        } else {
            None
        },
        None => None,
    }
}

/// The session names that the entries `files` list, in their order.
pub open spec fn json_stems(files: Seq<Seq<char>>) -> Seq<Seq<char>>
    decreases files.len(),
{
    if files.len() == 0 {
        seq![]
    } else {
        json_stems(files.drop_last()) + match json_stem(files.last()) {
            Some(s) => seq![s],
            None => Seq::<Seq<char>>::empty(),
        }
    }
}

/// Lexicographic order of texts by character code (the order of `String`,
/// whose UTF-8 bytes compare as the characters do).
pub open spec fn lex_le(a: Seq<char>, b: Seq<char>) -> bool
    decreases a.len(),
{
    if a.len() == 0 {
        true
    } else if b.len() == 0 {
        false
    } else if a[0] != b[0] {
        a[0] < b[0]
    } else {
        lex_le(a.drop_first(), b.drop_first())
    }
}

/// The order used to sort session names.
pub open spec fn name_order() -> spec_fn(Seq<char>, Seq<char>) -> bool {
    |a: Seq<char>, b: Seq<char>| lex_le(a, b)
}

proof fn lemma_lex_reflexive(a: Seq<char>)
    ensures
        lex_le(a, a),
    decreases a.len(),
{
    if a.len() > 0 {
        lemma_lex_reflexive(a.drop_first());
    }
}

proof fn lemma_lex_antisymmetric(a: Seq<char>, b: Seq<char>)
    requires
        lex_le(a, b),
        lex_le(b, a),
    ensures
        a == b,
    decreases a.len(),
{
    if a.len() == 0 || b.len() == 0 {
        assert(a =~= b);
    } else if a[0] != b[0] {
    } else {
        let a1 = a.drop_first();
        let b1 = b.drop_first();
        assert(lex_le(a1, b1));
        assert(lex_le(b1, a1));
        lemma_lex_antisymmetric(a1, b1);
        assert(a1 == b1);
        assert(a.len() == b.len());
        assert forall|i: int| 0 <= i < a.len() implies a[i] == b[i] by {
            if i > 0 {
                assert(a[i] == a.drop_first()[i - 1]);
                assert(b[i] == b.drop_first()[i - 1]);
            }
        }
        assert(a =~= b);
    }
}

proof fn lemma_lex_transitive(a: Seq<char>, b: Seq<char>, c: Seq<char>)
    requires
        lex_le(a, b),
        lex_le(b, c),
    ensures
        lex_le(a, c),
    decreases a.len(),
{
    if a.len() == 0 {
    } else if b.len() == 0 {
    } else if c.len() == 0 {
    } else if a[0] != b[0] || b[0] != c[0] {
    } else {
        lemma_lex_transitive(a.drop_first(), b.drop_first(), c.drop_first());
    }
}

proof fn lemma_lex_total(a: Seq<char>, b: Seq<char>)
    ensures
        lex_le(a, b) || lex_le(b, a),
    decreases a.len(),
{
    if a.len() == 0 || b.len() == 0 {
    } else if a[0] != b[0] {
    } else {
        lemma_lex_total(a.drop_first(), b.drop_first());
    }
}

/// Law: the order of session names is a total order, so sorting by it is
/// well defined.
pub proof fn lemma_name_order_total()
    ensures
        total_ordering(name_order()),
{
    assert forall|a: Seq<char>| #[trigger] name_order()(a, a) by {
        lemma_lex_reflexive(a);
    }
    assert forall|a: Seq<char>, b: Seq<char>| #[trigger]
        name_order()(a, b) && #[trigger] name_order()(b, a) implies a == b by {
        lemma_lex_antisymmetric(a, b);
    }
    assert forall|a: Seq<char>, b: Seq<char>, c: Seq<char>| #[trigger]
        name_order()(a, b) && #[trigger] name_order()(b, c) implies name_order()(a, c) by {
        lemma_lex_transitive(a, b, c);
    }
    assert forall|a: Seq<char>, b: Seq<char>| #[trigger]
        name_order()(a, b) || #[trigger] name_order()(b, a) by {
        lemma_lex_total(a, b);
    }
}

/// Whether `a` comes no later than `b` in the order of names.
fn lex_le_exec(a: &str, b: &str) -> (r: bool)
    ensures
        r == lex_le(a@, b@),
{
    let x = chars_of(a);
    let y = chars_of(b);
    let mut i: usize = 0;
    assert(x@.skip(0) =~= x@);
    assert(y@.skip(0) =~= y@);
    while i < x.len() && i < y.len() && x[i] == y[i]
        invariant
            i <= x.len(),
            i <= y.len(),
            lex_le(x@, y@) == lex_le(x@.skip(i as int), y@.skip(i as int)),
        decreases x.len() - i,
    {
        assert(x@.skip(i as int).drop_first() =~= x@.skip(i + 1));
        assert(y@.skip(i as int).drop_first() =~= y@.skip(i + 1));
        i += 1;
    }
    if i == x.len() {
        true
    } else if i == y.len() {
        false
    } else {
        assert(x@.skip(i as int)[0] == x@[i as int]);
        assert(y@.skip(i as int)[0] == y@[i as int]);
        x[i] < y[i]
    }
}

/// What a saved session file records.
pub struct SavedSession {
    /// Format version; 1.
    pub version: u8,
    pub messages: Vec<Message>,
    /// When the file was first written (RFC 3339).
    pub created_at: String,
    /// When the file was last written (RFC 3339).
    pub updated_at: String,
}

impl SavedSession {
    /// The conversation that the file records.
    pub fn into_session(self) -> (s: Session)
        ensures
            s.messages@ == self.messages@,
            s.max_context == crate::session::DEFAULT_MAX_CONTEXT,
    {
        Session::from_messages(self.messages)
    }
}

/// Where saved conversations live: one JSON file per name in a directory.
pub struct SessionStorage {
    sessions_dir: String,
}

impl View for SessionStorage {
    type V = Seq<char>;

    /// The directory of the saved sessions.
    closed spec fn view(&self) -> Seq<char> {
        self.sessions_dir@
    }
}

impl SessionStorage {
    /// The storage of a user whose home directory is `home`:
    /// `<home>/.opie/sessions`.
    pub fn new(home: &str) -> (s: SessionStorage)
        ensures
            s@ == join_path(join_path(home@, ".opie"@), "sessions"@),
    {
        let opie = join(home, ".opie");
        SessionStorage { sessions_dir: join(opie.as_str(), "sessions") }
    }

    /// The directory of the saved sessions.
    pub fn sessions_dir(&self) -> (d: &String)
        ensures
            d@ == self@,
    {
        &self.sessions_dir
    }

    /// A file name made of `name`: every character other than a letter, a
    /// digit, `-` or `_` becomes `_`.
    pub fn sanitize_filename(name: &str) -> (r: String)
        ensures
            r@ == sanitized(name@),
    {
        let mut r = String::new();
        let mut i: usize = 0;
        let v = chars_of(name);
        while i < v.len()
            invariant
                i <= v.len(),
                v@ == name@,
                r@ == sanitized(name@).take(i as int),
            decreases v.len() - i,
        {
            let c = v[i];
            let keep = char_is_alphanumeric(c) || c == '-' || c == '_';
            push_char(&mut r, if keep { c } else { '_' });
            assert(r@ =~= sanitized(name@).take(i + 1));
            i += 1;
        }
        assert(sanitized(name@).take(i as int) =~= sanitized(name@));
        r
    }

    /// The file of the session saved under `name`:
    /// `<dir>/<sanitized name>.json`.
    pub fn session_path(&self, name: &str) -> (p: String)
        ensures
            p@ == session_file(self@, name@),
    {
        let mut file = Self::sanitize_filename(name);
        file.append(".json");
        join(self.sessions_dir.as_str(), file.as_str())
    }

    /// Whether a session is saved under `name`: whether its file exists.
    pub fn session_exists(&self, name: &str) -> bool {
        let path = self.session_path(name);
        path_exists(path.as_str())
    }

    /// What saving `session` at the time `now` (an RFC 3339 timestamp,
    /// read from the clock by the caller) records: format version 1, a copy
    /// of its messages, and `now` as both creation and update time.
    pub fn snapshot(&self, session: &Session, now: String) -> (saved: SavedSession)
        ensures
            saved.version == 1,
            saved.messages@.map_values(|m: Message| m@) == session@,
            saved.created_at@ == now@,
            saved.updated_at@ == now@,
    {
        SavedSession {
            version: 1,
            messages: session.messages_copy(),
            created_at: now.clone(),
            updated_at: now,
        }
    }

    /// The name that a directory entry lists, if it is a saved session.
    pub fn session_name_of(file: &str) -> (r: Option<String>)
        ensures
            match json_stem(file@) {
                Some(s) => r matches Some(n) && n@ == s,
                None => r is None,
            },
    {
        let v = chars_of(file);
        match rfind_char_in(&v, '.') {
            Some(k) => {
                if k == 0 {
                    return None;
                }
                let ext = string_of_range(&v, k + 1, v.len());
                let json = String::from_str("json");
                assert(file@.skip(k + 1) =~= v@.subrange(k + 1, v.len() as int));
                if ext == json {
                    assert(file@.take(k as int) =~= v@.subrange(0, k as int));
                    Some(string_of_range(&v, 0, k))
                } else {
                    None
                }
            },
            None => None,
        }
    }

    /// The names of the saved sessions among the directory entries
    /// `file_names`, sorted.
    pub fn session_names(file_names: &Vec<String>) -> (names: Vec<String>)
        ensures
            names@.map_values(|n: String| n@) == json_stems(
                file_names@.map_values(|f: String| f@),
            ).sort_by(name_order()),
    {
        let ghost files = file_names@.map_values(|f: String| f@);
        let mut names: Vec<String> = Vec::new();
        let mut i: usize = 0;
        assert(files.take(0) =~= Seq::<Seq<char>>::empty());
        assert(names@.map_values(|n: String| n@) =~= json_stems(files.take(0)));
        proof {
            lemma_name_order_total();
        }
        while i < file_names.len()
            invariant
                i <= file_names.len(),
                files == file_names@.map_values(|f: String| f@),
                total_ordering(name_order()),
                sorted_by(names@.map_values(|n: String| n@), name_order()),
                names@.map_values(|n: String| n@).to_multiset() == json_stems(
                    files.take(i as int),
                ).to_multiset(),
            decreases file_names.len() - i,
        {
            assert(files.take(i + 1).drop_last() =~= files.take(i as int));
            assert(files.take(i + 1).last() == file_names@[i as int]@);
            match Self::session_name_of(file_names[i].as_str()) {
                Some(n) => {
                    let ghost before = names@.map_values(|x: String| x@);
                    let ghost nv = n@;
                    let p = Self::insertion_point(&names, n.as_str());
                    names.insert(p, n);
                    proof {
                        assert(names@.map_values(|x: String| x@) =~= before.insert(p as int, nv));
                        lemma_insert_keeps_sorted(before, p as int, nv);
                        assert(json_stems(files.take(i + 1)) =~= json_stems(files.take(i as int)).push(nv));
                        vstd::seq_lib::to_multiset_build(json_stems(files.take(i as int)), nv);
                    }
                },
                None => {
                    assert(json_stems(files.take(i + 1)) =~= json_stems(files.take(i as int)));
                },
            }
            i += 1;
        }
        proof {
            assert(files.take(i as int) =~= files);
            let stems = json_stems(files);
            stems.lemma_sort_by_ensures(name_order());
            vstd::seq_lib::lemma_sorted_unique(
                names@.map_values(|n: String| n@),
                stems.sort_by(name_order()),
                name_order(),
            );
        }
        names
    }

    /// The position at which `n` goes into the sorted `names`: the first
    /// name that `n` comes no later than, or the end.
    fn insertion_point(names: &Vec<String>, n: &str) -> (p: usize)
        ensures
            p <= names.len(),
            forall|j: int| 0 <= j < p ==> !lex_le(n@, #[trigger] names@[j]@),
            p < names.len() ==> lex_le(n@, names@[p as int]@),
    {
        let mut p: usize = 0;
        while p < names.len()
            invariant
                p <= names.len(),
                forall|j: int| 0 <= j < p ==> !lex_le(n@, #[trigger] names@[j]@),
            decreases names.len() - p,
        {
            if lex_le_exec(n, names[p].as_str()) {
                return p;
            }
            p += 1;
        }
        p
    }
}

/// Inserting `nv` at `p`, after the names it comes later than and before
/// the first it comes no later than, keeps a sorted list sorted and adds
/// `nv` to its names.
proof fn lemma_insert_keeps_sorted(before: Seq<Seq<char>>, p: int, nv: Seq<char>)
    requires
        total_ordering(name_order()),
        sorted_by(before, name_order()),
        0 <= p <= before.len(),
        forall|j: int| 0 <= j < p ==> !lex_le(nv, #[trigger] before[j]),
        p < before.len() ==> lex_le(nv, before[p]),
    ensures
        sorted_by(before.insert(p, nv), name_order()),
        before.insert(p, nv).to_multiset() == before.to_multiset().insert(nv),
{
    let after = before.insert(p, nv);
    before.insert_ensures(p, nv);
    vstd::seq_lib::to_multiset_insert(before, p, nv);
    assert forall|a: int, b: int| 0 <= a < b < after.len() implies #[trigger] name_order()(
        after[a],
        after[b],
    ) by {
        if b < p {
            assert(after[a] == before[a] && after[b] == before[b]);
        } else if a > p {
            assert(after[a] == before[a - 1] && after[b] == before[b - 1]);
        } else if a == p {
            assert(after[b] == before[b - 1]);
            assert(name_order()(nv, before[p]));
            if b - 1 > p {
                assert(name_order()(before[p], before[b - 1]));
            }
        } else {
            assert(after[a] == before[a]);
            assert(!name_order()(nv, before[a]));
            assert(name_order()(before[a], nv));
            if b > p {
                assert(after[b] == before[b - 1]);
                assert(name_order()(nv, before[p]));
                if b - 1 > p {
                    assert(name_order()(before[p], before[b - 1]));
                }
            }
        }
    }
}

/// Law: sanitizing a name twice gives what sanitizing it once gave, so a
/// sanitized name is its own file name.
pub proof fn lemma_sanitize_idempotent(name: Seq<char>)
    ensures
        sanitized(sanitized(name)) == sanitized(name),
{
    assert(sanitized(sanitized(name)) =~= sanitized(name));
}

/// Law: a sanitized name has as many characters as the name, and each of
/// them may stand in a file name.
pub proof fn lemma_sanitized_shape(name: Seq<char>)
    ensures
        sanitized(name).len() == name.len(),
        forall|i: int| 0 <= i < name.len() ==> kept_in_file_name(#[trigger] sanitized(name)[i]),
{
}

/// Law: a name and its sanitized form name the same saved file, so saving,
/// loading, finding and deleting under either reach the same session.
pub proof fn lemma_same_file_after_sanitizing(dir: Seq<char>, name: Seq<char>)
    ensures
        session_file(dir, sanitized(name)) == session_file(dir, name),
{
    lemma_sanitize_idempotent(name);
}

} // verus!
