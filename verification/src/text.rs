//! Character-level text operations used across the crate: character
//! classes, trimming, searching, counting and replacing, line splitting
//! and decimal rendering. Everything works on the `char` sequence of a
//! string, which is its view.

use vstd::prelude::*;

verus! {

// ---------------------------------------------------------------------
// Character classes of the standard library
// ---------------------------------------------------------------------

/// Whether `c` has the Unicode `White_Space` property, which
/// `char::is_whitespace` decides: tab, line feed, vertical tab, form feed
/// and carriage return (U+0009 to U+000D), space, U+0085, U+00A0, U+1680,
/// U+2000 to U+200A, U+2028, U+2029, U+202F, U+205F and U+3000.
pub open spec fn is_white_space(c: char) -> bool {
    let u = c as u32;
    ||| 0x09 <= u <= 0x0D
    ||| u == 0x20
    ||| u == 0x85
    ||| u == 0xA0
    ||| u == 0x1680
    ||| 0x2000 <= u <= 0x200A
    ||| u == 0x2028
    ||| u == 0x2029
    ||| u == 0x202F
    ||| u == 0x205F
    ||| u == 0x3000
}

/// Whether `c` is alphabetic or numeric in the Unicode sense (what
/// `char::is_alphanumeric` decides).
pub uninterp spec fn is_alphanumeric(c: char) -> bool;

/// Whether `c` is white space, as `char::is_whitespace` decides it.
pub(crate) fn char_is_whitespace(c: char) -> (res: bool)
    ensures
        res == is_white_space(c),
{
    let u: u32 = c as u32;
    (0x09 <= u && u <= 0x0D) || u == 0x20 || u == 0x85 || u == 0xA0 || u == 0x1680 || (0x2000
        <= u && u <= 0x200A) || u == 0x2028 || u == 0x2029 || u == 0x202F || u == 0x205F || u
        == 0x3000
}

/// `char::is_alphanumeric`. The contract names the result and states the
/// ASCII part: among ASCII characters exactly the letters `a`-`z`,
/// `A`-`Z` and the digits `0`-`9` are alphanumeric. For other characters
/// the Unicode tables decide, which the name leaves unsaid.
#[verifier::external_body]
pub(crate) fn char_is_alphanumeric(c: char) -> (res: bool)
    ensures
        res == is_alphanumeric(c),
        (c as u32) < 128 ==> (res <==> (
            (97 <= (c as u32) && (c as u32) <= 122)
            || (65 <= (c as u32) && (c as u32) <= 90)
            || (48 <= (c as u32) && (c as u32) <= 57))),
{
    c.is_alphanumeric()
}

/// `String::push`: appends one character.
#[verifier::external_body]
pub(crate) fn push_char(s: &mut String, c: char)
    ensures
        final(s)@ == old(s)@.push(c),
{
    s.push(c);
}

// ---------------------------------------------------------------------
// Conversions between strings and character vectors
// ---------------------------------------------------------------------

/// The characters of a string, in order.
pub fn chars_of(s: &str) -> (v: Vec<char>)
    ensures
        v@ == s@,
{
    let mut v: Vec<char> = Vec::new();
    for c in it: s.chars()
        invariant
            v@ == it.seq().take(it.index() as int),
            it.seq() == s@,
    {
        v.push(c);
    }
    v
}

/// Appends `v[lo..hi]` to `s`.
pub fn push_range(s: &mut String, v: &Vec<char>, lo: usize, hi: usize)
    requires
        lo <= hi <= v.len(),
    ensures
        final(s)@ == old(s)@ + v@.subrange(lo as int, hi as int),
{
    let mut i = lo;
    while i < hi
        invariant
            lo <= i <= hi <= v.len(),
            s@ == old(s)@ + v@.subrange(lo as int, i as int),
        decreases hi - i,
    {
        push_char(s, v[i]);
        assert(v@.subrange(lo as int, i + 1) =~= v@.subrange(lo as int, i as int).push(v@[i as int]));
        i += 1;
    }
}

/// The string made of `v[lo..hi]`.
pub fn string_of_range(v: &Vec<char>, lo: usize, hi: usize) -> (s: String)
    requires
        lo <= hi <= v.len(),
    ensures
        s@ == v@.subrange(lo as int, hi as int),
{
    let mut s = String::new();
    push_range(&mut s, v, lo, hi);
    assert(Seq::<char>::empty() + v@.subrange(lo as int, hi as int) =~= v@.subrange(lo as int, hi as int));
    s
}

// ---------------------------------------------------------------------
// Trimming
// ---------------------------------------------------------------------

/// `s` without its leading white space.
pub open spec fn trim_start(s: Seq<char>) -> Seq<char>
    decreases s.len(),
{
    if s.len() > 0 && is_white_space(s[0]) {
        trim_start(s.drop_first())
    } else {
        s
    }
}

/// `s` without its trailing white space.
pub open spec fn trim_end(s: Seq<char>) -> Seq<char>
    decreases s.len(),
{
    if s.len() > 0 && is_white_space(s.last()) {
        trim_end(s.drop_last())
    } else {
        s
    }
}

/// `s` without leading and trailing white space (what `str::trim` gives).
pub open spec fn trim(s: Seq<char>) -> Seq<char> {
    trim_end(trim_start(s))
}

/// Index of the first character of `v` at or after `lo` that is not white
/// space, or `v.len()`.
fn skip_white_forward(v: &Vec<char>, lo: usize) -> (i: usize)
    requires
        lo <= v.len(),
    ensures
        lo <= i <= v.len(),
        trim_start(v@.subrange(lo as int, v.len() as int)) == v@.subrange(i as int, v.len() as int),
{
    let mut i = lo;
    while i < v.len() && char_is_whitespace(v[i])
        invariant
            lo <= i <= v.len(),
            trim_start(v@.subrange(lo as int, v.len() as int)) == trim_start(
                v@.subrange(i as int, v.len() as int),
            ),
        decreases v.len() - i,
    {
        assert(v@.subrange(i as int, v.len() as int).drop_first() =~= v@.subrange(
            i + 1,
            v.len() as int,
        ));
        i += 1;
    }
    i
}

/// Index just past the last character of `v[lo..hi]` that is not white
/// space, or `lo`.
fn skip_white_backward(v: &Vec<char>, lo: usize, hi: usize) -> (j: usize)
    requires
        lo <= hi <= v.len(),
    ensures
        lo <= j <= hi,
        trim_end(v@.subrange(lo as int, hi as int)) == v@.subrange(lo as int, j as int),
{
    let mut j = hi;
    while j > lo && char_is_whitespace(v[j - 1])
        invariant
            lo <= j <= hi <= v.len(),
            trim_end(v@.subrange(lo as int, hi as int)) == trim_end(
                v@.subrange(lo as int, j as int),
            ),
        decreases j - lo,
    {
        assert(v@.subrange(lo as int, j as int).drop_last() =~= v@.subrange(
            lo as int,
            j - 1,
        ));
        j -= 1;
    }
    j
}

/// `str::trim`, as an owned string.
pub fn trimmed(s: &str) -> (r: String)
    ensures
        r@ == trim(s@),
{
    let v = chars_of(s);
    let i = skip_white_forward(&v, 0);
    let j = skip_white_backward(&v, i, v.len());
    assert(v@.subrange(0, v.len() as int) =~= v@);
    string_of_range(&v, i, j)
}

// ---------------------------------------------------------------------
// Decimal rendering
// ---------------------------------------------------------------------

/// The digit character for `d` in `0..10`.
pub open spec fn digit(d: int) -> char {
    seq!['0', '1', '2', '3', '4', '5', '6', '7', '8', '9'][d]
}

/// The decimal notation of `n`, without leading zeros.
pub open spec fn decimal(n: nat) -> Seq<char>
    decreases n,
{
    if n < 10 {
        seq![digit(n as int)]
    } else {
        decimal(n / 10).push(digit((n % 10) as int))
    }
}

/// The decimal notation of a signed number, with a leading `-` when it is
/// negative (what `Display` gives for integers).
pub open spec fn signed_decimal(n: int) -> Seq<char> {
    if n < 0 {
        seq!['-'] + decimal((-n) as nat)
    } else {
        decimal(n as nat)
    }
}

/// `s` right-aligned in a field of `width` characters, padded with spaces
/// on the left (what `{:width}` does for numbers).
pub open spec fn pad_left(s: Seq<char>, width: nat) -> Seq<char> {
    if s.len() < width {
        Seq::new((width - s.len()) as nat, |i: int| ' ') + s
    } else {
        s
    }
}

fn digit_char(d: u64) -> (c: char)
    requires
        d < 10,
    ensures
        c == digit(d as int),
{
    if d == 0 {
        '0'
    } else if d == 1 {
        '1'
    } else if d == 2 {
        '2'
    } else if d == 3 {
        '3'
    } else if d == 4 {
        '4'
    } else if d == 5 {
        '5'
    } else if d == 6 {
        '6'
    } else if d == 7 {
        '7'
    } else if d == 8 {
        '8'
    } else {
        '9'
    }
}

/// Appends the decimal notation of `n` to `s`.
pub fn push_decimal(s: &mut String, n: u64)
    ensures
        final(s)@ == old(s)@ + decimal(n as nat),
    decreases n,
{
    if n >= 10 {
        push_decimal(s, n / 10);
        let ghost mid = s@;
        push_char(s, digit_char(n % 10));
        assert(old(s)@ + decimal(n as nat) =~= mid.push(digit((n % 10) as int)));
    } else {
        push_char(s, digit_char(n));
        assert(old(s)@ + decimal(n as nat) =~= old(s)@.push(digit(n as int)));
    }
}

/// Appends the decimal notation of a signed number to `s`.
pub fn push_signed_decimal(s: &mut String, n: i32)
    ensures
        final(s)@ == old(s)@ + signed_decimal(n as int),
{
    if n < 0 {
        push_char(s, '-');
        let ghost mid = s@;
        let m: i64 = n as i64;
        let magnitude: u64 = (0 - m) as u64;
        push_decimal(s, magnitude);
        assert(old(s)@ + signed_decimal(n as int) =~= mid + decimal(magnitude as nat));
    } else {
        push_decimal(s, n as u64);
    }
}

/// The decimal notation of `n`.
pub fn decimal_string(n: u64) -> (r: String)
    ensures
        r@ == decimal(n as nat),
{
    let mut r = String::new();
    push_decimal(&mut r, n);
    assert(Seq::<char>::empty() + decimal(n as nat) =~= decimal(n as nat));
    r
}

/// Appends `n` right-aligned in a field of `width` characters.
pub fn push_padded_decimal(s: &mut String, n: u64, width: usize)
    ensures
        final(s)@ == old(s)@ + pad_left(decimal(n as nat), width as nat),
{
    let digits = decimal_string(n);
    let len = digits.as_str().unicode_len();
    let ghost start = s@;
    if len < width {
        let pad = width - len;
        let mut k: usize = 0;
        while k < pad
            invariant
                k <= pad,
                s@ == start + Seq::new(k as nat, |i: int| ' '),
            decreases pad - k,
        {
            push_char(s, ' ');
            assert(start + Seq::new((k + 1) as nat, |i: int| ' ') =~= (start + Seq::new(
                k as nat,
                |i: int| ' ',
            )).push(' '));
            k += 1;
        }
    }
    s.append(digits.as_str());
    assert(s@ =~= start + pad_left(decimal(n as nat), width as nat)) by {
        if len < width {
            assert(s@ =~= start + (Seq::new((width - len) as nat, |i: int| ' ') + decimal(n as nat)));
        }
    }
}


// ---------------------------------------------------------------------
// Searching, counting and replacing
// ---------------------------------------------------------------------

/// Index of the first occurrence of `p` in `h`, if any (what `str::find`
/// gives, counted in characters). The empty pattern occurs at 0.
pub open spec fn find(h: Seq<char>, p: Seq<char>) -> Option<nat>
    decreases h.len(),
{
    if h.len() < p.len() {
        None
    } else if h.take(p.len() as int) == p {
        Some(0)
    } else if h.len() == 0 {
        None
    } else {
        match find(h.drop_first(), p) {
            Some(i) => Some(i + 1),
            None => None,
        }
    }
}

/// Index of the last occurrence of the character `c` in `h`, if any (what
/// `str::rfind` gives for a character pattern).
pub open spec fn rfind_char(h: Seq<char>, c: char) -> Option<nat>
    decreases h.len(),
{
    if h.len() == 0 {
        None
    } else if h.last() == c {
        Some((h.len() - 1) as nat)
    } else {
        rfind_char(h.drop_last(), c)
    }
}

/// Number of non-overlapping occurrences of `p` in `h`, taken from left to
/// right (what `str::matches(..).count()` gives). The empty pattern matches
/// at every character boundary.
pub open spec fn count_matches(h: Seq<char>, p: Seq<char>) -> nat
    decreases h.len(),
{
    if p.len() == 0 {
        h.len() + 1
    } else if h.len() < p.len() {
        0
    } else if h.take(p.len() as int) == p {
        1 + count_matches(h.skip(p.len() as int), p)
    } else {
        count_matches(h.drop_first(), p)
    }
}

/// `h` with every non-overlapping occurrence of `p`, taken from left to
/// right, replaced by `r` (what `str::replace` gives). The empty pattern
/// puts `r` before every character and at the end.
pub open spec fn replace_all(h: Seq<char>, p: Seq<char>, r: Seq<char>) -> Seq<char>
    decreases h.len(),
{
    if p.len() == 0 {
        if h.len() == 0 {
            r
        } else {
            r + seq![h[0]] + replace_all(h.drop_first(), p, r)
        }
    } else if h.len() < p.len() {
        h
    } else if h.take(p.len() as int) == p {
        r + replace_all(h.skip(p.len() as int), p, r)
    } else {
        seq![h[0]] + replace_all(h.drop_first(), p, r)
    }
}

/// `h` with its first occurrence of `p` replaced by `r` (what
/// `str::replacen(p, r, 1)` gives).
pub open spec fn replace_first(h: Seq<char>, p: Seq<char>, r: Seq<char>) -> Seq<char> {
    match find(h, p) {
        Some(i) => h.take(i as int) + r + h.skip(i + p.len() as int),
        None => h,
    }
}

/// Whether `p` occurs in `h` at index `i`.
pub fn matches_at(h: &Vec<char>, p: &Vec<char>, i: usize) -> (b: bool)
    requires
        i + p.len() <= h.len(),
    ensures
        b == (h@.subrange(i as int, i + p.len()) == p@),
{
    let mut k: usize = 0;
    while k < p.len()
        invariant
            k <= p.len(),
            i + p.len() <= h.len(),
            forall|j: int| 0 <= j < k ==> h@[i + j] == p@[j],
        decreases p.len() - k,
    {
        if h[i + k] != p[k] {
            assert(h@.subrange(i as int, i + p.len())[k as int] != p@[k as int]);
            return false;
        }
        k += 1;
    }
    assert(h@.subrange(i as int, i + p.len()) =~= p@);
    true
}

proof fn lemma_skip_take(h: Seq<char>, i: int, n: int)
    requires
        0 <= i,
        0 <= n,
        i + n <= h.len(),
    ensures
        h.skip(i).take(n) == h.subrange(i, i + n),
        h.skip(i).skip(n) == h.skip(i + n),
        i < h.len() ==> h.skip(i).drop_first() == h.skip(i + 1),
{
    assert(h.skip(i).take(n) =~= h.subrange(i, i + n));
    assert(h.skip(i).skip(n) =~= h.skip(i + n));
    if i < h.len() {
        assert(h.skip(i).drop_first() =~= h.skip(i + 1));
    }
}

/// Index of the first occurrence of `p` in `h`, if any.
pub fn find_in(h: &Vec<char>, p: &Vec<char>) -> (r: Option<usize>)
    ensures
        match r {
            Some(i) => find(h@, p@) == Some(i as nat),
            None => find(h@, p@) is None,
        },
{
    if p.len() > h.len() {
        return None;
    }
    if p.len() == 0 {
        assert(h@.take(0) =~= p@);
        return Some(0);
    }
    let mut i: usize = 0;
    assert(h@.skip(0) =~= h@);
    while i <= h.len() - p.len()
        invariant
            0 < p.len() <= h.len(),
            i <= h.len() - p.len() + 1,
            find(h@, p@) == match find(h@.skip(i as int), p@) {
                Some(k) => Some((k + i) as nat),
                None => None::<nat>,
            },
        decreases h.len() - i,
    {
        proof {
            lemma_skip_take(h@, i as int, p.len() as int);
        }
        if matches_at(h, p, i) {
            return Some(i);
        }
        i += 1;
    }
    None
}

/// Index of the last occurrence of `c` in `h`, if any.
pub fn rfind_char_in(h: &Vec<char>, c: char) -> (r: Option<usize>)
    ensures
        match r {
            Some(i) => rfind_char(h@, c) == Some(i as nat),
            None => rfind_char(h@, c) is None,
        },
        r matches Some(i) ==> i < h.len() && h@[i as int] == c,
{
    let mut j: usize = h.len();
    assert(h@.take(h.len() as int) =~= h@);
    while j > 0
        invariant
            j <= h.len(),
            rfind_char(h@, c) == rfind_char(h@.take(j as int), c),
        decreases j,
    {
        if h[j - 1] == c {
            return Some(j - 1);
        }
        assert(h@.take(j as int).drop_last() =~= h@.take(j - 1));
        j -= 1;
    }
    None
}

/// Number of non-overlapping occurrences of `p` in `h`.
pub fn count_in(h: &Vec<char>, p: &Vec<char>) -> (n: usize)
    requires
        h.len() < usize::MAX,
    ensures
        n == count_matches(h@, p@),
{
    if p.len() == 0 {
        return h.len() + 1;
    }
    if p.len() > h.len() {
        return 0;
    }
    let mut i: usize = 0;
    let mut n: usize = 0;
    assert(h@.skip(0) =~= h@);
    while i <= h.len() - p.len()
        invariant
            0 < p.len() <= h.len(),
            i <= h.len(),
            n <= i,
            count_matches(h@, p@) == n + count_matches(h@.skip(i as int), p@),
        decreases h.len() - i,
    {
        proof {
            lemma_skip_take(h@, i as int, p.len() as int);
        }
        if matches_at(h, p, i) {
            n += 1;
            i += p.len();
        } else {
            i += 1;
        }
    }
    n
}

/// `h` with every non-overlapping occurrence of `p` replaced by `r`.
pub fn replace_all_in(h: &Vec<char>, p: &Vec<char>, r: &str) -> (out: String)
    ensures
        out@ == replace_all(h@, p@, r@),
{
    let mut out = String::new();
    let mut i: usize = 0;
    assert(h@.skip(0) =~= h@);
    if p.len() == 0 {
        while i < h.len()
            invariant
                p.len() == 0,
                i <= h.len(),
                replace_all(h@, p@, r@) == out@ + replace_all(h@.skip(i as int), p@, r@),
            decreases h.len() - i,
        {
            proof {
                lemma_skip_take(h@, i as int, 0);
                assert(h@.skip(i as int)[0] == h@[i as int]);
            }
            let ghost before = out@;
            out.append(r);
            push_char(&mut out, h[i]);
            assert(out@ =~= before + (r@ + seq![h@[i as int]]));
            i += 1;
        }
        out.append(r);
        return out;
    }
    if p.len() > h.len() {
        push_range(&mut out, h, 0, h.len());
        assert(Seq::<char>::empty() + h@.subrange(0, h.len() as int) =~= h@);
        return out;
    }
    while i <= h.len() - p.len()
        invariant
            0 < p.len() <= h.len(),
            i <= h.len(),
            replace_all(h@, p@, r@) == out@ + replace_all(h@.skip(i as int), p@, r@),
        decreases h.len() - i,
    {
        proof {
            lemma_skip_take(h@, i as int, p.len() as int);
            assert(h@.skip(i as int)[0] == h@[i as int]);
        }
        let ghost before = out@;
        if matches_at(h, p, i) {
            out.append(r);
            i += p.len();
        } else {
            push_char(&mut out, h[i]);
            assert(out@ =~= before + seq![h@[i as int]]);
            i += 1;
        }
    }
    let ghost before = out@;
    push_range(&mut out, h, i, h.len());
    assert(h@.skip(i as int) =~= h@.subrange(i as int, h.len() as int));
    out
}

/// `h` with its first occurrence of `p` replaced by `r`.
pub fn replace_first_in(h: &Vec<char>, p: &Vec<char>, r: &str) -> (out: String)
    ensures
        out@ == replace_first(h@, p@, r@),
{
    match find_in(h, p) {
        Some(i) => {
            proof {
                find_bounds(h@, p@);
            }
            let mut out = string_of_range(h, 0, i);
            out.append(r);
            push_range(&mut out, h, i + p.len(), h.len());
            assert(h@.take(i as int) =~= h@.subrange(0, i as int));
            assert(h@.skip(i + p.len()) =~= h@.subrange(i + p.len(), h.len() as int));
            out
        },
        None => {
            let out = string_of_range(h, 0, h.len());
            assert(h@.subrange(0, h.len() as int) =~= h@);
            out
        },
    }
}

/// An occurrence that `find` reports lies within the text and is one.
pub proof fn find_bounds(h: Seq<char>, p: Seq<char>)
    ensures
        find(h, p) matches Some(i) ==> i + p.len() <= h.len() && h.subrange(i as int, i + p.len() as int)
            == p,
    decreases h.len(),
{
    if h.len() < p.len() {
    } else if h.take(p.len() as int) == p {
        assert(h.subrange(0, p.len() as int) =~= h.take(p.len() as int));
    } else if h.len() == 0 {
    } else {
        find_bounds(h.drop_first(), p);
        if find(h.drop_first(), p) is Some {
            let i = find(h.drop_first(), p)->0;
            assert(h.drop_first().subrange(i as int, i + p.len() as int) =~= h.subrange(
                i + 1 as int,
                i + 1 + p.len() as int,
            ));
        }
    }
}


// ---------------------------------------------------------------------
// Lines
// ---------------------------------------------------------------------

/// Number of characters of `s` before its first line feed (all of them
/// when there is none).
pub open spec fn line_end(s: Seq<char>) -> nat
    decreases s.len(),
{
    if s.len() == 0 || s[0] == '\n' {
        0
    } else {
        1 + line_end(s.drop_first())
    }
}

/// `l` without one trailing carriage return.
pub open spec fn strip_cr(l: Seq<char>) -> Seq<char> {
    if l.len() > 0 && l.last() == '\r' {
        l.drop_last()
    } else {
        l
    }
}

/// The lines of `s` (what `str::lines` gives): the text is cut after every
/// line feed; each piece that ended in a line feed loses it and then one
/// carriage return before it; a final piece without a line feed is kept
/// as it is; an empty text, or an empty piece after the last line feed,
/// gives no line.
pub open spec fn lines(s: Seq<char>) -> Seq<Seq<char>>
    decreases s.len(),
{
    if s.len() == 0 {
        seq![]
    } else {
        let k = line_end(s);
        if k >= s.len() {
            seq![s]
        } else {
            seq![strip_cr(s.take(k as int))] + lines(s.skip(k + 1 as int))
        }
    }
}

/// The lines of a text (what `str::lines` gives), as owned strings.
pub fn split_lines(s: &str) -> (res: Vec<String>)
    ensures
        res.len() == lines(s@).len(),
        forall|i: int| 0 <= i < res.len() ==> #[trigger] res[i]@ == lines(s@)[i],
{
    let v = chars_of(s);
    let mut res: Vec<String> = Vec::new();
    let mut pos: usize = 0;
    let ghost mut done: Seq<Seq<char>> = seq![];
    assert(v@.skip(0) =~= v@);
    assert(done + lines(v@.skip(0)) =~= lines(v@));
    while pos < v.len()
        invariant
            pos <= v.len(),
            v@ == s@,
            lines(v@) == done + lines(v@.skip(pos as int)),
            res.len() == done.len(),
            forall|i: int| 0 <= i < res.len() ==> #[trigger] res[i]@ == done[i],
        decreases v.len() - pos,
    {
        let mut j = pos;
        assert(v@.skip(pos as int).len() > 0);
        while j < v.len() && v[j] != '\n'
            invariant
                pos <= j <= v.len(),
                line_end(v@.skip(pos as int)) == (j - pos) + line_end(v@.skip(j as int)),
            decreases v.len() - j,
        {
            assert(v@.skip(j as int).drop_first() =~= v@.skip(j + 1));
            j += 1;
        }
        let ghost rest = v@.skip(pos as int);
        assert(line_end(v@.skip(j as int)) == 0);
        assert(line_end(rest) == j - pos);
        if j == v.len() {
            let line = string_of_range(&v, pos, j);
            assert(rest =~= v@.subrange(pos as int, j as int));
            assert(lines(rest) == seq![rest]);
            proof {
                done = done.push(rest);
            }
            res.push(line);
            assert(v@.skip(j as int) =~= Seq::<char>::empty());
            assert(lines(v@) =~= done + lines(v@.skip(j as int)));
            pos = j;
        } else {
            let mut e = j;
            if e > pos && v[e - 1] == '\r' {
                e -= 1;
            }
            let line = string_of_range(&v, pos, e);
            assert(rest.take((j - pos) as int) =~= v@.subrange(pos as int, j as int));
            assert(strip_cr(rest.take((j - pos) as int)) =~= v@.subrange(pos as int, e as int));
            assert(rest.skip((j - pos) + 1) =~= v@.skip(j + 1));
            assert(lines(rest) == seq![v@.subrange(pos as int, e as int)] + lines(
                v@.skip(j + 1),
            ));
            let ghost old_done = done;
            proof {
                done = done.push(v@.subrange(pos as int, e as int));
            }
            res.push(line);
            assert(lines(v@) =~= done + lines(v@.skip(j + 1)));
            pos = j + 1;
        }
    }
    assert(v@.skip(pos as int) =~= Seq::<char>::empty());
    assert(lines(v@) =~= done);
    res
}

// ---------------------------------------------------------------------
// Laws
// ---------------------------------------------------------------------

/// Law: a pattern that occurs in a text is counted: whatever characters
/// the pattern holds, line feeds among them, an occurrence at any place
/// makes the count at least one.
pub proof fn lemma_occurrence_is_counted(h: Seq<char>, p: Seq<char>, i: int)
    requires
        p.len() > 0,
        0 <= i,
        i + p.len() <= h.len(),
        h.subrange(i, i + p.len()) == p,
    ensures
        count_matches(h, p) >= 1,
    decreases h.len(),
{
    if h.take(p.len() as int) == p {
    } else if i == 0 {
        assert(h.take(p.len() as int) =~= h.subrange(0, p.len() as int));
    } else {
        assert(h.drop_first().subrange(i - 1, i - 1 + p.len()) =~= h.subrange(i, i + p.len()));
        lemma_occurrence_is_counted(h.drop_first(), p, i - 1);
    }
}

/// Law: the count of a non-empty pattern is zero exactly when the pattern
/// occurs nowhere in the text.
pub proof fn lemma_zero_count_means_absent(h: Seq<char>, p: Seq<char>)
    requires
        p.len() > 0,
    ensures
        count_matches(h, p) == 0 <==> (forall|i: int|
            0 <= i && i + p.len() <= h.len() ==> #[trigger] h.subrange(i, i + p.len()) != p),
    decreases h.len(),
{
    if h.len() < p.len() {
    } else if h.take(p.len() as int) == p {
        assert(h.subrange(0, p.len() as int) =~= h.take(p.len() as int));
        assert(count_matches(h, p) >= 1);
        let z: int = 0;
        assert(h.subrange(z, z + p.len()) =~= p);
        assert(!(forall|j: int|
            0 <= j && j + p.len() <= h.len() ==> #[trigger] h.subrange(j, j + p.len()) != p));
    } else {
        lemma_zero_count_means_absent(h.drop_first(), p);
        assert forall|i: int| 0 <= i && i + p.len() <= h.len() && #[trigger] h.subrange(i, i + p.len()) == p
            implies count_matches(h, p) >= 1 by {
            lemma_occurrence_is_counted(h, p, i);
        }
        if count_matches(h, p) == 0 {
            assert forall|i: int| 0 <= i && i + p.len() <= h.len() implies #[trigger] h.subrange(
                i,
                i + p.len(),
            ) != p by {
                if i == 0 {
                    assert(h.subrange(0, p.len() as int) =~= h.take(p.len() as int));
                } else {
                    assert(h.drop_first().subrange(i - 1, i - 1 + p.len()) =~= h.subrange(
                        i,
                        i + p.len(),
                    ));
                }
            }
        } else {
            let i = choose|i: int|
                0 <= i && i + p.len() <= h.drop_first().len() && #[trigger] h.drop_first().subrange(
                    i,
                    i + p.len(),
                ) == p;
            assert(h.drop_first().subrange(i, i + p.len()) =~= h.subrange(i + 1, i + 1 + p.len()));
            assert(h.subrange(i + 1, i + 1 + p.len()) == p);
            assert(!(forall|j: int|
                0 <= j && j + p.len() <= h.len() ==> #[trigger] h.subrange(j, j + p.len()) != p));
        }
    }
}

/// All characters of `s` are white space.
pub open spec fn all_white(s: Seq<char>) -> bool {
    forall|i: int| 0 <= i < s.len() ==> is_white_space(#[trigger] s[i])
}

/// `c` is `s` with white space removed from both ends: `c` is a piece of
/// `s` with only white space before and after it, and `c` neither begins
/// nor ends with white space.
pub open spec fn stripped_of(s: Seq<char>, lo: int, hi: int, c: Seq<char>) -> bool {
    &&& 0 <= lo <= hi <= s.len()
    &&& c == s.subrange(lo, hi)
    &&& all_white(s.take(lo))
    &&& all_white(s.skip(hi))
    &&& (c.len() > 0 ==> !is_white_space(c[0]) && !is_white_space(c.last()))
}

proof fn lemma_trim_start_piece(s: Seq<char>)
    ensures
        exists|lo: int|
            0 <= lo <= s.len() && #[trigger] s.skip(lo) == trim_start(s) && all_white(s.take(lo)) && (
            trim_start(s).len() > 0 ==> !is_white_space(trim_start(s)[0])),
    decreases s.len(),
{
    if s.len() > 0 && is_white_space(s[0]) {
        lemma_trim_start_piece(s.drop_first());
        let lo = choose|lo: int|
            0 <= lo <= s.drop_first().len() && #[trigger] s.drop_first().skip(lo) == trim_start(
                s.drop_first(),
            ) && all_white(s.drop_first().take(lo)) && (trim_start(s.drop_first()).len() > 0
                ==> !is_white_space(trim_start(s.drop_first())[0]));
        assert(s.skip(lo + 1) =~= s.drop_first().skip(lo));
        assert forall|i: int| 0 <= i < s.take(lo + 1).len() implies is_white_space(
            #[trigger] s.take(lo + 1)[i],
        ) by {
            if i > 0 {
                assert(s.take(lo + 1)[i] == s.drop_first().take(lo)[i - 1]);
            }
        }
    } else {
        assert(s.skip(0) =~= s);
        assert(s.take(0).len() == 0);
    }
}

proof fn lemma_trim_end_piece(s: Seq<char>)
    ensures
        exists|hi: int|
            0 <= hi <= s.len() && #[trigger] s.take(hi) == trim_end(s) && all_white(s.skip(hi)) && (
            trim_end(s).len() > 0 ==> !is_white_space(trim_end(s).last())),
    decreases s.len(),
{
    if s.len() > 0 && is_white_space(s.last()) {
        lemma_trim_end_piece(s.drop_last());
        let hi = choose|hi: int|
            0 <= hi <= s.drop_last().len() && #[trigger] s.drop_last().take(hi) == trim_end(
                s.drop_last(),
            ) && all_white(s.drop_last().skip(hi)) && (trim_end(s.drop_last()).len() > 0
                ==> !is_white_space(trim_end(s.drop_last()).last()));
        assert(s.take(hi) =~= s.drop_last().take(hi));
        assert forall|i: int| 0 <= i < s.skip(hi).len() implies is_white_space(
            #[trigger] s.skip(hi)[i],
        ) by {
            if i < s.skip(hi).len() - 1 {
                assert(s.skip(hi)[i] == s.drop_last().skip(hi)[i]);
            }
        }
    } else {
        assert(s.take(s.len() as int) =~= s);
        assert(s.skip(s.len() as int).len() == 0);
    }
}

/// Law: trimming removes white space from both ends and nothing else: the
/// trimmed text is a piece of the text with only white space around it,
/// and it neither begins nor ends with white space.
pub proof fn lemma_trim_strips_ends(s: Seq<char>)
    ensures
        exists|lo: int, hi: int| #[trigger] stripped_of(s, lo, hi, trim(s)),
{
    lemma_trim_start_piece(s);
    let lo = choose|lo: int|
        0 <= lo <= s.len() && #[trigger] s.skip(lo) == trim_start(s) && all_white(s.take(lo)) && (
        trim_start(s).len() > 0 ==> !is_white_space(trim_start(s)[0]));
    let u = trim_start(s);
    lemma_trim_end_piece(u);
    let h = choose|hi: int|
        0 <= hi <= u.len() && #[trigger] u.take(hi) == trim_end(u) && all_white(u.skip(hi)) && (
        trim_end(u).len() > 0 ==> !is_white_space(trim_end(u).last()));
    let t = trim(s);
    assert(t == u.take(h));
    assert(t =~= s.subrange(lo, lo + h));
    assert(s.skip(lo + h) =~= u.skip(h));
    if t.len() > 0 {
        assert(t[0] == u[0]);
    }
    assert(stripped_of(s, lo, lo + h, t));
}

/// Law: `find` gives the first place where the pattern occurs, and
/// nothing when it occurs nowhere.
pub proof fn lemma_find_is_first(h: Seq<char>, p: Seq<char>)
    ensures
        match find(h, p) {
            Some(k) => k + p.len() <= h.len() && h.subrange(k as int, k + p.len() as int) == p
                && forall|j: int| 0 <= j < k ==> #[trigger] h.subrange(j, j + p.len()) != p,
            None => forall|j: int|
                0 <= j && j + p.len() <= h.len() ==> #[trigger] h.subrange(j, j + p.len()) != p,
        },
    decreases h.len(),
{
    find_bounds(h, p);
    if h.len() < p.len() {
    } else if h.take(p.len() as int) == p {
    } else if h.len() == 0 {
    } else {
        lemma_find_is_first(h.drop_first(), p);
        assert(h.subrange(0, p.len() as int) =~= h.take(p.len() as int));
        assert forall|j: int| 1 <= j && j + p.len() <= h.len() implies #[trigger] h.subrange(
            j,
            j + p.len(),
        ) == h.drop_first().subrange(j - 1, j - 1 + p.len()) by {
            assert(h.subrange(j, j + p.len()) =~= h.drop_first().subrange(j - 1, j - 1 + p.len()));
        }
    }
}

/// The lines `ls`, each followed by a line feed, one after the other.
pub open spec fn joined_lines(ls: Seq<Seq<char>>) -> Seq<char>
    decreases ls.len(),
{
    if ls.len() == 0 {
        seq![]
    } else {
        ls[0] + seq!['\n'] + joined_lines(ls.drop_first())
    }
}

proof fn lemma_line_end_props(s: Seq<char>)
    ensures
        line_end(s) <= s.len(),
        forall|i: int| 0 <= i < line_end(s) ==> s[i] != '\n',
        line_end(s) < s.len() ==> s[line_end(s) as int] == '\n',
    decreases s.len(),
{
    if s.len() == 0 || s[0] == '\n' {
    } else {
        lemma_line_end_props(s.drop_first());
        assert forall|i: int| 0 <= i < line_end(s) implies s[i] != '\n' by {
            if i > 0 {
                assert(s[i] == s.drop_first()[i - 1]);
            }
        }
    }
}

/// Law: lines hold no line feed, and a text without carriage returns is
/// given back whole by its lines, each followed by a line feed (with one
/// line feed more at the end when the text did not end with one): no
/// character of a line is dropped or changed.
pub proof fn lemma_lines_rebuild_text(s: Seq<char>)
    requires
        !s.contains('\r'),
    ensures
        joined_lines(lines(s)) == if s.len() == 0 || s.last() == '\n' {
            s
        } else {
            s.push('\n')
        },
        forall|i: int, j: int|
            0 <= i < lines(s).len() && 0 <= j < lines(s)[i].len() ==> #[trigger] lines(s)[i][j]
                != '\n',
    decreases s.len(),
{
    if s.len() == 0 {
    } else {
        lemma_line_end_props(s);
        let k = line_end(s);
        if k >= s.len() {
            assert(joined_lines(seq![s]) =~= s + seq!['\n'] + joined_lines(seq![s].drop_first()));
            assert(seq![s].drop_first() =~= Seq::<Seq<char>>::empty());
            assert(s.last() != '\n');
            assert(joined_lines(lines(s)) =~= s.push('\n'));
        } else {
            let head = s.take(k as int);
            let rest = s.skip(k + 1 as int);
            assert(!rest.contains('\r')) by {
                if rest.contains('\r') {
                    let j = choose|j: int| 0 <= j < rest.len() && rest[j] == '\r';
                    assert(s[k + 1 + j] == '\r');
                }
            }
            if head.len() > 0 && head.last() == '\r' {
                assert(s[k - 1] == '\r');
            }
            assert(strip_cr(head) == head);
            lemma_lines_rebuild_text(rest);
            let ls = lines(s);
            assert(ls == seq![head] + lines(rest));
            assert(ls.drop_first() =~= lines(rest));
            assert(ls[0] == head);
            if rest.len() == 0 {
                assert(s =~= head + seq!['\n']);
                assert(joined_lines(ls) =~= s);
            } else {
                assert(rest.last() == s.last());
                assert(s =~= head + seq!['\n'] + rest);
                if s.last() == '\n' {
                    assert(joined_lines(ls) =~= s);
                } else {
                    assert(joined_lines(ls) =~= s.push('\n'));
                }
            }
            assert forall|i: int, j: int|
                0 <= i < ls.len() && 0 <= j < ls[i].len() implies #[trigger] ls[i][j] != '\n' by {
                if i > 0 {
                    assert(ls[i] == lines(rest)[i - 1]);
                } else {
                    assert(ls[0][j] == s[j]);
                }
            }
        }
    }
}

} // verus!
