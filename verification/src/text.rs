//! Text handling on sequences of characters: searching, splitting and
//! trimming, each with its mathematical meaning.

use vstd::prelude::*;
use vstd::string::*;

verus! {

/// Appends one character to a string. Wraps `String::push`, which the
/// standard library documents as appending the given `char` to the end.
#[verifier::external_body]
fn push_char(s: &mut String, c: char)
    ensures
        final(s)@ == old(s)@.push(c),
{
    s.push(c)
}

/// The characters of a string slice, in order.
pub fn chars_of(s: &str) -> (v: Vec<char>)
    ensures
        v@ == s@,
{
    let mut v: Vec<char> = Vec::new();
    for c in it: s.chars()
        invariant
            v@ == it.seq().take(it.index() as int),
            it.seq() == s@,
    {
        v.push(c);
    }
    v
}

/// The string made of the given characters, in order.
pub fn string_of(cs: &Vec<char>) -> (r: String)
    ensures
        r@ == cs@,
{
    let mut r = String::new();
    let mut i: usize = 0;
    while i < cs.len()
        invariant
            i <= cs.len(),
            r@ == cs@.take(i as int),
        decreases cs.len() - i,
    {
        push_char(&mut r, cs[i]);
        i += 1;
        assert(cs@.take(i as int) =~= cs@.take(i as int - 1).push(cs@[i as int - 1]));
    }
    assert(cs@.take(cs.len() as int) =~= cs@);
    r
}

/// The characters of `cs` from `lo` up to, not including, `hi`.
pub fn slice_of(cs: &Vec<char>, lo: usize, hi: usize) -> (r: Vec<char>)
    requires
        lo <= hi <= cs.len(),
    ensures
        r@ == cs@.subrange(lo as int, hi as int),
{
    let mut r: Vec<char> = Vec::new();
    let mut i: usize = lo;
    while i < hi
        invariant
            lo <= i <= hi <= cs.len(),
            r@ == cs@.subrange(lo as int, i as int),
        decreases hi - i,
    {
        r.push(cs[i]);
        i += 1;
        assert(cs@.subrange(lo as int, i as int) =~= cs@.subrange(lo as int, i as int - 1).push(
            cs@[i as int - 1],
        ));
    }
    r
}

/// Whether two character vectors hold the same text.
pub fn same(a: &Vec<char>, b: &Vec<char>) -> (r: bool)
    ensures
        r == (a@ == b@),
{
    if a.len() != b.len() {
        return false;
    }
    let mut i: usize = 0;
    while i < a.len()
        invariant
            i <= a.len(),
            a.len() == b.len(),
            forall|j: int| 0 <= j < i ==> a@[j] == b@[j],
        decreases a.len() - i,
    {
        if a[i] != b[i] {
            return false;
        }
        i += 1;
    }
    assert(a@ =~= b@);
    true
}

/// Unicode white space, as `char::is_whitespace` defines it.
pub open spec fn is_space(c: char) -> bool {
    let u = c as u32;
    ||| 0x09 <= u <= 0x0D
    ||| u == 0x20
    ||| u == 0x85
    ||| u == 0xA0
    ||| u == 0x1680
    ||| 0x2000 <= u <= 0x200A
    ||| u == 0x2028
    ||| u == 0x2029
    ||| u == 0x202F
    ||| u == 0x205F
    ||| u == 0x3000
}

/// Whether a character is white space.
pub fn is_whitespace(c: char) -> (r: bool)
    ensures
        r == is_space(c),
{
    let u: u32 = c as u32;
    (0x09 <= u && u <= 0x0D) || u == 0x20 || u == 0x85 || u == 0xA0 || u == 0x1680 || (0x2000 <= u
        && u <= 0x200A) || u == 0x2028 || u == 0x2029 || u == 0x202F || u == 0x205F || u == 0x3000
}

/// Whether `needle` stands in `hay` at position `i`.
pub open spec fn occurs_at(hay: Seq<char>, needle: Seq<char>, i: int) -> bool {
    &&& 0 <= i
    &&& i + needle.len() <= hay.len()
    &&& hay.subrange(i, i + needle.len()) == needle
}

/// Whether `needle` stands in `hay` at position `i`.
pub fn matches_at(hay: &Vec<char>, needle: &Vec<char>, i: usize) -> (r: bool)
    ensures
        r == occurs_at(hay@, needle@, i as int),
{
    if needle.len() > hay.len() || i > hay.len() - needle.len() {
        return false;
    }
    let mut k: usize = 0;
    while k < needle.len()
        invariant
            k <= needle.len(),
            i + needle.len() <= hay.len(),
            forall|j: int| 0 <= j < k ==> hay@[i + j] == needle@[j],
        decreases needle.len() - k,
    {
        if hay[i + k] != needle[k] {
            assert(hay@.subrange(i as int, i + needle.len())[k as int] != needle@[k as int]);
            return false;
        }
        k += 1;
    }
    assert(hay@.subrange(i as int, i + needle.len()) =~= needle@);
    true
}

/// Whether `s` begins with `prefix`.
pub open spec fn starts_with(s: Seq<char>, prefix: Seq<char>) -> bool {
    occurs_at(s, prefix, 0)
}

/// The first position at or after `from` where `needle` stands in `hay`.
pub open spec fn find_from(hay: Seq<char>, needle: Seq<char>, from: int) -> Option<int>
    decreases hay.len() + 1 - from,
{
    if 0 <= from && from + needle.len() <= hay.len() {
        if occurs_at(hay, needle, from) {
            Some(from)
        } else {
            find_from(hay, needle, from + 1)
        }
    } else {
        None
    }
}

/// The first position where `needle` stands in `hay`.
pub open spec fn find(hay: Seq<char>, needle: Seq<char>) -> Option<int> {
    find_from(hay, needle, 0)
}

/// `find_from` answers with the least position at or after `from` at which
/// the needle stands, and with nothing exactly when there is none.
pub proof fn lemma_find_from_least(hay: Seq<char>, needle: Seq<char>, from: int)
    requires
        0 <= from,
    ensures
        match find_from(hay, needle, from) {
            Some(i) => from <= i && occurs_at(hay, needle, i) && forall|j: int|
                from <= j < i ==> !occurs_at(hay, needle, j),
            None => forall|j: int| from <= j ==> !occurs_at(hay, needle, j),
        },
    decreases hay.len() + 1 - from,
{
    if from + needle.len() <= hay.len() && !occurs_at(hay, needle, from) {
        lemma_find_from_least(hay, needle, from + 1);
    }
}

/// The first position where `needle` stands in `hay`.
pub fn find_in(hay: &Vec<char>, needle: &Vec<char>) -> (r: Option<usize>)
    ensures
        match r {
            Some(i) => find(hay@, needle@) == Some(i as int) && occurs_at(hay@, needle@, i as int),
            None => find(hay@, needle@) is None,
        },
{
    if needle.len() > hay.len() {
        return None;
    }
    let last: usize = hay.len() - needle.len();
    let mut i: usize = 0;
    loop
        invariant
            i <= last,
            last == hay.len() - needle.len(),
            find(hay@, needle@) == find_from(hay@, needle@, i as int),
        decreases last - i,
    {
        if matches_at(hay, needle, i) {
            return Some(i);
        }
        if i == last {
            assert(find_from(hay@, needle@, i + 1) is None);
            return None;
        }
        i += 1;
    }
}

/// The text before and after the first occurrence of `pat`.
pub open spec fn split_once(s: Seq<char>, pat: Seq<char>) -> Option<(Seq<char>, Seq<char>)> {
    match find(s, pat) {
        Some(i) => Some((s.subrange(0, i), s.subrange(i + pat.len(), s.len() as int))),
        None => None,
    }
}

/// Splits at the first occurrence of `pat`, which is left out.
pub fn split_once_at(s: &Vec<char>, pat: &Vec<char>) -> (r: Option<(Vec<char>, Vec<char>)>)
    ensures
        match r {
            Some((a, b)) => split_once(s@, pat@) == Some((a@, b@)),
            None => split_once(s@, pat@) is None,
        },
{
    match find_in(s, pat) {
        Some(i) => {
            let end: usize = s.len();
            let a = slice_of(s, 0, i);
            let b = slice_of(s, i + pat.len(), end);
            Some((a, b))
        },
        None => None,
    }
}

/// How many white-space characters stand in a row from `from` on.
pub open spec fn space_run(s: Seq<char>, from: int) -> nat
    decreases s.len() - from,
{
    if 0 <= from < s.len() && is_space(s[from]) {
        1 + space_run(s, from + 1)
    } else {
        0
    }
}

/// The text without its leading white space.
pub open spec fn trim_start(s: Seq<char>) -> Seq<char> {
    s.skip(space_run(s, 0) as int)
}

/// The text without its trailing white space.
pub open spec fn trim_end(s: Seq<char>) -> Seq<char>
    decreases s.len(),
{
    if s.len() > 0 && is_space(s.last()) {
        trim_end(s.drop_last())
    } else {
        s
    }
}

/// The text without leading and trailing white space.
pub open spec fn trim(s: Seq<char>) -> Seq<char> {
    trim_end(trim_start(s))
}

/// A run of white space holds white space alone, and ends at the end of
/// the text or before a character that is none.
pub proof fn lemma_space_run(s: Seq<char>, from: int)
    requires
        0 <= from <= s.len(),
    ensures
        from + space_run(s, from) <= s.len(),
        forall|i: int| from <= i < from + space_run(s, from) ==> is_space(#[trigger] s[i]),
        from + space_run(s, from) < s.len() ==> !is_space(s[from + space_run(s, from)]),
    decreases s.len() - from,
{
    if from < s.len() && is_space(s[from]) {
        lemma_space_run(s, from + 1);
    }
}

/// Trimming the end keeps a front part of the text: what it leaves out
/// is white space, and what it keeps does not end in white space.
pub proof fn lemma_trim_end(s: Seq<char>)
    ensures
        trim_end(s).len() <= s.len(),
        trim_end(s) == s.subrange(0, trim_end(s).len() as int),
        forall|i: int| trim_end(s).len() <= i < s.len() ==> is_space(#[trigger] s[i]),
        trim_end(s).len() > 0 ==> !is_space(trim_end(s).last()),
    decreases s.len(),
{
    if s.len() > 0 && is_space(s.last()) {
        let front = s.drop_last();
        lemma_trim_end(front);
        let n = trim_end(front).len() as int;
        assert(front.subrange(0, n) =~= s.subrange(0, n));
        assert forall|i: int| n <= i < s.len() implies is_space(#[trigger] s[i]) by {
            if i < front.len() {
                assert(front[i] == s[i]);
            }
        }
    } else {
        assert(s.subrange(0, s.len() as int) =~= s);
    }
}

/// Trimming keeps one stretch of the text: what stands before and
/// behind it is white space, and it neither begins nor ends with white
/// space.
pub proof fn lemma_trim(s: Seq<char>)
    ensures
        exists|a: int, b: int|
            0 <= a <= b <= s.len() && trim(s) == s.subrange(a, b) && (forall|i: int|
                0 <= i < a ==> is_space(#[trigger] s[i])) && (forall|i: int|
                b <= i < s.len() ==> is_space(#[trigger] s[i])),
        trim(s).len() > 0 ==> !is_space(trim(s).first()) && !is_space(trim(s).last()),
{
    lemma_space_run(s, 0);
    let a = space_run(s, 0) as int;
    let rest = s.skip(a);
    lemma_trim_end(rest);
    let b = a + trim_end(rest).len();
    assert(rest.subrange(0, b - a) =~= s.subrange(a, b));
    assert forall|i: int| b <= i < s.len() implies is_space(#[trigger] s[i]) by {
        assert(rest[i - a] == s[i]);
    }
    if trim(s).len() > 0 {
        assert(trim(s).first() == s[a]);
    }
}

/// Removes leading and trailing white space.
pub fn trimmed(s: &Vec<char>) -> (r: Vec<char>)
    ensures
        r@ == trim(s@),
{
    let mut lo: usize = 0;
    while lo < s.len() && is_whitespace(s[lo])
        invariant
            lo <= s.len(),
            space_run(s@, 0) == lo + space_run(s@, lo as int),
        decreases s.len() - lo,
    {
        lo += 1;
    }
    let mut hi: usize = s.len();
    assert(s@.subrange(lo as int, hi as int) =~= trim_start(s@));
    while hi > lo && is_whitespace(s[hi - 1])
        invariant
            lo <= hi <= s.len(),
            trim(s@) == trim_end(s@.subrange(lo as int, hi as int)),
        decreases hi,
    {
        assert(s@.subrange(lo as int, hi as int).drop_last() =~= s@.subrange(
            lo as int,
            hi as int - 1,
        ));
        hi -= 1;
    }
    slice_of(s, lo, hi)
}

/// How many characters other than `c` stand in a row from `from` on.
pub open spec fn run_until(s: Seq<char>, c: char, from: int) -> nat
    decreases s.len() - from,
{
    if 0 <= from < s.len() && s[from] != c {
        1 + run_until(s, c, from + 1)
    } else {
        0
    }
}

/// The pieces of `s` from `from` on, cut at every `sep`.
pub open spec fn split_from(s: Seq<char>, sep: char, from: int) -> Seq<Seq<char>>
    decreases s.len() + 1 - from,
{
    if 0 <= from <= s.len() {
        let end = from + run_until(s, sep, from);
        if end < s.len() {
            seq![s.subrange(from, end)] + split_from(s, sep, end + 1)
        } else {
            seq![s.subrange(from, s.len() as int)]
        }
    } else {
        seq![]
    }
}

/// The pieces of `s` between separators; there is always at least one.
pub open spec fn split(s: Seq<char>, sep: char) -> Seq<Seq<char>> {
    split_from(s, sep, 0)
}

/// Cuts the text at every `sep`, which is left out of the pieces.
pub fn split_at_char(s: &Vec<char>, sep: char) -> (r: Vec<Vec<char>>)
    ensures
        r.deep_view() == split(s@, sep),
{
    let mut out: Vec<Vec<char>> = Vec::new();
    let mut start: usize = 0;
    let mut i: usize = 0;
    assert(out.deep_view() + split_from(s@, sep, 0) =~= split(s@, sep));
    while i < s.len()
        invariant
            start <= i <= s.len(),
            split(s@, sep) == out.deep_view() + split_from(s@, sep, start as int),
            start + run_until(s@, sep, start as int) == i + run_until(s@, sep, i as int),
        decreases s.len() - i,
    {
        if s[i] == sep {
            let piece = slice_of(s, start, i);
            let ghost before = out.deep_view();
            out.push(piece);
            assert(piece.deep_view() =~= piece@);
            assert(out.deep_view() =~= before.push(piece@));
            assert(before.push(piece@) + split_from(s@, sep, i + 1) =~= before + (seq![piece@]
                + split_from(s@, sep, i + 1)));
            start = i + 1;
        }
        i += 1;
    }
    let piece = slice_of(s, start, s.len());
    let ghost before = out.deep_view();
    out.push(piece);
    assert(piece.deep_view() =~= piece@);
    assert(out.deep_view() =~= before.push(piece@));
    assert(before.push(piece@) =~= before + seq![piece@]);
    out
}

/// A line without the carriage return that may end it.
pub open spec fn strip_cr(line: Seq<char>) -> Seq<char> {
    if line.len() > 0 && line.last() == '\r' {
        line.drop_last()
    } else {
        line
    }
}

/// The lines of `s` from `from` on. A line ends at a line feed, or at a
/// carriage return followed by one; the last line needs no line ending.
pub open spec fn lines_from(s: Seq<char>, from: int) -> Seq<Seq<char>>
    decreases s.len() - from,
{
    if 0 <= from < s.len() {
        let end = from + run_until(s, '\n', from);
        if end < s.len() {
            seq![strip_cr(s.subrange(from, end))] + lines_from(s, end + 1)
        } else {
            seq![s.subrange(from, s.len() as int)]
        }
    } else {
        seq![]
    }
}

/// The lines of a text, without their line endings.
pub open spec fn lines(s: Seq<char>) -> Seq<Seq<char>> {
    lines_from(s, 0)
}

/// Cuts a text into its lines.
pub fn lines_of(s: &Vec<char>) -> (r: Vec<Vec<char>>)
    ensures
        r.deep_view() == lines(s@),
{
    let mut out: Vec<Vec<char>> = Vec::new();
    let mut start: usize = 0;
    let mut i: usize = 0;
    assert(out.deep_view() + lines_from(s@, 0) =~= lines(s@));
    while i < s.len()
        invariant
            start <= i <= s.len(),
            lines(s@) == out.deep_view() + lines_from(s@, start as int),
            start + run_until(s@, '\n', start as int) == i + run_until(s@, '\n', i as int),
        decreases s.len() - i,
    {
        if s[i] == '\n' {
            let end: usize = if i > start && s[i - 1] == '\r' {
                i - 1
            } else {
                i
            };
            let piece = slice_of(s, start, end);
            assert(piece@ =~= strip_cr(s@.subrange(start as int, i as int)));
            let ghost before = out.deep_view();
            out.push(piece);
            assert(piece.deep_view() =~= piece@);
            assert(out.deep_view() =~= before.push(piece@));
            assert(before.push(piece@) + lines_from(s@, i + 1) =~= before + (seq![piece@]
                + lines_from(s@, i + 1)));
            start = i + 1;
        }
        i += 1;
    }
    if start < s.len() {
        let piece = slice_of(s, start, s.len());
        let ghost before = out.deep_view();
        out.push(piece);
        assert(piece.deep_view() =~= piece@);
        assert(out.deep_view() =~= before.push(piece@));
        assert(before.push(piece@) =~= before + seq![piece@]);
    } else {
        assert(out.deep_view() + lines_from(s@, start as int) =~= out.deep_view());
    }
    out
}

/// How many characters that are not white space stand in a row from
/// `from` on.
pub open spec fn word_run(s: Seq<char>, from: int) -> nat
    decreases s.len() - from,
{
    if 0 <= from < s.len() && !is_space(s[from]) {
        1 + word_run(s, from + 1)
    } else {
        0
    }
}

/// The words of `s` from `from` on: the longest runs without white space.
pub open spec fn words_from(s: Seq<char>, from: int) -> Seq<Seq<char>>
    decreases s.len() - from,
{
    if 0 <= from < s.len() {
        if is_space(s[from]) {
            words_from(s, from + 1)
        } else {
            let end = from + 1 + word_run(s, from + 1);
            proof {
                lemma_word_run(s, from + 1);
            }
            seq![s.subrange(from, end)] + words_from(s, end)
        }
    } else {
        seq![]
    }
}

/// A run that holds no white space, and ends at the end of the text or
/// before white space.
pub proof fn lemma_word_run(s: Seq<char>, from: int)
    requires
        0 <= from <= s.len(),
    ensures
        from + word_run(s, from) <= s.len(),
        forall|i: int| from <= i < from + word_run(s, from) ==> !is_space(#[trigger] s[i]),
        from + word_run(s, from) < s.len() ==> is_space(s[from + word_run(s, from)]),
    decreases s.len() - from,
{
    if from < s.len() && !is_space(s[from]) {
        lemma_word_run(s, from + 1);
    }
}

/// Whether a text is a word: it is not empty and holds no white space.
pub open spec fn is_word(w: Seq<char>) -> bool {
    w.len() > 0 && forall|i: int| 0 <= i < w.len() ==> !is_space(#[trigger] w[i])
}

/// What a text is cut into are words: none is empty, and none holds
/// white space.
pub proof fn lemma_words(s: Seq<char>, from: int)
    requires
        0 <= from,
    ensures
        forall|k: int|
            0 <= k < words_from(s, from).len() ==> is_word(#[trigger] words_from(s, from)[k]),
    decreases s.len() - from,
{
    if from < s.len() {
        if is_space(s[from]) {
            lemma_words(s, from + 1);
            assert(words_from(s, from) == words_from(s, from + 1));
        } else {
            let end = from + 1 + word_run(s, from + 1);
            lemma_word_run(s, from + 1);
            lemma_words(s, end);
            let first = s.subrange(from, end);
            let rest = words_from(s, end);
            let all = words_from(s, from);
            assert(all == seq![first] + rest);
            assert(is_word(first)) by {
                assert forall|i: int| 0 <= i < first.len() implies !is_space(
                    #[trigger] first[i],
                ) by {
                    assert(first[i] == s[from + i]);
                }
            }
            assert forall|k: int| 0 <= k < all.len() implies is_word(#[trigger] all[k]) by {
                if k == 0 {
                    assert(all[0] == first);
                } else {
                    assert(all[k] == rest[k - 1]);
                }
            }
        }
    }
}

/// The words of a text, separated by any amount of white space.
pub open spec fn words(s: Seq<char>) -> Seq<Seq<char>> {
    words_from(s, 0)
}

/// Cuts a text into its words.
pub fn words_of(s: &Vec<char>) -> (r: Vec<Vec<char>>)
    ensures
        r.deep_view() == words(s@),
{
    let mut out: Vec<Vec<char>> = Vec::new();
    let mut i: usize = 0;
    assert(out.deep_view() + words_from(s@, 0) =~= words(s@));
    while i < s.len()
        invariant
            i <= s.len(),
            words(s@) == out.deep_view() + words_from(s@, i as int),
        decreases s.len() - i,
    {
        if is_whitespace(s[i]) {
            i += 1;
        } else {
            let start: usize = i;
            i += 1;
            while i < s.len() && !is_whitespace(s[i])
                invariant
                    start < i <= s.len(),
                    start + 1 + word_run(s@, start + 1) == i + word_run(s@, i as int),
                decreases s.len() - i,
            {
                i += 1;
            }
            let piece = slice_of(s, start, i);
            let ghost before = out.deep_view();
            out.push(piece);
            assert(piece.deep_view() =~= piece@);
            assert(out.deep_view() =~= before.push(piece@));
            assert(before.push(piece@) + words_from(s@, i as int) =~= before + (seq![piece@]
                + words_from(s@, i as int)));
        }
    }
    assert(out.deep_view() + words_from(s@, i as int) =~= out.deep_view());
    out
}

/// The parts written one after another with `sep` between them.
pub open spec fn join(parts: Seq<Seq<char>>, sep: Seq<char>) -> Seq<char>
    decreases parts.len(),
{
    if parts.len() == 0 {
        Seq::empty()
    } else if parts.len() == 1 {
        parts[0]
    } else {
        join(parts.drop_last(), sep) + sep + parts.last()
    }
}

/// Joining a part and further parts puts the separator between them.
pub proof fn lemma_join_prepend(first: Seq<char>, rest: Seq<Seq<char>>, sep: Seq<char>)
    requires
        rest.len() > 0,
    ensures
        join(seq![first] + rest, sep) == first + sep + join(rest, sep),
    decreases rest.len(),
{
    let all = seq![first] + rest;
    assert(all.drop_last() =~= seq![first] + rest.drop_last());
    assert(all.last() == rest.last());
    if rest.len() == 1 {
        assert(all.drop_last() =~= seq![first]);
        assert(join(all.drop_last(), sep) == first);
        assert(join(rest, sep) == rest[0]);
    } else {
        lemma_join_prepend(first, rest.drop_last(), sep);
        assert(join(all, sep) =~= first + sep + join(rest, sep));
    }
}

/// A run of characters other than `c` ends at the end of the text or
/// before a `c`.
pub proof fn lemma_run_until(s: Seq<char>, c: char, from: int)
    requires
        0 <= from <= s.len(),
    ensures
        from + run_until(s, c, from) <= s.len(),
        forall|i: int| from <= i < from + run_until(s, c, from) ==> #[trigger] s[i] != c,
        from + run_until(s, c, from) < s.len() ==> s[from + run_until(s, c, from)] == c,
    decreases s.len() - from,
{
    if from < s.len() && s[from] != c {
        lemma_run_until(s, c, from + 1);
    }
}

/// Cutting a text at a separator and joining the pieces with it gives
/// the text back; there is always a piece, and no piece holds the
/// separator.
pub proof fn lemma_split_join(s: Seq<char>, sep: char, from: int)
    requires
        0 <= from <= s.len(),
    ensures
        split_from(s, sep, from).len() > 0,
        join(split_from(s, sep, from), seq![sep]) == s.skip(from),
        forall|k: int, i: int|
            0 <= k < split_from(s, sep, from).len() && 0 <= i < split_from(s, sep, from)[k].len()
                ==> (#[trigger] split_from(s, sep, from)[k][i]) != sep,
    decreases s.len() - from,
{
    lemma_run_until(s, sep, from);
    let end = from + run_until(s, sep, from);
    let all = split_from(s, sep, from);
    if end < s.len() {
        let first = s.subrange(from, end);
        let rest = split_from(s, sep, end + 1);
        lemma_split_join(s, sep, end + 1);
        lemma_join_prepend(first, rest, seq![sep]);
        assert(all == seq![first] + rest);
        assert(first + seq![sep] + s.skip(end + 1) =~= s.skip(from));
        assert forall|k: int, i: int| 0 <= k < all.len() && 0 <= i < all[k].len() implies (
        #[trigger] all[k][i]) != sep by {
            if k == 0 {
                assert(all[0] == first);
                assert(first[i] == s[from + i]);
            } else {
                assert(all[k] == rest[k - 1]);
            }
        }
    } else {
        let only = s.subrange(from, s.len() as int);
        assert(all == seq![only]);
        assert(only =~= s.skip(from));
        assert forall|k: int, i: int| 0 <= k < all.len() && 0 <= i < all[k].len() implies (
        #[trigger] all[k][i]) != sep by {
            assert(all[0] == only);
            assert(only[i] == s[from + i]);
        }
    }
}

/// Writes the parts one after another with `sep` between them.
pub fn joined(parts: &Vec<String>, sep: &str) -> (r: String)
    ensures
        r@ == join(parts.deep_view(), sep@),
{
    let mut r = String::new();
    let mut i: usize = 0;
    while i < parts.len()
        invariant
            i <= parts.len(),
            r@ == join(parts.deep_view().take(i as int), sep@),
        decreases parts.len() - i,
    {
        if i > 0 {
            r.append(sep);
        }
        r.append(parts[i].as_str());
        i += 1;
        assert(parts.deep_view().take(i as int).drop_last() =~= parts.deep_view().take(
            i as int - 1,
        ));
        assert(r@ =~= join(parts.deep_view().take(i as int), sep@));
    }
    assert(parts.deep_view().take(parts.len() as int) =~= parts.deep_view());
    r
}

/// The texts of a list of character vectors, as strings.
pub fn strings_of(items: &Vec<Vec<char>>) -> (r: Vec<String>)
    ensures
        r.deep_view() == items.deep_view(),
{
    let mut out: Vec<String> = Vec::new();
    let mut i: usize = 0;
    while i < items.len()
        invariant
            i <= items.len(),
            out.deep_view() == items.deep_view().take(i as int),
        decreases items.len() - i,
    {
        let text = string_of(&items[i]);
        assert(items[i as int].deep_view() =~= items[i as int]@);
        let ghost before = out.deep_view();
        out.push(text);
        i += 1;
        assert(out.deep_view() =~= before.push(text@));
        assert(out.deep_view() =~= items.deep_view().take(i as int));
    }
    assert(items.deep_view().take(items.len() as int) =~= items.deep_view());
    out
}

/// Appends copies of the strings in `more` to `out`, in order.
pub fn extend_with(out: &mut Vec<String>, more: &Vec<String>)
    ensures
        final(out).deep_view() == old(out).deep_view() + more.deep_view(),
{
    let mut i: usize = 0;
    assert(out.deep_view() =~= old(out).deep_view() + more.deep_view().take(0));
    while i < more.len()
        invariant
            i <= more.len(),
            out.deep_view() == old(out).deep_view() + more.deep_view().take(i as int),
        decreases more.len() - i,
    {
        let ghost before = out.deep_view();
        let item = more[i].clone();
        out.push(item);
        i += 1;
        assert(out.deep_view() =~= before.push(item@));
        assert(out.deep_view() =~= old(out).deep_view() + more.deep_view().take(i as int));
    }
    assert(more.deep_view().take(more.len() as int) =~= more.deep_view());
}

/// Whether `items` holds the text `wanted`.
pub fn holds(items: &Vec<Vec<char>>, wanted: &Vec<char>) -> (r: bool)
    ensures
        r == items.deep_view().contains(wanted@),
{
    let mut i: usize = 0;
    while i < items.len()
        invariant
            i <= items.len(),
            forall|j: int| 0 <= j < i ==> items.deep_view()[j] != wanted@,
        decreases items.len() - i,
    {
        assert(items[i as int].deep_view() =~= items[i as int]@);
        if same(&items[i], wanted) {
            assert(items.deep_view()[i as int] == wanted@);
            return true;
        }
        i += 1;
    }
    false
}

/// Decodes bytes as UTF-8 text. Wraps `str::from_utf8`, which the standard
/// library documents as succeeding exactly on well-formed UTF-8 and then
/// giving the text those bytes encode.
#[verifier::external_body]
pub(crate) fn from_utf8(bytes: &Vec<u8>) -> (r: Option<String>)
    ensures
        r is Some <==> vstd::utf8::valid_utf8(bytes@),
        r matches Some(t) ==> t@ == vstd::utf8::decode_utf8(bytes@),
{
    std::str::from_utf8(bytes.as_slice()).ok().map(|t| t.to_string())
}

/// The text that `bytes` encode, or the empty text where they are not
/// well-formed UTF-8.
pub open spec fn text_or_empty(bytes: Seq<u8>) -> Seq<char> {
    if vstd::utf8::valid_utf8(bytes) {
        vstd::utf8::decode_utf8(bytes)
    } else {
        Seq::empty()
    }
}

/// Decodes bytes as UTF-8 text; bytes that are not well formed give the
/// empty text.
pub fn decode_or_empty(bytes: &Vec<u8>) -> (r: String)
    ensures
        r@ == text_or_empty(bytes@),
{
    match from_utf8(bytes) {
        Some(t) => t,
        None => String::new(),
    }
}

/// What lossy UTF-8 decoding makes of `bytes`: the text they encode, with
/// each malformed sequence replaced by U+FFFD.
pub uninterp spec fn utf8_lossy(bytes: Seq<u8>) -> Seq<char>;

/// Decodes bytes as UTF-8 text, replacing what is malformed. Wraps
/// `String::from_utf8_lossy`; the standard library documents that
/// well-formed input comes back as the text it encodes.
#[verifier::external_body]
pub(crate) fn from_utf8_lossy(bytes: &Vec<u8>) -> (r: String)
    ensures
        r@ == utf8_lossy(bytes@),
        vstd::utf8::valid_utf8(bytes@) ==> r@ == vstd::utf8::decode_utf8(bytes@),
{
    String::from_utf8_lossy(bytes.as_slice()).to_string()
}

} // verus!
