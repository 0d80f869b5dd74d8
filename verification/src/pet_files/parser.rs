use crate::text::{
    chars_of, from_utf8, slice_of, split, split_at_char, split_once, split_once_at, string_of,
    trim, trimmed,
};
use vstd::prelude::*;
use vstd::utf8::{decode_utf8, valid_utf8};

verus! {

/// Why a configuration could not be read.
#[derive(Debug, Clone, PartialEq, Eq)]
pub enum ParseError {
    /// A line without the modeline marker was taken for a modeline.
    InvalidModeline(String),
    /// A directive that is not of the form `key=value`.
    InvalidKeyword(String),
    /// The file could not be read; the text says why.
    FileError(String),
    /// The file holds no modeline.
    NotPetsFile,
    /// No supported package manager answers on this host.
    NoSupportedPackageManager,
    /// Neither a `destfile` nor a `symlink` directive was found in the
    /// named file.
    MissingDestFile(String),
    /// The mode is not an octal number of at most nine bits.
    InvalidFileMode(String),
}

/// A directive: its key and its value.
pub type Pair = (Seq<char>, Seq<char>);

/// The directives of a file, in the order in which they were written.
#[derive(Debug, Clone, PartialEq, Eq)]
pub struct Modelines {
    pub pairs: Vec<(String, String)>,
}

/// Key and value of a directive `key=value`, each without the white space
/// around it. The first `=` parts them.
pub open spec fn key_value(pair: Seq<char>) -> Option<Pair> {
    match split_once(pair, seq!['=']) {
        Some((k, v)) => Some((trim(k), trim(v))),
        None => None,
    }
}

/// Whether `r` is what reading the directive `pair` gives: its key and
/// value, or the directive itself as an invalid keyword.
pub open spec fn reads_as(r: &Result<(String, String), ParseError>, pair: Seq<char>) -> bool {
    match key_value(pair) {
        Some((k, v)) => r matches Ok((a, b)) && a@ == k && b@ == v,
        None => r matches Err(ParseError::InvalidKeyword(t)) && t@ == pair,
    }
}

/// The pieces without the white space around them, the empty ones left
/// out.
pub open spec fn segments(pieces: Seq<Seq<char>>) -> Seq<Seq<char>>
    decreases pieces.len(),
{
    if pieces.len() == 0 {
        Seq::empty()
    } else {
        let piece = trim(pieces.last());
        if piece.len() > 0 {
            segments(pieces.drop_last()).push(piece)
        } else {
            segments(pieces.drop_last())
        }
    }
}

/// The directives that a modeline's content holds, separated by commas.
pub open spec fn directives(content: Seq<char>) -> Seq<Seq<char>> {
    segments(split(content, ','))
}

/// What stands behind the marker `pets:` in a line, where it has one.
pub open spec fn modeline(line: Seq<char>) -> Option<Seq<char>> {
    match split_once(line, "pets:"@) {
        Some((_, content)) => Some(content),
        None => None,
    }
}

/// `front`, followed by what `rest` holds; the error of `rest` where it
/// is one.
pub open spec fn followed_by(front: Seq<Pair>, rest: Result<Seq<Pair>, Seq<char>>) -> Result<
    Seq<Pair>,
    Seq<char>,
> {
    match rest {
        Ok(more) => Ok(front + more),
        Err(e) => Err(e),
    }
}

/// Keys and values of the directives from `from` on, or the first among
/// them that is not of the form `key=value`.
pub open spec fn pairs_from(items: Seq<Seq<char>>, from: int) -> Result<Seq<Pair>, Seq<char>>
    decreases items.len() - from,
{
    if 0 <= from < items.len() {
        match key_value(items[from]) {
            Some(pair) => followed_by(seq![pair], pairs_from(items, from + 1)),
            None => Err(items[from]),
        }
    } else {
        Ok(Seq::empty())
    }
}

/// How many bytes other than a line feed stand in a row from `from` on.
pub open spec fn line_run(bytes: Seq<u8>, from: int) -> nat
    decreases bytes.len() - from,
{
    if 0 <= from < bytes.len() && bytes[from] != 10 {
        1 + line_run(bytes, from + 1)
    } else {
        0
    }
}

/// A line without the carriage return that may end it.
pub open spec fn without_cr(line: Seq<u8>) -> Seq<u8> {
    if line.len() > 0 && line.last() == 13 {
        line.drop_last()
    } else {
        line
    }
}

/// The lines of a file's content from `from` on, as bytes. A line ends at
/// a line feed, or at a carriage return followed by one; the last line
/// needs no line ending.
pub open spec fn byte_lines_from(bytes: Seq<u8>, from: int) -> Seq<Seq<u8>>
    decreases bytes.len() - from,
{
    if 0 <= from < bytes.len() {
        let end = from + line_run(bytes, from);
        if end < bytes.len() {
            seq![without_cr(bytes.subrange(from, end))] + byte_lines_from(bytes, end + 1)
        } else {
            seq![bytes.subrange(from, bytes.len() as int)]
        }
    } else {
        Seq::empty()
    }
}

/// The directives of the lines from `from` on. A line that is not
/// well-formed UTF-8 ends the reading: what was found before it stands.
/// A line without the marker `pets:` is passed over. A directive that is
/// not of the form `key=value` is an error.
pub open spec fn modelines_from(lines: Seq<Seq<u8>>, from: int) -> Result<Seq<Pair>, Seq<char>>
    decreases lines.len() - from,
{
    if 0 <= from < lines.len() {
        if !valid_utf8(lines[from]) {
            Ok(Seq::empty())
        } else {
            match modeline(decode_utf8(lines[from])) {
                None => modelines_from(lines, from + 1),
                Some(content) => match pairs_from(directives(content), 0) {
                    Ok(pairs) => followed_by(pairs, modelines_from(lines, from + 1)),
                    Err(e) => Err(e),
                },
            }
        }
    } else {
        Ok(Seq::empty())
    }
}

/// The directives that a file's content declares.
pub open spec fn modelines_of(content: Seq<u8>) -> Result<Seq<Pair>, Seq<char>> {
    modelines_from(byte_lines_from(content, 0), 0)
}

/// The values that the directives give to `key`, in their order.
pub open spec fn values_of(pairs: Seq<Pair>, key: Seq<char>) -> Seq<Seq<char>>
    decreases pairs.len(),
{
    if pairs.len() == 0 {
        Seq::empty()
    } else if pairs.last().0 == key {
        values_of(pairs.drop_last(), key).push(pairs.last().1)
    } else {
        values_of(pairs.drop_last(), key)
    }
}

/// The first value that the directives give to `key`.
pub open spec fn first_of(pairs: Seq<Pair>, key: Seq<char>) -> Option<Seq<char>> {
    if values_of(pairs, key).len() > 0 {
        Some(values_of(pairs, key)[0])
    } else {
        None
    }
}

impl View for Modelines {
    type V = Seq<Pair>;

    open spec fn view(&self) -> Seq<Pair> {
        Seq::new(self.pairs@.len(), |i: int| (self.pairs@[i].0@, self.pairs@[i].1@))
    }
}

impl Modelines {
    /// Whether no directive was found.
    pub fn is_empty(&self) -> (r: bool)
        ensures
            r == (self@.len() == 0),
    {
        self.pairs.len() == 0
    }

    /// The values given to `key`, in the order in which they were written.
    pub fn get(&self, key: &str) -> (r: Vec<String>)
        ensures
            r.deep_view() == values_of(self@, key@),
    {
        let wanted = key.to_string();
        let mut out: Vec<String> = Vec::new();
        let mut i: usize = 0;
        assert(self@.take(0) =~= Seq::<Pair>::empty());
        assert(out.deep_view() =~= Seq::<Seq<char>>::empty());
        while i < self.pairs.len()
            invariant
                i <= self.pairs.len(),
                wanted@ == key@,
                out.deep_view() == values_of(self@.take(i as int), key@),
            decreases self.pairs.len() - i,
        {
            assert(self@.take(i + 1).drop_last() =~= self@.take(i as int));
            assert(self@.take(i + 1).last() == self@[i as int]);
            if self.pairs[i].0 == wanted {
                let ghost before = out.deep_view();
                let value = self.pairs[i].1.clone();
                out.push(value);
                assert(out.deep_view() =~= before.push(value@));
            }
            i += 1;
        }
        assert(self@.take(self.pairs.len() as int) =~= self@);
        out
    }

    /// The first value given to `key`.
    pub fn first(&self, key: &str) -> (r: Option<String>)
        ensures
            match r {
                Some(v) => first_of(self@, key@) == Some(v@),
                None => first_of(self@, key@) is None,
            },
    {
        let all = self.get(key);
        if all.len() > 0 {
            Some(all[0].clone())
        } else {
            None
        }
    }
}

/// Reads one directive `key=value`.
pub fn parse_key_value(pair: &str) -> (r: Result<(String, String), ParseError>)
    ensures
        reads_as(&r, pair@),
{
    let cs = chars_of(pair);
    let mut eq: Vec<char> = Vec::new();
    eq.push('=');
    assert(eq@ =~= seq!['=']);
    match split_once_at(&cs, &eq) {
        Some((k, v)) => Ok((string_of(&trimmed(&k)), string_of(&trimmed(&v)))),
        None => Err(ParseError::InvalidKeyword(pair.to_string())),
    }
}

/// What stands behind the marker `pets:` in a line. A line without the
/// marker is an invalid modeline.
pub fn extract_modeline(line: String) -> (r: Result<String, ParseError>)
    ensures
        match modeline(line@) {
            Some(content) => r matches Ok(c) && c@ == content,
            None => r matches Err(ParseError::InvalidModeline(l)) && l@ == line@,
        },
{
    let cs = chars_of(line.as_str());
    match split_once_at(&cs, &chars_of("pets:")) {
        Some((_, content)) => Ok(string_of(&content)),
        None => Err(ParseError::InvalidModeline(line)),
    }
}

/// Reads the directives of a modeline's content, one result for each.
pub fn parse_multiple_key_value(content: &str) -> (r: Vec<Result<(String, String), ParseError>>)
    ensures
        r@.len() == directives(content@).len(),
        forall|i: int| 0 <= i < r@.len() ==> reads_as(&#[trigger] r@[i], directives(content@)[i]),
{
    let cs = chars_of(content);
    let pieces = split_at_char(&cs, ',');
    let mut out: Vec<Result<(String, String), ParseError>> = Vec::new();
    let mut i: usize = 0;
    assert(pieces.deep_view().take(0) =~= Seq::<Seq<char>>::empty());
    while i < pieces.len()
        invariant
            i <= pieces.len(),
            pieces.deep_view() == split(content@, ','),
            out@.len() == segments(pieces.deep_view().take(i as int)).len(),
            forall|j: int|
                0 <= j < out@.len() ==> reads_as(
                    &#[trigger] out@[j],
                    segments(pieces.deep_view().take(i as int))[j],
                ),
        decreases pieces.len() - i,
    {
        assert(pieces[i as int].deep_view() =~= pieces[i as int]@);
        assert(pieces.deep_view().take(i + 1).drop_last() =~= pieces.deep_view().take(i as int));
        assert(pieces.deep_view().take(i + 1).last() == pieces[i as int]@);
        let piece = trimmed(&pieces[i]);
        if piece.len() > 0 {
            let text = string_of(&piece);
            let item = parse_key_value(text.as_str());
            out.push(item);
        }
        i += 1;
    }
    assert(pieces.deep_view().take(pieces.len() as int) =~= pieces.deep_view());
    out
}

/// Cuts a file's content into its lines.
fn byte_lines(bytes: &Vec<u8>) -> (r: Vec<Vec<u8>>)
    ensures
        r.deep_view() == byte_lines_from(bytes@, 0),
{
    let mut out: Vec<Vec<u8>> = Vec::new();
    let mut start: usize = 0;
    let mut i: usize = 0;
    assert(out.deep_view() + byte_lines_from(bytes@, 0) =~= byte_lines_from(bytes@, 0));
    while i < bytes.len()
        invariant
            start <= i <= bytes.len(),
            byte_lines_from(bytes@, 0) == out.deep_view() + byte_lines_from(bytes@, start as int),
            start + line_run(bytes@, start as int) == i + line_run(bytes@, i as int),
        decreases bytes.len() - i,
    {
        if bytes[i] == 10 {
            let end: usize = if i > start && bytes[i - 1] == 13 {
                i - 1
            } else {
                i
            };
            let piece = bytes_between(bytes, start, end);
            assert(piece@ =~= without_cr(bytes@.subrange(start as int, i as int)));
            let ghost before = out.deep_view();
            out.push(piece);
            assert(piece.deep_view() =~= piece@);
            assert(out.deep_view() =~= before.push(piece@));
            assert(before.push(piece@) + byte_lines_from(bytes@, i + 1) =~= before + (seq![piece@]
                + byte_lines_from(bytes@, i + 1)));
            start = i + 1;
        }
        i += 1;
    }
    if start < bytes.len() {
        let piece = bytes_between(bytes, start, bytes.len());
        let ghost before = out.deep_view();
        out.push(piece);
        assert(piece.deep_view() =~= piece@);
        assert(out.deep_view() =~= before.push(piece@));
        assert(before.push(piece@) =~= before + seq![piece@]);
    } else {
        assert(out.deep_view() + byte_lines_from(bytes@, start as int) =~= out.deep_view());
    }
    out
}

/// The bytes from `lo` up to, not including, `hi`.
fn bytes_between(bytes: &Vec<u8>, lo: usize, hi: usize) -> (r: Vec<u8>)
    requires
        lo <= hi <= bytes.len(),
    ensures
        r@ == bytes@.subrange(lo as int, hi as int),
{
    let mut r: Vec<u8> = Vec::new();
    let mut i: usize = lo;
    while i < hi
        invariant
            lo <= i <= hi <= bytes.len(),
            r@ == bytes@.subrange(lo as int, i as int),
        decreases hi - i,
    {
        r.push(bytes[i]);
        i += 1;
        assert(bytes@.subrange(lo as int, i as int) =~= bytes@.subrange(
            lo as int,
            i as int - 1,
        ).push(bytes@[i as int - 1]));
    }
    r
}

/// Reads the directives that a file's content declares: those of every
/// line that holds the marker `pets:`, up to the first line that is not
/// well-formed UTF-8. The first directive that is not of the form
/// `key=value` is an error.
pub fn read_modelines(content: &Vec<u8>) -> (r: Result<Modelines, ParseError>)
    ensures
        match modelines_of(content@) {
            Ok(pairs) => r matches Ok(m) && m@ == pairs,
            Err(pair) => r matches Err(ParseError::InvalidKeyword(t)) && t@ == pair,
        },
{
    let lines = byte_lines(content);
    let marker = chars_of("pets:");
    let mut found = Modelines { pairs: Vec::new() };
    let mut i: usize = 0;
    assert(found@ =~= Seq::<Pair>::empty());
    while i < lines.len()
        invariant
            i <= lines.len(),
            marker@ == "pets:"@,
            lines.deep_view() == byte_lines_from(content@, 0),
            modelines_of(content@) == followed_by(
                found@,
                modelines_from(lines.deep_view(), i as int),
            ),
        decreases lines.len() - i,
    {
        assert(lines[i as int].deep_view() =~= lines[i as int]@);
        let ghost rest = modelines_from(lines.deep_view(), i + 1);
        match from_utf8(&lines[i]) {
            None => {
                assert(found@ + Seq::<Pair>::empty() =~= found@);
                return Ok(found);
            },
            Some(text) => {
                let cs = chars_of(text.as_str());
                match split_once_at(&cs, &marker) {
                    None => {},
                    Some((_, content_chars)) => {
                        let line_content = string_of(&content_chars);
                        let items = parse_multiple_key_value(line_content.as_str());
                        let ghost wanted = directives(content_chars@);
                        let ghost before = found@;
                        let ghost all = items@;
                        assert(before + Seq::<Pair>::empty() =~= before);
                        for item in it: items.into_iter()
                            invariant
                                it.seq() == all,
                                all.len() == wanted.len(),
                                forall|k: int|
                                    0 <= k < all.len() ==> reads_as(&#[trigger] all[k], wanted[k]),
                                modelines_of(content@) == followed_by(
                                    before,
                                    match pairs_from(wanted, 0) {
                                        Ok(pairs) => followed_by(pairs, rest),
                                        Err(e) => Err(e),
                                    },
                                ),
                                followed_by(before, pairs_from(wanted, 0)) == followed_by(
                                    found@,
                                    pairs_from(wanted, it.index() as int),
                                ),
                        {
                            let ghost j = it.index() as int;
                            assert(item == all[j]);
                            assert(reads_as(&all[j], wanted[j]));
                            match item {
                                Ok((k, v)) => {
                                    let ghost old_found = found@;
                                    let ghost pair = (k@, v@);
                                    found.pairs.push((k, v));
                                    assert(found@ =~= old_found.push(pair));
                                    proof {
                                        let more = pairs_from(wanted, j + 1);
                                        match more {
                                            Ok(m) => {
                                                assert(old_found + (seq![pair] + m)
                                                    =~= old_found.push(pair) + m);
                                            },
                                            Err(_) => {},
                                        }
                                    }
                                },
                                Err(e) => {
                                    return Err(e);
                                },
                            }
                        }
                        let ghost j = wanted.len() as int;
                        proof {
                            assert(pairs_from(wanted, j) == Ok::<Seq<Pair>, Seq<char>>(
                                Seq::empty(),
                            ));
                            assert(found@ + Seq::<Pair>::empty() =~= found@);
                            match pairs_from(wanted, 0) {
                                Ok(pairs) => {
                                    assert(before + pairs == found@);
                                    match rest {
                                        Ok(more) => {
                                            assert(before + (pairs + more) =~= (before + pairs)
                                                + more);
                                        },
                                        Err(_) => {},
                                    }
                                },
                                Err(_) => {},
                            }
                        }
                    },
                }
            },
        }
        i += 1;
    }
    assert(found@ + Seq::<Pair>::empty() =~= found@);
    Ok(found)
}

} // verus!
