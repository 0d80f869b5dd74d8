use super::parser::ParseError;
use crate::text::{chars_of, string_of};
use vstd::prelude::*;

verus! {

/// Permission bits of a file. Zero stands for "no mode declared".
#[derive(Debug)]
pub struct Mode(pub u32);

/// How many `0` characters stand in a row from `from` on.
pub open spec fn zero_run(s: Seq<char>, from: int) -> nat
    decreases s.len() - from,
{
    if 0 <= from < s.len() && s[from] == '0' {
        1 + zero_run(s, from + 1)
    } else {
        0
    }
}

/// Whether a character is an octal digit.
pub open spec fn is_octal_digit(c: char) -> bool {
    '0' as u32 <= c as u32 <= '7' as u32
}

/// The number that octal digits write.
pub open spec fn octal_value(digits: Seq<char>) -> nat
    decreases digits.len(),
{
    if digits.len() == 0 {
        0
    } else {
        (8 * octal_value(digits.drop_last()) + (digits.last() as u32 - '0' as u32)) as nat
    }
}

/// Whether all the characters are octal digits.
pub open spec fn all_octal(digits: Seq<char>) -> bool {
    forall|i: int| 0 <= i < digits.len() ==> is_octal_digit(#[trigger] digits[i])
}

/// The digits of a mode string: what follows its leading zeros, without
/// the plus sign that may stand before further characters there.
pub open spec fn significant(text: Seq<char>) -> Seq<char> {
    let rest = text.skip(zero_run(text, 0) as int);
    if rest.len() > 1 && rest[0] == '+' {
        rest.skip(1)
    } else {
        rest
    }
}

/// The permission bits that a mode string declares: its digits must be
/// octal digits, at least one, and write a number of at most nine bits.
pub open spec fn declared(text: Seq<char>) -> Option<u32> {
    let digits = significant(text);
    if digits.len() >= 1 && all_octal(digits) && octal_value(digits) <= 0o777 {
        Some(octal_value(digits) as u32)
    } else {
        None
    }
}

/// The character that writes an octal digit.
pub open spec fn octal_char(d: int) -> char {
    if d == 0 {
        '0'
    } else if d == 1 {
        '1'
    } else if d == 2 {
        '2'
    } else if d == 3 {
        '3'
    } else if d == 4 {
        '4'
    } else if d == 5 {
        '5'
    } else if d == 6 {
        '6'
    } else {
        '7'
    }
}

/// The character that writes an octal digit.
fn digit_char(d: u32) -> (c: char)
    requires
        d < 8,
    ensures
        c == octal_char(d as int),
{
    if d == 0 {
        '0'
    } else if d == 1 {
        '1'
    } else if d == 2 {
        '2'
    } else if d == 3 {
        '3'
    } else if d == 4 {
        '4'
    } else if d == 5 {
        '5'
    } else if d == 6 {
        '6'
    } else {
        '7'
    }
}

/// A run of zeros never reaches past the end of the text.
proof fn lemma_zero_run_bound(s: Seq<char>, from: int)
    requires
        0 <= from <= s.len(),
    ensures
        from + zero_run(s, from) <= s.len(),
    decreases s.len() - from,
{
    if from < s.len() && s[from] == '0' {
        lemma_zero_run_bound(s, from + 1);
    }
}

/// The number that the first digits write is at most the number that all
/// of them write.
proof fn lemma_prefix_value(digits: Seq<char>, k: int)
    requires
        all_octal(digits),
        0 <= k <= digits.len(),
    ensures
        octal_value(digits.take(k)) <= octal_value(digits),
    decreases digits.len(),
{
    if k == digits.len() {
        assert(digits.take(k) =~= digits);
    } else {
        let front = digits.drop_last();
        assert forall|i: int| 0 <= i < front.len() implies is_octal_digit(
            #[trigger] front[i],
        ) by {
            assert(front[i] == digits[i]);
        }
        lemma_prefix_value(front, k);
        assert(front.take(k) =~= digits.take(k));
        assert(is_octal_digit(digits.last()));
    }
}

/// A declared mode has no bits beyond the lowest nine.
pub proof fn lemma_declared_bound(text: Seq<char>)
    ensures
        declared(text) matches Some(bits) ==> bits <= 0o777 && bits == octal_value(
            significant(text),
        ),
{
}

/// The character that writes an octal digit is an octal digit, and
/// stands for it.
proof fn lemma_octal_char(d: int)
    requires
        0 <= d < 8,
    ensures
        is_octal_digit(octal_char(d)),
        octal_char(d) as u32 - '0' as u32 == d,
        octal_char(d) == '0' <==> d == 0,
{
}

/// The number that one to three octal digits write.
proof fn lemma_octal_value_of(digits: Seq<char>)
    requires
        forall|i: int| 0 <= i < digits.len() ==> is_octal_digit(#[trigger] digits[i]),
    ensures
        digits.len() == 1 ==> octal_value(digits) == digits[0] as u32 - '0' as u32,
        digits.len() == 2 ==> octal_value(digits) == 8 * (digits[0] as u32 - '0' as u32) + (
        digits[1] as u32 - '0' as u32),
        digits.len() == 3 ==> octal_value(digits) == 64 * (digits[0] as u32 - '0' as u32) + 8 * (
        digits[1] as u32 - '0' as u32) + (digits[2] as u32 - '0' as u32),
{
    reveal_with_fuel(octal_value, 4);
    if digits.len() == 1 {
        assert(digits.drop_last().len() == 0);
    } else if digits.len() == 2 {
        assert(digits.drop_last().drop_last().len() == 0);
        assert(digits.drop_last().last() == digits[0]);
    } else if digits.len() == 3 {
        assert(digits.drop_last().drop_last().drop_last().len() == 0);
        assert(digits.drop_last().last() == digits[1]);
        assert(digits.drop_last().drop_last().last() == digits[0]);
    }
}

/// Reading a mode as it is rendered gives the mode back.
pub proof fn lemma_mode_round_trip(mode: Mode)
    requires
        0 < mode.0 <= 0o777,
    ensures
        declared(mode.octal()) == Some(mode.0),
{
    let m = mode.0 as int;
    let a = (m / 64) % 8;
    let b = (m / 8) % 8;
    let c = m % 8;
    assert(m == 64 * a + 8 * b + c);
    lemma_octal_char(a);
    lemma_octal_char(b);
    lemma_octal_char(c);
    let text = mode.octal();
    assert(text.len() == 4 && text[0] == '0' && text[1] == octal_char(a) && text[2] == octal_char(b)
        && text[3] == octal_char(c));
    reveal_with_fuel(zero_run, 5);
    let skipped = zero_run(text, 0) as int;
    let digits = text.skip(skipped);
    assert('+' as u32 == 43 && '0' as u32 == 48);
    if a != 0 {
        assert(skipped == 1);
        assert(digits.len() == 3 && digits[0] == text[1] && digits[1] == text[2] && digits[2]
            == text[3]);
    } else if b != 0 {
        assert(skipped == 2);
        assert(digits.len() == 2 && digits[0] == text[2] && digits[1] == text[3]);
    } else {
        assert(c != 0);
        assert(skipped == 3);
        assert(digits.len() == 1 && digits[0] == text[3]);
    }
    assert forall|i: int| 0 <= i < digits.len() implies is_octal_digit(#[trigger] digits[i]) by {
        assert(digits[i] == text[skipped + i]);
    }
    assert(is_octal_digit(digits[0]));
    assert(significant(text) == digits);
    lemma_octal_value_of(digits);
}

impl Default for Mode {
    /// No mode declared.
    fn default() -> (r: Self)
        ensures
            r.0 == 0,
    {
        Mode(0)
    }
}

impl Mode {
    /// The permission bits as four octal digits, the first of them `0`:
    /// the form in which `chmod` is given them.
    pub open spec fn octal(&self) -> Seq<char> {
        seq![
            '0',
            octal_char((self.0 as int / 64) % 8),
            octal_char((self.0 as int / 8) % 8),
            octal_char(self.0 as int % 8),
        ]
    }

    /// Reads a mode string such as `644` or `0644`. Leading zeros are
    /// passed over, and so is a plus sign before the digits that follow
    /// them. Anything else comes back as an invalid file mode, with the
    /// text as it was given.
    pub fn try_from(mode: &String) -> (r: Result<Self, ParseError>)
        ensures
            match declared(mode@) {
                Some(bits) => r matches Ok(m) && m.0 == bits,
                None => r matches Err(ParseError::InvalidFileMode(text)) && text@ == mode@,
            },
    {
        let cs = chars_of(mode.as_str());
        let mut start: usize = 0;
        while start < cs.len() && cs[start] == '0'
            invariant
                start <= cs.len(),
                zero_run(cs@, 0) == start + zero_run(cs@, start as int),
            decreases cs.len() - start,
        {
            start += 1;
        }
        assert(zero_run(cs@, 0) == start);
        let ghost rest = cs@.skip(start as int);
        if cs.len() - start > 1 && cs[start] == '+' {
            assert(rest[0] == '+');
            start += 1;
            assert(rest.skip(1) =~= cs@.skip(start as int));
        }
        let ghost digits = cs@.skip(start as int);
        assert(digits == significant(mode@));
        let count: usize = cs.len() - start;
        if count < 1 {
            return Err(ParseError::InvalidFileMode(mode.clone()));
        }
        let mut value: u32 = 0;
        let mut i: usize = 0;
        assert(digits.take(0) =~= Seq::<char>::empty());
        while i < count
            invariant
                i <= count,
                cs@ == mode@,
                count == cs.len() - start,
                digits == cs@.skip(start as int),
                digits == significant(mode@),
                forall|j: int| 0 <= j < i ==> is_octal_digit(#[trigger] digits[j]),
                value == octal_value(digits.take(i as int)),
                value <= 0o777,
            decreases count - i,
        {
            let c = cs[start + i];
            assert(c == digits[i as int]);
            let u: u32 = c as u32;
            assert('0' as u32 == 48 && '7' as u32 == 55);
            if u < 48 || u > 55 {
                assert(!is_octal_digit(digits[i as int]));
                return Err(ParseError::InvalidFileMode(mode.clone()));
            }
            proof {
                assert(digits.take(i + 1).drop_last() =~= digits.take(i as int));
                assert(digits.take(i + 1).last() == c);
            }
            let next: u32 = value * 8 + (u - 48);
            if next > 0o777 {
                proof {
                    if all_octal(digits) {
                        lemma_prefix_value(digits, i + 1);
                    }
                }
                return Err(ParseError::InvalidFileMode(mode.clone()));
            }
            value = next;
            i += 1;
        }
        assert(digits.take(count as int) =~= digits);
        Ok(Mode(value))
    }

    /// Whether a file's mode bits, cut down to the lowest nine, are these
    /// permission bits.
    pub fn eq(&self, other: &u32) -> (r: bool)
        ensures
            r == (self.0 == *other & 0o777),
    {
        self.0 == (*other & 0o777)
    }

    /// Whether no mode was declared.
    pub fn is_empty(&self) -> (r: bool)
        ensures
            r == (self.0 == 0),
    {
        self.0 == 0
    }

    /// Renders the lowest nine permission bits as four octal digits.
    pub fn to_string(&self) -> (r: String)
        ensures
            r@ == self.octal(),
    {
        let mut cs: Vec<char> = Vec::new();
        cs.push('0');
        cs.push(digit_char((self.0 / 64) % 8));
        cs.push(digit_char((self.0 / 8) % 8));
        cs.push(digit_char(self.0 % 8));
        assert(cs@ =~= self.octal());
        string_of(&cs)
    }
}

} // verus!
