//! Text as bytes: where a separator stands, what stands before it and
//! behind it, the lines of a text, and decimal numbers.

use vstd::prelude::*;

verus! {

/// The byte `/`, which parts the directory of a crate from its name.
pub const SLASH: u8 = 47;

/// The byte `.`, which parts the numbers of a version.
pub const DOT: u8 = 46;

/// The byte `+`, which may stand before a number.
pub const PLUS: u8 = 43;

/// The byte of the digit `0`.
pub const ZERO: u8 = 48;

/// The byte of the digit `9`.
pub const NINE: u8 = 57;

/// The byte of a line feed, which ends a line.
pub const NEWLINE: u8 = 10;

/// The byte of a carriage return, which may stand before a line feed.
pub const RETURN: u8 = 13;

/// The byte of a space.
pub const SPACE: u8 = 32;

/// The index of the first `sep` in `s`, or the length of `s` where there
/// is none.
pub open spec fn index_of(s: Seq<u8>, sep: u8) -> int
    decreases s.len(),
{
    if s.len() == 0 || s[0] == sep {
        0
    } else {
        1 + index_of(s.drop_first(), sep)
    }
}

/// What stands in `s` before the first `sep`: all of `s` where there is
/// none.
pub open spec fn before(s: Seq<u8>, sep: u8) -> Seq<u8> {
    s.take(index_of(s, sep))
}

/// What stands in `s` behind the first `sep`, where there is one.
pub open spec fn behind(s: Seq<u8>, sep: u8) -> Option<Seq<u8>> {
    if index_of(s, sep) < s.len() {
        Some(s.skip(index_of(s, sep) + 1))
    } else {
        None
    }
}

/// `index_of` is the one index before which no `sep` stands and at which
/// one does, or the text ends.
pub proof fn lemma_index_of(s: Seq<u8>, sep: u8, at: int)
    requires
        0 <= at <= s.len(),
        forall|i: int| 0 <= i < at ==> s[i] != sep,
        at < s.len() ==> s[at] == sep,
    ensures
        index_of(s, sep) == at,
    decreases s.len(),
{
    if s.len() != 0 && s[0] != sep {
        let rest = s.drop_first();
        assert forall|i: int| 0 <= i < at - 1 implies rest[i] != sep by {
            assert(rest[i] == s[i + 1]);
        }
        lemma_index_of(rest, sep, at - 1);
    }
}

/// The index of the first `sep` in `s` at or behind `from`, or the length
/// of `s` where there is none.
pub(crate) fn find(s: &[u8], sep: u8, from: usize) -> (at: usize)
    requires
        from <= s@.len(),
    ensures
        from <= at <= s@.len(),
        at - from == index_of(s@.skip(from as int), sep),
{
    let mut at = from;
    while at < s.len() && s[at] != sep
        invariant
            from <= at <= s@.len(),
            forall|i: int| from <= i < at ==> s@[i] != sep,
        decreases s@.len() - at,
    {
        at += 1;
    }
    proof {
        let rest = s@.skip(from as int);
        assert forall|i: int| 0 <= i < at - from implies rest[i] != sep by {
            assert(rest[i] == s@[from + i]);
        }
        lemma_index_of(rest, sep, at - from);
    }
    at
}

/// `index_of` does not pass a `sep`.
pub proof fn lemma_index_reaches(s: Seq<u8>, sep: u8, at: int)
    requires
        0 <= at < s.len(),
        s[at] == sep,
    ensures
        index_of(s, sep) <= at,
    decreases s.len(),
{
    if s[0] != sep {
        lemma_index_reaches(s.drop_first(), sep, at - 1);
    }
}

/// The index of the first `sep` lies within the text or at its end.
pub proof fn lemma_index_bounds(s: Seq<u8>, sep: u8)
    ensures
        0 <= index_of(s, sep) <= s.len(),
        forall|i: int| 0 <= i < index_of(s, sep) ==> s[i] != sep,
        index_of(s, sep) < s.len() ==> s[index_of(s, sep)] == sep,
    decreases s.len(),
{
    if s.len() != 0 && s[0] != sep {
        let rest = s.drop_first();
        lemma_index_bounds(rest, sep);
        assert forall|i: int| 0 <= i < index_of(s, sep) implies s[i] != sep by {
            if i > 0 {
                assert(rest[i - 1] == s[i]);
            }
        }
    }
}

/// A line without the carriage return at its end, if it has one.
pub open spec fn without_return(line: Seq<u8>) -> Seq<u8> {
    if line.len() > 0 && line.last() == RETURN {
        line.drop_last()
    } else {
        line
    }
}

/// The lines of a text. A line ends with a line feed, or with a carriage
/// return and a line feed, which are no part of it; what follows the last
/// line feed is a line too, unless it is empty.
pub open spec fn lines_of(text: Seq<u8>) -> Seq<Seq<u8>>
    decreases text.len(),
{
    if text.len() == 0 {
        Seq::empty()
    } else if 0 <= index_of(text, NEWLINE) < text.len() {
        seq![without_return(before(text, NEWLINE))] + lines_of(
            text.skip(index_of(text, NEWLINE) + 1),
        )
    } else {
        seq![text]
    }
}

/// The bytes of each of the slices `lines`.
pub open spec fn views(lines: Seq<&[u8]>) -> Seq<Seq<u8>> {
    Seq::new(lines.len(), |i: int| lines[i]@)
}

/// Splits a text into its lines, as `lines_of` says.
pub fn lines(text: &[u8]) -> (lines: Vec<&[u8]>)
    ensures
        views(lines@) == lines_of(text@),
{
    let len = text.len();
    let mut lines: Vec<&[u8]> = Vec::new();
    let mut from: usize = 0;
    proof {
        assert(text@.skip(0) =~= text@);
        assert(views(lines@) + lines_of(text@) =~= lines_of(text@));
    }
    while from < len
        invariant
            from <= len == text@.len(),
            views(lines@) + lines_of(text@.skip(from as int)) == lines_of(text@),
        decreases len - from,
    {
        let ghost rest = text@.skip(from as int);
        let ghost done = views(lines@);
        let end = find(text, NEWLINE, from);
        proof {
            lemma_index_bounds(rest, NEWLINE);
        }
        let line: &[u8] = if end == len {
            &text[from..len]
        } else if end > from && text[end - 1] == RETURN {
            &text[from..end - 1]
        } else {
            &text[from..end]
        };
        let next = if end == len {
            len
        } else {
            end + 1
        };
        lines.push(line);
        proof {
            let head = rest.take(end - from);
            assert(text@.subrange(from as int, end as int) =~= head);
            assert(views(lines@) =~= done + seq![line@]);
            if end == len {
                assert(head =~= rest);
                assert(line@ == rest);
                assert(lines_of(text@.skip(next as int)) =~= Seq::<Seq<u8>>::empty());
                assert(lines_of(rest) =~= seq![rest]);
            } else {
                assert(rest.skip(end - from + 1) =~= text@.skip(next as int));
                if end > from && text@[end - 1] == RETURN {
                    assert(head.last() == text@[end - 1]);
                    assert(text@.subrange(from as int, end - 1) =~= head.drop_last());
                } else if end > from {
                    assert(head.last() == text@[end - 1]);
                }
                assert(line@ == without_return(head));
                assert(lines_of(rest) =~= seq![line@] + lines_of(text@.skip(next as int)));
            }
            assert(views(lines@) + lines_of(text@.skip(next as int)) =~= done + lines_of(rest));
        }
        from = next;
    }
    proof {
        assert(lines_of(text@.skip(from as int)) =~= Seq::<Seq<u8>>::empty());
        assert(views(lines@) + Seq::<Seq<u8>>::empty() =~= views(lines@));
    }
    lines
}

/// Whether two texts are the same, byte for byte.
pub fn same(a: &[u8], b: &[u8]) -> (same: bool)
    ensures
        same == (a@ == b@),
{
    if a.len() != b.len() {
        return false;
    }
    let mut at: usize = 0;
    while at < a.len()
        invariant
            at <= a@.len() == b@.len(),
            forall|i: int| 0 <= i < at ==> a@[i] == b@[i],
        decreases a@.len() - at,
    {
        if a[at] != b[at] {
            return false;
        }
        at += 1;
    }
    proof {
        assert(a@ =~= b@);
    }
    true
}

/// Whether `name` is one of `list`.
pub fn listed(list: &[&[u8]], name: &[u8]) -> (found: bool)
    ensures
        found == views(list@).contains(name@),
{
    let mut at: usize = 0;
    while at < list.len()
        invariant
            at <= list@.len(),
            forall|i: int| 0 <= i < at ==> views(list@)[i] != name@,
        decreases list@.len() - at,
    {
        if same(list[at], name) {
            proof {
                assert(views(list@)[at as int] == name@);
            }
            return true;
        }
        at += 1;
    }
    false
}

/// Whether `byte` is a decimal digit.
pub open spec fn is_digit(byte: u8) -> bool {
    ZERO <= byte <= NINE
}

/// Whether every byte of `s` is a decimal digit.
pub open spec fn all_digits(s: Seq<u8>) -> bool {
    forall|i: int| 0 <= i < s.len() ==> is_digit(#[trigger] s[i])
}

/// The number that the digits `s` spell.
pub open spec fn digits_value(s: Seq<u8>) -> nat
    decreases s.len(),
{
    if s.len() == 0 {
        0
    } else {
        digits_value(s.drop_last()) * 10 + (s.last() - ZERO) as nat
    }
}

/// The number that `s` spells: one digit or more, after a `+` or without
/// one, of a value that fits in 64 bits.
pub open spec fn number(s: Seq<u8>) -> Option<u64> {
    let digits = if s.len() > 0 && s[0] == PLUS {
        s.skip(1)
    } else {
        s
    };
    if digits.len() > 0 && all_digits(digits) && digits_value(digits) <= u64::MAX {
        Some(digits_value(digits) as u64)
    } else {
        None
    }
}

/// Digits that follow do not make a number smaller.
proof fn lemma_digits_grow(s: Seq<u8>, upto: int)
    requires
        0 <= upto <= s.len(),
        all_digits(s),
    ensures
        digits_value(s.take(upto)) <= digits_value(s),
    decreases s.len() - upto,
{
    if upto == s.len() {
        assert(s.take(upto) =~= s);
    } else {
        let more = s.take(upto + 1);
        assert(more.drop_last() =~= s.take(upto));
        assert(is_digit(s[upto]));
        assert(more.last() == s[upto]);
        lemma_digits_grow(s, upto + 1);
    }
}

/// Reads a number as `number` says.
pub fn parse_number(s: &[u8]) -> (value: Option<u64>)
    ensures
        value == number(s@),
{
    let len = s.len();
    let start: usize = if len > 0 && s[0] == PLUS {
        1
    } else {
        0
    };
    if start == len {
        return None;
    }
    let ghost digits = s@.skip(start as int);
    proof {
        assert(s@.skip(0) =~= s@);
    }
    let mut value: u64 = 0;
    let mut at = start;
    while at < len
        invariant
            start <= at <= len == s@.len(),
            start < len,
            digits == s@.skip(start as int),
            digits == if s@.len() > 0 && s@[0] == PLUS {
                s@.skip(1)
            } else {
                s@
            },
            all_digits(digits.take(at - start)),
            value == digits_value(digits.take(at - start)),
        decreases len - at,
    {
        let byte = s[at];
        let ghost seen = digits.take(at - start);
        let ghost more = digits.take(at - start + 1);
        proof {
            assert(more.drop_last() =~= seen);
            assert(more.last() == byte);
        }
        if byte < ZERO || byte > NINE {
            proof {
                assert(digits[at - start] == byte);
            }
            return None;
        }
        proof {
            assert forall|i: int| 0 <= i < more.len() implies is_digit(#[trigger] more[i]) by {
                if i < seen.len() {
                    assert(seen[i] == more[i]);
                }
            }
        }
        let digit = (byte - ZERO) as u64;
        if value > (u64::MAX - digit) / 10 {
            proof {
                assert(digits_value(more) > u64::MAX);
                if all_digits(digits) {
                    lemma_digits_grow(digits, at - start + 1);
                }
            }
            return None;
        }
        value = value * 10 + digit;
        at += 1;
    }
    proof {
        assert(digits.take(at - start) =~= digits);
    }
    Some(value)
}

/// The decimal digits of `n`: no zero stands in front, and zero is `0`.
pub open spec fn digits_of(n: nat) -> Seq<u8>
    decreases n,
{
    if n < 10 {
        seq![(ZERO + n) as u8]
    } else {
        digits_of(n / 10).push((ZERO + n % 10) as u8)
    }
}

/// The digits of a number spell it: they are digits, one or more, their
/// value is the number, and they are read as the number where it fits in
/// 64 bits.
pub proof fn lemma_digits_of(n: nat)
    ensures
        digits_of(n).len() > 0,
        all_digits(digits_of(n)),
        digits_value(digits_of(n)) == n,
        n <= u64::MAX ==> number(digits_of(n)) == Some(n as u64),
    decreases n,
{
    let digits = digits_of(n);
    assert(digits_value(digits) == digits_value(digits.drop_last()) * 10 + (digits.last()
        - ZERO) as nat);
    if n < 10 {
        assert(digits.drop_last() =~= Seq::<u8>::empty());
        assert(digits_value(digits.drop_last()) == 0);
        assert(digits.last() == (ZERO + n) as u8);
    } else {
        let front = digits_of(n / 10);
        lemma_digits_of(n / 10);
        assert(digits.drop_last() =~= front);
        assert(digits.last() == (ZERO + n % 10) as u8);
        assert forall|i: int| 0 <= i < digits.len() implies is_digit(#[trigger] digits[i]) by {
            if i < front.len() {
                assert(digits[i] == front[i]);
            }
        }
    }
    assert(is_digit(digits[0]));
}

/// Writes a number in decimal digits.
pub fn format_number(n: u64) -> (text: Vec<u8>)
    ensures
        text@ == digits_of(n as nat),
    decreases n,
{
    if n < 10 {
        let mut text: Vec<u8> = Vec::new();
        text.push(ZERO + n as u8);
        proof {
            assert(text@ =~= digits_of(n as nat));
        }
        text
    } else {
        let mut text = format_number(n / 10);
        text.push(ZERO + (n % 10) as u8);
        text
    }
}

} // verus!
