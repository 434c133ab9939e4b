//! Reading a guess out of one line of text: surrounding white space is
//! dropped, and what is left must be an unsigned decimal number, of any size,
//! with an optional leading `+`.

use vstd::prelude::*;

verus! {

/// The characters with the Unicode property White_Space.
pub open spec fn is_white_space(c: char) -> bool {
    let n = c as u32;
    n == 0x20 || (0x09 <= n && n <= 0x0d) || n == 0x85 || n == 0xa0 || n == 0x1680 || (0x2000
        <= n && n <= 0x200a) || n == 0x2028 || n == 0x2029 || n == 0x202f || n == 0x205f || n
        == 0x3000
}

/// The text without its leading and trailing white space.
pub open spec fn trimmed(s: Seq<char>) -> Seq<char>
    decreases s.len(),
{
    if s.len() > 0 && is_white_space(s[0]) {
        trimmed(s.drop_first())
    } else if s.len() > 0 && is_white_space(s.last()) {
        trimmed(s.drop_last())
    } else {
        s
    }
}

/// An ASCII decimal digit.
pub open spec fn is_digit(c: char) -> bool {
    0x30 <= (c as u32) && (c as u32) <= 0x39
}

/// Every character is a decimal digit.
pub open spec fn all_digits(s: Seq<char>) -> bool {
    forall|k: int| 0 <= k < s.len() ==> is_digit(#[trigger] s[k])
}

/// The value of a digit character.
pub open spec fn digit_value(c: char) -> nat {
    ((c as u32) - 0x30) as nat
}

/// The number that a string of decimal digits writes, most significant first.
pub open spec fn digits_value(s: Seq<char>) -> nat
    decreases s.len(),
{
    if s.len() == 0 {
        0
    } else {
        digits_value(s.drop_last()) * 10 + digit_value(s.last())
    }
}

/// The text after an optional leading `+`.
pub open spec fn unsigned_part(s: Seq<char>) -> Seq<char> {
    if s.len() > 0 && s[0] == '+' {
        s.drop_first()
    } else {
        s
    }
}

/// The number that the text writes in decimal, whatever its size: one or
/// more digits after an optional `+`.
pub open spec fn numeral_value(s: Seq<char>) -> Option<nat> {
    let d = unsigned_part(s);
    if d.len() > 0 && all_digits(d) {
        Some(digits_value(d))
    } else {
        None
    }
}

/// The smaller of a value and a cap.
pub open spec fn capped(v: nat, cap: nat) -> nat {
    if v <= cap {
        v
    } else {
        cap
    }
}

/// The guess that the text writes, held as a `u32`: a number beyond
/// `u32::MAX` is held as `u32::MAX`, which compares with every secret as the
/// number itself does.
pub open spec fn parsed_guess(s: Seq<char>) -> Option<u32> {
    match numeral_value(s) {
        Some(v) => Some(capped(v, u32::MAX as nat) as u32),
        None => None,
    }
}

/// The number that a line of input writes, once trimmed, if any.
pub open spec fn written_number(line: Seq<char>) -> Option<nat> {
    numeral_value(trimmed(line))
}

/// The guess that a line of input holds, if any.
pub open spec fn guess_of(line: Seq<char>) -> Option<u32> {
    parsed_guess(trimmed(line))
}

/// Cutting away white space on both sides by hand gives the trimmed text.
proof fn lemma_trimmed_between(s: Seq<char>, i: int, j: int)
    requires
        0 <= i <= j <= s.len(),
        forall|k: int| 0 <= k < i ==> is_white_space(#[trigger] s[k]),
        forall|k: int| j <= k < s.len() ==> is_white_space(#[trigger] s[k]),
        i < j ==> !is_white_space(s[i]) && !is_white_space(s[j - 1]),
    ensures
        trimmed(s) == s.subrange(i, j),
    decreases s.len(),
{
    if s.len() > 0 && is_white_space(s[0]) {
        let t = s.drop_first();
        if i > 0 {
            assert(forall|k: int| 0 <= k < i - 1 ==> t[k] == s[k + 1]);
            assert(forall|k: int| j - 1 <= k < t.len() ==> t[k] == s[k + 1]);
            lemma_trimmed_between(t, i - 1, j - 1);
            assert(t.subrange(i - 1, j - 1) =~= s.subrange(i, j));
        } else {
            assert(j == 0);
            assert(forall|k: int| 0 <= k < t.len() ==> t[k] == s[k + 1]);
            lemma_trimmed_between(t, 0, 0);
            assert(t.subrange(0, 0) =~= s.subrange(i, j));
        }
    } else if s.len() > 0 && is_white_space(s.last()) {
        let t = s.drop_last();
        if j == s.len() {
            assert(i < j ==> !is_white_space(s[j - 1]));
            assert(i == j);
            assert(i > 0 ==> is_white_space(s[0]));
        }
        assert(j < s.len());
        lemma_trimmed_between(t, i, j);
        assert(t.subrange(i, j) =~= s.subrange(i, j));
    } else {
        if s.len() > 0 {
            assert(i > 0 ==> is_white_space(s[0]));
            assert(j < s.len() ==> is_white_space(s[s.len() - 1]));
        }
        assert(s.subrange(i, j) =~= s);
    }
}

/// Tells whether a character is white space, as `char::is_whitespace` does.
pub fn is_blank(c: char) -> (r: bool)
    ensures
        r == is_white_space(c),
{
    let n = c as u32;
    n == 0x20 || (0x09 <= n && n <= 0x0d) || n == 0x85 || n == 0xa0 || n == 0x1680 || (0x2000
        <= n && n <= 0x200a) || n == 0x2028 || n == 0x2029 || n == 0x202f || n == 0x205f || n
        == 0x3000
}

/// The line without its leading and trailing white space, line terminator
/// included.
pub fn trim_line(line: &str) -> (r: &str)
    ensures
        r@ == trimmed(line@),
{
    let n = line.unicode_len();
    let mut i: usize = 0;
    while i < n && is_blank(line.get_char(i))
        invariant
            i <= n,
            n == line@.len(),
            forall|k: int| 0 <= k < i ==> is_white_space(#[trigger] line@[k]),
        decreases n - i,
    {
        i += 1;
    }
    let mut j: usize = n;
    while j > i && is_blank(line.get_char(j - 1))
        invariant
            i <= j <= n,
            n == line@.len(),
            forall|k: int| j <= k < n ==> is_white_space(#[trigger] line@[k]),
        decreases j - i,
    {
        j -= 1;
    }
    proof {
        lemma_trimmed_between(line@, i as int, j as int);
    }
    line.substring_char(i, j)
}

/// The number written by the digits of `text` from `start` on, capped at
/// `cap`, if they are all digits.
fn digits_capped(text: &str, start: usize, cap: u64) -> (r: Option<u64>)
    requires
        start < text@.len(),
    ensures
        ({
            let d = text@.subrange(start as int, text@.len() as int);
            r == if all_digits(d) {
                Some(capped(digits_value(d), cap as nat) as u64)
            } else {
                None
            }
        }),
{
    let n = text.unicode_len();
    let ghost d = text@.subrange(start as int, n as int);
    let mut acc: u128 = 0;
    let mut i: usize = start;
    while i < n
        invariant
            start <= i <= n,
            n == text@.len(),
            d == text@.subrange(start as int, n as int),
            all_digits(d.subrange(0, i - start)),
            acc == capped(digits_value(d.subrange(0, i - start)), cap as nat),
        decreases n - i,
    {
        let c = text.get_char(i);
        let code = c as u32;
        if code < 0x30 || code > 0x39 {
            assert(d[i - start] == c);
            assert(!all_digits(d));
            return None;
        }
        let ghost before = d.subrange(0, i - start);
        let ghost after = d.subrange(0, i - start + 1);
        assert(after.drop_last() =~= before);
        assert(after.last() == c);
        assert(digits_value(after) == digits_value(before) * 10 + digit_value(c));
        if acc < cap as u128 {
            acc = acc * 10 + (code - 0x30) as u128;
            if acc > cap as u128 {
                acc = cap as u128;
            }
        }
        i += 1;
        assert(all_digits(after));
    }
    assert(d.subrange(0, n - start) =~= d);
    Some(acc as u64)
}

/// The guess that the text writes in decimal: digits only, after an optional
/// `+`, and at least one of them. A number beyond `u32::MAX` is held as
/// `u32::MAX`.
pub fn parse_number(text: &str) -> (r: Option<u32>)
    ensures
        r == parsed_guess(text@),
{
    let n = text.unicode_len();
    let mut start: usize = 0;
    if n > 0 && text.get_char(0) == '+' {
        start = 1;
    }
    assert(unsigned_part(text@) =~= text@.subrange(start as int, n as int));
    if start == n {
        return None;
    }
    match digits_capped(text, start, 0xffff_ffff) {
        Some(v) => Some(v as u32),
        None => None,
    }
}

/// The `i64` that the text writes in decimal, if it writes one.
pub open spec fn parsed_i64(s: Seq<char>) -> Option<i64> {
    if s.len() > 0 && s[0] == '-' {
        let d = s.drop_first();
        if d.len() > 0 && all_digits(d) && digits_value(d) <= 0x8000_0000_0000_0000 {
            Some((-digits_value(d)) as i64)
        } else {
            None
        }
    } else {
        let d = unsigned_part(s);
        if d.len() > 0 && all_digits(d) && digits_value(d) <= i64::MAX {
            Some(digits_value(d) as i64)
        } else {
            None
        }
    }
}

/// The `i64` that the text writes in decimal: digits only, after an optional
/// `+` or `-`, and at least one of them.
pub fn parse_signed(text: &str) -> (r: Option<i64>)
    ensures
        r == parsed_i64(text@),
{
    let n = text.unicode_len();
    if n == 0 {
        return None;
    }
    let first = text.get_char(0);
    let negative = first == '-';
    let start: usize = if first == '+' || negative {
        1
    } else {
        0
    };
    assert(text@.drop_first() =~= text@.subrange(1, n as int));
    assert(text@.subrange(0, n as int) =~= text@);
    if start == n {
        return None;
    }
    if negative {
        match digits_capped(text, start, 0x8000_0000_0000_0001) {
            Some(v) => if v <= 0x8000_0000_0000_0000 {
                Some((0 - (v as i128)) as i64)
            } else {
                None
            },
            None => None,
        }
    } else {
        match digits_capped(text, start, 0x8000_0000_0000_0000) {
            Some(v) => if v <= 0x7fff_ffff_ffff_ffff {
                Some(v as i64)
            } else {
                None
            },
            None => None,
        }
    }
}

/// The number that a line of input holds, if any.
pub fn read_number(line: &str) -> (r: Option<i64>)
    ensures
        r == parsed_i64(trimmed(line@)),
{
    parse_signed(trim_line(line))
}

/// The guess that a line of input holds, if any.
pub fn read_guess(line: &str) -> (r: Option<u32>)
    ensures
        r == guess_of(line@),
{
    parse_number(trim_line(line))
}

} // verus!
