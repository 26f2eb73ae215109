//! Text building blocks: comparison and numbers.

use vstd::prelude::*;
use vstd::string::{StrSliceExecFns, StringExecFns};

verus! {

/// `String::push` appends one character.
pub assume_specification[ std::string::String::push ](text: &mut std::string::String, c: char)
    ensures
        final(text)@ == old(text)@.push(c),
;

/// `==` on `str`: whether two texts hold the same characters.
#[verifier::external_body]
pub(crate) fn text_eq(a: &str, b: &str) -> (equal: bool)
    ensures
        equal == (a@ == b@),
{
    a == b
}

/// The decimal digit for a number below ten.
pub open spec fn digit(n: nat) -> char {
    if n == 0 {
        '0'
    } else if n == 1 {
        '1'
    } else if n == 2 {
        '2'
    } else if n == 3 {
        '3'
    } else if n == 4 {
        '4'
    } else if n == 5 {
        '5'
    } else if n == 6 {
        '6'
    } else if n == 7 {
        '7'
    } else if n == 8 {
        '8'
    } else {
        '9'
    }
}

/// A number in decimal notation.
pub open spec fn decimal(n: nat) -> Seq<char>
    decreases n,
{
    if n < 10 {
        seq![digit(n)]
    } else {
        decimal(n / 10).push(digit(n % 10))
    }
}

/// A possibly negative number in decimal notation.
pub open spec fn signed_decimal(n: int) -> Seq<char> {
    if n < 0 {
        seq!['-'] + decimal((-n) as nat)
    } else {
        decimal(n as nat)
    }
}

fn digit_char(n: u128) -> (c: char)
    requires
        n < 10,
    ensures
        c == digit(n as nat),
{
    match n {
        0 => '0',
        1 => '1',
        2 => '2',
        3 => '3',
        4 => '4',
        5 => '5',
        6 => '6',
        7 => '7',
        8 => '8',
        _ => '9',
    }
}

/// Appends `n` in decimal notation.
pub fn push_decimal(out: &mut String, n: u128)
    ensures
        final(out)@ == old(out)@ + decimal(n as nat),
    decreases n,
{
    if n >= 10 {
        push_decimal(out, n / 10);
    }
    out.push(digit_char(n % 10));
    assert(out@ =~= old(out)@ + decimal(n as nat));
}

/// Appends `n` in decimal notation, with a sign if it is negative.
pub fn push_signed(out: &mut String, n: i128)
    ensures
        final(out)@ == old(out)@ + signed_decimal(n as int),
{
    if n < 0 {
        out.push('-');
        let magnitude: u128 = ((-(n + 1)) as u128) + 1;
        push_decimal(out, magnitude);
        assert(out@ =~= old(out)@ + signed_decimal(n as int));
    } else {
        push_decimal(out, n as u128);
    }
}

/// Appends all of `tail`.
pub fn push_text(out: &mut String, tail: &str)
    ensures
        final(out)@ == old(out)@ + tail@,
{
    out.append(tail);
}

pub open spec fn digit_value(c: char) -> nat {
    (c as nat - '0' as nat) as nat
}

/// The number a decimal notation stands for.
pub open spec fn decimal_value(s: Seq<char>) -> nat
    decreases s.len(),
{
    if s.len() == 0 {
        0
    } else {
        decimal_value(s.drop_last()) * 10 + digit_value(s.last())
    }
}

/// Decimal notation can be read back.
pub proof fn lemma_decimal_value(n: nat)
    ensures
        decimal_value(decimal(n)) == n,
    decreases n,
{
    if n < 10 {
        assert(decimal(n).drop_last() =~= Seq::<char>::empty());
        assert(decimal_value(Seq::<char>::empty()) == 0);
    } else {
        lemma_decimal_value(n / 10);
        assert(decimal(n).drop_last() =~= decimal(n / 10));
    }
}

/// Different numbers have different notations.
pub proof fn lemma_decimal_injective(a: nat, b: nat)
    ensures
        decimal(a) == decimal(b) <==> a == b,
{
    lemma_decimal_value(a);
    lemma_decimal_value(b);
}

/// A decimal notation holds digits only.
pub proof fn lemma_decimal_digits(n: nat)
    ensures
        forall|k: int| 0 <= k < decimal(n).len() ==> '0' <= #[trigger] decimal(n)[k] <= '9',
    decreases n,
{
    if n >= 10 {
        lemma_decimal_digits(n / 10);
        assert forall|k: int| 0 <= k < decimal(n).len() implies '0' <= #[trigger] decimal(n)[k]
            <= '9' by {
            if k < decimal(n).len() - 1 {
                assert(decimal(n)[k] == decimal(n / 10)[k]);
            } else {
                assert(decimal(n)[k] == digit(n % 10));
            }
        }
    }
}

/// A number at the end of a text, set off by a character that is no digit, can be told from it.
pub proof fn lemma_numbered_injective(f: Seq<char>, i: nat, g: Seq<char>, j: nat, mark: char)
    requires
        !('0' <= mark <= '9'),
        f.push(mark) + decimal(i) == g.push(mark) + decimal(j),
    ensures
        f == g,
        i == j,
{
    let a = f.push(mark) + decimal(i);
    let b = g.push(mark) + decimal(j);
    let m = f.len() as int;
    let n = g.len() as int;
    lemma_decimal_digits(i);
    lemma_decimal_digits(j);
    assert(a[m] == mark);
    assert(b[n] == mark);
    assert(a.skip(m + 1) =~= decimal(i));
    assert(b.skip(n + 1) =~= decimal(j));
    if m < n {
        assert(a[n] == a.skip(m + 1)[n - m - 1]);
    }
    if n < m {
        assert(b[m] == b.skip(n + 1)[m - n - 1]);
    }
    assert(a.take(m) =~= f);
    assert(b.take(n) =~= g);
    lemma_decimal_injective(i, j);
}

/// The characters of a text.
pub fn chars_of(text: &str) -> (chars: Vec<char>)
    ensures
        chars@ == text@,
{
    let mut chars: Vec<char> = Vec::new();
    for c in iter: text.chars()
        invariant
            iter.seq() == text@,
            chars@ == text@.take(iter.index() as int),
    {
        chars.push(c);
        assert(chars@ =~= text@.take(iter.index() + 1));
    }
    assert(text@.take(text@.len() as int) =~= text@);
    chars
}

/// Appends the characters from `from` to before `to`.
pub fn push_range(out: &mut String, chars: &Vec<char>, from: usize, to: usize)
    requires
        from <= to <= chars@.len(),
    ensures
        final(out)@ == old(out)@ + chars@.subrange(from as int, to as int),
{
    let mut i: usize = from;
    while i < to
        invariant
            from <= i <= to <= chars@.len(),
            out@ == old(out)@ + chars@.subrange(from as int, i as int),
        decreases to - i,
    {
        out.push(chars[i]);
        i = i + 1;
        assert(out@ =~= old(out)@ + chars@.subrange(from as int, i as int));
    }
}

/// The first place at or after `at` that holds the character.
pub open spec fn first_char(text: Seq<char>, c: char, at: nat) -> Option<nat>
    decreases text.len() - at,
{
    if at >= text.len() {
        None
    } else if text[at as int] == c {
        Some(at)
    } else {
        first_char(text, c, at + 1)
    }
}

pub fn find_char(chars: &Vec<char>, c: char, from: usize) -> (found: Option<usize>)
    ensures
        match found {
            Some(index) => first_char(chars@, c, from as nat) == Some(index as nat) && from <= index
                < chars@.len(),
            None => first_char(chars@, c, from as nat) is None,
        },
{
    let mut i: usize = from;
    while i < chars.len()
        invariant
            from <= i,
            first_char(chars@, c, from as nat) == first_char(chars@, c, i as nat),
        decreases chars@.len() - i,
    {
        if chars[i] == c {
            return Some(i);
        }
        i = i + 1;
    }
    None
}

/// The first place at or after `at` that holds `::`.
pub open spec fn first_colons(text: Seq<char>, at: nat) -> Option<nat>
    decreases text.len() - at,
{
    if at + 1 >= text.len() {
        None
    } else if text[at as int] == ':' && text[at as int + 1] == ':' {
        Some(at)
    } else {
        first_colons(text, at + 1)
    }
}

pub fn find_colons(chars: &Vec<char>, from: usize) -> (found: Option<usize>)
    ensures
        match found {
            Some(index) => first_colons(chars@, from as nat) == Some(index as nat) && from <= index
                && index + 1 < chars@.len(),
            None => first_colons(chars@, from as nat) is None,
        },
{
    let mut i: usize = from;
    while i < chars.len() && i + 1 < chars.len()
        invariant
            from <= i,
            first_colons(chars@, from as nat) == first_colons(chars@, i as nat),
        decreases chars@.len() - i,
    {
        if chars[i] == ':' && chars[i + 1] == ':' {
            return Some(i);
        }
        i = i + 1;
    }
    None
}

/// Where the part after the last `::` that ends at or before `end` starts: 0 if there is none.
pub open spec fn segment_start(text: Seq<char>, end: nat) -> nat
    decreases end,
{
    if end < 2 || end > text.len() {
        0
    } else if text[end - 2] == ':' && text[end - 1] == ':' {
        end
    } else {
        segment_start(text, (end - 1) as nat)
    }
}

/// The part of a qualified name after its last `::`.
pub open spec fn last_segment(text: Seq<char>) -> Seq<char> {
    text.skip(segment_start(text, text.len()) as int)
}

pub fn find_segment(chars: &Vec<char>) -> (start: usize)
    ensures
        start == segment_start(chars@, chars@.len()),
        start <= chars@.len(),
{
    let mut end: usize = chars.len();
    while end >= 2
        invariant
            end <= chars@.len(),
            segment_start(chars@, chars@.len()) == segment_start(chars@, end as nat),
        decreases end,
    {
        if chars[end - 2] == ':' && chars[end - 1] == ':' {
            return end;
        }
        end = end - 1;
    }
    0
}

/// A number in upper-case hexadecimal.
pub open spec fn hex_digit(n: nat) -> char {
    if n < 10 {
        digit(n)
    } else if n == 10 {
        'A'
    } else if n == 11 {
        'B'
    } else if n == 12 {
        'C'
    } else if n == 13 {
        'D'
    } else if n == 14 {
        'E'
    } else {
        'F'
    }
}

pub open spec fn hexadecimal(n: nat) -> Seq<char>
    decreases n,
{
    if n < 16 {
        seq![hex_digit(n)]
    } else {
        hexadecimal(n / 16).push(hex_digit(n % 16))
    }
}

fn hex_digit_char(n: u128) -> (c: char)
    requires
        n < 16,
    ensures
        c == hex_digit(n as nat),
{
    if n < 10 {
        digit_char(n)
    } else {
        match n {
            10 => 'A',
            11 => 'B',
            12 => 'C',
            13 => 'D',
            14 => 'E',
            _ => 'F',
        }
    }
}

/// Appends a number in upper-case hexadecimal.
pub fn push_hexadecimal(out: &mut String, n: u128)
    ensures
        final(out)@ == old(out)@ + hexadecimal(n as nat),
    decreases n,
{
    if n >= 16 {
        push_hexadecimal(out, n / 16);
    }
    out.push(hex_digit_char(n % 16));
    assert(out@ =~= old(out)@ + hexadecimal(n as nat));
}

/// A number in decimal notation.
pub fn decimal_text(n: u128) -> (text: String)
    ensures
        text@ == decimal(n as nat),
{
    let mut text = String::new();
    push_decimal(&mut text, n);
    assert(Seq::<char>::empty() + decimal(n as nat) =~= decimal(n as nat));
    text
}

} // verus!
