//! Text helpers shared by the scanners.

use vstd::prelude::*;
use vstd::string::*;

verus! {

/// The characters of `s`, in order.
pub fn chars_of(s: &str) -> (v: Vec<char>)
    ensures
        v@ == s@,
{
    let mut v: Vec<char> = Vec::new();
    for c in it: s.chars()
        invariant
            v@ == it.seq().take(it.index()),
            it.seq() == s@,
    {
        v.push(c);
    }
    v
}

/// `tail` is what `text` ends with.
pub open spec fn is_suffix(tail: Seq<char>, text: Seq<char>) -> bool {
    tail.len() <= text.len() && text.skip(text.len() - tail.len()) == tail
}

/// Tells whether `text` begins with `head`.
pub fn begins_with(text: &Vec<char>, head: &Vec<char>) -> (yes: bool)
    ensures
        yes == head@.is_prefix_of(text@),
{
    if head.len() > text.len() {
        return false;
    }
    let mut i: usize = 0;
    while i < head.len()
        invariant
            i <= head.len() <= text.len(),
            forall|k: int| 0 <= k < i ==> text[k] == head[k],
        decreases head.len() - i,
    {
        if text[i] != head[i] {
            return false;
        }
        i += 1;
    }
    true
}

/// Tells whether `text` ends with `tail`.
pub fn ends_with(text: &Vec<char>, tail: &Vec<char>) -> (yes: bool)
    ensures
        yes == is_suffix(tail@, text@),
{
    if tail.len() > text.len() {
        return false;
    }
    let shift = text.len() - tail.len();
    let mut i: usize = 0;
    while i < tail.len()
        invariant
            i <= tail.len(),
            shift + tail.len() == text.len(),
            forall|k: int| 0 <= k < i ==> text[shift + k] == tail[k],
        decreases tail.len() - i,
    {
        if text[shift + i] != tail[i] {
            return false;
        }
        i += 1;
    }
    assert(text@.skip(shift as int) =~= tail@);
    true
}

/// What follows `head` in `text`, if `text` begins with `head`.
pub fn after_prefix(text: &str, head: &str) -> (rest: Option<String>)
    ensures
        rest is Some <==> head@.is_prefix_of(text@),
        rest matches Some(r) ==> r@ == text@.skip(head@.len() as int),
{
    let chars = chars_of(text);
    let head_chars = chars_of(head);
    if begins_with(&chars, &head_chars) {
        let rest = text.substring_char(head_chars.len(), chars.len());
        Some(rest.to_owned())
    } else {
        None
    }
}

/// What stands before `tail` in `text`, if `text` ends with `tail`.
pub fn before_suffix(text: &str, tail: &str) -> (rest: Option<String>)
    ensures
        rest is Some <==> is_suffix(tail@, text@),
        rest matches Some(r) ==> r@ == text@.take(text@.len() - tail@.len()),
{
    let chars = chars_of(text);
    let tail_chars = chars_of(tail);
    if ends_with(&chars, &tail_chars) {
        let rest = text.substring_char(0, chars.len() - tail_chars.len());
        Some(rest.to_owned())
    } else {
        None
    }
}

/// A decimal digit.
pub open spec fn is_digit(c: char) -> bool {
    '0' <= c <= '9'
}

/// A digit string that is not empty.
pub open spec fn is_number(s: Seq<char>) -> bool {
    s.len() > 0 && forall|i: int| 0 <= i < s.len() ==> is_digit(#[trigger] s[i])
}

/// The number that a digit string shows.
pub open spec fn number_value(s: Seq<char>) -> nat
    decreases s.len(),
{
    if s.len() == 0 {
        0
    } else {
        number_value(s.drop_last()) * 10 + (s.last() as u32 - '0' as u32) as nat
    }
}

/// The character that shows the digit `d`.
pub open spec fn digit_char(d: nat) -> char {
    if d == 0 {
        '0'
    } else if d == 1 {
        '1'
    } else if d == 2 {
        '2'
    } else if d == 3 {
        '3'
    } else if d == 4 {
        '4'
    } else if d == 5 {
        '5'
    } else if d == 6 {
        '6'
    } else if d == 7 {
        '7'
    } else if d == 8 {
        '8'
    } else {
        '9'
    }
}

/// The decimal digits of `n`, without zeros in front.
pub open spec fn decimal_text(n: nat) -> Seq<char>
    decreases n,
{
    if n < 10 {
        seq![digit_char(n)]
    } else {
        decimal_text(n / 10).push(digit_char(n % 10))
    }
}

/// The text of one digit.
fn digit_text(d: usize) -> (text: &'static str)
    requires
        d < 10,
    ensures
        text@ == seq![digit_char(d as nat)],
{
    proof {
        reveal_strlit("0");
        reveal_strlit("1");
        reveal_strlit("2");
        reveal_strlit("3");
        reveal_strlit("4");
        reveal_strlit("5");
        reveal_strlit("6");
        reveal_strlit("7");
        reveal_strlit("8");
        reveal_strlit("9");
    }
    let text = if d == 0 {
        "0"
    } else if d == 1 {
        "1"
    } else if d == 2 {
        "2"
    } else if d == 3 {
        "3"
    } else if d == 4 {
        "4"
    } else if d == 5 {
        "5"
    } else if d == 6 {
        "6"
    } else if d == 7 {
        "7"
    } else if d == 8 {
        "8"
    } else {
        "9"
    };
    text
}

/// Writes `n` in decimal digits.
pub fn decimal(n: usize) -> (text: String)
    ensures
        text@ == decimal_text(n as nat),
    decreases n,
{
    if n < 10 {
        String::from_str(digit_text(n))
    } else {
        let mut text = decimal(n / 10);
        text.append(digit_text(n % 10));
        text
    }
}

/// What `decimal` writes is a number, and it shows the number written.
pub proof fn lemma_decimal_reads_back(n: nat)
    ensures
        is_number(decimal_text(n)),
        number_value(decimal_text(n)) == n,
    decreases n,
{
    let text = decimal_text(n);
    if n < 10 {
        assert(number_value(text.drop_last()) == 0);
    } else {
        lemma_decimal_reads_back(n / 10);
        assert(text.drop_last() =~= decimal_text(n / 10));
        assert forall|i: int| 0 <= i < text.len() implies is_digit(#[trigger] text[i]) by {
            if i < text.len() - 1 {
                assert(text[i] == decimal_text(n / 10)[i]);
            }
        }
    }
}

} // verus!
