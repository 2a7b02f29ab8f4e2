//! Reading canonical text back: literals, numbers and strings.

use crate::storage::digest::hex_digit;
use crate::utils::{decimal, escaped, escaped_char, quoted};
use vstd::prelude::*;
use vstd::string::*;

verus! {

/// What is left of `text` from `pos` on.
pub open spec fn rest_from(text: Seq<char>, pos: int) -> Seq<char> {
    text.subrange(pos, text.len() as int)
}

/// What follows the literal `lit` at the front of `input`; `None` where
/// the input does not begin with it.
pub open spec fn after(input: Seq<char>, lit: Seq<char>) -> Option<Seq<char>> {
    if lit.len() <= input.len() && input.take(lit.len() as int) == lit {
        Some(input.skip(lit.len() as int))
    } else {
        None
    }
}

/// A literal is read back from the front of what begins with it.
pub proof fn lemma_after(lit: Seq<char>, rest: Seq<char>)
    ensures
        after(lit + rest, lit) == Some(rest),
{
    assert((lit + rest).take(lit.len() as int) =~= lit);
    assert((lit + rest).skip(lit.len() as int) =~= rest);
}

/// A literal whose first character differs from that of the input is not
/// at its front.
pub proof fn lemma_not_after(input: Seq<char>, lit: Seq<char>)
    requires
        lit.len() > 0,
        input.len() > 0 ==> input[0] != lit[0],
    ensures
        after(input, lit) is None,
{
    if lit.len() <= input.len() && input.take(lit.len() as int) == lit {
        assert(input.take(lit.len() as int)[0] == lit[0]);
    }
}

/// The characters of a string, in a vector.
pub fn chars_of(text: &str) -> (out: Vec<char>)
    ensures
        out@ == text@,
{
    let mut out: Vec<char> = Vec::new();
    for c in it: text.chars()
        invariant
            it.seq() == text@,
            out@ == it.seq().take(it.index() as int),
    {
        out.push(c);
        assert(it.seq().take(it.index() as int).push(c) =~= it.seq().take(it.index() + 1));
    }
    assert(text@.take(text@.len() as int) =~= text@);
    out
}

/// Reads the literal `lit` at `pos`; returns where the rest begins.
pub(crate) fn expect(text: &Vec<char>, pos: usize, lit: &str) -> (r: Option<usize>)
    requires
        pos <= text@.len(),
    ensures
        match after(rest_from(text@, pos as int), lit@) {
            Some(rest) => r matches Some(next) && pos <= next <= text@.len() && rest == rest_from(
                text@,
                next as int,
            ) && next == pos + lit@.len(),
            None => r is None,
        },
{
    let wanted = chars_of(lit);
    let ghost input = rest_from(text@, pos as int);
    if wanted.len() > text.len() - pos {
        return None;
    }
    let mut i: usize = 0;
    while i < wanted.len()
        invariant
            i <= wanted@.len(),
            wanted@ == lit@,
            pos + wanted@.len() <= text@.len() <= usize::MAX,
            input == rest_from(text@, pos as int),
            forall|j: int| 0 <= j < i ==> text@[pos + j] == wanted@[j],
        decreases wanted@.len() - i,
    {
        if text[pos + i] != wanted[i] {
            assert(input.take(lit@.len() as int)[i as int] == text@[pos + i]);
            return None;
        }
        i += 1;
    }
    assert(input.take(lit@.len() as int) =~= lit@);
    assert(input.skip(lit@.len() as int) =~= rest_from(text@, pos + lit@.len()));
    Some(pos + wanted.len())
}

/// Whether a character is a decimal digit.
pub open spec fn is_digit(c: char) -> bool {
    '0' <= c && c <= '9'
}

/// The number that a sequence of decimal digits stands for.
pub open spec fn digits_value(s: Seq<char>) -> nat
    decreases s.len(),
{
    if s.len() == 0 {
        0
    } else {
        digits_value(s.drop_last()) * 10 + (s.last() as nat - '0' as nat) as nat
    }
}

/// The number of decimal digits at the front of `input`.
pub open spec fn digit_run(input: Seq<char>) -> nat
    decreases input.len(),
{
    if input.len() > 0 && is_digit(input[0]) {
        1 + digit_run(input.drop_first())
    } else {
        0
    }
}

/// The number at the front of `input`, at most `max`, and what follows
/// it: the value of the longest run of digits there.
pub open spec fn number_at(input: Seq<char>, max: nat) -> Option<(nat, Seq<char>)> {
    let k = digit_run(input) as int;
    if k == 0 || digits_value(input.take(k)) > max {
        None
    } else {
        Some((digits_value(input.take(k)), input.skip(k)))
    }
}

/// A run of `k` digits that ends the input or meets another character is
/// the longest.
pub proof fn lemma_digit_run(input: Seq<char>, k: int)
    requires
        0 <= k <= input.len(),
        forall|i: int| 0 <= i < k ==> is_digit(#[trigger] input[i]),
        k < input.len() ==> !is_digit(input[k]),
    ensures
        digit_run(input) == k,
    decreases k,
{
    if k > 0 {
        let tail = input.drop_first();
        assert forall|i: int| 0 <= i < k - 1 implies is_digit(#[trigger] tail[i]) by {
            assert(tail[i] == input[i + 1]);
        }
        lemma_digit_run(tail, k - 1);
    }
}

/// The value of a run of digits does not shrink as the run grows.
pub proof fn lemma_value_grows(s: Seq<char>, j: int, k: int)
    requires
        0 <= j <= k <= s.len(),
    ensures
        digits_value(s.take(j)) <= digits_value(s.take(k)),
    decreases k - j,
{
    if j < k {
        lemma_value_grows(s, j, k - 1);
        assert(s.take(k).drop_last() =~= s.take(k - 1));
    }
}

/// The digits of a number are digits, and their value is the number.
pub proof fn lemma_decimal_value(n: nat)
    ensures
        decimal(n).len() > 0,
        forall|i: int| 0 <= i < decimal(n).len() ==> is_digit(#[trigger] decimal(n)[i]),
        digits_value(decimal(n)) == n,
    decreases n,
{
    if n < 10 {
        assert(decimal(n).drop_last() =~= Seq::<char>::empty());
        assert(digits_value(decimal(n).drop_last()) == 0);
    } else {
        lemma_decimal_value(n / 10);
        assert(decimal(n).drop_last() =~= decimal(n / 10));
    }
}

/// A number is read back from its digits, where no digit follows them.
pub proof fn lemma_number_round_trip(n: nat, max: nat, rest: Seq<char>)
    requires
        n <= max,
        rest.len() > 0 ==> !is_digit(rest[0]),
    ensures
        number_at(decimal(n) + rest, max) == Some((n, rest)),
{
    lemma_decimal_value(n);
    let input = decimal(n) + rest;
    let k = decimal(n).len() as int;
    assert forall|i: int| 0 <= i < k implies is_digit(#[trigger] input[i]) by {
        assert(input[i] == decimal(n)[i]);
    }
    lemma_digit_run(input, k);
    assert(input.take(k) =~= decimal(n));
    assert(input.skip(k) =~= rest);
}

/// Reads a number of at most `max` at `pos`.
pub(crate) fn parse_number(text: &Vec<char>, pos: usize, max: u64) -> (r: Option<(u64, usize)>)
    requires
        pos <= text@.len(),
    ensures
        match number_at(rest_from(text@, pos as int), max as nat) {
            Some((value, rest)) => r matches Some((v, next)) && v == value && pos < next
                <= text@.len() && rest == rest_from(text@, next as int),
            None => r is None,
        },
{
    let ghost input = rest_from(text@, pos as int);
    let mut value: u64 = 0;
    let mut i: usize = pos;
    assert(input.take(0) =~= Seq::<char>::empty());
    while i < text.len() && '0' <= text[i] && text[i] <= '9'
        invariant
            pos <= i <= text@.len(),
            input == rest_from(text@, pos as int),
            forall|j: int| 0 <= j < i - pos ==> is_digit(#[trigger] input[j]),
            value == digits_value(input.take(i - pos)),
            value <= max,
        decreases text@.len() - i,
    {
        let d: u64 = (text[i] as u32 - '0' as u32) as u64;
        assert(input[i - pos] == text@[i as int]);
        assert(input.take(i - pos + 1).drop_last() =~= input.take(i - pos));
        assert(input.take(i - pos + 1).last() == text@[i as int]);
        assert(d == text@[i as int] as nat - '0' as nat);
        if value > max / 10 || d > max - value * 10 {
            proof {
                let k: int = i - pos + 1;
                assert(digits_value(input.take(k)) == value * 10 + d);
                assert(digits_value(input.take(k)) > max);
                let run = digit_run(input) as int;
                lemma_run_bounds(input, k);
                lemma_value_grows(input, k, run);
            }
            return None;
        }
        value = value * 10 + d;
        i += 1;
    }
    proof {
        lemma_digit_run(input, i - pos);
        assert(input.skip(i - pos) =~= rest_from(text@, i as int));
    }
    if i == pos {
        None
    } else {
        Some((value, i))
    }
}

/// A run of digits at the front is no longer than the longest.
pub proof fn lemma_run_bounds(input: Seq<char>, k: int)
    requires
        0 <= k <= input.len(),
        forall|i: int| 0 <= i < k ==> is_digit(#[trigger] input[i]),
    ensures
        k <= digit_run(input) <= input.len(),
    decreases input.len(),
{
    if input.len() > 0 && is_digit(input[0]) {
        let tail = input.drop_first();
        if k > 0 {
            assert forall|i: int| 0 <= i < k - 1 implies is_digit(#[trigger] tail[i]) by {
                assert(tail[i] == input[i + 1]);
            }
            lemma_run_bounds(tail, k - 1);
        } else {
            lemma_run_bounds(tail, 0);
        }
    }
}

/// The value of a lowercase hexadecimal digit.
pub open spec fn unhex(c: char) -> Option<nat> {
    if '0' <= c && c <= '9' {
        Some((c as nat - '0' as nat) as nat)
    } else if 'a' <= c && c <= 'f' {
        Some((c as nat - 'a' as nat + 10) as nat)
    } else {
        None
    }
}

/// The character that a short escape stands for.
pub open spec fn short_escape(e: char) -> Option<char> {
    if e == '"' {
        Some('"')
    } else if e == '\\' {
        Some('\\')
    } else if e == 'b' {
        Some('\u{8}')
    } else if e == 't' {
        Some('\t')
    } else if e == 'n' {
        Some('\n')
    } else if e == 'f' {
        Some('\u{c}')
    } else if e == 'r' {
        Some('\r')
    } else {
        None
    }
}

/// A text with one more character in front.
pub open spec fn with_first(c: char, r: Option<(Seq<char>, Seq<char>)>) -> Option<
    (Seq<char>, Seq<char>),
> {
    match r {
        Some((text, rest)) => Some((seq![c] + text, rest)),
        None => None,
    }
}

/// A text with more characters in front.
pub open spec fn with_front(front: Seq<char>, r: Option<(Seq<char>, Seq<char>)>) -> Option<
    (Seq<char>, Seq<char>),
> {
    match r {
        Some((text, rest)) => Some((front + text, rest)),
        None => None,
    }
}

/// The text of a string whose opening quote was read, up to its closing
/// quote, and what follows that quote.
pub open spec fn string_body(input: Seq<char>) -> Option<(Seq<char>, Seq<char>)>
    decreases input.len(),
{
    if input.len() == 0 {
        None
    } else if input[0] == '"' {
        Some((Seq::empty(), input.skip(1)))
    } else if input[0] == '\\' {
        if input.len() < 2 {
            None
        } else if short_escape(input[1]) is Some {
            with_first(short_escape(input[1])->0, string_body(input.skip(2)))
        } else if input[1] == 'u' && input.len() >= 6 && input[2] == '0' && input[3] == '0'
            && unhex(input[4]) is Some && unhex(input[5]) is Some {
            with_first(
                ((unhex(input[4])->0 * 16 + unhex(input[5])->0) as u8) as char,
                string_body(input.skip(6)),
            )
        } else {
            None
        }
    } else {
        with_first(input[0], string_body(input.skip(1)))
    }
}

/// The text of the string at the front of `input`, and what follows it.
pub open spec fn string_at(input: Seq<char>) -> Option<(Seq<char>, Seq<char>)> {
    if input.len() > 0 && input[0] == '"' {
        string_body(input.skip(1))
    } else {
        None
    }
}

/// The escaped form of a text begins with that of its first character.
pub proof fn lemma_escaped_front(s: Seq<char>)
    requires
        s.len() > 0,
    ensures
        escaped(s) == escaped_char(s[0]) + escaped(s.drop_first()),
    decreases s.len(),
{
    if s.len() == 1 {
        assert(s.drop_last() =~= Seq::<char>::empty());
        assert(s.drop_first() =~= Seq::<char>::empty());
        assert(escaped(s) =~= escaped_char(s[0]) + escaped(s.drop_first()));
    } else {
        lemma_escaped_front(s.drop_last());
        assert(s.drop_last().drop_first() =~= s.drop_first().drop_last());
        assert(s.drop_first().last() == s.last());
        assert(escaped(s) =~= escaped_char(s[0]) + escaped(s.drop_first()));
    }
}

/// The value of a hexadecimal digit is read back from it.
pub proof fn lemma_unhex(n: int)
    requires
        0 <= n < 16,
    ensures
        unhex(hex_digit(n)) == Some(n as nat),
{
}

/// A text is read back from its escaped form and the closing quote.
pub proof fn lemma_string_body_round_trip(s: Seq<char>, rest: Seq<char>)
    ensures
        string_body(escaped(s) + seq!['"'] + rest) == Some((s, rest)),
    decreases s.len(),
{
    let input = escaped(s) + seq!['"'] + rest;
    if s.len() == 0 {
        assert(input.skip(1) =~= rest);
    } else {
        let c = s[0];
        let tail = s.drop_first();
        lemma_escaped_front(s);
        lemma_string_body_round_trip(tail, rest);
        let next = escaped(tail) + seq!['"'] + rest;
        let e = escaped_char(c);
        assert(input =~= e + next);
        assert(seq![c] + tail =~= s);
        assert(input.skip(e.len() as int) =~= next);
        if c == '"' || c == '\\' || c == '\u{8}' || c == '\t' || c == '\n' || c == '\u{c}' || c
            == '\r' {
            assert(input[0] == '\\');
            assert(short_escape(input[1]) == Some(c));
        } else if (c as u32) < 0x20 {
            let hi = c as u32 as int / 16;
            let lo = c as u32 as int % 16;
            lemma_unhex(hi);
            lemma_unhex(lo);
            assert(input[0] == '\\' && input[1] == 'u' && input[2] == '0' && input[3] == '0');
            assert(input[4] == hex_digit(hi) && input[5] == hex_digit(lo));
            assert(short_escape('u') is None);
            let u = c as u32;
            vstd::utf8::char_u32_cast(c, u);
            assert(hi * 16 + lo == u);
            assert(((hi * 16 + lo) as u8) as char == c);
        } else {
            assert(input[0] == c);
        }
    }
}

/// A text is read back from its quoted form.
pub proof fn lemma_string_round_trip(s: Seq<char>, rest: Seq<char>)
    ensures
        string_at(quoted(s) + rest) == Some((s, rest)),
{
    lemma_string_body_round_trip(s, rest);
    let input = quoted(s) + rest;
    assert(input.skip(1) =~= escaped(s) + seq!['"'] + rest);
}

/// The value of a lowercase hexadecimal digit.
fn unhex_char(c: char) -> (r: Option<u8>)
    ensures
        match unhex(c) {
            Some(n) => r == Some(n as u8) && n < 16,
            None => r is None,
        },
{
    if '0' <= c && c <= '9' {
        Some((c as u32 - '0' as u32) as u8)
    } else if 'a' <= c && c <= 'f' {
        Some((c as u32 - 'a' as u32 + 10) as u8)
    } else {
        None
    }
}

/// The character that a short escape stands for.
fn short_escape_char(e: char) -> (r: Option<char>)
    ensures
        r == short_escape(e),
{
    if e == '"' {
        Some('"')
    } else if e == '\\' {
        Some('\\')
    } else if e == 'b' {
        Some('\u{8}')
    } else if e == 't' {
        Some('\t')
    } else if e == 'n' {
        Some('\n')
    } else if e == 'f' {
        Some('\u{c}')
    } else if e == 'r' {
        Some('\r')
    } else {
        None
    }
}

/// Reads a string at `pos`.
pub(crate) fn parse_string(text: &Vec<char>, pos: usize) -> (r: Option<(String, usize)>)
    requires
        pos <= text@.len(),
    ensures
        match string_at(rest_from(text@, pos as int)) {
            Some((value, rest)) => r matches Some((v, next)) && v@ == value && pos < next
                <= text@.len() && rest == rest_from(text@, next as int),
            None => r is None,
        },
{
    let n = text.len();
    if pos >= n || text[pos] != '"' {
        return None;
    }
    let ghost body = rest_from(text@, pos + 1);
    assert(rest_from(text@, pos as int).skip(1) =~= body);
    let mut out = String::new();
    let mut i: usize = pos + 1;
    assert(with_front(out@, string_body(rest_from(text@, i as int))) == string_body(body)) by {
        let r = string_body(body);
        if r is Some {
            assert(Seq::<char>::empty() + r.unwrap().0 =~= r.unwrap().0);
        }
    }
    while i < n
        invariant
            pos < i <= n,
            n == text@.len(),
            string_at(rest_from(text@, pos as int)) == string_body(body),
            string_body(body) == with_front(out@, string_body(rest_from(text@, i as int))),
        decreases n - i,
    {
        let ghost input = rest_from(text@, i as int);
        let ghost before = out@;
        let c = text[i];
        assert(input[0] == c);
        if c == '"' {
            assert(input.skip(1) =~= rest_from(text@, i + 1));
            assert(before + Seq::<char>::empty() =~= before);
            return Some((out, i + 1));
        }
        let step: usize;
        let ch: char;
        if c == '\\' {
            if n - i < 2 {
                return None;
            }
            assert(input[1] == text@[i + 1]);
            match short_escape_char(text[i + 1]) {
                Some(plain) => {
                    step = 2;
                    ch = plain;
                },
                None => {
                    if text[i + 1] != 'u' || n - i < 6 || text[i + 2] != '0' || text[i + 3]
                        != '0' {
                        assert(n - i >= 6 ==> input[2] == text@[i + 2] && input[3] == text@[i
                            + 3]);
                        return None;
                    }
                    assert(input[2] == text@[i + 2] && input[3] == text@[i + 3] && input[4]
                        == text@[i + 4] && input[5] == text@[i + 5]);
                    let hi = match unhex_char(text[i + 4]) {
                        Some(hi) => hi,
                        None => {
                            return None;
                        },
                    };
                    let lo = match unhex_char(text[i + 5]) {
                        Some(lo) => lo,
                        None => {
                            return None;
                        },
                    };
                    step = 6;
                    ch = (hi * 16 + lo) as char;
                },
            }
        } else {
            step = 1;
            ch = c;
        }
        out.push(ch);
        proof {
            let later = string_body(rest_from(text@, i + step));
            assert(input.skip(step as int) =~= rest_from(text@, i + step));
            assert(string_body(input) == with_first(ch, later));
            if later is Some {
                assert(before + (seq![ch] + later.unwrap().0) =~= before.push(ch) + later.unwrap().0);
            }
        }
        i = i + step;
    }
    assert(rest_from(text@, n as int).len() == 0);
    None
}

} // verus!
