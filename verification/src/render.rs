//! Shared rendering helpers: the numeric truncation rule, decimal digit
//! strings, and the four-component relative timestamp text.

use vstd::prelude::*;
use vstd::string::StrSliceExecFns;

verus! {

/// Compare two strings character by character.
pub(crate) fn str_eq(a: &str, b: &str) -> (r: bool)
    ensures
        r == (a@ == b@),
{
    let alen = a.unicode_len();
    let blen = b.unicode_len();
    if alen != blen {
        return false;
    }
    let mut i: usize = 0;
    while i < alen
        invariant
            i <= alen,
            alen == a@.len(),
            blen == b@.len(),
            alen == blen,
            forall|j: int| 0 <= j < i ==> a@[j] == b@[j],
        decreases alen - i,
    {
        if a.get_char(i) != b.get_char(i) {
            return false;
        }
        i = i + 1;
    }
    proof {
        assert(a@ =~= b@);
    }
    true
}

/// The display truncation rule: divide by 1000 until the value is at most
/// 1000. Note the boundary: exactly 1000 is left as it is.
pub open spec fn spec_trim(n: nat) -> nat
    decreases n,
{
    if n > 1000 {
        spec_trim((n / 1000) as nat)
    } else {
        n
    }
}

/// Scale the parameter down to at most 1000 by repeated integer division
/// by 1000.
pub fn trim_to_1000(n: usize) -> (r: usize)
    ensures
        r as nat == spec_trim(n as nat),
        r <= 1000,
{
    let mut num: usize = n;
    while num > 1000
        invariant
            spec_trim(num as nat) == spec_trim(n as nat),
        decreases num,
    {
        num = num / 1000;
    }
    num
}

/// The character for one decimal digit.
pub open spec fn spec_digit(d: nat) -> char
    recommends
        d < 10,
{
    if d == 0 {
        '0'
    } else if d == 1 {
        '1'
    } else if d == 2 {
        '2'
    } else if d == 3 {
        '3'
    } else if d == 4 {
        '4'
    } else if d == 5 {
        '5'
    } else if d == 6 {
        '6'
    } else if d == 7 {
        '7'
    } else if d == 8 {
        '8'
    } else {
        '9'
    }
}

/// The decimal representation of a number, most significant digit first,
/// with no leading zeros (zero itself is the single digit `0`).
pub open spec fn spec_decimal(n: nat) -> Seq<char>
    decreases n,
{
    if n < 10 {
        seq![spec_digit(n)]
    } else {
        spec_decimal(n / 10).push(spec_digit(n % 10))
    }
}

/// Relies on std's String::push: appends exactly the given character at
/// the end of the string.
#[verifier::external_body]
pub(crate) fn push_char(s: &mut String, c: char)
    ensures
        final(s)@ == old(s)@.push(c),
{
    s.push(c);
}

fn digit_char(d: usize) -> (c: char)
    requires
        d < 10,
    ensures
        c == spec_digit(d as nat),
{
    match d {
        0 => '0',
        1 => '1',
        2 => '2',
        3 => '3',
        4 => '4',
        5 => '5',
        6 => '6',
        7 => '7',
        8 => '8',
        _ => '9',
    }
}

/// Write the decimal representation of `n` onto the end of `out`.
fn push_decimal(out: &mut String, n: usize)
    ensures
        final(out)@ == old(out)@ + spec_decimal(n as nat),
    decreases n,
{
    if n < 10 {
        push_char(out, digit_char(n));
        assert(out@ =~= old(out)@ + spec_decimal(n as nat));
    } else {
        push_decimal(out, n / 10);
        push_char(out, digit_char(n % 10));
        assert(out@ =~= old(out)@ + spec_decimal(n as nat));
    }
}

/// The rendered relative timestamp for an elapsed duration given in
/// nanoseconds: the elapsed whole seconds, milliseconds, microseconds and
/// nanoseconds, each independently passed through the truncation rule,
/// joined by `:`.
pub open spec fn spec_time_stamp(elapsed: nat) -> Seq<char> {
    spec_decimal(spec_trim(elapsed / 1_000_000_000)) + seq![':'] + spec_decimal(
        spec_trim(elapsed / 1_000_000),
    ) + seq![':'] + spec_decimal(spec_trim(elapsed / 1_000)) + seq![':'] + spec_decimal(
        spec_trim(elapsed),
    )
}

/// The number of occurrences of a character in a text.
pub open spec fn spec_count_char(s: Seq<char>, c: char) -> nat
    decreases s.len(),
{
    if s.len() == 0 {
        0
    } else {
        spec_count_char(s.drop_last(), c) + (if s.last() == c {
            1nat
        } else {
            0nat
        })
    }
}

/// Counting a character distributes over concatenation.
pub proof fn lemma_count_char_concat(a: Seq<char>, b: Seq<char>, c: char)
    ensures
        spec_count_char(a + b, c) == spec_count_char(a, c) + spec_count_char(b, c),
    decreases b.len(),
{
    if b.len() == 0 {
        assert(a + b =~= a);
    } else {
        assert((a + b).drop_last() =~= a + b.drop_last());
        lemma_count_char_concat(a, b.drop_last(), c);
        assert((a + b).last() == b.last());
    }
}

/// A text none of whose characters is `c` counts zero occurrences of it.
pub proof fn lemma_count_char_absent(s: Seq<char>, c: char)
    requires
        forall|i: int| 0 <= i < s.len() ==> s[i] != c,
    ensures
        spec_count_char(s, c) == 0,
    decreases s.len(),
{
    if s.len() > 0 {
        assert forall|i: int| 0 <= i < s.drop_last().len() implies s.drop_last()[i] != c by {
            assert(s.drop_last()[i] == s[i]);
        }
        lemma_count_char_absent(s.drop_last(), c);
        assert(s.last() == s[s.len() - 1]);
    }
}

/// The one-character text of `c` counts one occurrence of it.
pub proof fn lemma_count_char_single(c: char)
    ensures
        spec_count_char(seq![c], c) == 1,
{
    assert(seq![c].drop_last() =~= Seq::<char>::empty());
    lemma_count_char_absent(seq![c].drop_last(), c);
}

/// A decimal digit character.
pub open spec fn spec_is_digit(ch: char) -> bool {
    ch == '0' || ch == '1' || ch == '2' || ch == '3' || ch == '4' || ch == '5' || ch == '6' || ch
        == '7' || ch == '8' || ch == '9'
}

/// Every character of a decimal representation is a digit.
pub proof fn lemma_decimal_digits(n: nat)
    ensures
        forall|i: int|
            0 <= i < spec_decimal(n).len() ==> spec_is_digit(#[trigger] spec_decimal(n)[i]),
    decreases n,
{
    if n >= 10 {
        lemma_decimal_digits(n / 10);
        assert forall|i: int| 0 <= i < spec_decimal(n).len() implies spec_is_digit(
            spec_decimal(n)[i],
        ) by {
            if i < spec_decimal(n).len() - 1 {
                assert(spec_decimal(n)[i] == spec_decimal(n / 10)[i]);
            }
        }
    }
}

/// The rendered timestamp text holds only digits and `:`, so it contains
/// no newline.
pub proof fn lemma_time_stamp_newline_free(elapsed: nat)
    ensures
        spec_count_char(spec_time_stamp(elapsed), '\n') == 0,
{
    let secs = spec_decimal(spec_trim(elapsed / 1_000_000_000));
    let millis = spec_decimal(spec_trim(elapsed / 1_000_000));
    let micros = spec_decimal(spec_trim(elapsed / 1_000));
    let nanos = spec_decimal(spec_trim(elapsed));
    let colon = seq![':'];
    lemma_decimal_digits(spec_trim(elapsed / 1_000_000_000));
    lemma_decimal_digits(spec_trim(elapsed / 1_000_000));
    lemma_decimal_digits(spec_trim(elapsed / 1_000));
    lemma_decimal_digits(spec_trim(elapsed));
    lemma_count_char_absent(secs, '\n');
    lemma_count_char_absent(millis, '\n');
    lemma_count_char_absent(micros, '\n');
    lemma_count_char_absent(nanos, '\n');
    lemma_count_char_absent(colon, '\n');
    lemma_count_char_concat(secs, colon, '\n');
    lemma_count_char_concat(secs + colon, millis, '\n');
    lemma_count_char_concat(secs + colon + millis, colon, '\n');
    lemma_count_char_concat(secs + colon + millis + colon, micros, '\n');
    lemma_count_char_concat(secs + colon + millis + colon + micros, colon, '\n');
    lemma_count_char_concat(secs + colon + millis + colon + micros + colon, nanos, '\n');
}

/// Render the four-component relative timestamp for an elapsed duration in
/// nanoseconds.
pub fn time_stamp_string(elapsed: usize) -> (s: String)
    ensures
        s@ == spec_time_stamp(elapsed as nat),
{
    let mut s = String::new();
    push_decimal(&mut s, trim_to_1000(elapsed / 1_000_000_000));
    push_char(&mut s, ':');
    push_decimal(&mut s, trim_to_1000(elapsed / 1_000_000));
    push_char(&mut s, ':');
    push_decimal(&mut s, trim_to_1000(elapsed / 1_000));
    push_char(&mut s, ':');
    push_decimal(&mut s, trim_to_1000(elapsed));
    assert(s@ =~= spec_time_stamp(elapsed as nat));
    s
}

} // verus!
