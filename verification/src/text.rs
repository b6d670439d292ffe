//! Building blocks for the text that the library renders: decimal numbers,
//! runs of one character and padding, each with its meaning as a `Seq<char>`.

use vstd::prelude::*;
use vstd::string::*;

verus! {

/// `String::push` of the standard library: the string afterwards is the
/// string before with `c` appended, as its documentation says.
pub assume_specification[ String::push ](s: &mut String, c: char)
    ensures
        final(s)@ == old(s)@.push(c),
;

/// The character that shows the digit `d`.
pub open spec fn digit_char(d: nat) -> char {
    if d == 0 {
        '0'
    } else if d == 1 {
        '1'
    } else if d == 2 {
        '2'
    } else if d == 3 {
        '3'
    } else if d == 4 {
        '4'
    } else if d == 5 {
        '5'
    } else if d == 6 {
        '6'
    } else if d == 7 {
        '7'
    } else if d == 8 {
        '8'
    } else {
        '9'
    }
}

/// Whether `c` is one of the ten decimal digits.
pub open spec fn is_digit(c: char) -> bool {
    '0' <= c <= '9'
}

/// The value of the decimal digit `c`.
pub open spec fn digit_value(c: char) -> nat {
    (c as u32 - '0' as u32) as nat
}

/// The decimal representation of `n`, without leading zeros.
pub open spec fn decimal(n: nat) -> Seq<char>
    decreases n,
{
    if n < 10 {
        seq![digit_char(n)]
    } else {
        decimal(n / 10).push(digit_char(n % 10))
    }
}

/// `n` copies of `c`.
pub open spec fn repeated(c: char, n: nat) -> Seq<char> {
    Seq::new(n, |i: int| c)
}

/// `a - b`, and 0 where `b` is the larger.
pub open spec fn minus(a: nat, b: nat) -> nat {
    if a >= b {
        (a - b) as nat
    } else {
        0
    }
}

/// `s`, with spaces in front of it until it is `width` characters long.
pub open spec fn right_aligned(s: Seq<char>, width: nat) -> Seq<char> {
    repeated(' ', minus(width, s.len())) + s
}

/// `s`, with spaces behind it until it is `width` characters long.
pub open spec fn left_aligned(s: Seq<char>, width: nat) -> Seq<char> {
    s + repeated(' ', minus(width, s.len()))
}

/// Whether `c` does not occur in `s`.
pub open spec fn free_of(s: Seq<char>, c: char) -> bool {
    forall|i: int| 0 <= i < s.len() ==> #[trigger] s[i] != c
}

/// How often `c` occurs in `s`.
pub open spec fn occurrences(s: Seq<char>, c: char) -> nat
    decreases s.len(),
{
    if s.len() == 0 {
        0
    } else {
        occurrences(s.drop_last(), c) + if s.last() == c {
            1nat
        } else {
            0nat
        }
    }
}

/// The character that shows the digit `d`.
pub fn digit_to_char(d: u8) -> (c: char)
    requires
        d < 10,
    ensures
        c == digit_char(d as nat),
        is_digit(c),
        digit_value(c) == d,
{
    if d == 0 {
        '0'
    } else if d == 1 {
        '1'
    } else if d == 2 {
        '2'
    } else if d == 3 {
        '3'
    } else if d == 4 {
        '4'
    } else if d == 5 {
        '5'
    } else if d == 6 {
        '6'
    } else if d == 7 {
        '7'
    } else if d == 8 {
        '8'
    } else {
        '9'
    }
}

/// Appends the decimal representation of `n` to `out`.
pub fn push_decimal(out: &mut String, n: u128)
    ensures
        final(out)@ == old(out)@ + decimal(n as nat),
    decreases n,
{
    if n >= 10 {
        push_decimal(out, n / 10);
    }
    out.push(digit_to_char((n % 10) as u8));
}

/// Appends `n` copies of `c` to `out`.
pub fn push_repeated(out: &mut String, c: char, n: usize)
    ensures
        final(out)@ == old(out)@ + repeated(c, n as nat),
{
    let mut i: usize = 0;
    while i < n
        invariant
            i <= n,
            out@ == old(out)@ + repeated(c, i as nat),
        decreases n - i,
    {
        out.push(c);
        i = i + 1;
    }
}

/// The characters of `s`.
pub fn to_chars(s: &str) -> (chars: Vec<char>)
    ensures
        chars@ == s@,
{
    let mut chars: Vec<char> = Vec::new();
    let it = s.chars();
    for c in iter: it
        invariant
            iter.seq() == s@,
            chars@ == s@.take(iter.index()),
    {
        chars.push(c);
        assert(s@.take(iter.index() + 1) == s@.take(iter.index()).push(s@[iter.index()]));
    }
    assert(s@.take(s@.len() as int) == s@);
    chars
}

/// Appends `s` to `out`, with spaces in front of it until it is `width`
/// characters long.
pub fn push_right_aligned(out: &mut String, s: &String, width: usize)
    ensures
        final(out)@ == old(out)@ + right_aligned(s@, width as nat),
{
    let len = char_count(s);
    push_repeated(out, ' ', width.saturating_sub(len));
    out.append(s.as_str());
    assert(final(out)@ =~= old(out)@ + right_aligned(s@, width as nat));
}

/// Appends `s` to `out`, with spaces behind it until it is `width`
/// characters long.
pub fn push_left_aligned(out: &mut String, s: &String, width: usize)
    ensures
        final(out)@ == old(out)@ + left_aligned(s@, width as nat),
{
    let len = char_count(s);
    out.append(s.as_str());
    push_repeated(out, ' ', width.saturating_sub(len));
    assert(final(out)@ =~= old(out)@ + left_aligned(s@, width as nat));
}

/// What occurs in a text made of two parts occurs in one of them.
pub proof fn lemma_occurrences_concat(a: Seq<char>, b: Seq<char>, c: char)
    ensures
        occurrences(a + b, c) == occurrences(a, c) + occurrences(b, c),
    decreases b.len(),
{
    if b.len() == 0 {
        assert(a + b =~= a);
    } else {
        assert((a + b).drop_last() =~= a + b.drop_last());
        lemma_occurrences_concat(a, b.drop_last(), c);
    }
}

/// A text that is free of a character holds it no times.
pub proof fn lemma_occurrences_free(s: Seq<char>, c: char)
    requires
        free_of(s, c),
    ensures
        occurrences(s, c) == 0,
    decreases s.len(),
{
    if s.len() > 0 {
        assert(s[s.len() - 1] != c);
        lemma_occurrences_free(s.drop_last(), c);
    }
}

/// The two characters that never stand inside a rendered line: the line
/// feed, which ends it, and the escape, which starts a control sequence.
pub open spec fn is_control(c: char) -> bool {
    c == '\n' || c == '\x1B'
}

/// Whether neither a line feed nor an escape occurs in `s`.
pub open spec fn plain(s: Seq<char>) -> bool {
    forall|i: int| 0 <= i < s.len() ==> !is_control(#[trigger] s[i])
}

/// A run of a character that is no control character holds none.
pub proof fn lemma_repeated_plain(c: char, n: nat)
    requires
        !is_control(c),
    ensures
        plain(repeated(c, n)),
{
}

/// A text without control characters holds neither a line feed nor an
/// escape.
pub proof fn lemma_plain_occurrences(s: Seq<char>)
    requires
        plain(s),
    ensures
        occurrences(s, '\n') == 0,
        occurrences(s, '\x1B') == 0,
{
    assert(free_of(s, '\n')) by {
        assert forall|i: int| 0 <= i < s.len() implies #[trigger] s[i] != '\n' by {
            assert(!is_control(s[i]));
        }
    }
    assert(free_of(s, '\x1B')) by {
        assert forall|i: int| 0 <= i < s.len() implies #[trigger] s[i] != '\x1B' by {
            assert(!is_control(s[i]));
        }
    }
    lemma_occurrences_free(s, '\n');
    lemma_occurrences_free(s, '\x1B');
}

/// A line, made of a text without control characters and a line feed,
/// holds one line feed and no escape.
pub proof fn lemma_line_occurrences(content: Seq<char>)
    requires
        plain(content),
    ensures
        occurrences(content + seq!['\n'], '\n') == 1,
        occurrences(content + seq!['\n'], '\x1B') == 0,
{
    lemma_plain_occurrences(content);
    lemma_occurrences_concat(content, seq!['\n'], '\n');
    lemma_occurrences_concat(content, seq!['\n'], '\x1B');
    let end = seq!['\n'];
    assert(end.drop_last() =~= Seq::<char>::empty());
    assert(end.last() == '\n');
    assert(occurrences(end.drop_last(), '\n') == 0);
    assert(occurrences(end.drop_last(), '\x1B') == 0);
    assert(occurrences(end, '\n') == 1);
    assert(occurrences(end, '\x1B') == 0);
}

/// A decimal number holds no control character.
pub proof fn lemma_decimal_plain(n: nat)
    ensures
        plain(decimal(n)),
{
    lemma_decimal_digits(n);
    assert forall|i: int| 0 <= i < decimal(n).len() implies !is_control(
        #[trigger] decimal(n)[i],
    ) by {
        assert(is_digit(decimal(n)[i]));
    }
}

/// A decimal number is made of digits.
pub proof fn lemma_decimal_digits(n: nat)
    ensures
        decimal(n).len() >= 1,
        forall|i: int| 0 <= i < decimal(n).len() ==> is_digit(#[trigger] decimal(n)[i]),
    decreases n,
{
    if n >= 10 {
        lemma_decimal_digits(n / 10);
    }
}

/// The number of characters of `s`.
pub fn char_count(s: &String) -> (n: usize)
    ensures
        n == s@.len(),
{
    s.as_str().unicode_len()
}

} // verus!
