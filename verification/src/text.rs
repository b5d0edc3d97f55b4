//! Text of HTTP requests and responses.
use vstd::prelude::*;
use vstd::string::*;
use vstd::utf8::{encode_utf8, is_ascii_chars};

verus! {

/// The characters with the Unicode property White_Space.
pub open spec fn is_space(c: char) -> bool {
    let u = c as int;
    ||| 0x09 <= u <= 0x0d
    ||| u == 0x20
    ||| u == 0x85
    ||| u == 0xa0
    ||| u == 0x1680
    ||| 0x2000 <= u <= 0x200a
    ||| u == 0x2028
    ||| u == 0x2029
    ||| u == 0x202f
    ||| u == 0x205f
    ||| u == 0x3000
}

pub fn is_white_space(c: char) -> (b: bool)
    ensures
        b == is_space(c),
{
    let u: u32 = c as u32;
    (0x09 <= u && u <= 0x0d) || u == 0x20 || u == 0x85 || u == 0xa0 || u == 0x1680 || (0x2000 <= u
        && u <= 0x200a) || u == 0x2028 || u == 0x2029 || u == 0x202f || u == 0x205f || u == 0x3000
}

/// The first place from `i` on that holds no white space, or the end.
pub open spec fn skip_spaces(s: Seq<char>, i: int) -> int
    decreases s.len() - i,
{
    if i < s.len() && is_space(s[i]) {
        skip_spaces(s, i + 1)
    } else {
        i
    }
}

/// The first place from `i` on that holds white space, or the end.
pub open spec fn skip_word(s: Seq<char>, i: int) -> int
    decreases s.len() - i,
{
    if i < s.len() && !is_space(s[i]) {
        skip_word(s, i + 1)
    } else {
        i
    }
}

/// The second of the words that white space separates, if there is one.
pub open spec fn second_word(s: Seq<char>) -> Option<Seq<char>> {
    let start = skip_spaces(s, skip_word(s, skip_spaces(s, 0)));
    if start < s.len() {
        Some(s.subrange(start, skip_word(s, start)))
    } else {
        None
    }
}

/// The characters of a text.
pub fn chars_of(text: &str) -> (chars: Vec<char>)
    ensures
        chars@ == text@,
{
    let mut chars: Vec<char> = Vec::new();
    for c in iter: text.chars()
        invariant
            chars@ == text@.take(iter.index()),
            iter.seq() == text@,
    {
        chars.push(c);
        assert(chars@ =~= text@.take(iter.index() + 1));
    }
    assert(text@.take(text@.len() as int) =~= text@);
    chars
}

/// What `str::to_lowercase` returns: the lowercase equivalent of the text, by the Unicode
/// character data, which knows no locale.
pub uninterp spec fn lowercase(text: Seq<char>) -> Seq<char>;

pub open spec fn ascii_lowercase(c: char) -> char {
    if 'A' <= c && c <= 'Z' {
        (c as u32 + 0x20) as char
    } else {
        c
    }
}

/// `str::to_lowercase`. Of texts in ASCII it is claimed that the letters A to Z become a to z and
/// that nothing else changes; what becomes of other texts has only a name.
#[verifier::external_body]
pub(crate) fn to_lowercase(text: &str) -> (lower: String)
    ensures
        lower@ == lowercase(text@),
        is_ascii_chars(text@) ==> lower@ == text@.map_values(|c: char| ascii_lowercase(c)),
{
    text.to_lowercase()
}

/// The decimal digits of a number.
pub open spec fn decimal(n: nat) -> Seq<u8>
    decreases n,
{
    if n < 10 {
        seq![(0x30 + n) as u8]
    } else {
        decimal(n / 10).push((0x30 + n % 10) as u8)
    }
}

pub fn push_decimal(out: &mut Vec<u8>, n: usize)
    ensures
        final(out)@ == old(out)@ + decimal(n as nat),
    decreases n,
{
    if n >= 10 {
        push_decimal(out, n / 10);
    }
    out.push(0x30 + (n % 10) as u8);
    assert(out@ =~= old(out)@ + decimal(n as nat));
}

pub fn push_text(out: &mut Vec<u8>, text: &str)
    ensures
        final(out)@ == old(out)@ + encode_utf8(text@),
{
    out.extend_from_slice(text.as_bytes());
    assert(out@ =~= old(out)@ + encode_utf8(text@));
}

pub open spec fn is_digit(b: u8) -> bool {
    0x30 <= b <= 0x39
}

/// How many decimal digits the bytes start with.
pub open spec fn leading_digits(bytes: Seq<u8>) -> nat
    decreases bytes.len(),
{
    if bytes.len() > 0 && is_digit(bytes[0]) {
        1 + leading_digits(bytes.drop_first())
    } else {
        0
    }
}

/// The number that decimal digits stand for.
pub open spec fn digits_value(digits: Seq<u8>) -> nat
    decreases digits.len(),
{
    if digits.len() == 0 {
        0
    } else {
        10 * digits_value(digits.drop_last()) + (digits.last() - 0x30) as nat
    }
}

/// Decimal digits read back as the number they were made from, if no digit follows them.
pub proof fn law_decimal_reads_back(n: nat, rest: Seq<u8>)
    requires
        rest.len() == 0 || !is_digit(rest[0]),
    ensures
        leading_digits(decimal(n) + rest) == decimal(n).len(),
        digits_value(decimal(n)) == n,
{
    lemma_decimal_digits(n);
    lemma_leading_digits(decimal(n), rest);
}

proof fn lemma_decimal_digits(n: nat)
    ensures
        decimal(n).len() > 0,
        forall|i: int| 0 <= i < decimal(n).len() ==> is_digit(#[trigger] decimal(n)[i]),
        digits_value(decimal(n)) == n,
    decreases n,
{
    if n < 10 {
        assert(decimal(n).drop_last() =~= Seq::<u8>::empty());
        assert(digits_value(decimal(n).drop_last()) == 0);
    } else {
        lemma_decimal_digits(n / 10);
        assert(decimal(n).drop_last() =~= decimal(n / 10));
    }
}

proof fn lemma_leading_digits(digits: Seq<u8>, rest: Seq<u8>)
    requires
        rest.len() == 0 || !is_digit(rest[0]),
        forall|i: int| 0 <= i < digits.len() ==> is_digit(#[trigger] digits[i]),
    ensures
        leading_digits(digits + rest) == digits.len(),
    decreases digits.len(),
{
    if digits.len() == 0 {
        assert(digits + rest =~= rest);
    } else {
        let tail = digits.drop_first();
        assert forall|i: int| 0 <= i < tail.len() implies is_digit(#[trigger] tail[i]) by {
            assert(tail[i] == digits[i + 1]);
        }
        lemma_leading_digits(tail, rest);
        assert((digits + rest).drop_first() =~= tail + rest);
        assert((digits + rest)[0] == digits[0]);
    }
}

/// White space is what Unicode gives that property: tab to carriage return, blank, next line,
/// no-break space, and the spaces and separators of other scripts.
pub proof fn law_white_space_by_number(c: char)
    ensures
        is_space(c) <==> {
            let u = c as int;
            u == 9 || u == 10 || u == 11 || u == 12 || u == 13 || u == 32 || u == 0x85 || u == 0xa0
                || u == 0x1680 || 0x2000 <= u <= 0x200a || u == 0x2028 || u == 0x2029 || u == 0x202f
                || u == 0x205f || u == 0x3000
        },
{
}

/// In ASCII, lowering turns the letters A to Z into a to z and leaves all else alone.
pub proof fn law_ascii_letters_are_lowered(c: char)
    ensures
        65 <= c as int <= 90 ==> ascii_lowercase(c) as int == c as int + 32,
        !(65 <= c as int <= 90) ==> ascii_lowercase(c) == c,
{
}

proof fn lemma_skip_spaces(s: Seq<char>, i: int, j: int)
    requires
        0 <= i <= j <= s.len(),
        forall|k: int| i <= k < j ==> is_space(#[trigger] s[k]),
        j == s.len() || !is_space(s[j]),
    ensures
        skip_spaces(s, i) == j,
    decreases j - i,
{
    if i < j {
        lemma_skip_spaces(s, i + 1, j);
    }
}

proof fn lemma_skip_word(s: Seq<char>, i: int, j: int)
    requires
        0 <= i <= j <= s.len(),
        forall|k: int| i <= k < j ==> !is_space(#[trigger] s[k]),
        j == s.len() || is_space(s[j]),
    ensures
        skip_word(s, i) == j,
    decreases j - i,
{
    if i < j {
        lemma_skip_word(s, i + 1, j);
    }
}

/// The second word of a line is what stands between its second and its third stretch of white
/// space, however long these are, whether or not the line starts with one, and whatever follows.
pub proof fn law_second_word_stands_between_spaces(
    lead: Seq<char>,
    first: Seq<char>,
    gap: Seq<char>,
    second: Seq<char>,
    rest: Seq<char>,
)
    requires
        first.len() > 0 && gap.len() > 0 && second.len() > 0,
        forall|i: int| 0 <= i < lead.len() ==> is_space(#[trigger] lead[i]),
        forall|i: int| 0 <= i < first.len() ==> !is_space(#[trigger] first[i]),
        forall|i: int| 0 <= i < gap.len() ==> is_space(#[trigger] gap[i]),
        forall|i: int| 0 <= i < second.len() ==> !is_space(#[trigger] second[i]),
        rest.len() == 0 || is_space(rest[0]),
    ensures
        second_word(lead + first + gap + second + rest) == Some(second),
{
    let s = lead + first + gap + second + rest;
    let a = lead.len() as int;
    let b = a + first.len();
    let c = b + gap.len();
    let d = c + second.len();
    assert forall|k: int| 0 <= k < a implies is_space(#[trigger] s[k]) by {
        assert(s[k] == lead[k]);
    }
    assert forall|k: int| a <= k < b implies !is_space(#[trigger] s[k]) by {
        assert(s[k] == first[k - a]);
    }
    assert forall|k: int| b <= k < c implies is_space(#[trigger] s[k]) by {
        assert(s[k] == gap[k - b]);
    }
    assert forall|k: int| c <= k < d implies !is_space(#[trigger] s[k]) by {
        assert(s[k] == second[k - c]);
    }
    if rest.len() > 0 {
        assert(s[d] == rest[0]);
    }
    lemma_skip_spaces(s, 0, a);
    lemma_skip_word(s, a, b);
    lemma_skip_spaces(s, b, c);
    lemma_skip_word(s, c, d);
    assert(s.subrange(c, d) =~= second);
}

/// A line of one word, or of none, has no second one.
pub proof fn law_one_word_has_no_second(lead: Seq<char>, word: Seq<char>, trail: Seq<char>)
    requires
        forall|i: int| 0 <= i < lead.len() ==> is_space(#[trigger] lead[i]),
        forall|i: int| 0 <= i < word.len() ==> !is_space(#[trigger] word[i]),
        forall|i: int| 0 <= i < trail.len() ==> is_space(#[trigger] trail[i]),
    ensures
        second_word(lead + word + trail) is None,
{
    let s = lead + word + trail;
    let a = lead.len() as int;
    let b = a + word.len();
    let n = s.len() as int;
    assert forall|k: int| 0 <= k < a implies is_space(#[trigger] s[k]) by {
        assert(s[k] == lead[k]);
    }
    assert forall|k: int| a <= k < b implies !is_space(#[trigger] s[k]) by {
        assert(s[k] == word[k - a]);
    }
    assert forall|k: int| b <= k < n implies is_space(#[trigger] s[k]) by {
        assert(s[k] == trail[k - b]);
    }
    if word.len() == 0 {
        lemma_skip_spaces(s, 0, n);
        lemma_skip_word(s, n, n);
        lemma_skip_spaces(s, n, n);
    } else {
        lemma_skip_spaces(s, 0, a);
        lemma_skip_word(s, a, b);
        lemma_skip_spaces(s, b, n);
    }
}

/// Ten times a number and a digit more is written with that digit behind.
pub proof fn law_digits_are_written_left_to_right(n: nat, digit: nat)
    requires
        digit < 10,
    ensures
        decimal(digit) == seq![(48 + digit) as u8],
        n > 0 ==> decimal(10 * n + digit) == decimal(n).push((48 + digit) as u8),
{
    if n > 0 {
        assert((10 * n + digit) / 10 == n);
        assert((10 * n + digit) % 10 == digit);
    }
}

} // verus!
