//! Small comparisons of text.
use vstd::prelude::*;
use vstd::string::StrSliceExecFns;

verus! {

/// Whether two texts are equal.
pub fn str_equals(a: &str, b: &str) -> (r: bool)
    ensures
        r == (a@ == b@),
{
    let n = a.unicode_len();
    if n != b.unicode_len() {
        return false;
    }
    let mut i: usize = 0;
    while i < n
        invariant
            n == a@.len(),
            n == b@.len(),
            i <= n,
            forall|j: int| 0 <= j < i ==> a@[j] == b@[j],
        decreases n - i,
    {
        if a.get_char(i) != b.get_char(i) {
            return false;
        }
        i = i + 1;
    }
    assert(a@ =~= b@);
    true
}

/// A character with the ASCII capitals turned into small letters.
pub open spec fn ascii_lower(c: char) -> char {
    if 'A' <= c && c <= 'Z' {
        ((c as u32) + 32) as char
    } else {
        c
    }
}

pub(crate) fn to_ascii_lower(c: char) -> (r: char)
    ensures
        r == ascii_lower(c),
{
    if 'A' <= c && c <= 'Z' {
        let code: u32 = (c as u32) + 32;
        // Small letters are valid characters.
        if code <= 0x7A {
            return char_from_ascii(code);
        }
    }
    c
}

fn char_from_ascii(code: u32) -> (r: char)
    requires
        0x61 <= code <= 0x7A,
    ensures
        r == code as char,
{
    let small: [char; 26] = [
        'a', 'b', 'c', 'd', 'e', 'f', 'g', 'h', 'i', 'j', 'k', 'l', 'm',
        'n', 'o', 'p', 'q', 'r', 's', 't', 'u', 'v', 'w', 'x', 'y', 'z',
    ];
    let i = (code - 0x61) as usize;
    let r = small[i];
    proof {
        assert(small@[i as int] == ((0x61 + i) as u32) as char);
    }
    r
}

/// Whether `s`, with its ASCII capitals turned into small letters, is `word`.
pub fn equals_ignoring_ascii_case(s: &str, word: &str) -> (r: bool)
    ensures
        r == (s@.len() == word@.len() && forall|j: int| 0 <= j < s@.len() ==> ascii_lower(#[trigger] s@[j]) == word@[j]),
{
    let n = s.unicode_len();
    if n != word.unicode_len() {
        return false;
    }
    let mut i: usize = 0;
    while i < n
        invariant
            n == s@.len(),
            n == word@.len(),
            i <= n,
            forall|j: int| 0 <= j < i ==> ascii_lower(#[trigger] s@[j]) == word@[j],
        decreases n - i,
    {
        if to_ascii_lower(s.get_char(i)) != word.get_char(i) {
            return false;
        }
        i = i + 1;
    }
    true
}


/// Whether `c` has the Unicode `White_Space` property, which is what
/// `char::is_whitespace` decides.
pub open spec fn is_white_space(c: char) -> bool {
    ||| ('\u{9}' <= c && c <= '\u{d}')
    ||| c == ' '
    ||| c == '\u{85}'
    ||| c == '\u{a0}'
    ||| c == '\u{1680}'
    ||| ('\u{2000}' <= c && c <= '\u{200a}')
    ||| c == '\u{2028}'
    ||| c == '\u{2029}'
    ||| c == '\u{202f}'
    ||| c == '\u{205f}'
    ||| c == '\u{3000}'
}

/// Whether `c` is white space.
pub fn is_white_space_char(c: char) -> (r: bool)
    ensures
        r == is_white_space(c),
{
    ('\u{9}' <= c && c <= '\u{d}') || c == ' ' || c == '\u{85}' || c == '\u{a0}' || c == '\u{1680}'
        || ('\u{2000}' <= c && c <= '\u{200a}') || c == '\u{2028}' || c == '\u{2029}'
        || c == '\u{202f}' || c == '\u{205f}' || c == '\u{3000}'
}

/// The number of characters before the first white space of `s`.
pub open spec fn word_len(s: Seq<char>) -> nat
    decreases s.len(),
{
    if s.len() == 0 || is_white_space(s[0]) {
        0
    } else {
        1 + word_len(s.drop_first())
    }
}

/// A word runs no further than its text.
pub proof fn lemma_word_len_bound(s: Seq<char>)
    ensures
        word_len(s) <= s.len(),
        s.len() > 0 && !is_white_space(s[0]) ==> word_len(s) >= 1,
    decreases s.len(),
{
    if s.len() > 0 && !is_white_space(s[0]) {
        lemma_word_len_bound(s.drop_first());
    }
}

/// The words of `s`: its longest runs of characters that are not white space,
/// in order, as `str::split_whitespace` yields them.
pub open spec fn words(s: Seq<char>) -> Seq<Seq<char>>
    decreases s.len(),
{
    if s.len() == 0 {
        seq![]
    } else if is_white_space(s[0]) {
        words(s.drop_first())
    } else {
        proof {
            lemma_word_len_bound(s);
        }
        seq![s.take(word_len(s) as int)] + words(s.skip(word_len(s) as int))
    }
}

proof fn lemma_word_len_of_run(s: Seq<char>, i: int, j: int)
    requires
        0 <= i <= j <= s.len(),
        forall|k: int| i <= k < j ==> !is_white_space(#[trigger] s[k]),
        j == s.len() || is_white_space(s[j]),
    ensures
        word_len(s.skip(i)) == j - i,
    decreases j - i,
{
    if i < j {
        lemma_word_len_of_run(s, i + 1, j);
        assert(s.skip(i).drop_first() =~= s.skip(i + 1));
    } else if j < s.len() {
        assert(s.skip(i)[0] == s[j]);
    }
}

/// The words of `s`, as `str::split_whitespace` yields them.
pub fn split_words(s: &str) -> (r: Vec<String>)
    ensures
        r.len() == words(s@).len(),
        forall|k: int| 0 <= k < r.len() ==> #[trigger] r[k]@ == words(s@)[k],
{
    let n = s.unicode_len();
    let mut r: Vec<String> = Vec::new();
    let ghost mut found: Seq<Seq<char>> = seq![];
    let mut i: usize = 0;
    proof {
        assert(s@.skip(0) =~= s@);
        assert(found + words(s@) =~= words(s@));
    }
    while i < n
        invariant
            n == s@.len(),
            i <= n,
            words(s@) == found + words(s@.skip(i as int)),
            r.len() == found.len(),
            forall|k: int| 0 <= k < r.len() ==> #[trigger] r[k]@ == found[k],
        decreases n - i,
    {
        let c = s.get_char(i);
        if is_white_space_char(c) {
            assert(s@.skip(i as int).drop_first() =~= s@.skip(i + 1));
            i = i + 1;
        } else {
            let mut j: usize = i + 1;
            while j < n && !is_white_space_char(s.get_char(j))
                invariant
                    n == s@.len(),
                    i < j <= n,
                    forall|k: int| i <= k < j ==> !is_white_space(#[trigger] s@[k]),
                decreases n - j,
            {
                j = j + 1;
            }
            proof {
                lemma_word_len_of_run(s@, i as int, j as int);
                let rest = s@.skip(i as int);
                assert(rest.take((j - i) as int) =~= s@.subrange(i as int, j as int));
                assert(rest.skip((j - i) as int) =~= s@.skip(j as int));
                found = found.push(s@.subrange(i as int, j as int));
            }
            let word = s.substring_char(i, j).to_owned();
            r.push(word);
            i = j;
        }
    }
    proof {
        assert(found + seq![] =~= found);
    }
    r
}


/// Whether `c` is a decimal digit.
pub open spec fn is_decimal_digit(c: char) -> bool {
    '0' <= c && c <= '9'
}

/// The value of the decimal digit `c`.
pub open spec fn decimal_digit_value(c: char) -> nat {
    ((c as u32) - ('0' as u32)) as nat
}

/// The value of a text of decimal digits, the first one the most significant.
pub open spec fn digits_value(s: Seq<char>) -> nat
    decreases s.len(),
{
    if s.len() == 0 {
        0
    } else {
        digits_value(s.drop_last()) * 10 + decimal_digit_value(s.last())
    }
}

/// The digits of an unsigned number's text: the text after a leading `+`, if
/// there is one.
pub open spec fn unsigned_digits(s: Seq<char>) -> Seq<char> {
    if s.len() > 0 && s[0] == '+' {
        s.drop_first()
    } else {
        s
    }
}

/// Whether every character of `s` is a decimal digit.
pub open spec fn all_decimal_digits(s: Seq<char>) -> bool {
    forall|k: int| 0 <= k < s.len() ==> is_decimal_digit(#[trigger] s[k])
}

/// What `str::parse` gives for an unsigned integer type whose largest value
/// is `max`: a number when `s` is an optional `+` followed by one or more
/// decimal digits whose value is at most `max`, and nothing otherwise.
pub open spec fn parse_unsigned(s: Seq<char>, max: nat) -> Option<nat> {
    let digits = unsigned_digits(s);
    if digits.len() > 0 && all_decimal_digits(digits) && digits_value(digits) <= max {
        Some(digits_value(digits))
    } else {
        None
    }
}

proof fn lemma_capped_step(v: nat, d: nat, max: nat)
    requires
        d <= 9,
    ensures
        (if v * 10 + d <= max + 1 { v * 10 + d } else { max + 1 }) == (if (if v <= max + 1 { v } else { max + 1 })
            * 10 + d <= max + 1 {
            (if v <= max + 1 { v } else { max + 1 }) * 10 + d
        } else {
            max + 1
        }),
{
    if v > max + 1 {
        assert(v * 10 + d > max + 1) by (nonlinear_arith)
            requires
                v > max + 1,
        ;
        assert((max + 1) * 10 + d > max + 1) by (nonlinear_arith);
    }
}

/// The number that `s` spells, as `str::parse` reads an unsigned integer type
/// whose largest value is `max`.
pub fn parse_unsigned_text(s: &str, max: u64) -> (r: Option<u64>)
    ensures
        match parse_unsigned(s@, max as nat) {
            Some(v) => r == Some(v as u64),
            None => r is None,
        },
{
    let n = s.unicode_len();
    let start: usize = if n > 0 && s.get_char(0) == '+' { 1 } else { 0 };
    let ghost digits = unsigned_digits(s@);
    proof {
        assert(digits =~= s@.skip(start as int));
    }
    if start == n {
        return None;
    }
    // The value of the digits read so far, capped at `max + 1`.
    let limit: u128 = max as u128 + 1;
    let mut value: u128 = 0;
    let mut i: usize = start;
    proof {
        assert(digits.take(0) =~= seq![]);
    }
    while i < n
        invariant
            n == s@.len(),
            start <= i <= n,
            digits =~= s@.skip(start as int),
            digits == unsigned_digits(s@),
            limit == max + 1,
            forall|k: int| 0 <= k < i - start ==> is_decimal_digit(#[trigger] digits[k]),
            value == (if digits_value(digits.take(i - start)) <= limit {
                digits_value(digits.take(i - start))
            } else {
                limit as nat
            }),
        decreases n - i,
    {
        let c = s.get_char(i);
        if !('0' <= c && c <= '9') {
            proof {
                assert(digits[i - start] == c);
                assert(!is_decimal_digit(digits[i - start]));
                assert(!all_decimal_digits(digits));
            }
            return None;
        }
        let d: u32 = (c as u32) - ('0' as u32);
        proof {
            let prefix = digits.take(i - start + 1);
            assert(prefix.drop_last() =~= digits.take(i - start));
            assert(prefix.last() == c);
            lemma_capped_step(digits_value(digits.take(i - start)), d as nat, max as nat);
        }
        let next: u128 = value * 10 + d as u128;
        value = if next <= limit { next } else { limit };
        i = i + 1;
    }
    proof {
        assert(digits.take(n - start) =~= digits);
    }
    if value <= max as u128 {
        Some(value as u64)
    } else {
        None
    }
}

/// The decimal text of `n`, as `to_string` writes it.
pub fn decimal_string(n: u64) -> (r: String)
    ensures
        r@ == decimal_text(n as nat),
{
    let mut result = String::new();
    let mut m = n;
    loop
        invariant
            decimal_text(n as nat) == decimal_text(m as nat) + result@,
        ensures
            result@ == decimal_text(n as nat),
        decreases m,
    {
        let digit = crate::game::alpha_beta_benchmark::digit_str((m % 10) as usize);
        result = String::from_str(digit).concat(result.as_str());
        if m < 10 {
            proof {
                assert(decimal_text(m as nat) =~= digit@);
            }
            return result;
        }
        proof {
            assert(decimal_text(m as nat) =~= decimal_text((m / 10) as nat) + digit@);
        }
        m = m / 10;
    }
}

/// Whether `s` begins with `prefix`.
pub open spec fn starts_with_text(s: Seq<char>, prefix: Seq<char>) -> bool {
    prefix.len() <= s.len() && s.take(prefix.len() as int) == prefix
}

/// Whether `s` begins with `prefix`, as `str::starts_with` decides.
pub fn text_starts_with(s: &str, prefix: &str) -> (r: bool)
    ensures
        r == starts_with_text(s@, prefix@),
{
    let n = prefix.unicode_len();
    if n > s.unicode_len() {
        return false;
    }
    let mut i: usize = 0;
    while i < n
        invariant
            n == prefix@.len(),
            n <= s@.len(),
            i <= n,
            forall|k: int| 0 <= k < i ==> s@[k] == prefix@[k],
        decreases n - i,
    {
        if s.get_char(i) != prefix.get_char(i) {
            assert(s@.take(n as int)[i as int] != prefix@[i as int]);
            return false;
        }
        i = i + 1;
    }
    assert(s@.take(n as int) =~= prefix@);
    true
}

/// Whether `needle` occurs in `hay` as a run of consecutive characters.
pub open spec fn contains_text(hay: Seq<char>, needle: Seq<char>) -> bool {
    exists|at: int| 0 <= at <= hay.len() - needle.len() && #[trigger] hay.subrange(at, at + needle.len()) == needle
}

/// The characters of `s` with the ASCII capitals turned into small letters.
pub open spec fn ascii_lowered(s: Seq<char>) -> Seq<char> {
    s.map_values(|c: char| ascii_lower(c))
}

/// Whether `needle` occurs in `hay` once the ASCII capitals of `hay` are
/// turned into small letters.
pub fn ascii_lowered_contains(hay: &str, needle: &str) -> (r: bool)
    ensures
        r == contains_text(ascii_lowered(hay@), needle@),
{
    let h = hay.unicode_len();
    let n = needle.unicode_len();
    let ghost lowered = ascii_lowered(hay@);
    if n > h {
        proof {
            assert forall|at: int| 0 <= at <= lowered.len() - needle@.len() implies #[trigger] lowered.subrange(at, at + needle@.len()) != needle@ by {}
        }
        return false;
    }
    let mut at: usize = 0;
    while at <= h - n
        invariant
            h == hay@.len(),
            n == needle@.len(),
            n <= h,
            lowered == ascii_lowered(hay@),
            lowered.len() == h,
            forall|b: int| 0 <= b < at ==> #[trigger] lowered.subrange(b, b + n) != needle@,
        decreases h - n + 1 - at,
    {
        let mut k: usize = 0;
        while k < n && to_ascii_lower(hay.get_char(at + k)) == needle.get_char(k)
            invariant
                h == hay@.len(),
                n == needle@.len(),
                at + n <= h,
                k <= n,
                lowered == ascii_lowered(hay@),
                lowered.len() == h,
                forall|j: int| 0 <= j < k ==> lowered[at + j] == needle@[j],
            decreases n - k,
        {
            k = k + 1;
        }
        if k == n {
            assert(lowered.subrange(at as int, at + n) =~= needle@);
            return true;
        }
        assert(lowered.subrange(at as int, at + n)[k as int] != needle@[k as int]);
        at = at + 1;
    }
    false
}

/// The lowercase mapping of a text, which `str::to_lowercase` computes.
pub uninterp spec fn lowercase_text(s: Seq<char>) -> Seq<char>;

/// Calls `str::to_lowercase`, which replaces every character by its Unicode
/// lowercase mapping. The mapping is not written out: the result is only
/// named as `lowercase_text` of the argument.
#[verifier::external_body]
pub(crate) fn to_lowercase(s: &str) -> (r: String)
    ensures
        r@ == lowercase_text(s@),
{
    s.to_lowercase()
}

/// The decimal text of `n`.
pub open spec fn decimal_text(n: nat) -> Seq<char>
    decreases n,
{
    if n < 10 {
        seq![crate::game::alpha_beta_benchmark::digit_char(n as int)]
    } else {
        decimal_text(n / 10).push(crate::game::alpha_beta_benchmark::digit_char((n % 10) as int))
    }
}

} // verus!
