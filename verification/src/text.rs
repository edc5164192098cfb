//! Characters, trimming, word splitting and decimal integers.
//!
//! The functions of this module work on `&str` and are specified over the
//! sequence of characters that a string holds.

use vstd::prelude::*;

verus! {

/// The characters that separate words: space, tab, line feed, form feed and
/// carriage return.
pub open spec fn is_ascii_whitespace(c: char) -> bool {
    c == ' ' || c == '\t' || c == '\n' || c == '\x0C' || c == '\r'
}

/// The characters with the Unicode property `White_Space`.
pub open spec fn is_whitespace(c: char) -> bool {
    let u = c as u32;
    ||| 0x09 <= u <= 0x0D
    ||| u == 0x20
    ||| u == 0x85
    ||| u == 0xA0
    ||| u == 0x1680
    ||| 0x2000 <= u <= 0x200A
    ||| u == 0x2028
    ||| u == 0x2029
    ||| u == 0x202F
    ||| u == 0x205F
    ||| u == 0x3000
}

/// Whether the character separates words.
pub fn ascii_whitespace(c: char) -> (b: bool)
    ensures
        b == is_ascii_whitespace(c),
{
    c == ' ' || c == '\t' || c == '\n' || c == '\x0C' || c == '\r'
}

/// Whether the character is white space.
pub fn whitespace(c: char) -> (b: bool)
    ensures
        b == is_whitespace(c),
{
    let u: u32 = c as u32;
    (0x09 <= u && u <= 0x0D) || u == 0x20 || u == 0x85 || u == 0xA0 || u == 0x1680 || (0x2000 <= u
        && u <= 0x200A) || u == 0x2028 || u == 0x2029 || u == 0x202F || u == 0x205F || u == 0x3000
}

/// The characters of a string, in order.
pub fn chars_of(s: &str) -> (v: Vec<char>)
    ensures
        v@ == s@,
{
    let mut v: Vec<char> = Vec::new();
    for c in it: s.chars()
        invariant
            v@ == it.seq().take(it.index() as int),
            it.seq() == s@,
    {
        v.push(c);
    }
    v
}

/// Whether two strings hold the same characters.
pub fn str_eq(a: &str, b: &str) -> (same: bool)
    ensures
        same == (a@ == b@),
{
    let x = a.to_owned();
    let y = b.to_owned();
    x == y
}

/// The text without the white space it begins with.
pub open spec fn trim_start(s: Seq<char>) -> Seq<char>
    decreases s.len(),
{
    if s.len() > 0 && is_whitespace(s.first()) {
        trim_start(s.drop_first())
    } else {
        s
    }
}

/// The text without the white space it ends with.
pub open spec fn trim_end(s: Seq<char>) -> Seq<char>
    decreases s.len(),
{
    if s.len() > 0 && is_whitespace(s.last()) {
        trim_end(s.drop_last())
    } else {
        s
    }
}

/// The text without the white space on either side.
pub open spec fn trimmed(s: Seq<char>) -> Seq<char> {
    trim_end(trim_start(s))
}

/// `trim_start` cuts off a run of white space that ends at the first other
/// character; the result is the number of characters cut off.
pub proof fn trim_start_is_suffix(s: Seq<char>) -> (k: int)
    ensures
        0 <= k <= s.len(),
        trim_start(s) == s.skip(k),
        forall|i: int| 0 <= i < k ==> is_whitespace(s[i]),
        k < s.len() ==> !is_whitespace(s[k]),
    decreases s.len(),
{
    if s.len() > 0 && is_whitespace(s.first()) {
        let rest = s.drop_first();
        let k = trim_start_is_suffix(rest);
        assert(rest.skip(k) =~= s.skip(k + 1));
        assert forall|i: int| 0 <= i < k + 1 implies is_whitespace(s[i]) by {
            if i > 0 {
                assert(s[i] == rest[i - 1]);
            }
        }
        if k + 1 < s.len() {
            assert(s[k + 1] == rest[k]);
        }
        k + 1
    } else {
        assert(s.skip(0) =~= s);
        0
    }
}

/// `trim_end` cuts off a run of white space that begins after the last other
/// character; the result is the number of characters kept.
pub proof fn trim_end_is_prefix(s: Seq<char>) -> (k: int)
    ensures
        0 <= k <= s.len(),
        trim_end(s) == s.take(k),
        forall|i: int| k <= i < s.len() ==> is_whitespace(s[i]),
        0 < k ==> !is_whitespace(s[k - 1]),
    decreases s.len(),
{
    if s.len() > 0 && is_whitespace(s.last()) {
        let rest = s.drop_last();
        let k = trim_end_is_prefix(rest);
        assert(rest.take(k) =~= s.take(k));
        assert forall|i: int| k <= i < s.len() implies is_whitespace(s[i]) by {
            if i < s.len() - 1 {
                assert(s[i] == rest[i]);
            }
        }
        if 0 < k {
            assert(s[k - 1] == rest[k - 1]);
        }
        k
    } else {
        assert(s.take(s.len() as int) =~= s);
        s.len() as int
    }
}

/// Trimming keeps one contiguous piece of the text and changes nothing inside
/// it: what is cut off on either side is white space, and the piece that is
/// left neither begins nor ends with white space.
pub proof fn trimmed_is_slice(s: Seq<char>) -> (bounds: (int, int))
    ensures
        0 <= bounds.0 <= bounds.1 <= s.len(),
        trimmed(s) == s.subrange(bounds.0, bounds.1),
        forall|i: int| 0 <= i < bounds.0 ==> is_whitespace(s[i]),
        forall|i: int| bounds.1 <= i < s.len() ==> is_whitespace(s[i]),
        bounds.0 < bounds.1 ==> !is_whitespace(s[bounds.0]) && !is_whitespace(s[bounds.1 - 1]),
{
    let a = trim_start_is_suffix(s);
    let tail = s.skip(a);
    let k = trim_end_is_prefix(tail);
    let b = a + k;
    assert(tail.take(k) =~= s.subrange(a, b));
    assert forall|i: int| b <= i < s.len() implies is_whitespace(s[i]) by {
        assert(s[i] == tail[i - a]);
    }
    if a < b {
        assert(s[b - 1] == tail[k - 1]);
    }
    (a, b)
}

/// A piece of the text that has only white space before it and after it, and
/// none at its own two ends, is what trimming keeps.
pub proof fn slice_is_trimmed(s: Seq<char>, a: int, b: int)
    requires
        0 <= a <= b <= s.len(),
        forall|i: int| 0 <= i < a ==> is_whitespace(s[i]),
        forall|i: int| b <= i < s.len() ==> is_whitespace(s[i]),
        a < b ==> !is_whitespace(s[a]) && !is_whitespace(s[b - 1]),
    ensures
        trimmed(s) == s.subrange(a, b),
{
    let kept = trimmed_is_slice(s);
    if a < b {
        assert(kept.0 <= a < kept.1);
        assert(kept.0 < b <= kept.1);
        assert(kept.0 == a);
        assert(kept.1 == b);
    } else {
        if kept.0 < kept.1 {
            assert(is_whitespace(s[kept.0]));
        }
        assert(s.subrange(kept.0, kept.1) =~= s.subrange(a, b));
    }
}

/// The bounds of the piece that trimming keeps of the text after its first
/// `start` characters.
fn trim_bounds(chars: &Vec<char>, start: usize) -> (bounds: (usize, usize))
    requires
        start <= chars.len(),
    ensures
        start <= bounds.0 <= bounds.1 <= chars.len(),
        chars@.subrange(bounds.0 as int, bounds.1 as int) == trimmed(chars@.skip(start as int)),
{
    let n: usize = chars.len();
    let mut a: usize = start;
    while a < n && whitespace(chars[a])
        invariant
            n == chars.len(),
            start <= a <= n,
            forall|i: int| start <= i < a ==> is_whitespace(chars[i]),
        decreases n - a,
    {
        a += 1;
    }
    let mut b: usize = n;
    while b > a && whitespace(chars[b - 1])
        invariant
            n == chars.len(),
            a <= b <= n,
            forall|i: int| b <= i < n ==> is_whitespace(chars[i]),
        decreases b,
    {
        b -= 1;
    }
    proof {
        let text = chars@.skip(start as int);
        let cut = trim_start_is_suffix(text);
        if cut < a - start {
            assert(text[cut] == chars[start + cut]);
        }
        if a - start < cut {
            assert(text[a - start] == chars[a as int]);
        }
        assert(cut == a - start);
        let tail = text.skip(cut);
        assert(tail =~= chars@.subrange(a as int, n as int));
        let kept = trim_end_is_prefix(tail);
        if kept < b - a {
            assert(tail[b - a - 1] == chars[b - 1]);
        }
        if b - a < kept {
            assert(tail[kept - 1] == chars[a + kept - 1]);
        }
        assert(kept == b - a);
        assert(tail.take(kept) =~= chars@.subrange(a as int, b as int));
    }
    (a, b)
}

/// The string without the white space on either side.
pub fn trim(s: &str) -> (r: String)
    ensures
        r@ == trimmed(s@),
{
    assert(s@.skip(0) =~= s@);
    trim_after(s, 0)
}

/// What follows the first `start` characters of the string, without the
/// white space on either side.
pub(crate) fn trim_after(s: &str, start: usize) -> (r: String)
    requires
        start <= s@.len(),
    ensures
        r@ == trimmed(s@.skip(start as int)),
{
    let chars = chars_of(s);
    let (a, b) = trim_bounds(&chars, start);
    s.substring_char(a, b).to_owned()
}

/// The number of characters before the first separator: the length of the
/// word that the text begins with.
pub open spec fn word_len(s: Seq<char>) -> nat
    decreases s.len(),
{
    if s.len() == 0 || is_ascii_whitespace(s.first()) {
        0
    } else {
        1 + word_len(s.drop_first())
    }
}

/// The words of the text: its maximal runs of characters that are not
/// separators, in order. No word is empty.
pub open spec fn words(s: Seq<char>) -> Seq<Seq<char>>
    decreases s.len(),
{
    if s.len() == 0 {
        Seq::empty()
    } else if is_ascii_whitespace(s.first()) {
        words(s.drop_first())
    } else {
        proof {
            word_len_is_run(s);
        }
        seq![s.take(word_len(s) as int)] + words(s.skip(word_len(s) as int))
    }
}

/// The first word of the text, if it has one.
pub open spec fn first_word(s: Seq<char>) -> Option<Seq<char>> {
    if words(s).len() == 0 {
        None
    } else {
        Some(words(s).first())
    }
}

/// `word_len` counts a run of characters that are not separators and that
/// ends at the first separator.
pub proof fn word_len_is_run(s: Seq<char>)
    ensures
        word_len(s) <= s.len(),
        forall|i: int| 0 <= i < word_len(s) ==> !is_ascii_whitespace(s[i]),
        word_len(s) < s.len() ==> is_ascii_whitespace(s[word_len(s) as int]),
    decreases s.len(),
{
    if s.len() == 0 || is_ascii_whitespace(s.first()) {
    } else {
        let rest = s.drop_first();
        word_len_is_run(rest);
        assert forall|i: int| 0 <= i < word_len(s) implies !is_ascii_whitespace(s[i]) by {
            if i > 0 {
                assert(s[i] == rest[i - 1]);
            }
        }
        if word_len(s) < s.len() {
            assert(s[word_len(s) as int] == rest[word_len(rest) as int]);
        }
    }
}

/// Separators before the first word do not change the words.
proof fn words_skip_separators(s: Seq<char>, k: int)
    requires
        0 <= k <= s.len(),
        forall|i: int| 0 <= i < k ==> is_ascii_whitespace(s[i]),
    ensures
        words(s) == words(s.skip(k)),
    decreases k,
{
    if k == 0 {
        assert(s.skip(0) =~= s);
    } else {
        let rest = s.drop_first();
        assert forall|i: int| 0 <= i < k - 1 implies is_ascii_whitespace(rest[i]) by {
            assert(rest[i] == s[i + 1]);
        }
        words_skip_separators(rest, k - 1);
        assert(rest.skip(k - 1) =~= s.skip(k));
    }
}

/// From position `i`, after separators up to `a`, the next word is the run
/// from `a` to `b`, and the words after it are those from `b` on.
proof fn words_next(s: Seq<char>, i: int, a: int, b: int)
    requires
        0 <= i <= a < b <= s.len(),
        forall|k: int| i <= k < a ==> is_ascii_whitespace(s[k]),
        forall|k: int| a <= k < b ==> !is_ascii_whitespace(s[k]),
        b < s.len() ==> is_ascii_whitespace(s[b]),
    ensures
        words(s.skip(i)) == seq![s.subrange(a, b)] + words(s.skip(b)),
{
    let from_i = s.skip(i);
    assert forall|k: int| 0 <= k < a - i implies is_ascii_whitespace(from_i[k]) by {
        assert(from_i[k] == s[i + k]);
    }
    words_skip_separators(from_i, a - i);
    let from_a = s.skip(a);
    assert(from_i.skip(a - i) =~= from_a);
    word_len_is_run(from_a);
    let n = word_len(from_a) as int;
    if n < b - a {
        assert(from_a[n] == s[a + n]);
    }
    if b - a < n {
        assert(from_a[b - a] == s[b]);
    }
    assert(n == b - a);
    assert(from_a.first() == s[a]);
    assert(from_a.take(n) =~= s.subrange(a, b));
    assert(from_a.skip(n) =~= s.skip(b));
}

/// Text that holds only separators from position `i` on has no more words.
proof fn words_none_left(s: Seq<char>, i: int)
    requires
        0 <= i <= s.len(),
        forall|k: int| i <= k < s.len() ==> is_ascii_whitespace(s[k]),
    ensures
        words(s.skip(i)) == Seq::<Seq<char>>::empty(),
{
    let from_i = s.skip(i);
    assert forall|k: int| 0 <= k < from_i.len() implies is_ascii_whitespace(from_i[k]) by {
        assert(from_i[k] == s[i + k]);
    }
    words_skip_separators(from_i, from_i.len() as int);
    assert(from_i.skip(from_i.len() as int).len() == 0);
}

/// Text without a separator, unless it is empty, is one word.
pub proof fn words_of_word(s: Seq<char>)
    requires
        s.len() > 0,
        forall|i: int| 0 <= i < s.len() ==> !is_ascii_whitespace(s[i]),
    ensures
        words(s) == seq![s],
{
    words_next(s, 0, 0, s.len() as int);
    words_none_left(s, s.len() as int);
    assert(s.skip(0) =~= s);
    assert(s.subrange(0, s.len() as int) =~= s);
    assert(seq![s] + Seq::<Seq<char>>::empty() =~= seq![s]);
}

/// A line that begins with a word and goes on with a space begins with that
/// word, whatever follows the space.
pub proof fn first_word_of_line(word: Seq<char>, rest: Seq<char>)
    requires
        word.len() > 0,
        forall|i: int| 0 <= i < word.len() ==> !is_ascii_whitespace(word[i]),
    ensures
        first_word(word + seq![' '] + rest) == Some(word),
{
    let text = word + seq![' '] + rest;
    let n = word.len() as int;
    assert forall|k: int| 0 <= k < n implies !is_ascii_whitespace(text[k]) by {
        assert(text[k] == word[k]);
    }
    assert(text[n] == ' ');
    words_next(text, 0, 0, n);
    assert(text.skip(0) =~= text);
    assert(text.subrange(0, n) =~= word);
}

/// The first position from `i` on that holds no separator, or the length.
fn skip_separators(chars: &Vec<char>, i: usize) -> (a: usize)
    requires
        i <= chars.len(),
    ensures
        i <= a <= chars.len(),
        forall|k: int| i <= k < a ==> is_ascii_whitespace(chars[k]),
        a < chars.len() ==> !is_ascii_whitespace(chars[a as int]),
{
    let mut a: usize = i;
    while a < chars.len() && ascii_whitespace(chars[a])
        invariant
            i <= a <= chars.len(),
            forall|k: int| i <= k < a ==> is_ascii_whitespace(chars[k]),
        decreases chars.len() - a,
    {
        a += 1;
    }
    a
}

/// The first position from `a` on that holds a separator, or the length.
fn word_end(chars: &Vec<char>, a: usize) -> (b: usize)
    requires
        a <= chars.len(),
    ensures
        a <= b <= chars.len(),
        forall|k: int| a <= k < b ==> !is_ascii_whitespace(chars[k]),
        b < chars.len() ==> is_ascii_whitespace(chars[b as int]),
{
    let mut b: usize = a;
    while b < chars.len() && !ascii_whitespace(chars[b])
        invariant
            a <= b <= chars.len(),
            forall|k: int| a <= k < b ==> !is_ascii_whitespace(chars[k]),
        decreases chars.len() - b,
    {
        b += 1;
    }
    b
}

/// The words of the string, in order.
pub fn split_ascii_whitespace(s: &str) -> (out: Vec<String>)
    ensures
        out.deep_view() == words(s@),
{
    let chars = chars_of(s);
    let n: usize = chars.len();
    let mut out: Vec<String> = Vec::new();
    let mut i: usize = 0;
    assert(s@.skip(0) =~= s@);
    assert(out.deep_view() + words(s@) =~= words(s@));
    while i < n
        invariant
            chars@ == s@,
            n == chars.len(),
            i <= n,
            out.deep_view() + words(s@.skip(i as int)) == words(s@),
        decreases n - i,
    {
        let a = skip_separators(&chars, i);
        if a < n {
            let b = word_end(&chars, a);
            let word = s.substring_char(a, b).to_owned();
            proof {
                words_next(s@, i as int, a as int, b as int);
            }
            let ghost before = out.deep_view();
            out.push(word);
            assert(out.deep_view() =~= before.push(word@));
            assert(before.push(word@) + words(s@.skip(b as int)) =~= before + (seq![word@] + words(
                s@.skip(b as int),
            )));
            i = b;
        } else {
            proof {
                words_none_left(s@, i as int);
                words_none_left(s@, n as int);
            }
            i = n;
        }
    }
    proof {
        words_none_left(s@, n as int);
        assert(out.deep_view() + Seq::<Seq<char>>::empty() =~= out.deep_view());
    }
    out
}

/// The first word of the string, if it has one.
pub fn split_first_word(s: &str) -> (word: Option<String>)
    ensures
        word.deep_view() == first_word(s@),
{
    let chars = chars_of(s);
    let a = skip_separators(&chars, 0);
    assert(s@.skip(0) =~= s@);
    if a < chars.len() {
        let b = word_end(&chars, a);
        proof {
            words_next(s@, 0, a as int, b as int);
        }
        Some(s.substring_char(a, b).to_owned())
    } else {
        proof {
            words_none_left(s@, 0);
        }
        None
    }
}

/// One of the ten decimal digits.
pub open spec fn is_digit(c: char) -> bool {
    0x30 <= c as u32 <= 0x39
}

/// The number that a decimal digit stands for.
pub open spec fn digit_value(c: char) -> int {
    c as u32 - 0x30
}

/// Text made of decimal digits, at least one.
pub open spec fn is_decimal(s: Seq<char>) -> bool {
    s.len() > 0 && forall|i: int| 0 <= i < s.len() ==> is_digit(s[i])
}

/// The number that a run of decimal digits stands for, the last digit
/// counting least.
pub open spec fn decimal_value(s: Seq<char>) -> nat
    decreases s.len(),
{
    if s.len() == 0 {
        0
    } else {
        (10 * decimal_value(s.drop_last()) + digit_value(s.last())) as nat
    }
}

/// The integer that a run of decimal digits stands for, negated where a minus
/// sign went before it.
pub open spec fn with_sign(negative: bool, digits: Seq<char>) -> Option<int> {
    if !is_decimal(digits) {
        None
    } else if negative {
        Some(-(decimal_value(digits) as int))
    } else {
        Some(decimal_value(digits) as int)
    }
}

/// The integer that the text stands for: decimal digits, before them at most
/// one sign, `+` or `-`, and nothing else. Other text stands for no integer.
pub open spec fn signed_decimal(s: Seq<char>) -> Option<int> {
    if s.len() > 0 && s.first() == '-' {
        with_sign(true, s.drop_first())
    } else if s.len() > 0 && s.first() == '+' {
        with_sign(false, s.drop_first())
    } else {
        with_sign(false, s)
    }
}

/// The integer that the text stands for, where it fits in an `i32`.
pub open spec fn parsed_i32(s: Seq<char>) -> Option<i32> {
    match signed_decimal(s) {
        Some(value) => if i32::MIN <= value <= i32::MAX {
            Some(value as i32)
        } else {
            None
        },
        None => None,
    }
}

/// Text that stands for an integer is not empty and holds no white space.
pub proof fn number_has_no_whitespace(s: Seq<char>)
    requires
        signed_decimal(s) is Some,
    ensures
        s.len() > 0,
        forall|i: int| 0 <= i < s.len() ==> !is_whitespace(s[i]) && !is_ascii_whitespace(s[i]),
{
    assert forall|i: int| 0 <= i < s.len() implies !is_whitespace(s[i]) && !is_ascii_whitespace(
        s[i],
    ) by {
        if s.first() == '-' || s.first() == '+' {
            if i > 0 {
                assert(is_digit(s.drop_first()[i - 1]));
            }
        } else {
            assert(is_digit(s[i]));
        }
    }
}

/// Among digits a longer run stands for no smaller number than its beginning.
proof fn decimal_value_grows(s: Seq<char>, k: int)
    requires
        0 <= k <= s.len(),
        forall|i: int| 0 <= i < s.len() ==> is_digit(s[i]),
    ensures
        decimal_value(s.take(k)) <= decimal_value(s),
    decreases s.len() - k,
{
    if k == s.len() {
        assert(s.take(k) =~= s);
    } else {
        decimal_value_grows(s, k + 1);
        assert(s.take(k + 1).drop_last() =~= s.take(k));
        assert(is_digit(s[k]));
    }
}

/// The integer that the string stands for, where it fits in an `i32`.
pub fn parse_i32(s: &str) -> (r: Option<i32>)
    ensures
        r == parsed_i32(s@),
{
    let chars = chars_of(s);
    let n: usize = chars.len();
    if n == 0 {
        return None;
    }
    let negative: bool = chars[0] == '-';
    let start: usize = if negative || chars[0] == '+' {
        1
    } else {
        0
    };
    let ghost digits = s@.skip(start as int);
    assert(start == 1 ==> digits =~= s@.drop_first());
    assert(start == 0 ==> digits =~= s@);
    if start == n {
        return None;
    }
    assert(signed_decimal(s@) == with_sign(negative, digits));
    let mut magnitude: i64 = 0;
    let mut i: usize = start;
    assert(digits.take(0) =~= Seq::<char>::empty());
    while i < n
        invariant
            chars@ == s@,
            n == chars.len(),
            start <= i <= n,
            digits.len() == n - start,
            signed_decimal(s@) == with_sign(negative, digits),
            forall|k: int| 0 <= k < i - start ==> is_digit(digits[k]),
            forall|k: int| start <= k < n ==> chars[k] == digits[k - start],
            magnitude == decimal_value(digits.take(i - start)),
            magnitude <= 0x8000_0000,
        decreases n - i,
    {
        let c: u32 = chars[i] as u32;
        if c < 0x30 || c > 0x39 {
            assert(!is_digit(digits[i - start]));
            return None;
        }
        let digit: i64 = (c - 0x30) as i64;
        let ghost longer = digits.take(i - start + 1);
        assert(longer.drop_last() =~= digits.take(i - start));
        assert(longer.last() == digits[i - start]);
        magnitude = 10 * magnitude + digit;
        assert(magnitude == decimal_value(longer));
        if magnitude > 0x8000_0000 {
            proof {
                if is_decimal(digits) {
                    decimal_value_grows(digits, i - start + 1);
                }
            }
            return None;
        }
        i += 1;
    }
    assert(digits.take(n - start) =~= digits);
    if negative {
        Some((-magnitude) as i32)
    } else if magnitude <= 0x7FFF_FFFF {
        Some(magnitude as i32)
    } else {
        None
    }
}

} // verus!
