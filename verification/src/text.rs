//! Text at the level of characters, for the encoder and the decoder:
//! whitespace, the words of a line, and numbers as decimal numerals.
use vstd::prelude::*;
use vstd::string::*;

verus! {

/// The characters that separate words: exactly the code points that carry
/// the Unicode `White_Space` property.
pub open spec fn is_whitespace(c: char) -> bool {
    let n = c as u32;
    ||| 0x09 <= n <= 0x0D
    ||| n == 0x20
    ||| n == 0x85
    ||| n == 0xA0
    ||| n == 0x1680
    ||| 0x2000 <= n <= 0x200A
    ||| n == 0x2028
    ||| n == 0x2029
    ||| n == 0x202F
    ||| n == 0x205F
    ||| n == 0x3000
}

/// A line is blank when nothing but whitespace is in it.
pub open spec fn is_blank(s: Seq<char>) -> bool {
    forall|i: int| 0 <= i < s.len() ==> is_whitespace(#[trigger] s[i])
}

/// The first position at or after `from` that holds whitespace, or the
/// length of `s` when there is none.
pub open spec fn word_end(s: Seq<char>, from: int) -> int
    decreases s.len() - from,
{
    if from < 0 || from >= s.len() {
        s.len() as int
    } else if is_whitespace(s[from]) {
        from
    } else {
        word_end(s, from + 1)
    }
}

/// The words of `s` that begin at or after `from`: the maximal runs of
/// characters that are not whitespace, in the order in which they stand.
pub open spec fn words_from(s: Seq<char>, from: int) -> Seq<Seq<char>>
    decreases s.len() - from,
    via words_from_decreases
{
    if from < 0 || from >= s.len() {
        Seq::empty()
    } else if is_whitespace(s[from]) {
        words_from(s, from + 1)
    } else {
        let end = word_end(s, from);
        seq![s.subrange(from, end)] + words_from(s, end)
    }
}

#[via_fn]
proof fn words_from_decreases(s: Seq<char>, from: int) {
    if 0 <= from < s.len() && !is_whitespace(s[from]) {
        lemma_word_end(s, from);
    }
}

/// The words of a line.
pub open spec fn words(s: Seq<char>) -> Seq<Seq<char>> {
    words_from(s, 0)
}

/// Tells whether `c` separates words.
pub fn char_is_whitespace(c: char) -> (b: bool)
    ensures
        b == is_whitespace(c),
{
    let n: u32 = c as u32;
    (0x09 <= n && n <= 0x0D) || n == 0x20 || n == 0x85 || n == 0xA0 || n == 0x1680 || (0x2000 <= n
        && n <= 0x200A) || n == 0x2028 || n == 0x2029 || n == 0x202F || n == 0x205F || n == 0x3000
}

/// The characters of a string, one by one.
pub fn chars_of(s: &str) -> (v: Vec<char>)
    ensures
        v@ == s@,
{
    let mut v: Vec<char> = Vec::new();
    for c in it: s.chars()
        invariant
            v@ == it.seq().take(it.index()),
    {
        v.push(c);
    }
    v
}

/// A word ends strictly after the position at which it begins, and within
/// the line; no whitespace stands inside it.
pub proof fn lemma_word_end(s: Seq<char>, from: int)
    requires
        0 <= from < s.len(),
        !is_whitespace(s[from]),
    ensures
        from < word_end(s, from) <= s.len(),
        forall|k: int| from <= k < word_end(s, from) ==> !is_whitespace(#[trigger] s[k]),
        word_end(s, from) < s.len() ==> is_whitespace(s[word_end(s, from)]),
    decreases s.len() - from,
{
    assert(word_end(s, from) == word_end(s, from + 1));
    if from + 1 < s.len() && !is_whitespace(s[from + 1]) {
        lemma_word_end(s, from + 1);
    } else {
        assert(word_end(s, from + 1) == from + 1);
    }
}

/// Splits a line into its words.
pub fn split_words(s: &str) -> (out: Vec<String>)
    ensures
        out.deep_view() == words(s@),
{
    let cs = chars_of(s);
    let n: usize = cs.len();
    let mut out: Vec<String> = Vec::new();
    let mut i: usize = 0;
    while i < n
        invariant
            0 <= i <= n,
            n == cs.len(),
            cs@ == s@,
            out.deep_view() + words_from(s@, i as int) == words(s@),
        decreases n - i,
    {
        if char_is_whitespace(cs[i]) {
            i += 1;
        } else {
            let begin: usize = i;
            let mut end: usize = i + 1;
            while end < n && !char_is_whitespace(cs[end])
                invariant
                    begin < end <= n,
                    n == cs.len(),
                    cs@ == s@,
                    !is_whitespace(s@[begin as int]),
                    word_end(s@, begin as int) == word_end(s@, end as int),
                decreases n - end,
            {
                end += 1;
            }
            proof {
                lemma_word_end(s@, begin as int);
            }
            let word = s.substring_char(begin, end).to_owned();
            let ghost before = out.deep_view();
            out.push(word);
            assert(out.deep_view() =~= before + seq![s@.subrange(begin as int, end as int)]);
            i = end;
        }
    }
    out
}

/// The character that writes the digit `d`, for `d` below ten.
pub open spec fn digit_char(d: nat) -> char {
    ('0' as nat + d) as char
}

/// The decimal numeral of `n`: no sign, no leading zero, `0` for zero.
pub open spec fn decimal(n: nat) -> Seq<char>
    decreases n,
{
    if n < 10 {
        seq![digit_char(n)]
    } else {
        decimal(n / 10).push(digit_char(n % 10))
    }
}

/// The one-character string of a digit.
pub fn digit_str(d: u8) -> (s: &'static str)
    requires
        d < 10,
    ensures
        s@ == seq![digit_char(d as nat)],
{
    proof {
        reveal_strlit("0");
        reveal_strlit("1");
        reveal_strlit("2");
        reveal_strlit("3");
        reveal_strlit("4");
        reveal_strlit("5");
        reveal_strlit("6");
        reveal_strlit("7");
        reveal_strlit("8");
        reveal_strlit("9");
    }
    let s = match d {
        0 => "0",
        1 => "1",
        2 => "2",
        3 => "3",
        4 => "4",
        5 => "5",
        6 => "6",
        7 => "7",
        8 => "8",
        _ => "9",
    };
    assert(s@ =~= seq![digit_char(d as nat)]);
    s
}

/// Appends the decimal numeral of `n` to `out`.
pub fn push_decimal(out: &mut String, n: u128)
    ensures
        final(out)@ == old(out)@ + decimal(n as nat),
    decreases n,
{
    if n >= 10 {
        push_decimal(out, n / 10);
    }
    let d: u8 = (n % 10) as u8;
    out.append(digit_str(d));
    assert(out@ =~= old(out)@ + decimal(n as nat));
}

/// Whether `c` is one of the ten decimal digits.
pub open spec fn is_digit(c: char) -> bool {
    '0' <= c <= '9'
}

/// Whether `s` is made of decimal digits only.
pub open spec fn all_digits(s: Seq<char>) -> bool {
    forall|i: int| 0 <= i < s.len() ==> is_digit(#[trigger] s[i])
}

/// The number that a run of decimal digits writes; leading zeros count
/// for nothing.
pub open spec fn digits_value(s: Seq<char>) -> nat
    decreases s.len(),
{
    if s.len() == 0 {
        0
    } else {
        10 * digits_value(s.drop_last()) + (s.last() as nat - '0' as nat) as nat
    }
}

/// The natural number that a word writes: an optional `+`, then one or
/// more decimal digits and nothing else.
pub open spec fn nat_of(s: Seq<char>) -> Option<nat> {
    let digits = if s.len() > 0 && s[0] == '+' {
        s.skip(1)
    } else {
        s
    };
    if digits.len() > 0 && all_digits(digits) {
        Some(digits_value(digits))
    } else {
        None
    }
}

/// The integer that a word writes: an optional `+` or `-`, then one or
/// more decimal digits and nothing else.
pub open spec fn int_of(s: Seq<char>) -> Option<int> {
    if s.len() > 0 && s[0] == '-' {
        let digits = s.skip(1);
        if digits.len() > 0 && all_digits(digits) {
            Some(-(digits_value(digits) as int))
        } else {
            None
        }
    } else {
        match nat_of(s) {
            Some(n) => Some(n as int),
            None => None,
        }
    }
}

/// The `i32` that a word writes, if it writes an integer that fits.
pub open spec fn i32_of(s: Seq<char>) -> Option<i32> {
    match int_of(s) {
        Some(v) if i32::MIN <= v <= i32::MAX => Some(v as i32),
        _ => None,
    }
}

/// The `u64` that a word writes, if it writes a natural number that fits.
pub open spec fn u64_of(s: Seq<char>) -> Option<u64> {
    match nat_of(s) {
        Some(v) if v <= u64::MAX => Some(v as u64),
        _ => None,
    }
}

/// Reads an `i32` by `str::parse`. As the standard library documents it,
/// the call succeeds exactly on an optional sign followed by decimal
/// digits that write a number within the range of `i32`, and returns that
/// number.
#[verifier::external_body]
pub(crate) fn parse_i32(word: &str) -> (r: Result<i32, std::num::ParseIntError>)
    ensures
        r is Ok <==> i32_of(word@) is Some,
        r is Ok ==> Some(r->Ok_0) == i32_of(word@),
{
    word.parse::<i32>()
}

/// Reads a `u64` by `str::parse`. As the standard library documents it,
/// the call succeeds exactly on an optional `+` followed by decimal digits
/// that write a number within the range of `u64`, and returns that number.
#[verifier::external_body]
pub(crate) fn parse_u64(word: &str) -> (r: Result<u64, std::num::ParseIntError>)
    ensures
        r is Ok <==> u64_of(word@) is Some,
        r is Ok ==> Some(r->Ok_0) == u64_of(word@),
{
    word.parse::<u64>()
}

/// The words of `ws` written one after the other, with one space between
/// each two.
pub open spec fn joined(ws: Seq<Seq<char>>) -> Seq<char>
    decreases ws.len(),
{
    if ws.len() == 0 {
        Seq::empty()
    } else if ws.len() == 1 {
        ws[0]
    } else {
        joined(ws.drop_last()) + seq![' '] + ws.last()
    }
}

/// Whether a word is spelled as `spelling` is.
pub fn word_is(word: &String, spelling: &str) -> (b: bool)
    ensures
        b == (word@ == spelling@),
{
    *word == String::from_str(spelling)
}

/// Joins the words from position `from` on, with one space between each
/// two.
pub fn join_from(ws: &Vec<String>, from: usize) -> (s: String)
    requires
        from <= ws.len(),
    ensures
        s@ == joined(ws.deep_view().skip(from as int)),
{
    let ghost rest = ws.deep_view().skip(from as int);
    let mut s = String::new();
    let mut i: usize = from;
    while i < ws.len()
        invariant
            from <= i <= ws.len(),
            rest == ws.deep_view().skip(from as int),
            s@ == joined(rest.take(i - from)),
        decreases ws.len() - i,
    {
        proof {
            reveal_strlit(" ");
            assert(rest.take(i + 1 - from).drop_last() =~= rest.take(i - from));
            assert(rest.take(i + 1 - from).last() == ws[i as int]@);
        }
        if i > from {
            s.append(" ");
        }
        s.append(ws[i].as_str());
        assert(s@ =~= joined(rest.take(i + 1 - from)));
        i += 1;
    }
    assert(rest.take(i - from) =~= rest);
    s
}

/// The decimal numeral of an integer: a `-` before the numeral of what a
/// negative number lacks to zero.
pub open spec fn signed_decimal(n: int) -> Seq<char> {
    if n < 0 {
        seq!['-'] + decimal((-n) as nat)
    } else {
        decimal(n as nat)
    }
}

/// The decimal numeral of `n`.
pub fn i32_to_string(n: i32) -> (s: String)
    ensures
        s@ == signed_decimal(n as int),
{
    let mut s = String::new();
    if n < 0 {
        proof {
            reveal_strlit("-");
        }
        s.append("-");
        push_decimal(&mut s, (-(n as i64)) as u128);
        assert(s@ =~= signed_decimal(n as int));
    } else {
        push_decimal(&mut s, n as u128);
        assert(s@ =~= signed_decimal(n as int));
    }
    s
}

/// A word does not end before whitespace or the end of the line.
proof fn lemma_word_end_shift(a: Seq<char>, b: Seq<char>, k: int)
    requires
        0 <= k <= b.len(),
    ensures
        word_end(a + b, a.len() + k) == a.len() + word_end(b, k),
    decreases b.len() - k,
{
    let s = a + b;
    if k < b.len() {
        assert(s[a.len() + k] == b[k]);
        if !is_whitespace(b[k]) {
            lemma_word_end_shift(a, b, k + 1);
        }
    }
}

/// The words of what follows a prefix are the words that begin after the
/// prefix.
proof fn lemma_words_from_shift(a: Seq<char>, b: Seq<char>, k: int)
    requires
        0 <= k <= b.len(),
    ensures
        words_from(a + b, a.len() + k) == words_from(b, k),
    decreases b.len() - k,
{
    let s = a + b;
    if k < b.len() {
        assert(s[a.len() + k] == b[k]);
        if is_whitespace(b[k]) {
            lemma_words_from_shift(a, b, k + 1);
        } else {
            lemma_word_end(b, k);
            lemma_word_end_shift(a, b, k);
            let end = word_end(b, k);
            lemma_words_from_shift(a, b, end);
            assert(s.subrange(a.len() + k, a.len() + end) =~= b.subrange(k, end));
        }
    }
}

/// Where no word reaches from `a` into `b`, a word of `a` ends in `a + b`
/// where it ends in `a`.
proof fn lemma_word_end_concat(a: Seq<char>, b: Seq<char>, from: int)
    requires
        0 <= from < a.len(),
        b.len() == 0 || is_whitespace(a.last()) || is_whitespace(b[0]),
    ensures
        word_end(a + b, from) == word_end(a, from),
    decreases a.len() - from,
{
    let s = a + b;
    assert(s[from] == a[from]);
    if !is_whitespace(a[from]) {
        if from + 1 == a.len() {
            assert(word_end(a, from + 1) == a.len());
            if b.len() > 0 {
                assert(s[from + 1] == b[0]);
            }
            assert(word_end(s, from + 1) == a.len());
        } else {
            lemma_word_end_concat(a, b, from + 1);
        }
    }
}

proof fn lemma_words_from_concat(a: Seq<char>, b: Seq<char>, from: int)
    requires
        0 <= from <= a.len(),
        a.len() == 0 || b.len() == 0 || is_whitespace(a.last()) || is_whitespace(b[0]),
    ensures
        words_from(a + b, from) == words_from(a, from) + words_from(b, 0),
    decreases a.len() - from,
{
    let s = a + b;
    if from == a.len() {
        lemma_words_from_shift(a, b, 0);
        assert(words_from(a, from) + words_from(b, 0) =~= words_from(b, 0));
    } else {
        assert(s[from] == a[from]);
        if is_whitespace(a[from]) {
            lemma_words_from_concat(a, b, from + 1);
        } else {
            lemma_word_end(a, from);
            lemma_word_end_concat(a, b, from);
            let end = word_end(a, from);
            lemma_words_from_concat(a, b, end);
            assert(s.subrange(from, end) =~= a.subrange(from, end));
            assert(words_from(s, from) =~= words_from(a, from) + words_from(b, 0));
        }
    }
}

/// Where two texts meet at whitespace, or one of them is empty, the words
/// of the two written one after the other are the words of the first
/// followed by the words of the second.
pub proof fn lemma_words_concat(a: Seq<char>, b: Seq<char>)
    requires
        a.len() == 0 || b.len() == 0 || is_whitespace(a.last()) || is_whitespace(b[0]),
    ensures
        words(a + b) == words(a) + words(b),
{
    lemma_words_from_concat(a, b, 0);
}

/// A text without whitespace is one word, if it is not empty.
pub proof fn lemma_single_word(w: Seq<char>)
    requires
        w.len() > 0,
        forall|i: int| 0 <= i < w.len() ==> !is_whitespace(#[trigger] w[i]),
    ensures
        words(w) == seq![w],
{
    lemma_word_end(w, 0);
    let end = word_end(w, 0);
    assert(end == w.len());
    assert(w.subrange(0, end) =~= w);
    assert(words_from(w, end) =~= Seq::<Seq<char>>::empty());
    assert(words(w) =~= seq![w]);
}

/// One whitespace character holds no word.
pub proof fn lemma_space_has_no_words(c: char)
    requires
        is_whitespace(c),
    ensures
        words(seq![c]) == Seq::<Seq<char>>::empty(),
{
    assert(words_from(seq![c], 1) =~= Seq::<Seq<char>>::empty());
}

/// A decimal numeral is not empty, and made of digits.
pub proof fn lemma_decimal_digits(n: nat)
    ensures
        decimal(n).len() > 0,
        all_digits(decimal(n)),
        forall|i: int| 0 <= i < decimal(n).len() ==> !is_whitespace(#[trigger] decimal(n)[i]),
    decreases n,
{
    if n >= 10 {
        lemma_decimal_digits(n / 10);
    }
}

/// A blank line holds no word.
pub proof fn lemma_blank_has_no_words(s: Seq<char>, from: int)
    requires
        is_blank(s),
        0 <= from,
    ensures
        words_from(s, from) == Seq::<Seq<char>>::empty(),
    decreases s.len() - from,
{
    if from < s.len() {
        lemma_blank_has_no_words(s, from + 1);
    }
}

} // verus!
