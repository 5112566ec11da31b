//! Text primitives shared by the parsers: whitespace, trimming, substring
//! search and conversions between `str`, `String` and character vectors.
//! Every function is stated over the character sequence of its argument.
use vstd::prelude::*;
use vstd::string::*;
use vstd::utf8::*;

verus! {

/// Appending one character extends the text by exactly that character,
/// as `String::push` is documented to do.
pub assume_specification[ String::push ](s: &mut String, ch: char)
    ensures
        final(s)@ == old(s)@.push(ch),
;

/// The characters with the Unicode `White_Space` property.
pub open spec fn is_whitespace(c: char) -> bool {
    let n = c as u32;
    (0x09 <= n <= 0x0D) || n == 0x20 || n == 0x85 || n == 0xA0 || n == 0x1680 || (0x2000 <= n
        <= 0x200A) || n == 0x2028 || n == 0x2029 || n == 0x202F || n == 0x205F || n == 0x3000
}

/// The first position at or after `i` that holds no whitespace, or the
/// length of `s` when only whitespace follows.
pub open spec fn skip_blank(s: Seq<char>, i: int) -> int
    decreases s.len() - i,
{
    if 0 <= i < s.len() && is_whitespace(s[i]) {
        skip_blank(s, i + 1)
    } else {
        i
    }
}

/// The end of the text once the whitespace that precedes position `j` is
/// dropped, never going below `lo`.
pub open spec fn skip_blank_back(s: Seq<char>, lo: int, j: int) -> int
    decreases j - lo,
{
    if lo < j <= s.len() && is_whitespace(s[j - 1]) {
        skip_blank_back(s, lo, j - 1)
    } else {
        j
    }
}

/// Where the trimmed text starts.
pub open spec fn trim_start(s: Seq<char>) -> int {
    skip_blank(s, 0)
}

/// Where the trimmed text ends.
pub open spec fn trim_end(s: Seq<char>) -> int {
    skip_blank_back(s, trim_start(s), s.len() as int)
}

/// `s` without its leading and trailing whitespace.
pub open spec fn trim(s: Seq<char>) -> Seq<char> {
    s.subrange(trim_start(s), trim_end(s))
}

/// `pat` stands in `s` at position `i`.
pub open spec fn occurs_at<T>(s: Seq<T>, pat: Seq<T>, i: int) -> bool {
    0 <= i && i + pat.len() <= s.len() && s.subrange(i, i + pat.len()) == pat
}

/// The first position at or after `i` where `pat` stands in `s`.
pub open spec fn find_from<T>(s: Seq<T>, pat: Seq<T>, i: int) -> Option<int>
    decreases s.len() + 1 - i,
{
    if i < 0 || i + pat.len() > s.len() {
        None
    } else if occurs_at(s, pat, i) {
        Some(i)
    } else {
        find_from(s, pat, i + 1)
    }
}

/// The first position where `pat` stands in `s`.
pub open spec fn find<T>(s: Seq<T>, pat: Seq<T>) -> Option<int> {
    find_from(s, pat, 0)
}

/// `pat` stands somewhere in `s`.
pub open spec fn contains<T>(s: Seq<T>, pat: Seq<T>) -> bool {
    find(s, pat) is Some
}

/// `s` begins with `pat`.
pub open spec fn starts_with<T>(s: Seq<T>, pat: Seq<T>) -> bool {
    occurs_at(s, pat, 0)
}

/// `s` ends with `pat`.
pub open spec fn ends_with<T>(s: Seq<T>, pat: Seq<T>) -> bool {
    occurs_at(s, pat, s.len() - pat.len())
}

/// `skip_blank` stays inside the text and stops at a character that is not
/// whitespace; everything it passed over is whitespace.
pub proof fn lemma_skip_blank(s: Seq<char>, i: int)
    requires
        0 <= i <= s.len(),
    ensures
        i <= skip_blank(s, i) <= s.len(),
        skip_blank(s, i) < s.len() ==> !is_whitespace(s[skip_blank(s, i)]),
        forall|j: int| i <= j < skip_blank(s, i) ==> is_whitespace(#[trigger] s[j]),
    decreases s.len() - i,
{
    if i < s.len() && is_whitespace(s[i]) {
        lemma_skip_blank(s, i + 1);
    }
}

/// `skip_blank_back` stays between `lo` and `j` and stops behind a
/// character that is not whitespace; everything it passed over is whitespace.
pub proof fn lemma_skip_blank_back(s: Seq<char>, lo: int, j: int)
    requires
        0 <= lo <= j <= s.len(),
    ensures
        lo <= skip_blank_back(s, lo, j) <= j,
        skip_blank_back(s, lo, j) > lo ==> !is_whitespace(s[skip_blank_back(s, lo, j) - 1]),
        forall|k: int| skip_blank_back(s, lo, j) <= k < j ==> is_whitespace(#[trigger] s[k]),
    decreases j - lo,
{
    if lo < j && is_whitespace(s[j - 1]) {
        lemma_skip_blank_back(s, lo, j - 1);
    }
}

/// The bounds of the trimmed text lie inside the text, in order.
pub proof fn lemma_trim_bounds(s: Seq<char>)
    ensures
        0 <= trim_start(s) <= trim_end(s) <= s.len(),
        trim(s).len() == trim_end(s) - trim_start(s),
        trim(s).len() > 0 ==> !is_whitespace(trim(s)[0]) && !is_whitespace(trim(s).last()),
{
    lemma_skip_blank(s, 0);
    lemma_skip_blank_back(s, trim_start(s), s.len() as int);
}

/// What `find_from` returns is the first occurrence: it is one, and no
/// earlier position from `i` on holds the pattern.
pub proof fn lemma_find_from<T>(s: Seq<T>, pat: Seq<T>, i: int)
    requires
        0 <= i,
    ensures
        match find_from(s, pat, i) {
            Some(k) => i <= k && occurs_at(s, pat, k) && forall|j: int|
                i <= j < k ==> !occurs_at(s, pat, j),
            None => forall|j: int| i <= j ==> !occurs_at(s, pat, j),
        },
    decreases s.len() + 1 - i,
{
    if i + pat.len() > s.len() {
    } else if occurs_at(s, pat, i) {
    } else {
        lemma_find_from(s, pat, i + 1);
    }
}

/// The characters of `s`, in order.
pub fn chars_of(s: &str) -> (v: Vec<char>)
    ensures
        v@ == s@,
{
    let mut v: Vec<char> = Vec::new();
    for c in it: s.chars()
        invariant
            v@ == it.seq().take(it.index@),
    {
        v.push(c);
    }
    v
}

/// The text made of the characters of `chars` from `from` up to `to`.
pub fn string_of(chars: &Vec<char>, from: usize, to: usize) -> (r: String)
    requires
        from <= to <= chars.len(),
    ensures
        r@ == chars@.subrange(from as int, to as int),
{
    let mut r = String::new();
    let mut i: usize = from;
    while i < to
        invariant
            from <= i <= to <= chars.len(),
            r@ == chars@.subrange(from as int, i as int),
        decreases to - i,
    {
        r.push(chars[i]);
        assert(chars@.subrange(from as int, i as int).push(chars@[i as int])
            =~= chars@.subrange(from as int, i + 1));
        i += 1;
    }
    r
}

/// Whether two texts hold the same characters.
pub fn text_eq(a: &str, b: &str) -> (r: bool)
    ensures
        r == (a@ == b@),
{
    let x = a.as_bytes();
    let y = b.as_bytes();
    proof {
        encode_utf8_decode_utf8(a@);
        encode_utf8_decode_utf8(b@);
    }
    if x.len() != y.len() {
        return false;
    }
    let mut i: usize = 0;
    while i < x.len()
        invariant
            i <= x.len(),
            x.len() == y.len(),
            x@ == a.spec_bytes(),
            y@ == b.spec_bytes(),
            forall|j: int| 0 <= j < i ==> x@[j] == y@[j],
        decreases x.len() - i,
    {
        if x[i] != y[i] {
            return false;
        }
        i += 1;
    }
    assert(x@ =~= y@);
    true
}

/// Whether `c` is whitespace.
pub fn char_is_whitespace(c: char) -> (r: bool)
    ensures
        r == is_whitespace(c),
{
    let n: u32 = c as u32;
    (0x09 <= n && n <= 0x0D) || n == 0x20 || n == 0x85 || n == 0xA0 || n == 0x1680 || (0x2000 <= n
        && n <= 0x200A) || n == 0x2028 || n == 0x2029 || n == 0x202F || n == 0x205F || n == 0x3000
}

/// The bounds of the trimmed text within `chars`.
pub fn trim_bounds(chars: &Vec<char>) -> (r: (usize, usize))
    ensures
        r.0 == trim_start(chars@),
        r.1 == trim_end(chars@),
        r.0 <= r.1 <= chars.len(),
{
    let n: usize = chars.len();
    let mut a: usize = 0;
    while a < n && char_is_whitespace(chars[a])
        invariant
            a <= n,
            n == chars.len(),
            skip_blank(chars@, a as int) == skip_blank(chars@, 0),
        decreases n - a,
    {
        a += 1;
    }
    let mut b: usize = n;
    while b > a && char_is_whitespace(chars[b - 1])
        invariant
            a <= b <= n,
            n == chars.len(),
            skip_blank_back(chars@, a as int, b as int) == skip_blank_back(
                chars@,
                a as int,
                n as int,
            ),
        decreases b - a,
    {
        b -= 1;
    }
    (a, b)
}

/// Whether `pat` stands in `chars` at position `i`.
pub fn occurs_at_index(chars: &Vec<char>, pat: &Vec<char>, i: usize) -> (r: bool)
    ensures
        r == occurs_at(chars@, pat@, i as int),
{
    if pat.len() > chars.len() || i > chars.len() - pat.len() {
        return false;
    }
    let mut k: usize = 0;
    while k < pat.len()
        invariant
            k <= pat.len(),
            i + pat.len() <= chars.len(),
            forall|j: int| 0 <= j < k ==> chars@[i + j] == pat@[j],
        decreases pat.len() - k,
    {
        if chars[i + k] != pat[k] {
            assert(chars@.subrange(i as int, i + pat.len())[k as int] != pat@[k as int]);
            return false;
        }
        k += 1;
    }
    assert(chars@.subrange(i as int, i + pat.len()) =~= pat@);
    true
}

/// The first position at or after `from` where `pat` stands in `chars`.
pub fn find_index(chars: &Vec<char>, pat: &Vec<char>, from: usize) -> (r: Option<usize>)
    ensures
        match r {
            Some(k) => find_from(chars@, pat@, from as int) == Some(k as int) && from <= k && k
                + pat.len() <= chars.len(),
            None => find_from(chars@, pat@, from as int) is None,
        },
{
    if pat.len() > chars.len() || from > chars.len() - pat.len() {
        return None;
    }
    let last: usize = chars.len() - pat.len();
    let mut i: usize = from;
    loop
        invariant
            from <= i <= last,
            last == chars.len() - pat.len(),
            find_from(chars@, pat@, i as int) == find_from(chars@, pat@, from as int),
        decreases last - i,
    {
        if occurs_at_index(chars, pat, i) {
            return Some(i);
        }
        if i == last {
            assert(find_from(chars@, pat@, i + 1) is None);
            return None;
        }
        i += 1;
    }
}

/// The pieces of `s` from position `start` on that lie between the
/// occurrences of `sep`, taken from left to right without overlap. An empty
/// `sep` splits nothing.
pub open spec fn split_from(s: Seq<char>, sep: Seq<char>, start: int) -> Seq<Seq<char>>
    decreases s.len() + 1 - start,
    via split_from_decreases
{
    match find_from(s, sep, start) {
        Some(k) => if sep.len() > 0 && start <= k {
            seq![s.subrange(start, k)] + split_from(s, sep, k + sep.len())
        } else {
            seq![s.subrange(start, s.len() as int)]
        },
        None => seq![s.subrange(start, s.len() as int)],
    }
}

#[via_fn]
proof fn split_from_decreases(s: Seq<char>, sep: Seq<char>, start: int) {
    if 0 <= start {
        lemma_find_from(s, sep, start);
    }
}

/// The pieces of `s` that lie between the occurrences of `sep`.
pub open spec fn split(s: Seq<char>, sep: Seq<char>) -> Seq<Seq<char>> {
    split_from(s, sep, 0)
}

/// The first position at or after `i` that holds whitespace, or the length
/// of `s` when none follows.
pub open spec fn word_end(s: Seq<char>, i: int) -> int
    decreases s.len() - i,
{
    if 0 <= i < s.len() && !is_whitespace(s[i]) {
        word_end(s, i + 1)
    } else {
        i
    }
}

/// The words of `s` from position `i` on: the longest runs of characters
/// that are not whitespace.
pub open spec fn words_from(s: Seq<char>, i: int) -> Seq<Seq<char>>
    decreases s.len() - i,
    via words_from_decreases
{
    let a = skip_blank(s, i);
    if i < 0 || a >= s.len() {
        Seq::empty()
    } else {
        let b = word_end(s, a);
        if b > a {
            seq![s.subrange(a, b)] + words_from(s, b)
        } else {
            Seq::empty()
        }
    }
}

/// `word_end` stays inside the text and stops at whitespace; everything it
/// passed over is no whitespace.
pub proof fn lemma_word_end(s: Seq<char>, i: int)
    requires
        0 <= i <= s.len(),
    ensures
        i <= word_end(s, i) <= s.len(),
        word_end(s, i) < s.len() ==> is_whitespace(s[word_end(s, i)]),
        forall|j: int| i <= j < word_end(s, i) ==> !is_whitespace(#[trigger] s[j]),
    decreases s.len() - i,
{
    if i < s.len() && !is_whitespace(s[i]) {
        lemma_word_end(s, i + 1);
    }
}

#[via_fn]
proof fn words_from_decreases(s: Seq<char>, i: int) {
    if 0 <= i <= s.len() {
        lemma_skip_blank(s, i);
        lemma_word_end(s, skip_blank(s, i));
    }
}

/// The words of `s`.
pub open spec fn words(s: Seq<char>) -> Seq<Seq<char>> {
    words_from(s, 0)
}

/// The characters of `chars` from `from` up to `to`.
pub fn sub_chars(chars: &Vec<char>, from: usize, to: usize) -> (r: Vec<char>)
    requires
        from <= to <= chars.len(),
    ensures
        r@ == chars@.subrange(from as int, to as int),
{
    let mut r: Vec<char> = Vec::new();
    let mut i: usize = from;
    while i < to
        invariant
            from <= i <= to <= chars.len(),
            r@ == chars@.subrange(from as int, i as int),
        decreases to - i,
    {
        r.push(chars[i]);
        assert(chars@.subrange(from as int, i as int).push(chars@[i as int])
            =~= chars@.subrange(from as int, i + 1));
        i += 1;
    }
    r
}

/// `s` without its leading and trailing whitespace, as characters.
pub fn trimmed_chars(s: &str) -> (r: Vec<char>)
    ensures
        r@ == trim(s@),
{
    let all = chars_of(s);
    let bounds = trim_bounds(&all);
    sub_chars(&all, bounds.0, bounds.1)
}

/// The pieces of `s` that lie between the occurrences of `sep`.
pub fn split_text(s: &str, sep: &str) -> (r: Vec<String>)
    ensures
        r.deep_view() == split(s@, sep@),
        r@.len() >= 1,
{
    let chars = chars_of(s);
    let pat = chars_of(sep);
    let mut out: Vec<String> = Vec::new();
    let mut start: usize = 0;
    assert(out.deep_view() =~= Seq::<Seq<char>>::empty());
    loop
        invariant
            start <= chars.len(),
            chars@ == s@,
            pat@ == sep@,
            out.deep_view() + split_from(s@, sep@, start as int) == split(s@, sep@),
        decreases chars.len() - start,
    {
        let ghost before = out.deep_view();
        match find_index(&chars, &pat, start) {
            Some(k) => {
                if pat.len() > 0 {
                    out.push(string_of(&chars, start, k));
                    assert(out.deep_view() =~= before + seq![s@.subrange(start as int, k as int)]);
                    assert(before + (seq![s@.subrange(start as int, k as int)] + split_from(
                        s@,
                        sep@,
                        k + pat.len(),
                    )) =~= (before + seq![s@.subrange(start as int, k as int)]) + split_from(
                        s@,
                        sep@,
                        k + pat.len(),
                    ));
                    start = k + pat.len();
                } else {
                    out.push(string_of(&chars, start, chars.len()));
                    assert(out.deep_view() =~= before + seq![
                        s@.subrange(start as int, s@.len() as int),
                    ]);
                    return out;
                }
            },
            None => {
                out.push(string_of(&chars, start, chars.len()));
                assert(out.deep_view() =~= before + seq![
                    s@.subrange(start as int, s@.len() as int),
                ]);
                return out;
            },
        }
    }
}

/// The words of `s`: the longest runs of characters that are not whitespace.
pub fn split_words(s: &str) -> (r: Vec<String>)
    ensures
        r.deep_view() == words(s@),
{
    let chars = chars_of(s);
    let n: usize = chars.len();
    let mut out: Vec<String> = Vec::new();
    let mut i: usize = 0;
    assert(out.deep_view() =~= Seq::<Seq<char>>::empty());
    loop
        invariant
            i <= n,
            n == chars.len(),
            chars@ == s@,
            out.deep_view() + words_from(s@, i as int) == words(s@),
        decreases n - i,
    {
        let ghost before = out.deep_view();
        let ghost at = i;
        let mut a: usize = i;
        while a < n && char_is_whitespace(chars[a])
            invariant
                i <= a <= n,
                n == chars.len(),
                skip_blank(chars@, a as int) == skip_blank(chars@, i as int),
            decreases n - a,
        {
            a += 1;
        }
        if a >= n {
            assert(words_from(s@, at as int) =~= Seq::<Seq<char>>::empty());
            assert(out.deep_view() =~= words(s@));
            return out;
        }
        let mut b: usize = a;
        while b < n && !char_is_whitespace(chars[b])
            invariant
                a <= b <= n,
                n == chars.len(),
                word_end(chars@, b as int) == word_end(chars@, a as int),
            decreases n - b,
        {
            b += 1;
        }
        assert(b > a);
        out.push(string_of(&chars, a, b));
        assert(out.deep_view() =~= before + seq![s@.subrange(a as int, b as int)]);
        assert(before + (seq![s@.subrange(a as int, b as int)] + words_from(s@, b as int)) =~= (
        before + seq![s@.subrange(a as int, b as int)]) + words_from(s@, b as int));
        i = b;
    }
}

/// Whether `chars` begins with `pat`.
pub fn has_prefix(chars: &Vec<char>, pat: &Vec<char>) -> (r: bool)
    ensures
        r == starts_with(chars@, pat@),
{
    occurs_at_index(chars, pat, 0)
}

/// Whether `chars` ends with `pat`.
pub fn has_suffix(chars: &Vec<char>, pat: &Vec<char>) -> (r: bool)
    ensures
        r == ends_with(chars@, pat@),
{
    if pat.len() > chars.len() {
        false
    } else {
        occurs_at_index(chars, pat, chars.len() - pat.len())
    }
}

/// A pattern that does not stand in a text does not stand in a part of it.
pub proof fn lemma_absent_in_part<T>(s: Seq<T>, pat: Seq<T>, a: int, b: int)
    requires
        0 <= a <= b <= s.len(),
        !contains(s, pat),
    ensures
        !contains(s.subrange(a, b), pat),
{
    let part = s.subrange(a, b);
    lemma_find_from(s, pat, 0);
    lemma_find_from(part, pat, 0);
    if let Some(k) = find(part, pat) {
        assert(part.subrange(k, k + pat.len()) =~= s.subrange(a + k, a + k + pat.len()));
        assert(occurs_at(s, pat, a + k));
    }
}

/// The position at or after `i` where the word that begins at `i` ends.
pub fn word_end_index(chars: &Vec<char>, i: usize) -> (r: usize)
    requires
        i <= chars.len(),
    ensures
        r == word_end(chars@, i as int),
        i <= r <= chars.len(),
{
    let n: usize = chars.len();
    let mut b: usize = i;
    while b < n && !char_is_whitespace(chars[b])
        invariant
            i <= b <= n,
            n == chars.len(),
            word_end(chars@, b as int) == word_end(chars@, i as int),
        decreases n - b,
    {
        b += 1;
    }
    b
}

/// `c` is one of the digits `0` to `9`.
pub open spec fn is_digit(c: char) -> bool {
    '0' <= c <= '9'
}

/// The number that a digit stands for.
pub open spec fn digit_value(c: char) -> nat {
    (c as u32 - 48) as nat
}

/// The number that decimal digits stand for.
pub open spec fn digits_value(s: Seq<char>) -> nat
    decreases s.len(),
{
    if s.len() == 0 {
        0
    } else {
        digits_value(s.drop_last()) * 10 + digit_value(s.last())
    }
}

/// Every character is a digit.
pub open spec fn all_digits(s: Seq<char>) -> bool {
    forall|i: int| 0 <= i < s.len() ==> is_digit(#[trigger] s[i])
}

/// The number below 65536 that a text denotes: decimal digits, at least
/// one, with or without a `+` before them.
pub open spec fn port_of(s: Seq<char>) -> Option<u16> {
    let body = if s.len() > 0 && s[0] == '+' {
        s.subrange(1, s.len() as int)
    } else {
        s
    };
    if body.len() > 0 && all_digits(body) && digits_value(body) <= 65535 {
        Some(digits_value(body) as u16)
    } else {
        None
    }
}

/// The number that digits stand for is not below the number that their
/// first `k` stand for.
pub proof fn lemma_digits_grow(s: Seq<char>, k: int)
    requires
        0 <= k <= s.len(),
    ensures
        digits_value(s.take(k)) <= digits_value(s),
    decreases s.len() - k,
{
    if k < s.len() {
        lemma_digits_grow(s, k + 1);
        assert(s.take(k + 1).drop_last() =~= s.take(k));
    } else {
        assert(s.take(k) =~= s);
    }
}

/// Reads a port number: decimal digits, at least one, with or without a
/// `+` before them, denoting a number below 65536.
pub fn parse_port(text: &str) -> (r: Option<u16>)
    ensures
        r == port_of(text@),
{
    let all = chars_of(text);
    let from: usize = if all.len() > 0 && all[0] == '+' {
        1
    } else {
        0
    };
    let body = sub_chars(&all, from, all.len());
    if from == 0 {
        assert(body@ =~= text@);
    }
    let ghost digits = if text@.len() > 0 && text@[0] == '+' {
        text@.subrange(1, text@.len() as int)
    } else {
        text@
    };
    assert(body@ == digits);
    if body.len() == 0 {
        return None;
    }
    let mut acc: u32 = 0;
    let mut i: usize = 0;
    assert(body@.take(0) =~= Seq::<char>::empty());
    while i < body.len()
        invariant
            i <= body.len(),
            body@ == digits,
            digits == if text@.len() > 0 && text@[0] == '+' {
                text@.subrange(1, text@.len() as int)
            } else {
                text@
            },
            acc == digits_value(body@.take(i as int)),
            acc <= 65535,
            forall|j: int| 0 <= j < i ==> is_digit(#[trigger] body@[j]),
        decreases body.len() - i,
    {
        let c: char = body[i];
        if !('0' <= c && c <= '9') {
            assert(!is_digit(digits[i as int]));
            return None;
        }
        let d: u32 = c as u32 - 48;
        proof {
            assert(body@.take(i + 1).drop_last() =~= body@.take(i as int));
            assert(body@.take(i + 1).last() == c);
            assert(digits_value(body@.take(i + 1)) == acc * 10 + d);
        }
        acc = acc * 10 + d;
        if acc > 65535 {
            proof {
                lemma_digits_grow(body@, i + 1);
            }
            return None;
        }
        i += 1;
    }
    assert(body@.take(body@.len() as int) =~= body@);
    Some(acc as u16)
}

/// The decimal digits of a number, without leading zeros.
pub open spec fn decimal(n: nat) -> Seq<char>
    decreases n,
{
    if n < 10 {
        seq![((48 + n) as u8) as char]
    } else {
        decimal(n / 10).push(((48 + n % 10) as u8) as char)
    }
}

/// Appends the decimal digits of `n` to `out`.
pub fn push_decimal(out: &mut String, n: u16)
    ensures
        final(out)@ == old(out)@ + decimal(n as nat),
    decreases n,
{
    if n >= 10 {
        push_decimal(out, n / 10);
    }
    let d: u8 = (n % 10) as u8;
    out.push((48 + d) as char);
    proof {
        if n >= 10 {
            assert(old(out)@ + decimal(n as nat) =~= (old(out)@ + decimal((n / 10) as nat)).push(
                ((48 + (n as nat) % 10) as u8) as char,
            ));
        } else {
            assert(old(out)@ + decimal(n as nat) =~= old(out)@.push(((48 + n as nat) as u8) as char));
        }
    }
}

/// Whether the bytes of `pat` stand in `hay` at position `i`.
pub fn occurs_at_bytes(hay: &[u8], pat: &[u8], i: usize) -> (r: bool)
    ensures
        r == occurs_at(hay@, pat@, i as int),
{
    if pat.len() > hay.len() || i > hay.len() - pat.len() {
        return false;
    }
    let mut k: usize = 0;
    while k < pat.len()
        invariant
            k <= pat.len(),
            i + pat.len() <= hay.len(),
            forall|j: int| 0 <= j < k ==> hay@[i + j] == pat@[j],
        decreases pat.len() - k,
    {
        if hay[i + k] != pat[k] {
            assert(hay@.subrange(i as int, i + pat.len())[k as int] != pat@[k as int]);
            return false;
        }
        k += 1;
    }
    assert(hay@.subrange(i as int, i + pat.len()) =~= pat@);
    true
}

/// The first position at or after `from` where the bytes of `pat` stand
/// in `hay`.
pub fn find_bytes(hay: &[u8], pat: &[u8], from: usize) -> (r: Option<usize>)
    ensures
        match r {
            Some(k) => find_from(hay@, pat@, from as int) == Some(k as int) && from <= k && k
                + pat.len() <= hay.len(),
            None => find_from(hay@, pat@, from as int) is None,
        },
{
    if pat.len() > hay.len() || from > hay.len() - pat.len() {
        return None;
    }
    let last: usize = hay.len() - pat.len();
    let mut i: usize = from;
    loop
        invariant
            from <= i <= last,
            last == hay.len() - pat.len(),
            find_from(hay@, pat@, i as int) == find_from(hay@, pat@, from as int),
        decreases last - i,
    {
        if occurs_at_bytes(hay, pat, i) {
            return Some(i);
        }
        if i == last {
            assert(find_from(hay@, pat@, i + 1) is None);
            return None;
        }
        i += 1;
    }
}

} // verus!
