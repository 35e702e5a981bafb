//! Text as sequences of characters: classes of characters, trimming,
//! splitting into words and searching.

use vstd::prelude::*;

verus! {

/// `String::push` appends one character.
pub assume_specification[ String::push ](s: &mut String, c: char)
    ensures
        final(s)@ == old(s)@.push(c),
;

/// Whether a character has the Unicode property `White_Space`.
pub open spec fn is_whitespace(c: char) -> bool {
    let code = c as u32;
    ||| 0x09 <= code <= 0x0D
    ||| code == 0x20
    ||| code == 0x85
    ||| code == 0xA0
    ||| code == 0x1680
    ||| 0x2000 <= code <= 0x200A
    ||| code == 0x2028
    ||| code == 0x2029
    ||| code == 0x202F
    ||| code == 0x205F
    ||| code == 0x3000
}

/// Whether a character is in the ASCII range.
pub open spec fn is_ascii_char(c: char) -> bool {
    (c as u32) < 0x80
}

/// Whether a character is an ASCII letter or an ASCII digit.
pub open spec fn is_ascii_alphanumeric(c: char) -> bool {
    ('0' <= c <= '9') || ('A' <= c <= 'Z') || ('a' <= c <= 'z')
}

/// The ASCII characters of a text, in order.
pub open spec fn ascii_chars(s: Seq<char>) -> Seq<char> {
    s.filter(|c: char| is_ascii_char(c))
}

/// The ASCII letters and digits of a text, in order.
pub open spec fn alphanumeric_chars(s: Seq<char>) -> Seq<char> {
    s.filter(|c: char| is_ascii_alphanumeric(c))
}

/// The characters of a text that are not white space, in order.
pub open spec fn solid_chars(s: Seq<char>) -> Seq<char> {
    s.filter(|c: char| !is_whitespace(c))
}

/// A text without the white space at its start.
pub open spec fn trimmed_start(s: Seq<char>) -> Seq<char>
    decreases s.len(),
{
    if s.len() > 0 && is_whitespace(s[0]) {
        trimmed_start(s.drop_first())
    } else {
        s
    }
}

/// A text without the white space at its end.
pub open spec fn trimmed_end(s: Seq<char>) -> Seq<char>
    decreases s.len(),
{
    if s.len() > 0 && is_whitespace(s.last()) {
        trimmed_end(s.drop_last())
    } else {
        s
    }
}

/// A text without the white space at its start and at its end.
pub open spec fn trimmed(s: Seq<char>) -> Seq<char> {
    trimmed_end(trimmed_start(s))
}

/// Whether `pattern` stands in `text` at index `at`.
pub open spec fn occurs_at(text: Seq<char>, pattern: Seq<char>, at: int) -> bool {
    0 <= at && at + pattern.len() <= text.len() && text.subrange(at, at + pattern.len())
        == pattern
}

/// Whether `pattern` stands somewhere in `text`.
pub open spec fn contains(text: Seq<char>, pattern: Seq<char>) -> bool {
    exists|at: int| occurs_at(text, pattern, at)
}

/// The index at which the word that begins at `from` ends: that of the next
/// white space, or the length of the text.
pub open spec fn word_end(s: Seq<char>, from: int) -> int
    decreases s.len() - from,
{
    if 0 <= from < s.len() && !is_whitespace(s[from]) {
        word_end(s, from + 1)
    } else {
        from
    }
}

/// A word ends after it begins, and within the text.
pub proof fn lemma_word_end(s: Seq<char>, from: int)
    requires
        0 <= from <= s.len(),
    ensures
        from <= word_end(s, from) <= s.len(),
        from < s.len() && !is_whitespace(s[from]) ==> from < word_end(s, from),
        forall|i: int| from <= i < word_end(s, from) ==> !is_whitespace(#[trigger] s[i]),
        word_end(s, from) < s.len() ==> is_whitespace(s[word_end(s, from)]),
    decreases s.len() - from,
{
    if from < s.len() && !is_whitespace(s[from]) {
        lemma_word_end(s, from + 1);
    }
}

/// The words of the text from index `from` on: the maximal runs of
/// characters that are not white space, in order.
pub open spec fn words_from(s: Seq<char>, from: int) -> Seq<Seq<char>>
    decreases s.len() - from,
{
    if from < 0 || from >= s.len() {
        Seq::empty()
    } else if is_whitespace(s[from]) {
        words_from(s, from + 1)
    } else {
        proof {
            lemma_word_end(s, from);
        }
        seq![s.subrange(from, word_end(s, from))] + words_from(s, word_end(s, from))
    }
}

/// The words of a text: the maximal runs of characters that are not white
/// space, in order.
pub open spec fn words(s: Seq<char>) -> Seq<Seq<char>> {
    words_from(s, 0)
}

/// The texts that a sequence of strings holds.
pub open spec fn texts(strings: Seq<String>) -> Seq<Seq<char>> {
    strings.map_values(|s: String| s@)
}

/// The texts that a sequence of character vectors holds.
pub open spec fn char_texts(vectors: Seq<Vec<char>>) -> Seq<Seq<char>> {
    vectors.map_values(|v: Vec<char>| v@)
}

/// Whether a character has the Unicode property `White_Space`.
pub fn whitespace(c: char) -> (r: bool)
    ensures
        r == is_whitespace(c),
{
    let code: u32 = c as u32;
    (0x09 <= code && code <= 0x0D) || code == 0x20 || code == 0x85 || code == 0xA0 || code
        == 0x1680 || (0x2000 <= code && code <= 0x200A) || code == 0x2028 || code == 0x2029
        || code == 0x202F || code == 0x205F || code == 0x3000
}

/// Whether a character is in the ASCII range.
pub fn ascii(c: char) -> (r: bool)
    ensures
        r == is_ascii_char(c),
{
    (c as u32) < 0x80
}

/// Whether a character is an ASCII letter or an ASCII digit.
pub fn ascii_alphanumeric(c: char) -> (r: bool)
    ensures
        r == is_ascii_alphanumeric(c),
{
    ('0' <= c && c <= '9') || ('A' <= c && c <= 'Z') || ('a' <= c && c <= 'z')
}

/// The characters of a string, in order.
pub fn chars_of(s: &str) -> (v: Vec<char>)
    ensures
        v@ == s@,
{
    let mut v: Vec<char> = Vec::new();
    for c in it: s.chars()
        invariant
            v.len() == it.index(),
            it.seq() == s@,
            forall|i: int| 0 <= i < v.len() ==> v@[i] == it.seq()[i],
    {
        v.push(c);
    }
    v
}

/// The string made of the characters of `v` from index `from` up to, and
/// without, index `to`.
pub fn string_of_range(v: &Vec<char>, from: usize, to: usize) -> (s: String)
    requires
        from <= to <= v.len(),
    ensures
        s@ == v@.subrange(from as int, to as int),
{
    let mut s = String::new();
    let mut i: usize = from;
    while i < to
        invariant
            from <= i <= to <= v.len(),
            s@ == v@.subrange(from as int, i as int),
        decreases to - i,
    {
        s.push(v[i]);
        i = i + 1;
    }
    s
}

/// The string made of the characters of `v`.
pub fn string_of(v: &Vec<char>) -> (s: String)
    ensures
        s@ == v@,
{
    string_of_range(v, 0, v.len())
}

/// The ASCII characters of `v`, in order.
pub fn keep_ascii(v: &Vec<char>) -> (r: Vec<char>)
    ensures
        r@ == ascii_chars(v@),
{
    let mut r: Vec<char> = Vec::new();
    let mut i: usize = 0;
    while i < v.len()
        invariant
            i <= v.len(),
            r@ == ascii_chars(v@.take(i as int)),
        decreases v.len() - i,
    {
        proof {
            assert(v@.take(i + 1) == v@.take(i as int).push(v@[i as int]));
            v@.take(i as int).lemma_filter_push(v@[i as int], |c: char| is_ascii_char(c));
        }
        if ascii(v[i]) {
            r.push(v[i]);
        }
        i = i + 1;
    }
    proof {
        assert(v@.take(v.len() as int) == v@);
    }
    r
}

/// The ASCII letters and digits of `v`, in order.
pub fn keep_alphanumeric(v: &Vec<char>) -> (r: Vec<char>)
    ensures
        r@ == alphanumeric_chars(v@),
{
    let mut r: Vec<char> = Vec::new();
    let mut i: usize = 0;
    while i < v.len()
        invariant
            i <= v.len(),
            r@ == alphanumeric_chars(v@.take(i as int)),
        decreases v.len() - i,
    {
        proof {
            assert(v@.take(i + 1) == v@.take(i as int).push(v@[i as int]));
            v@.take(i as int).lemma_filter_push(v@[i as int], |c: char| is_ascii_alphanumeric(c));
        }
        if ascii_alphanumeric(v[i]) {
            r.push(v[i]);
        }
        i = i + 1;
    }
    proof {
        assert(v@.take(v.len() as int) == v@);
    }
    r
}

/// The number of characters of `v` that are not white space.
pub fn count_solid(v: &Vec<char>) -> (r: usize)
    ensures
        r == solid_chars(v@).len(),
{
    let mut r: usize = 0;
    let mut i: usize = 0;
    while i < v.len()
        invariant
            i <= v.len(),
            r <= i,
            r == solid_chars(v@.take(i as int)).len(),
        decreases v.len() - i,
    {
        proof {
            assert(v@.take(i + 1) == v@.take(i as int).push(v@[i as int]));
            v@.take(i as int).lemma_filter_push(v@[i as int], |c: char| !is_whitespace(c));
        }
        if !whitespace(v[i]) {
            r = r + 1;
        }
        i = i + 1;
    }
    proof {
        assert(v@.take(v.len() as int) == v@);
    }
    r
}

/// The text without the white space at its start and at its end.
pub fn trim(v: &Vec<char>) -> (r: Vec<char>)
    ensures
        r@ == trimmed(v@),
{
    let mut from: usize = 0;
    assert(v@.skip(0) == v@);
    while from < v.len() && whitespace(v[from])
        invariant
            from <= v.len(),
            trimmed_start(v@) == trimmed_start(v@.skip(from as int)),
        decreases v.len() - from,
    {
        proof {
            assert(v@.skip(from as int).drop_first() == v@.skip(from + 1));
        }
        from = from + 1;
    }
    let mut to: usize = v.len();
    while to > from && whitespace(v[to - 1])
        invariant
            from <= to <= v.len(),
            trimmed(v@) == trimmed_end(v@.subrange(from as int, to as int)),
        decreases to - from,
    {
        proof {
            assert(v@.subrange(from as int, to as int).drop_last() == v@.subrange(
                from as int,
                to - 1,
            ));
        }
        to = to - 1;
    }
    let mut r: Vec<char> = Vec::new();
    let mut i: usize = from;
    while i < to
        invariant
            from <= i <= to <= v.len(),
            r@ == v@.subrange(from as int, i as int),
        decreases to - i,
    {
        r.push(v[i]);
        i = i + 1;
    }
    r
}

/// Whether `pattern` stands in `text` at index `at`.
pub fn stands_at(text: &Vec<char>, pattern: &Vec<char>, at: usize) -> (r: bool)
    ensures
        r == occurs_at(text@, pattern@, at as int),
{
    if pattern.len() > text.len() || at > text.len() - pattern.len() {
        return false;
    }
    let mut k: usize = 0;
    while k < pattern.len()
        invariant
            k <= pattern.len(),
            at + pattern.len() <= text.len(),
            forall|j: int| 0 <= j < k ==> text@[at + j] == pattern@[j],
        decreases pattern.len() - k,
    {
        if text[at + k] != pattern[k] {
            return false;
        }
        k = k + 1;
    }
    proof {
        assert(text@.subrange(at as int, at + pattern.len()) =~= pattern@);
    }
    true
}

/// Whether `pattern` stands somewhere in `text`.
pub fn find(text: &Vec<char>, pattern: &Vec<char>) -> (r: bool)
    ensures
        r == contains(text@, pattern@),
{
    let mut at: usize = 0;
    while at < text.len()
        invariant
            at <= text.len(),
            forall|j: int| 0 <= j < at ==> !occurs_at(text@, pattern@, j),
        decreases text.len() - at,
    {
        if stands_at(text, pattern, at) {
            return true;
        }
        at = at + 1;
    }
    stands_at(text, pattern, at)
}

/// The words of a text: its maximal runs of characters that are not white
/// space, in order.
pub fn split_whitespace(v: &Vec<char>) -> (r: Vec<Vec<char>>)
    ensures
        char_texts(r@) == words(v@),
{
    let mut r: Vec<Vec<char>> = Vec::new();
    let mut i: usize = 0;
    while i < v.len()
        invariant
            i <= v.len(),
            r.len() + words_from(v@, i as int).len() == words(v@).len(),
            forall|k: int| 0 <= k < r.len() ==> (#[trigger] r[k])@ == words(v@)[k],
            forall|k: int|
                0 <= k < words_from(v@, i as int).len() ==> #[trigger] words_from(v@, i as int)[k]
                    == words(v@)[r.len() + k],
        decreases v.len() - i,
    {
        if whitespace(v[i]) {
            i = i + 1;
        } else {
            let mut word: Vec<char> = Vec::new();
            let start: usize = i;
            proof {
                lemma_word_end(v@, start as int);
            }
            while i < v.len() && !whitespace(v[i])
                invariant
                    start <= i <= v.len(),
                    word@ == v@.subrange(start as int, i as int),
                    word_end(v@, start as int) == word_end(v@, i as int),
                decreases v.len() - i,
            {
                word.push(v[i]);
                i = i + 1;
            }
            proof {
                let rest = words_from(v@, i as int);
                let here = words_from(v@, start as int);
                assert(here[0] == word@);
                assert forall|k: int| 0 <= k < rest.len() implies #[trigger] rest[k] == words(
                    v@,
                )[r.len() + 1 + k] by {
                    assert(here[k + 1] == rest[k]);
                }
            }
            r.push(word);
        }
    }
    r
}

/// Whether two vectors hold the same text.
pub fn same_text(a: &Vec<char>, b: &Vec<char>) -> (r: bool)
    ensures
        r == (a@ == b@),
{
    if a.len() != b.len() {
        return false;
    }
    let r = stands_at(a, b, 0);
    proof {
        assert(a@.subrange(0, a.len() as int) == a@);
    }
    r
}

} // verus!
