//! Text helpers shared by the grammar and the connection handling: what
//! counts as white space and as part of a verb, what the outside crates
//! answer about a text, and comparisons that ignore ASCII case.

use regex::Regex;
use vstd::prelude::*;
use vstd::string::*;
use vstd::utf8::*;

verus! {

/// What the regex crate finds in a text: the texts of the matches that
/// `Regex::find_iter` yields for the pattern, in their order, and nothing
/// where `Regex::new` does not accept the pattern.
pub uninterp spec fn matches_of(pattern: Seq<char>, text: Seq<char>) -> Seq<Seq<char>>;

/// The pattern whose matches are the runs of letters, each as long as it can
/// be. Letters are the characters of Unicode's general category `L`.
pub const LETTERS: &'static str = "\\p{L}+";

/// A list of strings as mathematical values.
pub open spec fn word_views(words: Seq<String>) -> Seq<Seq<char>> {
    words.map_values(|w: String| w@)
}

/// Whether `c` is white space: one of the 25 characters with Unicode's
/// `White_Space` property.
pub open spec fn is_whitespace(c: char) -> bool {
    ||| '\u{9}' <= c <= '\u{d}'
    ||| c == ' '
    ||| c == '\u{85}'
    ||| c == '\u{a0}'
    ||| c == '\u{1680}'
    ||| '\u{2000}' <= c <= '\u{200a}'
    ||| c == '\u{2028}'
    ||| c == '\u{2029}'
    ||| c == '\u{202f}'
    ||| c == '\u{205f}'
    ||| c == '\u{3000}'
}

/// What `str::to_lowercase` returns for a text.
pub uninterp spec fn lowercase(text: Seq<char>) -> Seq<char>;

/// `core::str::Utf8Error`, which tells where bytes stop being UTF-8. It is
/// only passed on, never looked into.
#[verifier::external_type_specification]
#[verifier::external_body]
pub struct ExUtf8Error(core::str::Utf8Error);

/// Calls `Regex::new` on the pattern and `Regex::find_iter` on the text, and
/// hands out the text of each match. A pattern that `Regex::new` does not
/// accept finds nothing. What is found is only given its name.
#[verifier::external_body]
pub(crate) fn find_all(pattern: &str, text: &str) -> (found: Vec<String>)
    ensures
        word_views(found@) == matches_of(pattern@, text@),
{
    match Regex::new(pattern) {
        Ok(compiled) => compiled.find_iter(text).map(|m| m.as_str().to_owned()).collect(),
        Err(_) => Vec::new(),
    }
}

/// Calls `char::is_whitespace`, which tells whether a character has Unicode's
/// `White_Space` property. That property holds of the 25 characters that
/// [`is_whitespace`] lists.
#[verifier::external_body]
pub(crate) fn char_is_whitespace(c: char) -> (r: bool)
    ensures
        r == is_whitespace(c),
{
    c.is_whitespace()
}

/// Calls `str::to_lowercase`, which maps a text to its lowercase form by
/// Unicode's rules. The result is only given its name.
#[verifier::external_body]
pub(crate) fn to_lowercase(text: &str) -> (lower: String)
    ensures
        lower@ == lowercase(text@),
{
    text.to_lowercase()
}

/// Calls `core::str::from_utf8`, which accepts exactly the byte slices that are
/// well-formed UTF-8 and then returns the same bytes as a string slice.
#[verifier::external_body]
pub(crate) fn from_utf8(bytes: &[u8]) -> (r: Result<&str, core::str::Utf8Error>)
    ensures
        r is Ok <==> valid_utf8(bytes@),
        r matches Ok(text) ==> text.spec_bytes() == bytes@,
{
    core::str::from_utf8(bytes)
}

/// The characters of `text`, one element per character.
pub fn to_chars(text: &str) -> (chars: Vec<char>)
    ensures
        chars@ == text@,
{
    let mut chars: Vec<char> = Vec::new();
    for c in it: text.chars()
        invariant
            chars@ == text@.take(it.index()),
            it.seq() == text@,
    {
        chars.push(c);
        assert(text@.take(it.index() + 1) =~= text@.take(it.index()).push(c));
    }
    assert(text@.take(text@.len() as int) =~= text@);
    chars
}

/// Whether two string slices hold the same characters.
pub fn str_eq(a: &str, b: &str) -> (r: bool)
    ensures
        r == (a@ == b@),
{
    broadcast use encode_utf8_decode_utf8;

    let x = a.as_bytes();
    let y = b.as_bytes();
    if x.len() != y.len() {
        return false;
    }
    let mut i: usize = 0;
    while i < x.len()
        invariant
            i <= x.len(),
            x.len() == y.len(),
            x@ == a.spec_bytes(),
            y@ == b.spec_bytes(),
            forall|j: int| 0 <= j < i ==> x@[j] == y@[j],
        decreases x.len() - i,
    {
        if x[i] != y[i] {
            return false;
        }
        i += 1;
    }
    assert(x@ =~= y@);
    assert(decode_utf8(encode_utf8(a@)) == a@);
    assert(decode_utf8(encode_utf8(b@)) == b@);
    true
}

/// A character that may stand in a verb: an ASCII letter or digit, `_` or `-`.
pub open spec fn is_verb_char(c: char) -> bool {
    ||| 'a' <= c <= 'z'
    ||| 'A' <= c <= 'Z'
    ||| '0' <= c <= '9'
    ||| c == '_'
    ||| c == '-'
}

/// Tests whether `c` may stand in a verb.
pub fn verb_char(c: char) -> (r: bool)
    ensures
        r == is_verb_char(c),
{
    (c >= 'a' && c <= 'z') || (c >= 'A' && c <= 'Z') || (c >= '0' && c <= '9') || c == '_' || c
        == '-'
}

/// Whether every character of `s` may stand in a verb.
pub open spec fn all_verb_chars(s: Seq<char>) -> bool {
    forall|i: int| 0 <= i < s.len() ==> is_verb_char(#[trigger] s[i])
}

/// Where the run of verb characters that starts at `from` ends: the first
/// position at or after `from` that holds no verb character.
pub open spec fn run_end(s: Seq<char>, from: int) -> int
    decreases s.len() - from,
{
    if 0 <= from < s.len() && is_verb_char(s[from]) {
        run_end(s, from + 1)
    } else {
        from
    }
}

/// A run is the only stretch from `from` that holds nothing but verb
/// characters and cannot be made longer.
pub proof fn lemma_run_end_unique(s: Seq<char>, from: int, to: int)
    requires
        0 <= from <= to <= s.len(),
        all_verb_chars(s.subrange(from, to)),
        to < s.len() ==> !is_verb_char(s[to]),
    ensures
        run_end(s, from) == to,
    decreases to - from,
{
    if from < to {
        assert(s.subrange(from, to)[0] == s[from]);
        assert forall|i: int| 0 <= i < to - (from + 1) implies is_verb_char(
            #[trigger] s.subrange(from + 1, to)[i],
        ) by {
            assert(s.subrange(from + 1, to)[i] == s.subrange(from, to)[i + 1]);
        }
        lemma_run_end_unique(s, from + 1, to);
    }
}

/// Finds where the run of verb characters that starts at `from` ends.
pub fn scan_run(chars: &Vec<char>, from: usize) -> (end: usize)
    requires
        from <= chars.len(),
    ensures
        end == run_end(chars@, from as int),
        from <= end <= chars.len(),
{
    let mut end = from;
    while end < chars.len() && verb_char(chars[end])
        invariant
            from <= end <= chars.len(),
            run_end(chars@, from as int) == run_end(chars@, end as int),
        decreases chars.len() - end,
    {
        end += 1;
    }
    end
}

/// The code of `c`, with the ASCII capitals mapped to their small letters.
pub open spec fn folded(c: char) -> u32 {
    if 'A' <= c <= 'Z' {
        (c as u32 + 32) as u32
    } else {
        c as u32
    }
}

/// Whether `a` and `b` are the same text once ASCII case is ignored.
pub open spec fn same_ignoring_ascii_case(a: Seq<char>, b: Seq<char>) -> bool {
    &&& a.len() == b.len()
    &&& forall|i: int| 0 <= i < a.len() ==> folded(#[trigger] a[i]) == folded(b[i])
}

/// Computes [`folded`].
pub fn fold_char(c: char) -> (code: u32)
    ensures
        code == folded(c),
{
    if c >= 'A' && c <= 'Z' {
        c as u32 + 32
    } else {
        c as u32
    }
}

/// Compares the characters `chars[from..to]` with `word`, ignoring ASCII case.
pub fn matches_word(chars: &Vec<char>, from: usize, to: usize, word: &str) -> (r: bool)
    requires
        from <= to <= chars.len(),
    ensures
        r == same_ignoring_ascii_case(chars@.subrange(from as int, to as int), word@),
{
    let letters = to_chars(word);
    if letters.len() != to - from {
        return false;
    }
    let ghost part = chars@.subrange(from as int, to as int);
    let mut i: usize = 0;
    while i < letters.len()
        invariant
            from <= to <= chars.len(),
            i <= letters.len(),
            letters.len() == to - from,
            letters@ == word@,
            part == chars@.subrange(from as int, to as int),
            forall|j: int| 0 <= j < i ==> folded(#[trigger] part[j]) == folded(letters@[j]),
        decreases letters.len() - i,
    {
        if fold_char(chars[from + i]) != fold_char(letters[i]) {
            assert(part[i as int] == chars@[from + i]);
            return false;
        }
        assert(part[i as int] == chars@[from + i]);
        i += 1;
    }
    true
}

/// The byte `b`, with the ASCII capitals mapped to their small letters.
pub open spec fn folded_byte(b: u8) -> u8 {
    if 0x41 <= b <= 0x5a {
        (b + 0x20) as u8
    } else {
        b
    }
}

/// Whether `a` and `b` are the same bytes once ASCII case is ignored.
pub open spec fn bytes_match_ignoring_ascii_case(a: Seq<u8>, b: Seq<u8>) -> bool {
    &&& a.len() == b.len()
    &&& forall|i: int| 0 <= i < a.len() ==> folded_byte(#[trigger] a[i]) == folded_byte(b[i])
}

/// Computes [`folded_byte`].
pub fn fold_byte(b: u8) -> (r: u8)
    ensures
        r == folded_byte(b),
{
    if b >= 0x41 && b <= 0x5a {
        b + 0x20
    } else {
        b
    }
}

/// Compares two byte slices, ignoring ASCII case.
pub fn eq_ignore_ascii_case(a: &[u8], b: &[u8]) -> (r: bool)
    ensures
        r == bytes_match_ignoring_ascii_case(a@, b@),
{
    if a.len() != b.len() {
        return false;
    }
    let mut i: usize = 0;
    while i < a.len()
        invariant
            i <= a.len(),
            a.len() == b.len(),
            forall|j: int| 0 <= j < i ==> folded_byte(#[trigger] a@[j]) == folded_byte(b@[j]),
        decreases a.len() - i,
    {
        if fold_byte(a[i]) != fold_byte(b[i]) {
            return false;
        }
        i += 1;
    }
    true
}

} // verus!
