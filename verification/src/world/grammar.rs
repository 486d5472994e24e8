//! The grammar of player input, and how a line of input becomes an
//! [`Action`].
//!
//! ```text
//! <sentence> ::= <verb> <rest>
//! <verb>     ::= one or more of A-Z a-z 0-9 _ -   (matched without regard to case)
//! <rest>     ::= anything                          for read, enter, connect, access, open
//!              | [<phrase>] ["."]                  for look
//! <phrase>   ::= <word> <blank> { <word> <sep> } <word>
//! <sep>      ::= <blank> | [<blank>] "," [<blank>]
//! <word>     ::= one or more letters
//! <blank>    ::= one or more white space characters
//! ```
//!
//! Blanks may also stand before the phrase and around the final period. The
//! first word of a phrase is the preposition, the last one the target, and
//! the words between them are properties of the target.
//!
//! White space is Unicode's, and so are letters: the runs of letters in a
//! sentence are what the regex crate finds for the pattern `\p{L}+`.

use vstd::prelude::*;
use vstd::string::*;
use vstd::utf8::*;
use crate::text::{
    all_verb_chars, char_is_whitespace, find_all, folded, from_utf8, is_verb_char, is_whitespace,
    lemma_run_end_unique, matches_of, matches_word, run_end, same_ignoring_ascii_case, scan_run,
    to_chars, word_views, LETTERS,
};
use crate::world::actions::{Action, ActionView};
use crate::world::errors::Error;
use crate::world::properties::{properties_of, property_views, Property};

verus! {

/// A piece of a sentence that carries meaning. White space carries none and
/// is no token.
#[derive(Debug, Clone, PartialEq, Eq)]
pub enum Token {
    /// A run of letters, as long as it can be.
    Word(String),
    Comma,
    Period,
    /// Any other character.
    Other,
}

/// A [`Token`] as a mathematical value.
pub enum TokenView {
    Word(Seq<char>),
    Comma,
    Period,
    Other,
}

impl View for Token {
    type V = TokenView;

    open spec fn view(&self) -> TokenView {
        match self {
            Token::Word(w) => TokenView::Word(w@),
            Token::Comma => TokenView::Comma,
            Token::Period => TokenView::Period,
            Token::Other => TokenView::Other,
        }
    }
}

/// A list of tokens as mathematical values.
pub open spec fn token_views(tokens: Seq<Token>) -> Seq<TokenView> {
    tokens.map_values(|t: Token| t@)
}

/// Whether the text `s` goes on with the word `word` at position `at`.
pub open spec fn starts_at(s: Seq<char>, at: int, word: Seq<char>) -> bool {
    &&& word.len() > 0
    &&& 0 <= at
    &&& at + word.len() <= s.len()
    &&& s.subrange(at, at + word.len()) == word
}

/// The tokens of `s` from position `from` on, in the order in which they
/// stand, where `runs` are the runs of letters that are still to come. White
/// space is skipped. A comma and a period are tokens of their own. Where the
/// text goes on with the next run, that run is a word. Any other character
/// is a token of its own.
pub open spec fn tokens_by(s: Seq<char>, from: int, runs: Seq<Seq<char>>) -> Seq<TokenView>
    decreases s.len() - from,
{
    if from < 0 || from >= s.len() {
        Seq::empty()
    } else if is_whitespace(s[from]) {
        tokens_by(s, from + 1, runs)
    } else if s[from] == ',' {
        seq![TokenView::Comma] + tokens_by(s, from + 1, runs)
    } else if s[from] == '.' {
        seq![TokenView::Period] + tokens_by(s, from + 1, runs)
    } else if runs.len() > 0 && starts_at(s, from, runs.first()) {
        seq![TokenView::Word(runs.first())] + tokens_by(
            s,
            from + runs.first().len(),
            runs.drop_first(),
        )
    } else {
        seq![TokenView::Other] + tokens_by(s, from + 1, runs)
    }
}

/// The tokens of `s` from position `from` on: the runs of letters are those
/// that the regex crate finds in that part of the text.
pub open spec fn tokens_from(s: Seq<char>, from: int) -> Seq<TokenView> {
    if 0 <= from <= s.len() {
        tokens_by(s, from, matches_of(LETTERS@, s.subrange(from, s.len() as int)))
    } else {
        Seq::empty()
    }
}

/// The words among `tokens`, in the order in which they stand.
pub open spec fn words_of(tokens: Seq<TokenView>) -> Seq<Seq<char>>
    decreases tokens.len(),
{
    if tokens.len() == 0 {
        Seq::empty()
    } else {
        match tokens.last() {
            TokenView::Word(w) => words_of(tokens.drop_last()).push(w),
            _ => words_of(tokens.drop_last()),
        }
    }
}

/// `tokens` without the period that may end a sentence.
pub open spec fn without_final_period(tokens: Seq<TokenView>) -> Seq<TokenView> {
    if tokens.len() > 0 && tokens.last() is Period {
        tokens.drop_last()
    } else {
        tokens
    }
}

/// Whether the token at `i` is no comma, or a comma that stands directly
/// before a word.
pub open spec fn comma_leads_word(body: Seq<TokenView>, i: int) -> bool {
    body[i] is Comma ==> i + 1 < body.len() && body[i + 1] is Word
}

/// Whether `body` is a phrase: it starts with two words, holds nothing but
/// words and commas, and each comma stands directly before a word.
pub open spec fn is_phrase(body: Seq<TokenView>) -> bool {
    &&& body.len() >= 2
    &&& body[0] is Word
    &&& body[1] is Word
    &&& forall|i: int| 0 <= i < body.len() ==> body[i] is Word || #[trigger] body[i] is Comma
    &&& forall|i: int| 0 <= i < body.len() ==> #[trigger] comma_leads_word(body, i)
}

/// What the tokens after the verb `look` mean. Nothing, or a period alone, is
/// a look at nothing in particular. A phrase is a look at its last word,
/// with its first word as the preposition and the words between them as
/// properties. Anything else is malformed.
pub open spec fn look_sentence(tokens: Seq<TokenView>) -> Result<ActionView, Error> {
    let body = without_final_period(tokens);
    if body.len() == 0 {
        Ok(ActionView::plain_look())
    } else if is_phrase(body) {
        let words = words_of(body);
        Ok(
            ActionView::Look {
                target: Some(words.last()),
                preposition: Some(words[0]),
                properties: Some(properties_of(words.subrange(1, words.len() - 1))),
            },
        )
    } else {
        Err(Error::VerbEncodingError)
    }
}

/// The verb of a sentence: its leading run of verb characters.
pub open spec fn verb_of(s: Seq<char>) -> Seq<char> {
    s.subrange(0, run_end(s, 0))
}

/// What a sentence means.
pub open spec fn sentence(s: Seq<char>) -> Result<ActionView, Error> {
    let verb = verb_of(s);
    if same_ignoring_ascii_case(verb, "look"@) {
        look_sentence(tokens_from(s, verb.len() as int))
    } else if same_ignoring_ascii_case(verb, "read"@) {
        Ok(ActionView::Read)
    } else if same_ignoring_ascii_case(verb, "enter"@) {
        Ok(ActionView::Enter)
    } else if same_ignoring_ascii_case(verb, "connect"@) {
        Ok(ActionView::Connect)
    } else if same_ignoring_ascii_case(verb, "access"@) {
        Ok(ActionView::Access)
    } else if same_ignoring_ascii_case(verb, "open"@) {
        Ok(ActionView::Open)
    } else {
        Err(Error::VerbUnknownError)
    }
}

/// What a line of bytes means: it must be well-formed UTF-8, and then means
/// what its text means.
pub open spec fn line(bytes: Seq<u8>) -> Result<ActionView, Error> {
    if valid_utf8(bytes) {
        sentence(decode_utf8(bytes))
    } else {
        Err(Error::VerbEncodingError)
    }
}

/// The result of parsing, with the action as a mathematical value.
pub open spec fn outcome(r: Result<Action, Error>) -> Result<ActionView, Error> {
    match r {
        Ok(a) => Ok(a@),
        Err(e) => Err(e),
    }
}

/// Appending one token and then the rest is appending the token followed by
/// the rest.
proof fn lemma_push_then_rest(front: Seq<TokenView>, token: TokenView, rest: Seq<TokenView>)
    ensures
        front.push(token) + rest == front + (seq![token] + rest),
{
    assert(front.push(token) + rest =~= front + (seq![token] + rest));
}

/// Tests whether the text goes on with the word `word` at position `at`.
fn goes_on_with(chars: &Vec<char>, at: usize, word: &str) -> (r: bool)
    requires
        at < chars.len(),
    ensures
        r == starts_at(chars@, at as int, word@),
{
    let letters = to_chars(word);
    if letters.len() == 0 || letters.len() > chars.len() - at {
        return false;
    }
    let ghost part = chars@.subrange(at as int, at + letters.len());
    let mut i: usize = 0;
    while i < letters.len()
        invariant
            at + letters.len() <= chars.len(),
            i <= letters.len(),
            letters@ == word@,
            part == chars@.subrange(at as int, at + letters.len()),
            forall|j: int| 0 <= j < i ==> part[j] == letters@[j],
        decreases letters.len() - i,
    {
        if chars[at + i] != letters[i] {
            assert(part[i as int] == chars@[at + i]);
            return false;
        }
        assert(part[i as int] == chars@[at + i]);
        i += 1;
    }
    assert(part =~= letters@);
    true
}

/// Splits `text` into tokens, starting at the character with index `from`,
/// where `runs` are the runs of letters in that part of the text.
pub fn tokens_of(text: &str, from: usize, runs: &Vec<String>) -> (tokens: Vec<Token>)
    ensures
        token_views(tokens@) == tokens_by(text@, from as int, word_views(runs@)),
{
    let chars = to_chars(text);
    let mut tokens: Vec<Token> = Vec::new();
    let ghost s = text@;
    let ghost all = word_views(runs@);
    let mut i = from;
    let mut k: usize = 0;
    assert(token_views(tokens@) =~= Seq::empty());
    assert(all.skip(0) =~= all);
    while i < chars.len()
        invariant
            chars@ == s,
            k <= runs.len(),
            all == word_views(runs@),
            token_views(tokens@) + tokens_by(s, i as int, all.skip(k as int)) == tokens_by(
                s,
                from as int,
                all,
            ),
        decreases chars.len() - i,
    {
        let ghost before = token_views(tokens@);
        let ghost left = all.skip(k as int);
        let c = chars[i];
        if char_is_whitespace(c) {
            i += 1;
        } else if c == ',' {
            tokens.push(Token::Comma);
            proof {
                assert(token_views(tokens@) =~= before.push(TokenView::Comma));
                lemma_push_then_rest(before, TokenView::Comma, tokens_by(s, i + 1, left));
            }
            i += 1;
        } else if c == '.' {
            tokens.push(Token::Period);
            proof {
                assert(token_views(tokens@) =~= before.push(TokenView::Period));
                lemma_push_then_rest(before, TokenView::Period, tokens_by(s, i + 1, left));
            }
            i += 1;
        } else if k < runs.len() && goes_on_with(&chars, i, runs[k].as_str()) {
            let word = runs[k].clone();
            let ghost shown = TokenView::Word(word@);
            let next = i + word.as_str().unicode_len();
            tokens.push(Token::Word(word));
            proof {
                assert(left.first() == all[k as int]);
                assert(all[k as int] == runs@[k as int]@);
                assert(left.drop_first() =~= all.skip(k + 1));
                assert(token_views(tokens@) =~= before.push(shown));
                lemma_push_then_rest(before, shown, tokens_by(s, next as int, all.skip(k + 1)));
            }
            i = next;
            k += 1;
        } else {
            tokens.push(Token::Other);
            proof {
                if k < runs.len() {
                    assert(left.first() == all[k as int]);
                    assert(all[k as int] == runs@[k as int]@);
                }
                assert(token_views(tokens@) =~= before.push(TokenView::Other));
                lemma_push_then_rest(before, TokenView::Other, tokens_by(s, i + 1, left));
            }
            i += 1;
        }
    }
    assert(tokens_by(s, i as int, all.skip(k as int)) =~= Seq::empty());
    assert(token_views(tokens@) + Seq::<TokenView>::empty() =~= token_views(tokens@));
    tokens
}

/// Splits `text` into tokens, starting at the character with index `from`.
pub fn tokenize(text: &str, from: usize) -> (tokens: Vec<Token>)
    ensures
        token_views(tokens@) == tokens_from(text@, from as int),
{
    let length = text.unicode_len();
    if from > length {
        let tokens: Vec<Token> = Vec::new();
        assert(token_views(tokens@) =~= Seq::empty());
        return tokens;
    }
    let runs = find_all(LETTERS, text.substring_char(from, length));
    tokens_of(text, from, &runs)
}

/// The words among one more token are the words so far, and the token's word
/// if it is one.
proof fn lemma_words_of_step(body: Seq<TokenView>, i: int)
    requires
        0 <= i < body.len(),
    ensures
        words_of(body.take(i + 1)) == match body[i] {
            TokenView::Word(w) => words_of(body.take(i)).push(w),
            _ => words_of(body.take(i)),
        },
{
    assert(body.take(i + 1).drop_last() =~= body.take(i));
    assert(body.take(i + 1).last() == body[i]);
}

impl Token {
    /// Whether this token is a word.
    pub fn is_word(&self) -> (r: bool)
        ensures
            r == (self@ is Word),
    {
        match self {
            Token::Word(_) => true,
            _ => false,
        }
    }

    /// Whether this token is a period.
    pub fn is_period(&self) -> (r: bool)
        ensures
            r == (self@ is Period),
    {
        match self {
            Token::Period => true,
            _ => false,
        }
    }
}

impl Action {
    /// Reads the properties that the words `words[from..to]` stand for.
    fn properties_between(words: &Vec<String>, from: usize, to: usize) -> (properties: Vec<
        Property,
    >)
        requires
            from <= to <= words.len(),
        ensures
            property_views(properties@) == properties_of(
                word_views(words@).subrange(from as int, to as int),
            ),
    {
        let mut properties: Vec<Property> = Vec::new();
        let ghost all = word_views(words@);
        let mut k = from;
        while k < to
            invariant
                from <= k <= to <= words.len(),
                all == word_views(words@),
                property_views(properties@) == properties_of(all.subrange(from as int, k as int)),
            decreases to - k,
        {
            let property = Property::parse(words[k].as_str());
            let ghost before = property_views(properties@);
            let ghost shown = property@;
            properties.push(property);
            proof {
                assert(all[k as int] == words@[k as int]@);
                assert(all.subrange(from as int, k + 1) =~= all.subrange(
                    from as int,
                    k as int,
                ).push(all[k as int]));
                assert(property_views(properties@) =~= before.push(shown));
                assert(properties_of(all.subrange(from as int, k + 1)) =~= before.push(shown));
            }
            k += 1;
        }
        properties
    }

    /// Reads what follows the verb `look` from its tokens.
    pub fn from_look_tokens(tokens: &Vec<Token>) -> (r: Result<Action, Error>)
        ensures
            outcome(r) == look_sentence(token_views(tokens@)),
    {
        let n = tokens.len();
        let end = if n > 0 && tokens[n - 1].is_period() {
            n - 1
        } else {
            n
        };
        let ghost body = without_final_period(token_views(tokens@));
        assert(body =~= token_views(tokens@).take(end as int));
        if end == 0 {
            return Ok(Action::plain_look());
        }
        if end < 2 {
            return Err(Error::VerbEncodingError);
        }
        let mut words: Vec<String> = Vec::new();
        let mut i: usize = 0;
        assert(word_views(words@) =~= words_of(body.take(0)));
        while i < end
            invariant
                2 <= end <= tokens.len(),
                i <= end,
                body == token_views(tokens@).take(end as int),
                body == without_final_period(token_views(tokens@)),
                body.len() == end,
                word_views(words@) == words_of(body.take(i as int)),
                i <= 2 ==> words.len() == i,
                i >= 2 ==> words.len() >= 2,
                forall|j: int| 0 <= j < i ==> body[j] is Word || #[trigger] body[j] is Comma,
                forall|j: int| 0 <= j < i && j < 2 ==> #[trigger] body[j] is Word,
                forall|j: int| 0 <= j < i ==> #[trigger] comma_leads_word(body, j),
            decreases end - i,
        {
            let ghost before = word_views(words@);
            assert(body[i as int] == tokens@[i as int]@);
            proof {
                lemma_words_of_step(body, i as int);
            }
            match &tokens[i] {
                Token::Word(w) => {
                    words.push(w.clone());
                    assert(word_views(words@) =~= before.push(w@));
                },
                Token::Comma => {
                    if i < 2 || i + 1 >= end || !tokens[i + 1].is_word() {
                        assert(i + 1 < end ==> body[i + 1] == tokens@[i + 1]@);
                        assert(!is_phrase(body)) by {
                            if i == 0 {
                                assert(!(body[0] is Word));
                            } else if i == 1 {
                                assert(!(body[1] is Word));
                            } else {
                                assert(!comma_leads_word(body, i as int));
                            }
                        }
                        return Err(Error::VerbEncodingError);
                    }
                    assert(body[i + 1] == tokens@[i + 1]@);
                },
                _ => {
                    assert(!(body[i as int] is Comma));
                    assert(!is_phrase(body));
                    return Err(Error::VerbEncodingError);
                },
            }
            assert(comma_leads_word(body, i as int));
            i += 1;
        }
        assert(body.take(end as int) =~= body);
        assert(is_phrase(body));
        let last = words.len() - 1;
        let properties = Action::properties_between(&words, 1, last);
        let target = words[last].clone();
        let preposition = words[0].clone();
        proof {
            let all = words_of(body);
            assert(all == word_views(words@));
            assert(all.last() == words@[last as int]@);
            assert(all[0] == words@[0]@);
        }
        Ok(
            Action::Look {
                target: Some(target),
                preposition: Some(preposition),
                properties: Some(properties),
            },
        )
    }

    /// Reads an action from a line of text.
    ///
    /// The line must start with one of the verbs look, read, enter, connect,
    /// access and open, in any mix of upper and lower case, or the result is
    /// `VerbUnknownError`. Whatever follows one of the other verbs is ignored.
    /// What follows `look` must be nothing, a period, or a phrase with an
    /// optional period, or the result is `VerbEncodingError`.
    pub fn parse_str(text: &str) -> (r: Result<Action, Error>)
        ensures
            outcome(r) == sentence(text@),
    {
        let chars = to_chars(text);
        let end = scan_run(&chars, 0);
        assert(chars@.subrange(0, end as int) == verb_of(text@));
        if matches_word(&chars, 0, end, "look") {
            let tokens = tokenize(text, end);
            Action::from_look_tokens(&tokens)
        } else if matches_word(&chars, 0, end, "read") {
            Ok(Action::Read)
        } else if matches_word(&chars, 0, end, "enter") {
            Ok(Action::Enter)
        } else if matches_word(&chars, 0, end, "connect") {
            Ok(Action::Connect)
        } else if matches_word(&chars, 0, end, "access") {
            Ok(Action::Access)
        } else if matches_word(&chars, 0, end, "open") {
            Ok(Action::Open)
        } else {
            Err(Error::VerbUnknownError)
        }
    }

    /// Reads an action from a line of bytes: bytes that are not well-formed
    /// UTF-8 give `VerbEncodingError`, any other line is read as its text.
    pub fn parse(bytes: &[u8]) -> (r: Result<Action, Error>)
        ensures
            outcome(r) == line(bytes@),
    {
        match from_utf8(bytes) {
            Ok(text) => {
                proof {
                    encode_utf8_decode_utf8(text@);
                }
                Action::parse_str(text)
            },
            Err(_) => Err(Error::VerbEncodingError),
        }
    }
}

/// A word that matches a word of small ASCII letters, case ignored, is made of
/// verb characters.
proof fn lemma_matching_word_is_verb(word: Seq<char>, small: Seq<char>)
    requires
        same_ignoring_ascii_case(word, small),
        forall|i: int| 0 <= i < small.len() ==> 'a' <= #[trigger] small[i] <= 'z',
    ensures
        all_verb_chars(word),
{
    assert forall|i: int| 0 <= i < word.len() implies is_verb_char(
        #[trigger] word[i],
    ) by {
        let c = word[i];
        let d = small[i];
        assert(folded(c) == folded(d));
        assert('a' <= d <= 'z');
        assert(folded(d) == d as u32);
        if 'A' <= c <= 'Z' {
        } else {
            char_u32_cast(c, c as u32);
            char_u32_cast(d, d as u32);
        }
    }
}

/// A word that stands at the start of a sentence, is made of verb characters
/// and is followed by none is the verb of that sentence.
proof fn lemma_verb_of(word: Seq<char>, rest: Seq<char>)
    requires
        all_verb_chars(word),
        rest.len() > 0 ==> !is_verb_char(rest[0]),
    ensures
        verb_of(word + rest) == word,
{
    let s = word + rest;
    assert(s.subrange(0, word.len() as int) =~= word);
    if rest.len() > 0 {
        assert(s[word.len() as int] == rest[0]);
    }
    lemma_run_end_unique(s, 0, word.len() as int);
}

/// A spelling of a verb, followed by nothing that continues it, is the verb
/// of its sentence, and it spells none of the words `others`, each of which
/// differs from the verb in its length or, case ignored, in its first letter.
proof fn lemma_spelled_verb(
    word: Seq<char>,
    rest: Seq<char>,
    verb: Seq<char>,
    others: Seq<Seq<char>>,
)
    requires
        same_ignoring_ascii_case(word, verb),
        forall|i: int| 0 <= i < verb.len() ==> 'a' <= #[trigger] verb[i] <= 'z',
        rest.len() > 0 ==> !is_verb_char(rest[0]),
        forall|k: int|
            0 <= k < others.len() ==> (#[trigger] others[k]).len() != verb.len() || (verb.len()
                > 0 && folded(others[k][0]) != folded(verb[0])),
    ensures
        verb_of(word + rest) == word,
        forall|k: int|
            0 <= k < others.len() ==> !same_ignoring_ascii_case(word, #[trigger] others[k]),
{
    lemma_matching_word_is_verb(word, verb);
    lemma_verb_of(word, rest);
    assert forall|k: int| 0 <= k < others.len() implies !same_ignoring_ascii_case(
        word,
        #[trigger] others[k],
    ) by {
        if others[k].len() == verb.len() {
            assert(folded(word[0]) == folded(verb[0]));
        }
    }
}

/// Verbs are read without regard to case.
///
/// Take any spelling `word` of one of the six verbs, in any mix of upper and
/// lower case, and let anything follow it that does not continue the word.
/// For read, enter, connect, access and open the sentence is that action,
/// whatever follows. For look it is what the tokens after the verb make of a
/// look.
pub proof fn law_verbs_ignore_case(word: Seq<char>, rest: Seq<char>)
    requires
        rest.len() > 0 ==> !is_verb_char(rest[0]),
    ensures
        same_ignoring_ascii_case(word, "look"@) ==> sentence(word + rest) == look_sentence(
            tokens_from(word + rest, word.len() as int),
        ),
        same_ignoring_ascii_case(word, "read"@) ==> sentence(word + rest) == Ok::<
            ActionView,
            Error,
        >(ActionView::Read),
        same_ignoring_ascii_case(word, "enter"@) ==> sentence(word + rest) == Ok::<
            ActionView,
            Error,
        >(ActionView::Enter),
        same_ignoring_ascii_case(word, "connect"@) ==> sentence(word + rest) == Ok::<
            ActionView,
            Error,
        >(ActionView::Connect),
        same_ignoring_ascii_case(word, "access"@) ==> sentence(word + rest) == Ok::<
            ActionView,
            Error,
        >(ActionView::Access),
        same_ignoring_ascii_case(word, "open"@) ==> sentence(word + rest) == Ok::<
            ActionView,
            Error,
        >(ActionView::Open),
{
    reveal_strlit("look");
    reveal_strlit("read");
    reveal_strlit("enter");
    reveal_strlit("connect");
    reveal_strlit("access");
    reveal_strlit("open");
    let verbs = seq!["look"@, "read"@, "enter"@, "connect"@, "access"@, "open"@];
    assert forall|n: int| 0 <= n < 6 && same_ignoring_ascii_case(word, #[trigger] verbs[n]) implies {
        &&& verb_of(word + rest) == word
        &&& forall|k: int| 0 <= k < n ==> !same_ignoring_ascii_case(word, #[trigger] verbs[k])
    } by {
        let before = verbs.take(n);
        assert forall|k: int| 0 <= k < n implies (#[trigger] before[k]).len() != verbs[n].len() || (
        verbs[n].len() > 0 && folded(before[k][0]) != folded(verbs[n][0])) by {
            assert(before[k] == verbs[k]);
        }
        lemma_spelled_verb(word, rest, verbs[n], before);
        assert forall|k: int| 0 <= k < n implies !same_ignoring_ascii_case(
            word,
            #[trigger] verbs[k],
        ) by {
            assert(before[k] == verbs[k]);
        }
    }
    assert(verbs[0] == "look"@ && verbs[1] == "read"@ && verbs[2] == "enter"@);
    assert(verbs[3] == "connect"@ && verbs[4] == "access"@ && verbs[5] == "open"@);
}

/// A stretch of white space holds no token.
proof fn lemma_blank_holds_no_token(s: Seq<char>, from: int, to: int, runs: Seq<Seq<char>>)
    requires
        0 <= from <= to <= s.len(),
        forall|i: int| from <= i < to ==> is_whitespace(#[trigger] s[i]),
    ensures
        tokens_by(s, from, runs) == tokens_by(s, to, runs),
    decreases to - from,
{
    if from < to {
        lemma_blank_holds_no_token(s, from + 1, to, runs);
    }
}

/// A look with nothing to look at is a look around.
///
/// Take any spelling `word` of the verb look and let `rest` follow it, where
/// `rest` holds white space and at most one period, at position `period`
/// (`period` is the length of `rest` where there is none). The sentence is
/// then a look without target, preposition or properties.
pub proof fn law_look_alone(word: Seq<char>, rest: Seq<char>, period: int)
    requires
        same_ignoring_ascii_case(word, "look"@),
        0 <= period <= rest.len(),
        forall|i: int| 0 <= i < rest.len() && i != period ==> is_whitespace(#[trigger] rest[i]),
        period < rest.len() ==> rest[period] == '.',
        rest.len() > 0 ==> !is_verb_char(rest[0]),
    ensures
        sentence(word + rest) == Ok::<ActionView, Error>(ActionView::plain_look()),
{
    law_verbs_ignore_case(word, rest);
    let s = word + rest;
    let from = word.len() as int;
    let at = from + period;
    let runs = matches_of(LETTERS@, s.subrange(from, s.len() as int));
    assert forall|i: int| from <= i < s.len() && i != at implies is_whitespace(
        #[trigger] s[i],
    ) by {
        assert(s[i] == rest[i - from]);
    }
    lemma_blank_holds_no_token(s, from, at, runs);
    if period < rest.len() {
        assert(s[at] == rest[period]);
        lemma_blank_holds_no_token(s, at + 1, s.len() as int, runs);
        assert(tokens_by(s, s.len() as int, runs) =~= Seq::empty());
        assert(tokens_by(s, at, runs) =~= seq![TokenView::Period]);
        assert(seq![TokenView::Period].drop_last() =~= Seq::<TokenView>::empty());
    } else {
        assert(tokens_by(s, at, runs) =~= Seq::empty());
    }
}

/// The tokens that spell a list of words, one word token for each.
pub open spec fn word_tokens(words: Seq<Seq<char>>) -> Seq<TokenView> {
    words.map_values(|w: Seq<char>| TokenView::Word(w))
}

/// The words among the tokens that spell a list of words are that list.
proof fn lemma_words_of_word_tokens(words: Seq<Seq<char>>)
    ensures
        words_of(word_tokens(words)) == words,
    decreases words.len(),
{
    if words.len() > 0 {
        lemma_words_of_word_tokens(words.drop_last());
        assert(word_tokens(words).drop_last() =~= word_tokens(words.drop_last()));
        assert(words.drop_last().push(words.last()) =~= words);
    } else {
        assert(words_of(word_tokens(words)) =~= words);
    }
}

/// Two or more words after the verb `look` are a look at the last of them.
///
/// Let nothing but words follow the verb, and a period or none after them.
/// Then the first word is the preposition, the last one is the target, and
/// each word between them is read as a property.
pub proof fn law_words_make_a_look(words: Seq<Seq<char>>, period: bool)
    requires
        words.len() >= 2,
    ensures
        look_sentence(
            if period {
                word_tokens(words).push(TokenView::Period)
            } else {
                word_tokens(words)
            },
        ) == Ok::<ActionView, Error>(
            ActionView::Look {
                target: Some(words.last()),
                preposition: Some(words[0]),
                properties: Some(properties_of(words.subrange(1, words.len() - 1))),
            },
        ),
{
    let body = word_tokens(words);
    let tokens = if period {
        body.push(TokenView::Period)
    } else {
        body
    };
    assert(without_final_period(tokens) == body) by {
        if period {
            assert(tokens.drop_last() =~= body);
        } else {
            assert(body.last() is Word);
        }
    }
    assert(is_phrase(body)) by {
        assert(body[0] is Word);
        assert(body[1] is Word);
        assert forall|i: int| 0 <= i < body.len() implies #[trigger] comma_leads_word(body, i) by {
            assert(body[i] is Word);
        }
    }
    lemma_words_of_word_tokens(words);
}

/// An action without object is read back from its own sentence.
///
/// Write read, enter, connect, access or open, or a look at nothing in
/// particular, as a sentence, and read that sentence: the result is the
/// action.
pub proof fn law_sentence_reads_back(action: ActionView)
    requires
        action matches ActionView::Look { target, .. } ==> action == ActionView::plain_look(),
    ensures
        sentence(action.sentence()) == Ok::<ActionView, Error>(action),
{
    if action is Look {
        let word = action.sentence();
        let rest = Seq::<char>::empty();
        assert(word + rest =~= word);
        law_look_alone(word, rest, 0);
    } else {
        reveal_strlit(" (todo)");
        let rest = ActionView::mark();
        let word = action.sentence().subrange(0, action.sentence().len() - rest.len());
        assert(word + rest =~= action.sentence());
        assert(word =~= match action {
            ActionView::Read => "read"@,
            ActionView::Enter => "enter"@,
            ActionView::Connect => "connect"@,
            ActionView::Access => "access"@,
            _ => "open"@,
        });
        law_verbs_ignore_case(word, rest);
    }
}

/// Whether `w` can stand as a word in a sentence: it is not empty and does
/// not start with white space, a comma or a period.
pub open spec fn is_word(w: Seq<char>) -> bool {
    w.len() > 0 && !is_whitespace(w[0]) && w[0] != ',' && w[0] != '.'
}

/// Whether `b` is a blank: one or more characters of white space.
pub open spec fn is_blank(b: Seq<char>) -> bool {
    b.len() > 0 && forall|i: int| 0 <= i < b.len() ==> is_whitespace(#[trigger] b[i])
}

/// The text in which the words stand one after the other, each after the
/// blank `blank`.
pub open spec fn spaced(words: Seq<Seq<char>>, blank: Seq<char>) -> Seq<char>
    decreases words.len(),
{
    if words.len() == 0 {
        Seq::empty()
    } else {
        blank + words.first() + spaced(words.drop_first(), blank)
    }
}

/// The tokens of a text do not depend on what stands before them.
proof fn lemma_tokens_shift(a: Seq<char>, b: Seq<char>, k: int, runs: Seq<Seq<char>>)
    requires
        0 <= k <= b.len(),
    ensures
        tokens_by(a + b, a.len() + k, runs) == tokens_by(b, k, runs),
    decreases b.len() - k,
{
    let s = a + b;
    if k < b.len() {
        assert(s[a.len() + k] == b[k]);
        let c = b[k];
        if runs.len() > 0 {
            let n = runs.first().len() as int;
            if k + n <= b.len() {
                assert(s.subrange(a.len() + k, a.len() + k + n) =~= b.subrange(k, k + n));
            }
        }
        if is_whitespace(c) || c == ',' || c == '.' {
            lemma_tokens_shift(a, b, k + 1, runs);
        } else if runs.len() > 0 && starts_at(b, k, runs.first()) {
            lemma_tokens_shift(a, b, k + runs.first().len(), runs.drop_first());
        } else {
            lemma_tokens_shift(a, b, k + 1, runs);
        }
    }
}

/// The tokens of words that stand after blanks are those words, where the
/// runs of letters are those words.
proof fn lemma_tokens_of_spaced(words: Seq<Seq<char>>, blank: Seq<char>)
    requires
        is_blank(blank),
        forall|i: int| 0 <= i < words.len() ==> is_word(#[trigger] words[i]),
    ensures
        tokens_by(spaced(words, blank), 0, words) == word_tokens(words),
    decreases words.len(),
{
    let s = spaced(words, blank);
    if words.len() == 0 {
        assert(tokens_by(s, 0, words) =~= word_tokens(words));
    } else {
        let word = words.first();
        let others = words.drop_first();
        let rest = spaced(others, blank);
        let from = blank.len() as int;
        let to = from + word.len();
        assert(is_word(word));
        assert forall|i: int| 0 <= i < others.len() implies is_word(#[trigger] others[i]) by {
            assert(others[i] == words[i + 1]);
        }
        assert forall|i: int| 0 <= i < from implies is_whitespace(#[trigger] s[i]) by {
            assert(s[i] == blank[i]);
        }
        lemma_blank_holds_no_token(s, 0, from, words);
        assert(s.subrange(from, to) =~= word);
        assert(s[from] == word[0]);
        assert(starts_at(s, from, word));
        assert(s =~= (blank + word) + rest);
        lemma_tokens_shift(blank + word, rest, 0, others);
        lemma_tokens_of_spaced(others, blank);
        assert(word_tokens(words) =~= seq![TokenView::Word(word)] + word_tokens(others));
    }
}

/// A look at a target, written as words with blanks between them, is read
/// as it was written.
///
/// Take any spelling `verb` of the verb look, and two or more words, each
/// after a blank, such that the runs of letters that the regex crate finds
/// in the text after the verb are exactly these words. The sentence is a
/// look whose preposition is the first word, whose target is the last word,
/// and whose properties are what the words between them stand for, in their
/// order.
pub proof fn law_look_at_words(verb: Seq<char>, words: Seq<Seq<char>>, blank: Seq<char>)
    requires
        same_ignoring_ascii_case(verb, "look"@),
        words.len() >= 2,
        forall|i: int| 0 <= i < words.len() ==> is_word(#[trigger] words[i]),
        is_blank(blank),
        matches_of(LETTERS@, spaced(words, blank)) == words,
    ensures
        sentence(verb + spaced(words, blank)) == Ok::<ActionView, Error>(
            ActionView::Look {
                target: Some(words.last()),
                preposition: Some(words[0]),
                properties: Some(properties_of(words.subrange(1, words.len() - 1))),
            },
        ),
{
    let rest = spaced(words, blank);
    let s = verb + rest;
    assert(rest.len() > 0 && rest[0] == blank[0]);
    assert(is_whitespace(blank[0]));
    law_verbs_ignore_case(verb, rest);
    assert(s.subrange(verb.len() as int, s.len() as int) =~= rest);
    lemma_tokens_shift(verb, rest, 0, words);
    lemma_tokens_of_spaced(words, blank);
    law_words_make_a_look(words, false);
}

} // verus!
