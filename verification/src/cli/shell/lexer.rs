use vstd::prelude::*;

use crate::text::{chars_of, string_from_chars, strings_view};

verus! {

/// Error returned when the input ends inside a quoted word.
#[derive(Clone, Copy, Debug, PartialEq, Eq)]
pub struct ParseError;

impl ParseError {
    /// Human readable description of the error.
    pub fn message(&self) -> (res: String)
        ensures
            res@ == "missing closing quote"@,
    {
        String::from_str("missing closing quote")
    }
}

/// States of the word splitter.
#[derive(Clone, Copy, Debug, PartialEq, Eq)]
pub enum LexState {
    /// Within a delimiter.
    Delimiter,
    /// After backslash, but before starting word.
    Backslash,
    /// Within an unquoted word.
    Unquoted,
    /// After backslash in an unquoted word.
    UnquotedBackslash,
    /// Within a single quoted word.
    SingleQuoted,
    /// Within a double quoted word.
    DoubleQuoted,
    /// After backslash inside a double quoted word.
    DoubleQuotedBackslash,
}

pub open spec fn is_blank(c: char) -> bool {
    c == '\t' || c == ' ' || c == '\n'
}

/// One step of the splitter on character `c`: the next state, the word being
/// built and the finished words.
pub open spec fn lex_step(st: LexState, word: Seq<char>, words: Seq<Seq<char>>, c: char) -> (
    LexState,
    Seq<char>,
    Seq<Seq<char>>,
) {
    match st {
        LexState::Delimiter => {
            if c == '\'' {
                (LexState::SingleQuoted, word, words)
            } else if c == '"' {
                (LexState::DoubleQuoted, word, words)
            } else if c == '\\' {
                (LexState::Backslash, word, words)
            } else if is_blank(c) {
                (LexState::Delimiter, word, words)
            } else {
                (LexState::Unquoted, word.push(c), words)
            }
        },
        LexState::Backslash => {
            if c == '\n' {
                (LexState::Delimiter, word, words)
            } else {
                (LexState::Unquoted, word.push(c), words)
            }
        },
        LexState::Unquoted => {
            if c == '\'' {
                (LexState::SingleQuoted, word, words)
            } else if c == '"' {
                (LexState::DoubleQuoted, word, words)
            } else if c == '\\' {
                (LexState::UnquotedBackslash, word, words)
            } else if is_blank(c) {
                (LexState::Delimiter, Seq::empty(), words.push(word))
            } else {
                (LexState::Unquoted, word.push(c), words)
            }
        },
        LexState::UnquotedBackslash => {
            if c == '\n' {
                (LexState::Unquoted, word, words)
            } else {
                (LexState::Unquoted, word.push(c), words)
            }
        },
        LexState::SingleQuoted => {
            if c == '\'' {
                (LexState::Unquoted, word, words)
            } else {
                (LexState::SingleQuoted, word.push(c), words)
            }
        },
        LexState::DoubleQuoted => {
            if c == '"' {
                (LexState::Unquoted, word, words)
            } else if c == '\\' {
                (LexState::DoubleQuotedBackslash, word, words)
            } else {
                (LexState::DoubleQuoted, word.push(c), words)
            }
        },
        LexState::DoubleQuotedBackslash => {
            if c == '\n' {
                (LexState::DoubleQuoted, word, words)
            } else if c == '$' || c == '`' || c == '"' || c == '\\' {
                (LexState::DoubleQuoted, word.push(c), words)
            } else {
                (LexState::DoubleQuoted, word.push('\\').push(c), words)
            }
        },
    }
}

/// What the splitter produces when the input ends in state `st`; `None`
/// when a quote is still open.
pub open spec fn lex_finish(st: LexState, word: Seq<char>, words: Seq<Seq<char>>) -> Option<
    Seq<Seq<char>>,
> {
    match st {
        LexState::Delimiter => Some(words),
        LexState::Backslash => Some(words.push(word.push('\\'))),
        LexState::Unquoted => Some(words.push(word)),
        LexState::UnquotedBackslash => Some(words.push(word.push('\\'))),
        _ => None,
    }
}

/// Run the splitter from a given configuration over the remaining input.
pub open spec fn lex_from(st: LexState, word: Seq<char>, words: Seq<Seq<char>>, rest: Seq<char>) -> Option<
    Seq<Seq<char>>,
>
    decreases rest.len(),
{
    if rest.len() == 0 {
        lex_finish(st, word, words)
    } else {
        let (st2, word2, words2) = lex_step(st, word, words, rest[0]);
        lex_from(st2, word2, words2, rest.drop_first())
    }
}

/// The words of `input` split the way a POSIX shell splits them: blanks
/// separate words, single quotes quote literally, double quotes quote with
/// backslash escapes for `$`, backquote, `"` and backslash, and an unquoted
/// backslash escapes the next character (a backslash-newline is removed).
/// `None` when a quote is left open.
pub open spec fn split_args(input: Seq<char>) -> Option<Seq<Seq<char>>> {
    lex_from(LexState::Delimiter, Seq::empty(), Seq::empty(), input)
}

/// A double-quoted run without `"` or backslash is read into the word as it
/// stands, whatever follows it.
proof fn lemma_double_quoted_run(word: Seq<char>, words: Seq<Seq<char>>, w: Seq<char>, rest: Seq<char>)
    requires
        forall|i: int| 0 <= i < w.len() ==> (#[trigger] w[i]) != '"' && w[i] != '\\',
    ensures
        lex_from(LexState::DoubleQuoted, word, words, w + rest) == lex_from(
            LexState::DoubleQuoted,
            word + w,
            words,
            rest,
        ),
    decreases w.len(),
{
    if w.len() == 0 {
        assert(w + rest =~= rest);
        assert(word + w =~= word);
    } else {
        let c = w[0];
        assert((w + rest)[0] == c);
        assert((w + rest).drop_first() =~= w.drop_first() + rest);
        assert(c != '"' && c != '\\');
        assert forall|i: int| 0 <= i < w.drop_first().len() implies (#[trigger] w.drop_first()[i]) != '"'
            && w.drop_first()[i] != '\\' by {
            assert(w.drop_first()[i] == w[i + 1]);
        }
        lemma_double_quoted_run(word.push(c), words, w.drop_first(), rest);
        assert(word.push(c) + w.drop_first() =~= word + w);
    }
}

/// Inside double quotes every character other than `"` and backslash is
/// kept: a text `w` without those two characters, in double quotes, is the
/// single word `w`.
pub proof fn lemma_double_quoted_word(w: Seq<char>)
    requires
        forall|i: int| 0 <= i < w.len() ==> (#[trigger] w[i]) != '"' && w[i] != '\\',
    ensures
        split_args(seq!['"'] + w + seq!['"']) == Some(seq![w]),
{
    let input = seq!['"'] + w + seq!['"'];
    let empty_words = Seq::<Seq<char>>::empty();
    assert(input[0] == '"');
    assert(input.drop_first() =~= w + seq!['"']);
    assert(lex_from(LexState::Delimiter, Seq::empty(), empty_words, input) == lex_from(
        LexState::DoubleQuoted,
        Seq::empty(),
        empty_words,
        w + seq!['"'],
    ));
    lemma_double_quoted_run(Seq::empty(), empty_words, w, seq!['"']);
    assert(Seq::<char>::empty() + w =~= w);
    let last = seq!['"'];
    assert(last[0] == '"');
    assert(last.drop_first() =~= Seq::<char>::empty());
    assert(lex_from(LexState::DoubleQuoted, w, empty_words, last) == lex_from(
        LexState::Unquoted,
        w,
        empty_words,
        Seq::empty(),
    ));
    assert(empty_words.push(w) =~= seq![w]);
}

/// A character that an unquoted word keeps as it stands.
pub open spec fn is_plain(c: char) -> bool {
    !is_blank(c) && c != '\'' && c != '"' && c != '\\'
}

/// A single-quoted run without `'` is read into the word as it stands.
proof fn lemma_single_quoted_run(word: Seq<char>, words: Seq<Seq<char>>, w: Seq<char>, rest: Seq<char>)
    requires
        forall|i: int| 0 <= i < w.len() ==> (#[trigger] w[i]) != '\'',
    ensures
        lex_from(LexState::SingleQuoted, word, words, w + rest) == lex_from(
            LexState::SingleQuoted,
            word + w,
            words,
            rest,
        ),
    decreases w.len(),
{
    if w.len() == 0 {
        assert(w + rest =~= rest);
        assert(word + w =~= word);
    } else {
        let c = w[0];
        assert((w + rest)[0] == c);
        assert((w + rest).drop_first() =~= w.drop_first() + rest);
        assert forall|i: int| 0 <= i < w.drop_first().len() implies (#[trigger] w.drop_first()[i]) != '\'' by {
            assert(w.drop_first()[i] == w[i + 1]);
        }
        lemma_single_quoted_run(word.push(c), words, w.drop_first(), rest);
        assert(word.push(c) + w.drop_first() =~= word + w);
    }
}

/// An unquoted run of plain characters is read into the word as it stands.
proof fn lemma_unquoted_run(word: Seq<char>, words: Seq<Seq<char>>, w: Seq<char>, rest: Seq<char>)
    requires
        forall|i: int| 0 <= i < w.len() ==> is_plain(#[trigger] w[i]),
    ensures
        lex_from(LexState::Unquoted, word, words, w + rest) == lex_from(
            LexState::Unquoted,
            word + w,
            words,
            rest,
        ),
    decreases w.len(),
{
    if w.len() == 0 {
        assert(w + rest =~= rest);
        assert(word + w =~= word);
    } else {
        let c = w[0];
        assert((w + rest)[0] == c);
        assert(is_plain(c));
        assert((w + rest).drop_first() =~= w.drop_first() + rest);
        assert forall|i: int| 0 <= i < w.drop_first().len() implies is_plain(#[trigger] w.drop_first()[i]) by {
            assert(w.drop_first()[i] == w[i + 1]);
        }
        lemma_unquoted_run(word.push(c), words, w.drop_first(), rest);
        assert(word.push(c) + w.drop_first() =~= word + w);
    }
}

/// Inside single quotes every character is kept: a text `w` without `'`,
/// in single quotes, is the single word `w`.
pub proof fn lemma_single_quoted_word(w: Seq<char>)
    requires
        forall|i: int| 0 <= i < w.len() ==> (#[trigger] w[i]) != '\'',
    ensures
        split_args(seq!['\''] + w + seq!['\'']) == Some(seq![w]),
{
    let input = seq!['\''] + w + seq!['\''];
    let empty_words = Seq::<Seq<char>>::empty();
    assert(input[0] == '\'');
    assert(input.drop_first() =~= w + seq!['\'']);
    lemma_single_quoted_run(Seq::empty(), empty_words, w, seq!['\'']);
    assert(Seq::<char>::empty() + w =~= w);
    let last = seq!['\''];
    assert(last[0] == '\'');
    assert(last.drop_first() =~= Seq::<char>::empty());
    assert(lex_from(LexState::SingleQuoted, w, empty_words, last) == lex_from(
        LexState::Unquoted,
        w,
        empty_words,
        Seq::empty(),
    ));
    assert(empty_words.push(w) =~= seq![w]);
}

/// Plain words separated by a blank are two words: `a`, then `b`.
pub proof fn lemma_blank_separates_words(a: Seq<char>, b: Seq<char>, blank: char)
    requires
        a.len() > 0,
        b.len() > 0,
        is_blank(blank),
        forall|i: int| 0 <= i < a.len() ==> is_plain(#[trigger] a[i]),
        forall|i: int| 0 <= i < b.len() ==> is_plain(#[trigger] b[i]),
    ensures
        split_args(a + seq![blank] + b) == Some(seq![a, b]),
{
    let input = a + seq![blank] + b;
    let e = Seq::<char>::empty();
    let no_words = Seq::<Seq<char>>::empty();
    assert(input[0] == a[0]);
    assert(is_plain(a[0]));
    assert(input.drop_first() =~= a.drop_first() + (seq![blank] + b));
    assert forall|i: int| 0 <= i < a.drop_first().len() implies is_plain(#[trigger] a.drop_first()[i]) by {
        assert(a.drop_first()[i] == a[i + 1]);
    }
    lemma_unquoted_run(e.push(a[0]), no_words, a.drop_first(), seq![blank] + b);
    assert(e.push(a[0]) + a.drop_first() =~= a);
    let mid = seq![blank] + b;
    assert(mid[0] == blank);
    assert(mid.drop_first() =~= b);
    assert(lex_from(LexState::Unquoted, a, no_words, mid) == lex_from(
        LexState::Delimiter,
        e,
        no_words.push(a),
        b,
    ));
    assert(b[0] == b[0]);
    assert(is_plain(b[0]));
    assert(b =~= b.take(1) + b.drop_first());
    assert(lex_from(LexState::Delimiter, e, no_words.push(a), b) == lex_from(
        LexState::Unquoted,
        e.push(b[0]),
        no_words.push(a),
        b.drop_first(),
    ));
    assert forall|i: int| 0 <= i < b.drop_first().len() implies is_plain(#[trigger] b.drop_first()[i]) by {
        assert(b.drop_first()[i] == b[i + 1]);
    }
    lemma_unquoted_run(e.push(b[0]), no_words.push(a), b.drop_first(), Seq::empty());
    assert(b.drop_first() + Seq::<char>::empty() =~= b.drop_first());
    assert(e.push(b[0]) + b.drop_first() =~= b);
    assert(no_words.push(a).push(b) =~= seq![a, b]);
}

fn lex_step_exec(st: LexState, word: &mut Vec<char>, words: &mut Vec<String>, c: char) -> (res:
    LexState)
    ensures
        ({
            let (st2, word2, words2) = lex_step(st, old(word)@, strings_view(old(words)@), c);
            &&& res == st2
            &&& final(word)@ == word2
            &&& strings_view(final(words)@) == words2
        }),
{
    match st {
        LexState::Delimiter => {
            if c == '\'' {
                LexState::SingleQuoted
            } else if c == '"' {
                LexState::DoubleQuoted
            } else if c == '\\' {
                LexState::Backslash
            } else if c == '\t' || c == ' ' || c == '\n' {
                LexState::Delimiter
            } else {
                word.push(c);
                LexState::Unquoted
            }
        },
        LexState::Backslash => {
            if c == '\n' {
                LexState::Delimiter
            } else {
                word.push(c);
                LexState::Unquoted
            }
        },
        LexState::Unquoted => {
            if c == '\'' {
                LexState::SingleQuoted
            } else if c == '"' {
                LexState::DoubleQuoted
            } else if c == '\\' {
                LexState::UnquotedBackslash
            } else if c == '\t' || c == ' ' || c == '\n' {
                let ghost old_words = strings_view(words@);
                let w = string_from_chars(word);
                words.push(w);
                word.clear();
                assert(strings_view(words@) =~= old_words.push(old(word)@));
                LexState::Delimiter
            } else {
                word.push(c);
                LexState::Unquoted
            }
        },
        LexState::UnquotedBackslash => {
            if c == '\n' {
                LexState::Unquoted
            } else {
                word.push(c);
                LexState::Unquoted
            }
        },
        LexState::SingleQuoted => {
            if c == '\'' {
                LexState::Unquoted
            } else {
                word.push(c);
                LexState::SingleQuoted
            }
        },
        LexState::DoubleQuoted => {
            if c == '"' {
                LexState::Unquoted
            } else if c == '\\' {
                LexState::DoubleQuotedBackslash
            } else {
                word.push(c);
                LexState::DoubleQuoted
            }
        },
        LexState::DoubleQuotedBackslash => {
            if c == '\n' {
                LexState::DoubleQuoted
            } else if c == '$' || c == '`' || c == '"' || c == '\\' {
                word.push(c);
                LexState::DoubleQuoted
            } else {
                word.push('\\');
                word.push(c);
                LexState::DoubleQuoted
            }
        },
    }
}

/// Split a line of shell input into words (see `split_args`).
pub fn try_into_args(input: &str) -> (res: Result<Vec<String>, ParseError>)
    ensures
        res is Ok <==> split_args(input@) is Some,
        res matches Ok(words) ==> strings_view(words@) == split_args(input@).unwrap(),
{
    let chars = chars_of(input);
    let mut words: Vec<String> = Vec::new();
    let mut word: Vec<char> = Vec::new();
    let mut state = LexState::Delimiter;
    let mut i: usize = 0;
    assert(chars@.skip(0) =~= chars@);
    assert(strings_view(words@) =~= Seq::<Seq<char>>::empty());
    assert(word@ =~= Seq::<char>::empty());
    while i < chars.len()
        invariant
            i <= chars@.len(),
            chars@ == input@,
            lex_from(state, word@, strings_view(words@), chars@.skip(i as int)) == split_args(
                input@,
            ),
        decreases chars@.len() - i,
    {
        let c = chars[i];
        let ghost rest = chars@.skip(i as int);
        assert(rest[0] == c);
        assert(rest.drop_first() =~= chars@.skip(i + 1));
        state = lex_step_exec(state, &mut word, &mut words, c);
        i = i + 1;
    }
    assert(chars@.skip(i as int) =~= Seq::<char>::empty());
    match state {
        LexState::Delimiter => Ok(words),
        LexState::Backslash | LexState::UnquotedBackslash => {
            let ghost old_words = strings_view(words@);
            word.push('\\');
            let w = string_from_chars(&word);
            words.push(w);
            assert(strings_view(words@) =~= old_words.push(word@));
            Ok(words)
        },
        LexState::Unquoted => {
            let ghost old_words = strings_view(words@);
            let w = string_from_chars(&word);
            words.push(w);
            assert(strings_view(words@) =~= old_words.push(word@));
            Ok(words)
        },
        _ => Err(ParseError),
    }
}

/// The quote stack after reading `input`: a quote character pushes onto an
/// empty stack, closes the open quote when it matches the top, and is
/// ignored otherwise. Other characters leave the stack unchanged.
pub open spec fn quote_stack_after(stack: Seq<char>, input: Seq<char>) -> Seq<char>
    decreases input.len(),
{
    if input.len() == 0 {
        stack
    } else {
        let c = input[0];
        let next = if c == '"' || c == '\'' {
            if stack.len() == 0 {
                stack.push(c)
            } else if stack.last() == c {
                stack.drop_last()
            } else {
                stack
            }
        } else {
            stack
        };
        quote_stack_after(next, input.drop_first())
    }
}

/// Track the quotes that `input` leaves open, starting from `quote_stack`.
pub fn count_quotes(input: &str, quote_stack: &mut Vec<char>)
    ensures
        final(quote_stack)@ == quote_stack_after(old(quote_stack)@, input@),
{
    let chars = chars_of(input);
    let mut i: usize = 0;
    assert(chars@.skip(0) =~= chars@);
    while i < chars.len()
        invariant
            i <= chars@.len(),
            chars@ == input@,
            quote_stack_after(quote_stack@, chars@.skip(i as int)) == quote_stack_after(
                old(quote_stack)@,
                input@,
            ),
        decreases chars@.len() - i,
    {
        let m = chars[i];
        let ghost rest = chars@.skip(i as int);
        assert(rest[0] == m);
        assert(rest.drop_first() =~= chars@.skip(i + 1));
        if m == '"' || m == '\'' {
            let n = quote_stack.len();
            if n == 0 {
                quote_stack.push(m);
            } else if quote_stack[n - 1] == m {
                let ghost prev = quote_stack@;
                quote_stack.pop();
                assert(quote_stack@ =~= prev.drop_last());
            }
        }
        i = i + 1;
    }
    assert(chars@.skip(i as int) =~= Seq::<char>::empty());
}

} // verus!
