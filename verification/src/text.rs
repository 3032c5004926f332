use vstd::prelude::*;

verus! {

broadcast use vstd::string::group_string_axioms;

/// The characters of a string slice, in order.
pub fn chars_of(s: &str) -> (res: Vec<char>)
    ensures
        res@ == s@,
{
    let mut res: Vec<char> = Vec::new();
    for c in it: s.chars()
        invariant
            res@ == it.seq().take(it.index()),
            it.seq() == s@,
    {
        res.push(c);
    }
    res
}

/// The views of a sequence of strings.
pub open spec fn strings_view(v: Seq<String>) -> Seq<Seq<char>> {
    v.map_values(|s: String| s@)
}

/// Whether two string slices hold the same characters.
pub(crate) fn str_eq(a: &str, b: &str) -> (res: bool)
    ensures
        res == (a@ == b@),
{
    a.to_owned() == b.to_owned()
}

/// Build a `String` holding the given characters, in order
/// (`FromIterator<&char>` for `String`).
#[verifier::external_body]
pub(crate) fn string_from_chars(chars: &Vec<char>) -> (res: String)
    ensures
        res@ == chars@,
{
    chars.iter().collect()
}

/// Append the characters of `s` to `chars`.
pub fn push_str(chars: &mut Vec<char>, s: &str)
    ensures
        final(chars)@ == old(chars)@ + s@,
{
    let src = chars_of(s);
    let ghost start = chars@;
    let mut i: usize = 0;
    while i < src.len()
        invariant
            i <= src@.len(),
            src@ == s@,
            chars@ == start + src@.take(i as int),
        decreases src@.len() - i,
    {
        chars.push(src[i]);
        i = i + 1;
        assert(chars@ =~= start + src@.take(i as int));
    }
    assert(src@.take(src@.len() as int) =~= src@);
}

/// The decimal digit for `d` (below ten).
pub open spec fn digit_char(d: nat) -> char {
    if d == 0 {
        '0'
    } else if d == 1 {
        '1'
    } else if d == 2 {
        '2'
    } else if d == 3 {
        '3'
    } else if d == 4 {
        '4'
    } else if d == 5 {
        '5'
    } else if d == 6 {
        '6'
    } else if d == 7 {
        '7'
    } else if d == 8 {
        '8'
    } else {
        '9'
    }
}

/// The decimal notation of `n`, without leading zeros (`Display` for integers).
pub open spec fn decimal(n: nat) -> Seq<char>
    decreases n,
{
    if n < 10 {
        seq![digit_char(n)]
    } else {
        decimal(n / 10).push(digit_char(n % 10))
    }
}

fn digit(d: usize) -> (res: char)
    requires
        d < 10,
    ensures
        res == digit_char(d as nat),
{
    if d == 0 {
        '0'
    } else if d == 1 {
        '1'
    } else if d == 2 {
        '2'
    } else if d == 3 {
        '3'
    } else if d == 4 {
        '4'
    } else if d == 5 {
        '5'
    } else if d == 6 {
        '6'
    } else if d == 7 {
        '7'
    } else if d == 8 {
        '8'
    } else {
        '9'
    }
}

/// Append the decimal notation of `n` to `chars`.
pub fn push_decimal(chars: &mut Vec<char>, n: usize)
    ensures
        final(chars)@ == old(chars)@ + decimal(n as nat),
    decreases n,
{
    let ghost start = chars@;
    if n >= 10 {
        push_decimal(chars, n / 10);
    }
    chars.push(digit(n % 10));
    assert(chars@ =~= start + decimal(n as nat));
}

/// Whether `c` has the Unicode White_Space property (`char::is_whitespace`).
pub open spec fn is_whitespace(c: char) -> bool {
    ||| '\u{9}' <= c <= '\u{D}'
    ||| c == ' '
    ||| c == '\u{85}'
    ||| c == '\u{A0}'
    ||| c == '\u{1680}'
    ||| '\u{2000}' <= c <= '\u{200A}'
    ||| c == '\u{2028}'
    ||| c == '\u{2029}'
    ||| c == '\u{202F}'
    ||| c == '\u{205F}'
    ||| c == '\u{3000}'
}

/// Whether `c` has the Unicode White_Space property.
pub fn char_is_whitespace(c: char) -> (res: bool)
    ensures
        res == is_whitespace(c),
{
    ('\u{9}' <= c && c <= '\u{D}') || c == ' ' || c == '\u{85}' || c == '\u{A0}' || c
        == '\u{1680}' || ('\u{2000}' <= c && c <= '\u{200A}') || c == '\u{2028}' || c
        == '\u{2029}' || c == '\u{202F}' || c == '\u{205F}' || c == '\u{3000}'
}

/// The words of `rest`, given the word being read and the words read so far:
/// maximal runs of characters that are not whitespace.
pub open spec fn words_from(word: Seq<char>, words: Seq<Seq<char>>, rest: Seq<char>) -> Seq<
    Seq<char>,
>
    decreases rest.len(),
{
    if rest.len() == 0 {
        if word.len() > 0 {
            words.push(word)
        } else {
            words
        }
    } else if is_whitespace(rest[0]) {
        words_from(
            Seq::empty(),
            if word.len() > 0 {
                words.push(word)
            } else {
                words
            },
            rest.drop_first(),
        )
    } else {
        words_from(word.push(rest[0]), words, rest.drop_first())
    }
}

/// The words of `s` in order (`str::split_whitespace`).
pub open spec fn split_ws(s: Seq<char>) -> Seq<Seq<char>> {
    words_from(Seq::empty(), Seq::empty(), s)
}

/// The words of `s`, in order: the maximal runs of characters that are not
/// whitespace.
pub fn split_whitespace(s: &str) -> (res: Vec<String>)
    ensures
        strings_view(res@) == split_ws(s@),
{
    let chars = chars_of(s);
    let mut words: Vec<String> = Vec::new();
    let mut word: Vec<char> = Vec::new();
    let mut i: usize = 0;
    assert(chars@.skip(0) =~= s@);
    assert(word@ =~= Seq::<char>::empty());
    assert(strings_view(words@) =~= Seq::<Seq<char>>::empty());
    while i < chars.len()
        invariant
            i <= chars@.len(),
            chars@ == s@,
            words_from(word@, strings_view(words@), chars@.skip(i as int)) == split_ws(s@),
        decreases chars@.len() - i,
    {
        let c = chars[i];
        assert(chars@.skip(i as int).drop_first() =~= chars@.skip(i as int + 1));
        if char_is_whitespace(c) {
            if word.len() > 0 {
                let w = string_from_chars(&word);
                let ghost before = strings_view(words@);
                words.push(w);
                assert(strings_view(words@) =~= before.push(word@));
            }
            word = Vec::new();
            assert(word@ =~= Seq::<char>::empty());
        } else {
            word.push(c);
        }
        i = i + 1;
    }
    assert(chars@.skip(i as int) =~= Seq::<char>::empty());
    if word.len() > 0 {
        let w = string_from_chars(&word);
        let ghost before = strings_view(words@);
        words.push(w);
        assert(strings_view(words@) =~= before.push(word@));
    }
    words
}

/// The length in bytes of the UTF-8 encoding of `t`, as `str::len` gives it.
pub open spec fn byte_count(t: Seq<char>) -> usize {
    #[verifier::truncate]
    (vstd::utf8::encode_utf8(t).len() as usize)
}

/// The byte length of a string slice.
pub fn byte_len(s: &str) -> (res: usize)
    ensures
        res == byte_count(s@),
{
    s.len()
}

/// `n` spaces.
pub open spec fn spaces(n: nat) -> Seq<char> {
    Seq::new(n, |i: int| ' ')
}

/// Append `n` spaces to `chars`.
pub fn push_spaces(chars: &mut Vec<char>, n: u128)
    ensures
        final(chars)@ == old(chars)@ + spaces(n as nat),
{
    let ghost start = chars@;
    let mut i: u128 = 0;
    while i < n
        invariant
            i <= n,
            chars@ == start + spaces(i as nat),
        decreases n - i,
    {
        chars.push(' ');
        i = i + 1;
        assert(chars@ =~= start + spaces(i as nat));
    }
}

/// `s` with every occurrence of `pat` replaced by `with`, scanning from the
/// left without overlaps (`str::replace`); `pat` is not empty.
pub open spec fn replace_all(s: Seq<char>, pat: Seq<char>, with: Seq<char>) -> Seq<char>
    decreases s.len(),
{
    if pat.len() == 0 || s.len() < pat.len() {
        s
    } else if s.take(pat.len() as int) == pat {
        with + replace_all(s.skip(pat.len() as int), pat, with)
    } else {
        seq![s[0]] + replace_all(s.drop_first(), pat, with)
    }
}

/// Whether `pat` occurs in `s` at position `i`.
fn occurs_at(s: &Vec<char>, i: usize, pat: &Vec<char>) -> (res: bool)
    requires
        i + pat@.len() <= s@.len(),
    ensures
        res == (s@.skip(i as int).take(pat@.len() as int) == pat@),
{
    let mut k: usize = 0;
    while k < pat.len()
        invariant
            k <= pat@.len(),
            i + pat@.len() <= s@.len(),
            forall|j: int| 0 <= j < k ==> s@[i + j] == pat@[j],
        decreases pat@.len() - k,
    {
        assert(i + k < s.len());
        if s[i + k] != pat[k] {
            assert(s@.skip(i as int).take(pat@.len() as int)[k as int] != pat@[k as int]);
            return false;
        }
        k = k + 1;
    }
    assert(s@.skip(i as int).take(pat@.len() as int) =~= pat@);
    true
}

/// `s` with every occurrence of `pat` replaced by `with` (`str::replace`).
pub fn replace(s: &str, pat: &str, with: &str) -> (res: String)
    requires
        pat@.len() > 0,
    ensures
        res@ == replace_all(s@, pat@, with@),
{
    let src = chars_of(s);
    let p = chars_of(pat);
    let mut out: Vec<char> = Vec::new();
    let mut i: usize = 0;
    assert(src@.skip(0) =~= src@);
    assert(out@ + replace_all(src@, p@, with@) =~= replace_all(src@, p@, with@));
    while i < src.len()
        invariant
            i <= src@.len(),
            src@ == s@,
            p@ == pat@,
            p@.len() > 0,
            out@ + replace_all(src@.skip(i as int), p@, with@) == replace_all(s@, pat@, with@),
        decreases src@.len() - i,
    {
        let ghost rest = src@.skip(i as int);
        if p.len() <= src.len() - i && occurs_at(&src, i, &p) {
            assert(rest.skip(p@.len() as int) =~= src@.skip(i + p@.len()));
            let ghost before = out@;
            push_str(&mut out, with);
            assert(before + replace_all(rest, p@, with@) =~= out@ + replace_all(
                src@.skip(i + p@.len()),
                p@,
                with@,
            ));
            i = i + p.len();
        } else {
            assert(rest.drop_first() =~= src@.skip(i + 1));
            let ghost before = out@;
            out.push(src[i]);
            assert(before + replace_all(rest, p@, with@) =~= out@ + replace_all(
                src@.skip(i + 1),
                p@,
                with@,
            ));
            i = i + 1;
        }
    }
    assert(src@.skip(i as int) =~= Seq::<char>::empty());
    assert(out@ + Seq::<char>::empty() =~= out@);
    string_from_chars(&out)
}

/// `s` without leading whitespace.
pub open spec fn trim_start(s: Seq<char>) -> Seq<char>
    decreases s.len(),
{
    if s.len() > 0 && is_whitespace(s[0]) {
        trim_start(s.drop_first())
    } else {
        s
    }
}

/// `s` without trailing whitespace.
pub open spec fn trim_end(s: Seq<char>) -> Seq<char>
    decreases s.len(),
{
    if s.len() > 0 && is_whitespace(s.last()) {
        trim_end(s.drop_last())
    } else {
        s
    }
}

/// `s` without leading and trailing whitespace (`str::trim`).
pub open spec fn trim(s: Seq<char>) -> Seq<char> {
    trim_end(trim_start(s))
}

/// The characters of `chars` without leading and trailing whitespace.
pub fn trim_chars(chars: &Vec<char>) -> (res: Vec<char>)
    ensures
        res@ == trim(chars@),
{
    let mut lo: usize = 0;
    assert(chars@.skip(0) =~= chars@);
    while lo < chars.len() && char_is_whitespace(chars[lo])
        invariant
            lo <= chars@.len(),
            trim_start(chars@) == trim_start(chars@.skip(lo as int)),
        decreases chars@.len() - lo,
    {
        assert(chars@.skip(lo as int).drop_first() =~= chars@.skip(lo + 1));
        lo = lo + 1;
    }
    let ghost t = chars@.skip(lo as int);
    assert(trim_start(t) == t);
    let mut hi: usize = chars.len();
    while hi > lo && char_is_whitespace(chars[hi - 1])
        invariant
            lo <= hi <= chars@.len(),
            t == chars@.skip(lo as int),
            trim_end(t) == trim_end(chars@.subrange(lo as int, hi as int)),
        decreases hi,
    {
        assert(chars@.subrange(lo as int, hi as int).drop_last() =~= chars@.subrange(
            lo as int,
            hi - 1,
        ));
        hi = hi - 1;
    }
    let mut res: Vec<char> = Vec::new();
    let mut k: usize = lo;
    while k < hi
        invariant
            lo <= k <= hi <= chars@.len(),
            res@ == chars@.subrange(lo as int, k as int),
        decreases hi - k,
    {
        res.push(chars[k]);
        k = k + 1;
        assert(res@ =~= chars@.subrange(lo as int, k as int));
    }
    assert(trim_end(chars@.subrange(lo as int, hi as int)) == chars@.subrange(lo as int, hi as int));
    res
}

} // verus!
