//! Splitting a command line into words, honouring single quotes.

use vstd::prelude::*;

use crate::alias::texts;
use crate::text::push_char;

verus! {

/// Characters with the Unicode `White_Space` property.
pub open spec fn is_space(c: char) -> bool {
    ('\u{9}' <= c && c <= '\u{d}') || c == ' ' || c == '\u{85}' || c == '\u{a0}' || c
        == '\u{1680}' || ('\u{2000}' <= c && c <= '\u{200a}') || c == '\u{2028}' || c
        == '\u{2029}' || c == '\u{202f}' || c == '\u{205f}' || c == '\u{3000}'
}

pub fn is_space_exec(c: char) -> (r: bool)
    ensures
        r == is_space(c),
{
    ('\u{9}' <= c && c <= '\u{d}') || c == ' ' || c == '\u{85}' || c == '\u{a0}' || c
        == '\u{1680}' || ('\u{2000}' <= c && c <= '\u{200a}') || c == '\u{2028}' || c
        == '\u{2029}' || c == '\u{202f}' || c == '\u{205f}' || c == '\u{3000}'
}

/// The text without its leading white space.
pub open spec fn trim_start(s: Seq<char>) -> Seq<char>
    decreases s.len(),
{
    if s.len() > 0 && is_space(s[0]) {
        trim_start(s.skip(1))
    } else {
        s
    }
}

/// The text without its trailing white space.
pub open spec fn trim_end(s: Seq<char>) -> Seq<char>
    decreases s.len(),
{
    if s.len() > 0 && is_space(s.last()) {
        trim_end(s.drop_last())
    } else {
        s
    }
}

/// The text without leading and trailing white space.
pub open spec fn trim(s: Seq<char>) -> Seq<char> {
    trim_end(trim_start(s))
}

/// The text without leading copies of `c`.
pub open spec fn strip_start(s: Seq<char>, c: char) -> Seq<char>
    decreases s.len(),
{
    if s.len() > 0 && s[0] == c {
        strip_start(s.skip(1), c)
    } else {
        s
    }
}

/// The text without trailing copies of `c`.
pub open spec fn strip_end(s: Seq<char>, c: char) -> Seq<char>
    decreases s.len(),
{
    if s.len() > 0 && s.last() == c {
        strip_end(s.drop_last(), c)
    } else {
        s
    }
}

/// The text without leading and trailing copies of `c`.
pub open spec fn strip(s: Seq<char>, c: char) -> Seq<char> {
    strip_end(strip_start(s, c), c)
}

/// The text without leading and trailing copies of `c`.
pub fn strip_char(s: &str, c: char) -> (r: String)
    ensures
        r@ == strip(s@, c),
{
    let n = s.unicode_len();
    let mut a: usize = 0;
    assert(s@.skip(0) =~= s@);
    while a < n && s.get_char(a) == c
        invariant
            a <= n,
            n == s@.len(),
            strip_start(s@, c) == strip_start(s@.skip(a as int), c),
        decreases n - a,
    {
        assert(s@.skip(a as int).skip(1) =~= s@.skip(a + 1));
        a = a + 1;
    }
    let ghost front = s@.skip(a as int);
    let mut b: usize = n;
    while b > a && s.get_char(b - 1) == c
        invariant
            a <= b <= n,
            n == s@.len(),
            front == s@.skip(a as int),
            strip_end(front, c) == strip_end(s@.subrange(a as int, b as int), c),
        decreases b,
    {
        assert(s@.subrange(a as int, b as int).drop_last() =~= s@.subrange(a as int, b - 1));
        b = b - 1;
    }
    proof {
        assert(s@.subrange(a as int, n as int) =~= front);
        let t = s@.subrange(a as int, b as int);
        if t.len() > 0 {
            assert(t.last() == s@[b - 1]);
        }
        assert(strip_end(t, c) == t);
    }
    let mut r = String::new();
    let mut i = a;
    while i < b
        invariant
            a <= i <= b <= n,
            n == s@.len(),
            r@ == s@.subrange(a as int, i as int),
        decreases b - i,
    {
        push_char(&mut r, s.get_char(i));
        i = i + 1;
        assert(r@ =~= s@.subrange(a as int, i as int));
    }
    r
}

/// Where the splitter stands after part of its input.
pub struct SplitState {
    /// The words finished so far.
    pub words: Seq<Seq<char>>,
    /// The word being read.
    pub current: Seq<char>,
    /// Inside a quote that makes a word of its own: `'a b'`.
    pub quoted: bool,
    /// Inside a quote that follows `=` and stays in the word: `--opt='a b'`.
    pub quoted_value: bool,
    /// The character read last.
    pub prev: char,
}

/// The state before any input.
pub open spec fn split_start() -> SplitState {
    SplitState { words: Seq::empty(), current: Seq::empty(), quoted: false, quoted_value: false, prev: '\0' }
}

/// The words so far, with the current word, trimmed, added when it is not empty.
pub open spec fn flush(st: SplitState) -> Seq<Seq<char>> {
    if st.current.len() > 0 {
        st.words.push(trim(st.current))
    } else {
        st.words
    }
}

/// The state after reading `ch`.
pub open spec fn split_step(st: SplitState, ch: char) -> SplitState {
    let next = if ch == '\'' {
        if st.quoted {
            SplitState { words: st.words.push(st.current), current: Seq::empty(), quoted: false, ..st }
        } else if st.quoted_value {
            SplitState { current: st.current.push(ch), quoted_value: false, ..st }
        } else if st.prev == '=' {
            SplitState { current: st.current.push(ch), quoted_value: true, ..st }
        } else {
            SplitState { words: flush(st), current: Seq::empty(), quoted: true, ..st }
        }
    } else if ch == ' ' && !(st.quoted || st.quoted_value) {
        SplitState { words: flush(st), current: Seq::empty(), ..st }
    } else if st.quoted || st.quoted_value || !is_space(ch) {
        SplitState { current: st.current.push(ch), ..st }
    } else {
        st
    };
    SplitState { prev: ch, ..next }
}

/// The state after reading all of `s`.
pub open spec fn split_run(s: Seq<char>) -> SplitState
    decreases s.len(),
{
    if s.len() == 0 {
        split_start()
    } else {
        split_step(split_run(s.drop_last()), s.last())
    }
}

/// The words of a command line: separated by spaces outside quotes; a quoted part is a word of
/// its own, kept as it is; a quoted part right after `=` stays, with its quotes, in its word.
pub open spec fn split_words(s: Seq<char>) -> Seq<Seq<char>> {
    flush(split_run(s))
}

/// The text without leading and trailing white space.
pub fn trim_text(s: &str) -> (r: String)
    ensures
        r@ == trim(s@),
{
    let n = s.unicode_len();
    let mut a: usize = 0;
    assert(s@.skip(0) =~= s@);
    while a < n && is_space_exec(s.get_char(a))
        invariant
            a <= n,
            n == s@.len(),
            trim_start(s@) == trim_start(s@.skip(a as int)),
        decreases n - a,
    {
        assert(s@.skip(a as int).skip(1) =~= s@.skip(a + 1));
        a = a + 1;
    }
    let ghost front = s@.skip(a as int);
    assert(trim_start(s@) == front);
    let mut b: usize = n;
    while b > a && is_space_exec(s.get_char(b - 1))
        invariant
            a <= b <= n,
            n == s@.len(),
            front == s@.skip(a as int),
            trim_end(front) == trim_end(s@.subrange(a as int, b as int)),
        decreases b,
    {
        assert(s@.subrange(a as int, b as int).drop_last() =~= s@.subrange(a as int, b - 1));
        b = b - 1;
    }
    proof {
        assert(s@.subrange(a as int, n as int) =~= front);
        let t = s@.subrange(a as int, b as int);
        if t.len() > 0 {
            assert(t.last() == s@[b - 1]);
        }
        assert(trim_end(t) == t);
    }
    let mut r = String::new();
    let mut i = a;
    while i < b
        invariant
            a <= i <= b <= n,
            n == s@.len(),
            r@ == s@.subrange(a as int, i as int),
        decreases b - i,
    {
        push_char(&mut r, s.get_char(i));
        i = i + 1;
        assert(r@ =~= s@.subrange(a as int, i as int));
    }
    r
}

/// Splits a command line into words; see `split_words`.
pub fn split_with_quotes(input: &str) -> (r: Vec<String>)
    ensures
        texts(r@) == split_words(input@),
{
    let n = input.unicode_len();
    let mut result: Vec<String> = Vec::new();
    let mut current = String::new();
    let mut in_quotes1 = false;
    let mut in_quotes2 = false;
    let mut prev_ch = '\0';
    let mut i: usize = 0;
    while i < n
        invariant
            i <= n,
            n == input@.len(),
            ({
                let st = split_run(input@.take(i as int));
                &&& texts(result@) == st.words
                &&& current@ == st.current
                &&& in_quotes1 == st.quoted
                &&& in_quotes2 == st.quoted_value
                &&& prev_ch == st.prev
            }),
        decreases n - i,
    {
        let ch = input.get_char(i);
        let ghost st = split_run(input@.take(i as int));
        assert(input@.take(i + 1).drop_last() =~= input@.take(i as int));
        assert(input@.take(i + 1).last() == ch);
        if ch == '\'' {
            if in_quotes1 {
                result.push(current.clone());
                current = String::new();
                in_quotes1 = false;
            } else if in_quotes2 {
                push_char(&mut current, ch);
                in_quotes2 = false;
            } else if prev_ch == '=' {
                push_char(&mut current, ch);
                in_quotes2 = true;
            } else {
                if current.unicode_len() > 0 {
                    result.push(trim_text(current.as_str()));
                    current = String::new();
                }
                in_quotes1 = true;
            }
        } else if ch == ' ' && !(in_quotes1 || in_quotes2) {
            if current.unicode_len() > 0 {
                result.push(trim_text(current.as_str()));
                current = String::new();
            }
        } else if in_quotes1 || in_quotes2 || !is_space_exec(ch) {
            push_char(&mut current, ch);
        }
        prev_ch = ch;
        proof {
            let next = split_run(input@.take(i + 1));
            assert(texts(result@) =~= next.words);
            assert(current@ =~= next.current);
        }
        i = i + 1;
    }
    assert(input@.take(n as int) =~= input@);
    if current.unicode_len() > 0 {
        result.push(trim_text(current.as_str()));
    }
    assert(texts(result@) =~= split_words(input@));
    result
}

} // verus!
