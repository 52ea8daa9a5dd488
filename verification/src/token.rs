//! The lexer: raw source text to an ordered sequence of tokens.
//!
//! Splitting keeps indentation exact: a tab character or a run of exactly
//! four spaces becomes one `Tab` token, newlines are tokens of their own,
//! and every other character class (structural punctuation, comparators,
//! digit runs, identifier runs) maps to one token per word.  Characters
//! that fit no class are discarded, so lexing never fails.

use vstd::prelude::*;
use vstd::string::StrSliceExecFns;

use crate::num::{is_digit_char, spec_num_of, Num, SpecNum};

verus! {

/// A lexical token of Flow source.
#[derive(Debug, Clone, PartialEq, Eq)]
pub enum Token {
    /// A name: a device, a block, or any other non-keyword word.
    Identifier(String),
    /// A numeric literal.
    Value(Num),
    /// One of the five comparator spellings `<`, `<=`, `=`, `>`, `>=`.
    Comparator(String),
    Actuator,
    Sensor,
    StartBlock,
    EndBlock,
    SetKw,
    Goto,
    Wait,
    If,
    Else,
    Any,
    All,
    Tab,
    Newline,
    Colon,
    ConditionStart,
}

/// Mathematical model of [`Token`].
pub ghost enum SpecToken {
    Identifier(Seq<char>),
    Value(SpecNum),
    Comparator(Seq<char>),
    Actuator,
    Sensor,
    StartBlock,
    EndBlock,
    SetKw,
    Goto,
    Wait,
    If,
    Else,
    Any,
    All,
    Tab,
    Newline,
    Colon,
    ConditionStart,
}

impl View for Token {
    type V = SpecToken;

    open spec fn view(&self) -> SpecToken {
        match self {
            Token::Identifier(s) => SpecToken::Identifier(s@),
            Token::Value(n) => SpecToken::Value(n@),
            Token::Comparator(s) => SpecToken::Comparator(s@),
            Token::Actuator => SpecToken::Actuator,
            Token::Sensor => SpecToken::Sensor,
            Token::StartBlock => SpecToken::StartBlock,
            Token::EndBlock => SpecToken::EndBlock,
            Token::SetKw => SpecToken::SetKw,
            Token::Goto => SpecToken::Goto,
            Token::Wait => SpecToken::Wait,
            Token::If => SpecToken::If,
            Token::Else => SpecToken::Else,
            Token::Any => SpecToken::Any,
            Token::All => SpecToken::All,
            Token::Tab => SpecToken::Tab,
            Token::Newline => SpecToken::Newline,
            Token::Colon => SpecToken::Colon,
            Token::ConditionStart => SpecToken::ConditionStart,
        }
    }
}

/// The token sequence a sequence of tokens stands for.
pub open spec fn tokens_view(ts: Seq<Token>) -> Seq<SpecToken> {
    Seq::new(ts.len(), |i: int| ts[i]@)
}

/// Whether `c` is alphanumeric in the Unicode sense of
/// `char::is_alphanumeric`; the result depends on the character alone.
pub uninterp spec fn is_unicode_alphanumeric(c: char) -> bool;

/// Relies on `char::is_alphanumeric` from std: a pure classification of the
/// character as Unicode-alphanumeric.
pub assume_specification[ char::is_alphanumeric ](c: char) -> (r: bool)
    ensures
        r == is_unicode_alphanumeric(c),
;

/// Relies on `String`'s `FromIterator<char>` (via `Iterator::collect`):
/// collecting characters yields the string of exactly those characters in
/// order.
#[verifier::external_body]
fn string_from_chars(w: &Vec<char>) -> (r: String)
    ensures
        r@ == w@,
{
    w.iter().collect()
}

/// The characters of `s`, in order, as a vector.
fn chars_of(s: &str) -> (r: Vec<char>)
    ensures
        r@ == s@,
{
    let n = s.unicode_len();
    let mut v: Vec<char> = Vec::new();
    let mut i: usize = 0;
    while i < n
        invariant
            n == s@.len(),
            i <= n,
            v@.len() == i,
            forall|k: int| 0 <= k < i ==> v@[k] == s@[k],
        decreases n - i,
    {
        let c = s.get_char(i);
        v.push(c);
        i = i + 1;
    }
    proof {
        assert(v@ =~= s@);
    }
    v
}

/// Whether the characters of `w` spell exactly the string `s`.
fn chars_eq_str(w: &Vec<char>, s: &str) -> (b: bool)
    ensures
        b == (w@ == s@),
{
    let n = s.unicode_len();
    if n != w.len() {
        proof {
            assert(w@ != s@) by {
                if w@ == s@ {
                    assert(w@.len() == s@.len());
                }
            }
        }
        return false;
    }
    let mut i: usize = 0;
    while i < n
        invariant
            n == s@.len(),
            n == w@.len(),
            i <= n,
            forall|k: int| 0 <= k < i ==> w@[k] == s@[k],
        decreases n - i,
    {
        if w[i] != s.get_char(i) {
            proof {
                assert(w@[i as int] != s@[i as int]);
            }
            return false;
        }
        i = i + 1;
    }
    proof {
        assert(w@ =~= s@);
    }
    true
}

/// Whether the characters of `a` spell exactly the string `b`.
pub(crate) fn str_eq(a: &str, b: &str) -> (r: bool)
    ensures
        r == (a@ == b@),
{
    let n = a.unicode_len();
    let m = b.unicode_len();
    if n != m {
        proof {
            assert(a@ != b@) by {
                if a@ == b@ {
                    assert(a@.len() == b@.len());
                }
            }
        }
        return false;
    }
    let mut i: usize = 0;
    while i < n
        invariant
            n == a@.len(),
            n == b@.len(),
            i <= n,
            forall|k: int| 0 <= k < i ==> a@[k] == b@[k],
        decreases n - i,
    {
        if a.get_char(i) != b.get_char(i) {
            proof {
                assert(a@[i as int] != b@[i as int]);
            }
            return false;
        }
        i = i + 1;
    }
    proof {
        assert(a@ =~= b@);
    }
    true
}

/// Single characters that each split off as a word of their own.
pub open spec fn is_single_char(c: char) -> bool {
    c == '\t' || c == '\n' || c == '-' || c == ':' || c == '='
}

/// Characters that continue a numeric literal: digits and the decimal point.
pub open spec fn is_digit_or_dot(c: char) -> bool {
    is_digit_char(c) || c == '.'
}

/// Characters that open an identifier word: ASCII letters and the
/// underscore.
pub open spec fn is_ident_start(c: char) -> bool {
    ('A' as u32 <= c as u32 && c as u32 <= 'Z' as u32) || ('a' as u32 <= c as u32 && c as u32
        <= 'z' as u32) || c == '_'
}

/// Characters that continue an identifier word: anything Unicode counts as
/// alphanumeric, and the underscore.
pub open spec fn is_ident_char(c: char) -> bool {
    is_unicode_alphanumeric(c) || c == '_'
}

/// The first position at or after `i` where a numeric-literal run ends.
pub open spec fn digit_run_end(s: Seq<char>, i: int) -> int
    decreases s.len() - i,
{
    if i < 0 || i >= s.len() || !is_digit_or_dot(s[i]) {
        i
    } else {
        digit_run_end(s, i + 1)
    }
}

/// The first position at or after `i` where an identifier run ends.
pub open spec fn ident_run_end(s: Seq<char>, i: int) -> int
    decreases s.len() - i,
{
    if i < 0 || i >= s.len() || !is_ident_char(s[i]) {
        i
    } else {
        ident_run_end(s, i + 1)
    }
}

pub proof fn lemma_digit_run_end_bounds(s: Seq<char>, i: int)
    requires
        0 <= i <= s.len(),
    ensures
        i <= digit_run_end(s, i) <= s.len(),
    decreases s.len() - i,
{
    if i < s.len() && is_digit_or_dot(s[i]) {
        lemma_digit_run_end_bounds(s, i + 1);
    }
}

pub proof fn lemma_ident_run_end_bounds(s: Seq<char>, i: int)
    requires
        0 <= i <= s.len(),
    ensures
        i <= ident_run_end(s, i) <= s.len(),
    decreases s.len() - i,
{
    if i < s.len() && is_ident_char(s[i]) {
        lemma_ident_run_end_bounds(s, i + 1);
    }
}

/// The words of `s` from position `i` on: structural characters split off
/// alone, `<` and `>` take a following `=` with them, digit runs and
/// identifier runs form one word each, a run of exactly four spaces forms
/// an indentation word, and every other character is discarded.
pub open spec fn spec_split_at(s: Seq<char>, i: int) -> Seq<Seq<char>>
    decreases s.len() - i,
    via spec_split_at_dec
{
    if i < 0 || i >= s.len() {
        Seq::empty()
    } else {
        let c = s[i];
        if is_single_char(c) {
            seq![seq![c]] + spec_split_at(s, i + 1)
        } else if c == '<' || c == '>' {
            if i + 1 < s.len() && s[i + 1] == '=' {
                seq![s.subrange(i, i + 2)] + spec_split_at(s, i + 2)
            } else {
                seq![seq![c]] + spec_split_at(s, i + 1)
            }
        } else if is_digit_char(c) {
            let j = digit_run_end(s, i + 1);
            seq![s.subrange(i, j)] + spec_split_at(s, j)
        } else if is_ident_start(c) {
            let j = ident_run_end(s, i + 1);
            seq![s.subrange(i, j)] + spec_split_at(s, j)
        } else if c == ' ' {
            if i + 4 <= s.len() && s[i + 1] == ' ' && s[i + 2] == ' ' && s[i + 3] == ' ' {
                seq![s.subrange(i, i + 4)] + spec_split_at(s, i + 4)
            } else {
                spec_split_at(s, i + 1)
            }
        } else {
            spec_split_at(s, i + 1)
        }
    }
}

#[via_fn]
proof fn spec_split_at_dec(s: Seq<char>, i: int) {
    if 0 <= i && i < s.len() {
        lemma_digit_run_end_bounds(s, i + 1);
        lemma_ident_run_end_bounds(s, i + 1);
    }
}

/// The words of the whole source text `s`.
pub open spec fn spec_split(s: Seq<char>) -> Seq<Seq<char>> {
    spec_split_at(s, 0)
}

/// The word sequence a vector of character vectors stands for.
pub open spec fn words_view(ws: Seq<Vec<char>>) -> Seq<Seq<char>> {
    Seq::new(ws.len(), |i: int| ws[i]@)
}

fn is_digit_exec(c: char) -> (b: bool)
    ensures
        b == is_digit_char(c),
{
    let u = c as u32;
    48 <= u && u <= 57
}

fn is_digit_or_dot_exec(c: char) -> (b: bool)
    ensures
        b == is_digit_or_dot(c),
{
    is_digit_exec(c) || c == '.'
}

fn is_ident_start_exec(c: char) -> (b: bool)
    ensures
        b == is_ident_start(c),
{
    let u = c as u32;
    (65 <= u && u <= 90) || (97 <= u && u <= 122) || u == 95
}

fn is_ident_char_exec(c: char) -> (b: bool)
    ensures
        b == is_ident_char(c),
{
    c.is_alphanumeric() || c == '_'
}

/// The end of the numeric run starting at `j`.
fn scan_digit_run(chars: &Vec<char>, j: usize) -> (r: usize)
    requires
        j <= chars@.len(),
    ensures
        r == digit_run_end(chars@, j as int),
        j <= r <= chars@.len(),
    decreases chars@.len() - j,
{
    if j < chars.len() && is_digit_or_dot_exec(chars[j]) {
        scan_digit_run(chars, j + 1)
    } else {
        j
    }
}

/// The end of the identifier run starting at `j`.
fn scan_ident_run(chars: &Vec<char>, j: usize) -> (r: usize)
    requires
        j <= chars@.len(),
    ensures
        r == ident_run_end(chars@, j as int),
        j <= r <= chars@.len(),
    decreases chars@.len() - j,
{
    if j < chars.len() && is_ident_char_exec(chars[j]) {
        scan_ident_run(chars, j + 1)
    } else {
        j
    }
}

/// The characters of `chars` from `start` to `end`, as a fresh word.
fn collect_range(chars: &Vec<char>, start: usize, end: usize) -> (w: Vec<char>)
    requires
        start <= end <= chars@.len(),
    ensures
        w@ == chars@.subrange(start as int, end as int),
{
    let mut w: Vec<char> = Vec::new();
    let mut k: usize = start;
    while k < end
        invariant
            start <= k <= end <= chars@.len(),
            w@.len() == k - start,
            forall|m: int| 0 <= m < w@.len() ==> w@[m] == chars@[start + m],
        decreases end - k,
    {
        w.push(chars[k]);
        k = k + 1;
    }
    proof {
        assert(w@ =~= chars@.subrange(start as int, end as int));
    }
    w
}

/// Splits the characters of the source into words, as [`spec_split`] says.
fn split_words(chars: &Vec<char>) -> (r: Vec<Vec<char>>)
    ensures
        words_view(r@) == spec_split(chars@),
{
    let mut out: Vec<Vec<char>> = Vec::new();
    let mut i: usize = 0;
    while i < chars.len()
        invariant
            i <= chars@.len(),
            words_view(out@) + spec_split_at(chars@, i as int) =~= spec_split(chars@),
        decreases chars@.len() - i,
    {
        let ghost out0: Seq<Vec<char>> = out@;
        let ghost i0: int = i as int;
        let c = chars[i];
        if c == '\t' || c == '\n' || c == '-' || c == ':' || c == '=' {
            let mut w: Vec<char> = Vec::new();
            w.push(c);
            proof {
                assert(w@ =~= seq![c]);
            }
            out.push(w);
            i = i + 1;
        } else if c == '<' || c == '>' {
            if i + 1 < chars.len() && chars[i + 1] == '=' {
                let mut w: Vec<char> = Vec::new();
                w.push(c);
                w.push('=');
                proof {
                    assert(w@ =~= chars@.subrange(i0, i0 + 2));
                }
                out.push(w);
                i = i + 2;
            } else {
                let mut w: Vec<char> = Vec::new();
                w.push(c);
                proof {
                    assert(w@ =~= seq![c]);
                }
                out.push(w);
                i = i + 1;
            }
        } else if is_digit_exec(c) {
            let j = scan_digit_run(chars, i + 1);
            let w = collect_range(chars, i, j);
            out.push(w);
            proof {
                assert(i0 < j);
            }
            i = j;
        } else if is_ident_start_exec(c) {
            let j = scan_ident_run(chars, i + 1);
            let w = collect_range(chars, i, j);
            out.push(w);
            proof {
                assert(i0 < j);
            }
            i = j;
        } else if c == ' ' {
            if chars.len() - i >= 4 && chars[i + 1] == ' ' && chars[i + 2] == ' ' && chars[i + 3]
                == ' ' {
                let w = collect_range(chars, i, i + 4);
                out.push(w);
                i = i + 4;
            } else {
                i = i + 1;
            }
        } else {
            i = i + 1;
        }
        proof {
            assert(words_view(out@) + spec_split_at(chars@, i as int) =~= spec_split(chars@));
        }
    }
    proof {
        assert(words_view(out@) =~= words_view(out@) + spec_split_at(chars@, i as int));
    }
    out
}

/// The token a single word stands for: keywords by spelling, a tab
/// character or four spaces as indentation, structural punctuation,
/// comparators, numeric literals by leading digit, and identifiers for
/// everything else.
pub open spec fn spec_classify(w: Seq<char>) -> SpecToken {
    if w == "sensor"@ {
        SpecToken::Sensor
    } else if w == "actuator"@ {
        SpecToken::Actuator
    } else if w == "block"@ {
        SpecToken::StartBlock
    } else if w == "endblock"@ {
        SpecToken::EndBlock
    } else if w == "set"@ {
        SpecToken::SetKw
    } else if w == "goto"@ {
        SpecToken::Goto
    } else if w == "wait"@ {
        SpecToken::Wait
    } else if w == "if"@ {
        SpecToken::If
    } else if w == "else"@ {
        SpecToken::Else
    } else if w == "any"@ {
        SpecToken::Any
    } else if w == "all"@ {
        SpecToken::All
    } else if w == "    "@ || w == "\t"@ {
        SpecToken::Tab
    } else if w == "\n"@ {
        SpecToken::Newline
    } else if w == ":"@ {
        SpecToken::Colon
    } else if w == "-"@ {
        SpecToken::ConditionStart
    } else if w == "<"@ || w == "<="@ || w == "="@ || w == ">"@ || w == ">="@ {
        SpecToken::Comparator(w)
    } else if w.len() > 0 && is_digit_char(w[0]) {
        SpecToken::Value(spec_num_of(w))
    } else {
        SpecToken::Identifier(w)
    }
}

/// The token stream of the whole source text: one token per word.
pub open spec fn spec_tokenize(s: Seq<char>) -> Seq<SpecToken> {
    Seq::new(spec_split(s).len(), |i: int| spec_classify(spec_split(s)[i]))
}

fn classify_word(w: &Vec<char>) -> (t: Token)
    ensures
        t@ == spec_classify(w@),
{
    if chars_eq_str(w, "sensor") {
        Token::Sensor
    } else if chars_eq_str(w, "actuator") {
        Token::Actuator
    } else if chars_eq_str(w, "block") {
        Token::StartBlock
    } else if chars_eq_str(w, "endblock") {
        Token::EndBlock
    } else if chars_eq_str(w, "set") {
        Token::SetKw
    } else if chars_eq_str(w, "goto") {
        Token::Goto
    } else if chars_eq_str(w, "wait") {
        Token::Wait
    } else if chars_eq_str(w, "if") {
        Token::If
    } else if chars_eq_str(w, "else") {
        Token::Else
    } else if chars_eq_str(w, "any") {
        Token::Any
    } else if chars_eq_str(w, "all") {
        Token::All
    } else if chars_eq_str(w, "    ") || chars_eq_str(w, "\t") {
        Token::Tab
    } else if chars_eq_str(w, "\n") {
        Token::Newline
    } else if chars_eq_str(w, ":") {
        Token::Colon
    } else if chars_eq_str(w, "-") {
        Token::ConditionStart
    } else if chars_eq_str(w, "<") || chars_eq_str(w, "<=") || chars_eq_str(w, "=") || chars_eq_str(
        w,
        ">",
    ) || chars_eq_str(w, ">=") {
        Token::Comparator(string_from_chars(w))
    } else if w.len() > 0 && is_digit_exec(w[0]) {
        Token::Value(crate::num::num_from_chars(w))
    } else {
        Token::Identifier(string_from_chars(w))
    }
}

/// Lexes the whole source text into its token stream.  Lexing never fails:
/// characters outside every class are discarded, and malformed words
/// surface later as parse errors.
pub fn tokenize(code: String) -> (r: Vec<Token>)
    ensures
        tokens_view(r@) == spec_tokenize(code@),
{
    let chars = chars_of(code.as_str());
    let words = split_words(&chars);
    let mut tokens: Vec<Token> = Vec::new();
    let mut i: usize = 0;
    while i < words.len()
        invariant
            i <= words@.len(),
            words_view(words@) == spec_split(chars@),
            chars@ == code@,
            tokens@.len() == i,
            forall|k: int| 0 <= k < i ==> tokens@[k]@ == spec_classify(words_view(words@)[k]),
        decreases words@.len() - i,
    {
        let t = classify_word(&words[i]);
        tokens.push(t);
        i = i + 1;
    }
    proof {
        assert(tokens_view(tokens@) =~= spec_tokenize(code@));
    }
    tokens
}

/// Splits the source text into its words, each as an owned string.
pub fn split_code(code: String) -> (r: Vec<String>)
    ensures
        r@.len() == spec_split(code@).len(),
        forall|i: int| 0 <= i < r@.len() ==> (#[trigger] r@[i])@ == spec_split(code@)[i],
{
    let chars = chars_of(code.as_str());
    let words = split_words(&chars);
    let mut out: Vec<String> = Vec::new();
    let mut i: usize = 0;
    while i < words.len()
        invariant
            i <= words@.len(),
            words_view(words@) == spec_split(chars@),
            chars@ == code@,
            out@.len() == i,
            forall|k: int| 0 <= k < i ==> (#[trigger] out@[k])@ == spec_split(code@)[k],
        decreases words@.len() - i,
    {
        let s = string_from_chars(&words[i]);
        out.push(s);
        i = i + 1;
    }
    out
}

} // verus!
