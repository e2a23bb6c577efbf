//! Tokens, the lexemes that carry them, and the tokenizer.

use vstd::prelude::*;
use vstd::utf8::{char_is_scalar, encode_scalar, encode_utf8};
use core::ops::Range;

verus! {

/// Half-open range of byte offsets into the source text.
pub type Span = Range<usize>;

/// The seven kinds of token.
#[derive(Debug, Clone, Copy, PartialEq, Eq)]
pub enum Token {
    /// `λ`, which opens a parameter list.
    Lambda,
    /// `def`, which opens a binding.
    Store,
    /// `.`, which closes a parameter list.
    Dot,
    /// A name; its text is the lexeme's `text`.
    Ident,
    /// An unsigned decimal literal and its value.
    Number(u64),
    /// `(`, which opens an application.
    AppliStart,
    /// `)`, which closes an application.
    AppliEnd,
}

/// One item of a token source: the token, the text it was read from, and
/// where that text stood. `token` is `None` where the source text could not
/// be read as any token.
#[derive(Debug, PartialEq, Eq)]
pub struct Lexeme {
    pub token: Option<Token>,
    pub text: String,
    pub span: Span,
}

/// Mathematical model of a [`Lexeme`].
pub ghost struct LexemeView {
    pub token: Option<Token>,
    pub text: Seq<char>,
    pub span: Span,
}

impl View for Lexeme {
    type V = LexemeView;

    open spec fn view(&self) -> LexemeView {
        LexemeView { token: self.token, text: self.text@, span: self.span }
    }
}

/// The models of a run of lexemes, in order.
pub open spec fn lexeme_views(lexemes: Seq<Lexeme>) -> Seq<LexemeView> {
    Seq::new(lexemes.len(), |i: int| lexemes[i]@)
}

/// White space: the characters with the Unicode property `White_Space`.
pub open spec fn is_space(c: char) -> bool {
    let u = c as u32;
    ||| 0x09 <= u <= 0x0D
    ||| u == 0x20
    ||| u == 0x85
    ||| u == 0xA0
    ||| u == 0x1680
    ||| 0x2000 <= u <= 0x200A
    ||| u == 0x2028
    ||| u == 0x2029
    ||| u == 0x202F
    ||| u == 0x205F
    ||| u == 0x3000
}

/// The decimal digits `0` to `9`.
pub open spec fn is_digit(c: char) -> bool {
    0x30 <= c as u32 <= 0x39
}

/// The punctuation: `λ`, `.`, `(` and `)`.
pub open spec fn is_punct(c: char) -> bool {
    c == '\u{3BB}' || c == '.' || c == '(' || c == ')'
}

/// What a name may hold after its first character: anything but
/// punctuation and white space.
pub open spec fn is_name_char(c: char) -> bool {
    !is_punct(c) && !is_space(c)
}

/// The kinds of run that the tokenizer reads to the end.
#[derive(Debug, Clone, Copy, PartialEq, Eq)]
pub enum RunKind {
    /// Decimal digits.
    Digits,
    /// The characters of a name.
    Name,
    /// Everything up to the end of the line.
    Line,
}

/// Whether `c` continues a run of the kind `run`.
pub open spec fn continues(run: RunKind, c: char) -> bool {
    match run {
        RunKind::Digits => is_digit(c),
        RunKind::Name => is_name_char(c),
        RunKind::Line => c != '\n',
    }
}

/// Where the run that starts at `i` ends: the first index from `i` on at
/// which the text ends or holds a character that does not continue the run.
pub open spec fn run_end(s: Seq<char>, i: nat, run: RunKind) -> nat
    decreases s.len() - i,
{
    if i < s.len() && continues(run, s[i as int]) {
        run_end(s, i + 1, run)
    } else {
        i
    }
}

/// Whether a line comment starts at `i`: one of the markers `<|` and `|>`.
pub open spec fn starts_comment(s: Seq<char>, i: nat) -> bool {
    let first = s[i as int];
    let second = s[i as int + 1];
    i + 1 < s.len() && ((first == '<' && second == '|') || (first == '|' && second == '>'))
}

/// The number of bytes that `c` takes in UTF-8.
pub open spec fn utf8_len(c: char) -> nat {
    let u = c as u32;
    if u < 0x80 {
        1
    } else if u < 0x800 {
        2
    } else if u < 0x10000 {
        3
    } else {
        4
    }
}

/// The number of bytes that `s` takes in UTF-8.
pub open spec fn byte_len(s: Seq<char>) -> nat
    decreases s.len(),
{
    if s.len() == 0 {
        0
    } else {
        byte_len(s.drop_last()) + utf8_len(s.last())
    }
}

/// The number that a run of decimal digits stands for.
pub open spec fn decimal_value(digits: Seq<char>) -> nat
    decreases digits.len(),
{
    if digits.len() == 0 {
        0
    } else {
        10 * decimal_value(digits.drop_last()) + (digits.last() as u32 - 0x30) as nat
    }
}

/// The name that is the keyword of a binding.
pub open spec fn keyword() -> Seq<char> {
    seq!['d', 'e', 'f']
}

/// The token that the text of one lexeme stands for. A number that does not
/// fit in 64 bits is no token.
pub open spec fn token_of(text: Seq<char>) -> Option<Token> {
    let first = text[0];
    if first == '\u{3BB}' {
        Some(Token::Lambda)
    } else if first == '.' {
        Some(Token::Dot)
    } else if first == '(' {
        Some(Token::AppliStart)
    } else if first == ')' {
        Some(Token::AppliEnd)
    } else if is_digit(first) {
        if decimal_value(text) <= u64::MAX {
            Some(Token::Number(decimal_value(text) as u64))
        } else {
            None
        }
    } else if text == keyword() {
        Some(Token::Store)
    } else {
        Some(Token::Ident)
    }
}

/// Where the token that starts at `i` ends. Punctuation is one character;
/// digits and names run as far as they can.
pub open spec fn token_end(s: Seq<char>, i: nat) -> nat {
    if is_punct(s[i as int]) {
        i + 1
    } else if is_digit(s[i as int]) {
        run_end(s, i, RunKind::Digits)
    } else {
        run_end(s, i, RunKind::Name)
    }
}

/// The lexeme whose text is `s[i..j]`, with its span in bytes.
pub open spec fn lexeme_at(s: Seq<char>, i: nat, j: nat) -> LexemeView {
    LexemeView {
        token: token_of(s.subrange(i as int, j as int)),
        text: s.subrange(i as int, j as int),
        span: Span {
            start: byte_len(s.take(i as int)) as usize,
            end: byte_len(s.take(j as int)) as usize,
        },
    }
}

/// The lexemes of `s[i..]`. White space and line comments separate tokens
/// and are dropped; a comment marker inside a name belongs to the name.
pub open spec fn lex_from(s: Seq<char>, i: nat) -> Seq<LexemeView>
    decreases s.len() - i,
{
    if i >= s.len() {
        Seq::empty()
    } else if is_space(s[i as int]) {
        lex_from(s, i + 1)
    } else if starts_comment(s, i) {
        proof {
            lemma_run_end_bounds(s, i + 1, RunKind::Line);
        }
        lex_from(s, run_end(s, i, RunKind::Line))
    } else {
        proof {
            lemma_run_end_bounds(s, i + 1, RunKind::Digits);
            lemma_run_end_bounds(s, i + 1, RunKind::Name);
        }
        seq![lexeme_at(s, i, token_end(s, i))] + lex_from(s, token_end(s, i))
    }
}

/// The lexemes of a source text.
pub open spec fn lex(s: Seq<char>) -> Seq<LexemeView> {
    lex_from(s, 0)
}

/// One more character adds its bytes to the length of what stands before
/// it.
pub proof fn lemma_byte_len_step(s: Seq<char>, k: int)
    requires
        0 <= k < s.len(),
    ensures
        byte_len(s.take(k + 1)) == byte_len(s.take(k)) + utf8_len(s[k]),
{
    assert(s.take(k + 1).drop_last() =~= s.take(k));
}

/// The encoding of two texts in a row is the two encodings in a row.
pub proof fn lemma_encode_concat(a: Seq<char>, b: Seq<char>)
    ensures
        encode_utf8(a + b) == encode_utf8(a) + encode_utf8(b),
    decreases a.len(),
{
    if a.len() == 0 {
    } else {
        lemma_encode_concat(a.drop_first(), b);
        assert((a + b).drop_first() =~= a.drop_first() + b);
    }
}

/// `byte_len` is the length of the UTF-8 encoding.
pub proof fn lemma_byte_len_is_encoded_len(s: Seq<char>)
    ensures
        byte_len(s) == encode_utf8(s).len(),
    decreases s.len(),
{
    if s.len() > 0 {
        let c = s.last();
        lemma_byte_len_is_encoded_len(s.drop_last());
        lemma_encode_concat(s.drop_last(), seq![c]);
        assert(s.drop_last() + seq![c] =~= s);
        char_is_scalar(c);
        assert(encode_utf8(seq![c]) == encode_scalar(seq![c][0] as u32) + encode_utf8(
            seq![c].drop_first(),
        ));
    }
}

/// A prefix takes no more bytes than the whole text.
pub proof fn lemma_byte_len_prefix(s: Seq<char>, k: int)
    requires
        0 <= k <= s.len(),
    ensures
        byte_len(s.take(k)) <= byte_len(s),
    decreases s.len() - k,
{
    if k < s.len() {
        lemma_byte_len_step(s, k);
        lemma_byte_len_prefix(s, k + 1);
    } else {
        assert(s.take(k) =~= s);
    }
}

/// A longer prefix takes more bytes.
pub proof fn lemma_byte_len_grows(s: Seq<char>, i: int, j: int)
    requires
        0 <= i <= j <= s.len(),
    ensures
        byte_len(s.take(i)) + (j - i) <= byte_len(s.take(j)),
    decreases j - i,
{
    if i < j {
        lemma_byte_len_grows(s, i, j - 1);
        lemma_byte_len_step(s, j - 1);
    }
}

/// Whether the lexemes `ls` lie between the offsets `from` and `to`, each
/// with a span that is not empty, one after the other.
pub open spec fn in_order(ls: Seq<LexemeView>, from: nat, to: nat) -> bool {
    &&& forall|k: int|
        0 <= k < ls.len() ==> from <= (#[trigger] ls[k]).span.start < ls[k].span.end <= to
    &&& forall|k: int, m: int|
        0 <= k < m < ls.len() ==> (#[trigger] ls[k]).span.end <= (#[trigger] ls[m]).span.start
}

/// The lexemes of a text come in source order: their spans are not empty,
/// do not overlap, and lie inside the text.
pub proof fn lemma_lexemes_in_order(s: Seq<char>, i: nat)
    requires
        byte_len(s) <= usize::MAX,
        i <= s.len(),
    ensures
        in_order(lex_from(s, i), byte_len(s.take(i as int)), byte_len(s)),
    decreases s.len() - i,
{
    let here = byte_len(s.take(i as int));
    if i >= s.len() {
    } else if is_space(s[i as int]) {
        lemma_lexemes_in_order(s, i + 1);
        lemma_byte_len_grows(s, i as int, i as int + 1);
    } else if starts_comment(s, i) {
        let j = run_end(s, i, RunKind::Line);
        lemma_run_end_bounds(s, i + 1, RunKind::Line);
        lemma_lexemes_in_order(s, j);
        lemma_byte_len_grows(s, i as int, j as int);
    } else {
        let j = token_end(s, i);
        lemma_run_end_bounds(s, i + 1, RunKind::Digits);
        lemma_run_end_bounds(s, i + 1, RunKind::Name);
        lemma_lexemes_in_order(s, j);
        lemma_byte_len_grows(s, i as int, j as int);
        lemma_byte_len_prefix(s, j as int);
        let first = lexeme_at(s, i, j);
        let rest = lex_from(s, j);
        let all = seq![first] + rest;
        assert forall|k: int| 0 <= k < all.len() implies here <= (#[trigger] all[k]).span.start
            < all[k].span.end <= byte_len(s) by {
            if k > 0 {
            }
        }
        assert forall|k: int, m: int| 0 <= k < m < all.len() implies (#[trigger] all[k]).span.end
            <= (#[trigger] all[m]).span.start by {
            if k > 0 {
            }
        }
    }
}

/// A run ends at or after its start, and inside the text if it starts
/// there.
pub proof fn lemma_run_end_bounds(s: Seq<char>, i: nat, run: RunKind)
    ensures
        i <= run_end(s, i, run),
        i <= s.len() ==> run_end(s, i, run) <= s.len(),
    decreases s.len() - i,
{
    if i < s.len() && continues(run, s[i as int]) {
        lemma_run_end_bounds(s, i + 1, run);
    }
}

/// The characters of `src`, in order.
fn chars_of(src: &str) -> (r: Vec<char>)
    ensures
        r@ == src@,
{
    let mut chars: Vec<char> = Vec::new();
    for c in it: src.chars()
        invariant
            chars@.len() == it.index(),
            it.seq() == src@,
            forall|j: int| 0 <= j < chars@.len() ==> chars@[j] == it.seq()[j],
    {
        chars.push(c);
    }
    chars
}

/// Whether `c` is white space.
fn space(c: char) -> (r: bool)
    ensures
        r == is_space(c),
{
    let u = c as u32;
    (0x09 <= u && u <= 0x0D) || u == 0x20 || u == 0x85 || u == 0xA0 || u == 0x1680 || (0x2000 <= u
        && u <= 0x200A) || u == 0x2028 || u == 0x2029 || u == 0x202F || u == 0x205F || u == 0x3000
}

/// Whether `c` is a decimal digit.
fn digit(c: char) -> (r: bool)
    ensures
        r == is_digit(c),
{
    let u = c as u32;
    0x30 <= u && u <= 0x39
}

/// Whether `c` is punctuation.
fn punct(c: char) -> (r: bool)
    ensures
        r == is_punct(c),
{
    c == '\u{3BB}' || c == '.' || c == '(' || c == ')'
}

/// Whether `c` continues a run of the kind `run`.
fn continues_run(run: RunKind, c: char) -> (r: bool)
    ensures
        r == continues(run, c),
{
    match run {
        RunKind::Digits => digit(c),
        RunKind::Name => !punct(c) && !space(c),
        RunKind::Line => c != '\n',
    }
}

/// The number of bytes that `c` takes in UTF-8.
fn char_len(c: char) -> (r: usize)
    ensures
        r == utf8_len(c),
{
    let u = c as u32;
    if u < 0x80 {
        1
    } else if u < 0x800 {
        2
    } else if u < 0x10000 {
        3
    } else {
        4
    }
}

/// Reads the run that starts at `start` to its end. Returns the end as an
/// index and as a byte offset.
fn scan_run(chars: &Vec<char>, start: usize, off: usize, run: RunKind) -> (r: (usize, usize))
    requires
        start <= chars.len(),
        off == byte_len(chars@.take(start as int)),
        byte_len(chars@) <= usize::MAX,
    ensures
        r.0 == run_end(chars@, start as nat, run),
        start <= r.0 <= chars.len(),
        r.1 == byte_len(chars@.take(r.0 as int)),
{
    let mut j = start;
    let mut end = off;
    while j < chars.len() && continues_run(run, chars[j])
        invariant
            start <= j <= chars.len(),
            end == byte_len(chars@.take(j as int)),
            byte_len(chars@) <= usize::MAX,
            run_end(chars@, start as nat, run) == run_end(chars@, j as nat, run),
        decreases chars.len() - j,
    {
        proof {
            lemma_byte_len_step(chars@, j as int);
            lemma_byte_len_prefix(chars@, j + 1);
        }
        end = end + char_len(chars[j]);
        j = j + 1;
    }
    (j, end)
}

/// The text `chars[i..j]`.
fn slice_text(chars: &Vec<char>, i: usize, j: usize) -> (r: String)
    requires
        i <= j <= chars.len(),
    ensures
        r@ == chars@.subrange(i as int, j as int),
{
    let mut text = String::new();
    let mut k = i;
    while k < j
        invariant
            i <= k <= j <= chars.len(),
            text@ == chars@.subrange(i as int, k as int),
        decreases j - k,
    {
        text.push(chars[k]);
        k = k + 1;
    }
    text
}

/// The number that the digits `chars[i..j]` stand for, if it fits.
fn number_value(chars: &Vec<char>, i: usize, j: usize) -> (r: Option<u64>)
    requires
        i <= j <= chars.len(),
        forall|k: int| i <= k < j ==> is_digit(chars@[k]),
    ensures
        r == (if decimal_value(chars@.subrange(i as int, j as int)) <= u64::MAX {
            Some(decimal_value(chars@.subrange(i as int, j as int)) as u64)
        } else {
            None
        }),
{
    let mut value: u64 = 0;
    let mut k = i;
    while k < j
        invariant
            i <= k <= j <= chars.len(),
            forall|k: int| i <= k < j ==> is_digit(chars@[k]),
            value == decimal_value(chars@.subrange(i as int, k as int)),
        decreases j - k,
    {
        let d = (chars[k] as u32 - 0x30) as u64;
        proof {
            assert(chars@.subrange(i as int, k + 1).drop_last() =~= chars@.subrange(
                i as int,
                k as int,
            ));
            lemma_decimal_value_grows(chars@, i as int, k + 1, j as int);
        }
        if value > (u64::MAX - d) / 10 {
            return None;
        }
        value = value * 10 + d;
        k = k + 1;
    }
    Some(value)
}

/// Reads the token that starts at `i`. Returns the lexeme and where it
/// ends, as an index and as a byte offset.
fn scan_token(chars: &Vec<char>, i: usize, off: usize) -> (r: (Lexeme, usize, usize))
    requires
        i < chars.len(),
        !is_space(chars@[i as int]),
        off == byte_len(chars@.take(i as int)),
        byte_len(chars@) <= usize::MAX,
    ensures
        r.0@ == lexeme_at(chars@, i as nat, token_end(chars@, i as nat)),
        r.1 == token_end(chars@, i as nat),
        i < r.1 <= chars.len(),
        r.2 == byte_len(chars@.take(r.1 as int)),
{
    let c = chars[i];
    let ghost s = chars@;
    proof {
        lemma_byte_len_step(s, i as int);
        lemma_byte_len_prefix(s, i + 1);
    }
    if punct(c) {
        let text = slice_text(chars, i, i + 1);
        let token = if c == '\u{3BB}' {
            Token::Lambda
        } else if c == '.' {
            Token::Dot
        } else if c == '(' {
            Token::AppliStart
        } else {
            Token::AppliEnd
        };
        let end = off + char_len(c);
        (Lexeme { token: Some(token), text, span: Span { start: off, end } }, i + 1, end)
    } else if digit(c) {
        let (j, end) = scan_run(chars, i, off, RunKind::Digits);
        proof {
            lemma_run_holds(s, i as nat, RunKind::Digits);
            lemma_run_end_bounds(s, (i + 1) as nat, RunKind::Digits);
        }
        let text = slice_text(chars, i, j);
        let token = match number_value(chars, i, j) {
            Some(n) => Some(Token::Number(n)),
            None => None,
        };
        (Lexeme { token, text, span: Span { start: off, end } }, j, end)
    } else {
        let (j, end) = scan_run(chars, i, off, RunKind::Name);
        proof {
            lemma_run_end_bounds(s, (i + 1) as nat, RunKind::Name);
        }
        let text = slice_text(chars, i, j);
        let is_keyword = j - i == 3 && chars[i] == 'd' && chars[i + 1] == 'e' && chars[i + 2]
            == 'f';
        proof {
            let t = s.subrange(i as int, j as int);
            if is_keyword {
                assert(t =~= keyword());
            } else if t == keyword() {
            }
        }
        let token = if is_keyword {
            Token::Store
        } else {
            Token::Ident
        };
        (Lexeme { token: Some(token), text, span: Span { start: off, end } }, j, end)
    }
}

/// Every character of a run continues it.
pub proof fn lemma_run_holds(s: Seq<char>, i: nat, run: RunKind)
    ensures
        forall|m: int| i <= m < run_end(s, i, run) ==> continues(run, #[trigger] s[m]),
    decreases s.len() - i,
{
    if i < s.len() && continues(run, s[i as int]) {
        lemma_run_holds(s, i + 1, run);
        assert forall|m: int| i <= m < run_end(s, i, run) implies continues(
            run,
            #[trigger] s[m],
        ) by {
            if m > i {
            }
        }
    }
}

/// Splits a source text into lexemes. White space and line comments (from
/// `<|` or `|>` to the end of the line) are dropped. A number that does not
/// fit in 64 bits becomes a lexeme without a token.
pub fn tokenize(src: &str) -> (r: Vec<Lexeme>)
    ensures
        lexeme_views(r@) == lex(src@),
        in_order(lexeme_views(r@), 0, byte_len(src@)),
        byte_len(src@) <= usize::MAX,
{
    let size = src.as_bytes().len();
    proof {
        lemma_byte_len_is_encoded_len(src@);
        assert(byte_len(src@) == size);
    }
    let chars = chars_of(src);
    let ghost s = chars@;
    let mut out: Vec<Lexeme> = Vec::new();
    let mut i: usize = 0;
    let mut off: usize = 0;
    while i < chars.len()
        invariant
            s == chars@,
            s == src@,
            byte_len(s) <= usize::MAX,
            i <= chars.len(),
            off == byte_len(s.take(i as int)),
            lex(s) == lexeme_views(out@) + lex_from(s, i as nat),
        decreases chars.len() - i,
    {
        let c = chars[i];
        if space(c) {
            proof {
                lemma_byte_len_step(s, i as int);
                lemma_byte_len_prefix(s, i + 1);
            }
            off = off + char_len(c);
            i = i + 1;
        } else if i + 1 < chars.len() && ((c == '<' && chars[i + 1] == '|') || (c == '|'
            && chars[i + 1] == '>')) {
            let (j, end) = scan_run(&chars, i, off, RunKind::Line);
            proof {
                lemma_run_end_bounds(s, (i + 1) as nat, RunKind::Line);
            }
            i = j;
            off = end;
        } else {
            let (lexeme, j, end) = scan_token(&chars, i, off);
            out.push(lexeme);
            i = j;
            off = end;
        }
    }
    proof {
        lemma_lexemes_in_order(s, 0);
    }
    out
}

/// More digits do not make the number smaller.
pub proof fn lemma_decimal_value_grows(s: Seq<char>, i: int, k: int, j: int)
    requires
        0 <= i <= k <= j <= s.len(),
    ensures
        decimal_value(s.subrange(i, k)) <= decimal_value(s.subrange(i, j)),
    decreases j - k,
{
    if k < j {
        lemma_decimal_value_grows(s, i, k + 1, j);
        assert(s.subrange(i, k + 1).drop_last() =~= s.subrange(i, k));
    }
}

} // verus!
