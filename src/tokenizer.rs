use vstd::prelude::*;

use crate::dice::die_of;
use crate::dice::is_d;
use crate::dice::Dice;
use crate::errors::TokenError;
use crate::numeric::all_digits;
use crate::numeric::digits_value;
use crate::numeric::is_digit;
use crate::numeric::parse_digits;
use crate::text::is_space;
use crate::text::slice_chars;

verus! {

/// A number or dice literal.
#[derive(Clone, Copy, Debug, PartialEq, Eq, Structural)]
pub enum NumberOrDice {
    Number(isize),
    Dice(Dice),
}

/// The first position at or after `i` that holds no digit.
pub open spec fn digits_end(s: Seq<char>, i: int) -> int
    recommends
        0 <= i <= s.len(),
    decreases s.len() - i,
{
    if 0 <= i < s.len() && is_digit(s[i]) {
        digits_end(s, i + 1)
    } else {
        i
    }
}

/// The first position at or after `i` that holds no blank space.
pub open spec fn skip_space(s: Seq<char>, i: int) -> int
    recommends
        0 <= i <= s.len(),
    decreases s.len() - i,
{
    if 0 <= i < s.len() && is_space(s[i]) {
        skip_space(s, i + 1)
    } else {
        i
    }
}

/// Reads a number (`digit+`) or dice (`digit+ ('d' | 'D') digit*`) starting at `i`: the literal
/// or its error, and the position after it.
pub open spec fn number_or_dice_spec(s: Seq<char>, i: int) -> (Result<NumberOrDice, TokenError>, int) {
    let e = digits_end(s, i);
    let count = s.subrange(i, e);
    if e < s.len() && is_d(s[e]) {
        let e2 = digits_end(s, e + 1);
        let sides = s.subrange(e + 1, e2);
        if digits_value(count) <= 255 && sides.len() > 0 && digits_value(sides) <= 255 {
            (
                Ok(
                    NumberOrDice::Dice(
                        Dice {
                            coefficient: digits_value(count) as u8,
                            die: die_of(digits_value(sides) as u8),
                        },
                    ),
                ),
                e2,
            )
        } else {
            (Err(TokenError::InvalidDice), e2)
        }
    } else if digits_value(count) <= isize::MAX {
        (Ok(NumberOrDice::Number(digits_value(count) as isize)), e)
    } else {
        (Err(TokenError::InvalidNumber), e)
    }
}

pub proof fn lemma_digits_end(s: Seq<char>, i: int)
    requires
        0 <= i <= s.len(),
    ensures
        i <= digits_end(s, i) <= s.len(),
        all_digits(s.subrange(i, digits_end(s, i))),
        digits_end(s, i) < s.len() ==> !is_digit(s[digits_end(s, i)]),
    decreases s.len() - i,
{
    if i < s.len() && is_digit(s[i]) {
        lemma_digits_end(s, i + 1);
        let e = digits_end(s, i);
        assert forall|k: int| 0 <= k < e - i implies is_digit(#[trigger] s.subrange(i, e)[k]) by {
            if k > 0 {
                assert(s.subrange(i, e)[k] == s.subrange(i + 1, e)[k - 1]);
            }
        }
    }
}

pub proof fn lemma_skip_space(s: Seq<char>, i: int)
    requires
        0 <= i <= s.len(),
    ensures
        i <= skip_space(s, i) <= s.len(),
        skip_space(s, i) < s.len() ==> !is_space(s[skip_space(s, i)]),
    decreases s.len() - i,
{
    if i < s.len() && is_space(s[i]) {
        lemma_skip_space(s, i + 1);
    }
}

/// The end of the run of digits starting at `i`.
pub fn scan_digits(s: &Vec<char>, i: usize) -> (r: usize)
    requires
        i <= s@.len(),
    ensures
        r == digits_end(s@, i as int),
{
    let mut j = i;
    while j < s.len() && s[j] >= '0' && s[j] <= '9'
        invariant
            i <= j <= s@.len(),
            digits_end(s@, i as int) == digits_end(s@, j as int),
        decreases s@.len() - j,
    {
        j = j + 1;
    }
    j
}

/// The end of the run of blank space starting at `i`.
pub fn scan_space(s: &Vec<char>, i: usize) -> (r: usize)
    requires
        i <= s@.len(),
    ensures
        r == skip_space(s@, i as int),
{
    let mut j = i;
    while j < s.len() && (s[j] == ' ' || s[j] == '\t' || s[j] == '\n' || s[j] == '\r')
        invariant
            i <= j <= s@.len(),
            skip_space(s@, i as int) == skip_space(s@, j as int),
        decreases s@.len() - j,
    {
        j = j + 1;
    }
    j
}

/// Reads a number or dice literal starting at `i`.
pub fn number_or_dice(s: &Vec<char>, i: usize) -> (r: (Result<NumberOrDice, TokenError>, usize))
    requires
        i < s@.len(),
        is_digit(s@[i as int]),
    ensures
        (r.0, r.1 as int) == number_or_dice_spec(s@, i as int),
        i < r.1 <= s@.len(),
{
    let e = scan_digits(s, i);
    proof {
        lemma_digits_end(s@, i as int);
        lemma_digits_end(s@, i as int + 1);
    }
    let count = slice_chars(s, i, e);
    if e < s.len() && (s[e] == 'd' || s[e] == 'D') {
        let e2 = scan_digits(s, e + 1);
        proof {
            lemma_digits_end(s@, e as int + 1);
        }
        let sides = slice_chars(s, e + 1, e2);
        let c = parse_digits(&count, 255);
        let f = parse_digits(&sides, 255);
        match (c, f) {
            (Some(c), Some(f)) => {
                (Ok(NumberOrDice::Dice(Dice { coefficient: c as u8, die: crate::dice::Die::new(f as u8) })), e2)
            },
            _ => (Err(TokenError::InvalidDice), e2),
        }
    } else {
        match parse_digits(&count, isize::MAX as u64) {
            Some(v) => (Ok(NumberOrDice::Number(v as isize)), e),
            None => (Err(TokenError::InvalidNumber), e),
        }
    }
}

} // verus!

verus! {

/// The structural commands of stat-block text.
#[derive(Clone, Copy, Debug, PartialEq, Eq, Structural)]
pub enum StructureKeyword {
    Par,
    Sub,
    Italic,
    Bold,
}

/// A token of interpolated text.
#[derive(Clone, Debug)]
pub enum Token {
    Text(String),
    Identifier(String),
    Number(isize),
    String(String),
    Dice(Dice),
    Keyword(StructureKeyword),
    Plus,
    Minus,
    Asterisk,
    SlashLessThan,
    SlashGreaterThan,
    OpenParenthesis,
    CloseParenthesis,
    Dot,
    Dollar,
}

/// A token as plain values.
pub enum TokenView {
    Text(Seq<char>),
    Identifier(Seq<char>),
    Number(int),
    String(Seq<char>),
    Dice(Dice),
    Keyword(StructureKeyword),
    Plus,
    Minus,
    Asterisk,
    SlashLessThan,
    SlashGreaterThan,
    OpenParenthesis,
    CloseParenthesis,
    Dot,
    Dollar,
}

pub open spec fn token_view(t: Token) -> TokenView {
    match t {
        Token::Text(s) => TokenView::Text(s@),
        Token::Identifier(s) => TokenView::Identifier(s@),
        Token::Number(n) => TokenView::Number(n as int),
        Token::String(s) => TokenView::String(s@),
        Token::Dice(d) => TokenView::Dice(d),
        Token::Keyword(k) => TokenView::Keyword(k),
        Token::Plus => TokenView::Plus,
        Token::Minus => TokenView::Minus,
        Token::Asterisk => TokenView::Asterisk,
        Token::SlashLessThan => TokenView::SlashLessThan,
        Token::SlashGreaterThan => TokenView::SlashGreaterThan,
        Token::OpenParenthesis => TokenView::OpenParenthesis,
        Token::CloseParenthesis => TokenView::CloseParenthesis,
        Token::Dot => TokenView::Dot,
        Token::Dollar => TokenView::Dollar,
    }
}

/// Whether a character may start an identifier.
pub open spec fn is_ident_start(c: char) -> bool {
    ('A' <= c && c <= 'Z') || ('a' <= c && c <= 'z') || c == '_'
}

/// The first position at or after `i` that cannot continue an identifier.
pub open spec fn ident_end(s: Seq<char>, i: int) -> int
    decreases s.len() - i,
{
    if 0 <= i < s.len() && (is_ident_start(s[i]) || is_digit(s[i])) {
        ident_end(s, i + 1)
    } else {
        i
    }
}

pub open spec fn prepend_char(c: char, r: (Result<Seq<char>, TokenError>, int)) -> (Result<Seq<char>, TokenError>, int) {
    match r.0 {
        Ok(t) => (Ok(seq![c] + t), r.1),
        Err(e) => (Err(e), r.1),
    }
}

/// Reads template text from `i` up to `$` followed by `open`, or the end: its characters, with
/// `\$` and `\\` unescaped, and the position after the delimiter.
pub open spec fn text_run(s: Seq<char>, i: int, open: char) -> (Result<Seq<char>, TokenError>, int)
    decreases s.len() - i,
{
    if i < 0 || i >= s.len() {
        (Ok(Seq::empty()), i)
    } else if s[i] == '\\' {
        if i + 1 < s.len() && (s[i + 1] == '$' || s[i + 1] == '\\') {
            prepend_char(s[i + 1], text_run(s, i + 2, open))
        } else {
            (Err(TokenError::InvalidEscape), i + 1)
        }
    } else if s[i] == '$' {
        if i + 1 < s.len() && s[i + 1] == open {
            (Ok(Seq::empty()), i + 2)
        } else {
            prepend_char('$', text_run(s, i + 1, open))
        }
    } else {
        prepend_char(s[i], text_run(s, i + 1, open))
    }
}

/// Reads a string literal body from `i` up to its closing quote, with `\"` and `\\` unescaped.
pub open spec fn string_run(s: Seq<char>, i: int) -> (Result<Seq<char>, TokenError>, int)
    decreases s.len() - i,
{
    if i < 0 || i >= s.len() {
        (Err(TokenError::UnterminatedString), i)
    } else if s[i] == '\\' {
        if i + 1 < s.len() && (s[i + 1] == '"' || s[i + 1] == '\\') {
            prepend_char(s[i + 1], string_run(s, i + 2))
        } else {
            (Err(TokenError::InvalidEscape), i + 1)
        }
    } else if s[i] == '"' {
        (Ok(Seq::empty()), i + 1)
    } else {
        prepend_char(s[i], string_run(s, i + 1))
    }
}

pub proof fn lemma_text_run_end(s: Seq<char>, i: int, open: char)
    requires
        0 <= i <= s.len(),
    ensures
        i <= text_run(s, i, open).1 <= s.len(),
        i < s.len() ==> i < text_run(s, i, open).1,
    decreases s.len() - i,
{
    if i < s.len() {
        if s[i] == '\\' {
            if i + 1 < s.len() && (s[i + 1] == '$' || s[i + 1] == '\\') {
                lemma_text_run_end(s, i + 2, open);
            }
        } else if s[i] == '$' {
            if !(i + 1 < s.len() && s[i + 1] == open) {
                lemma_text_run_end(s, i + 1, open);
            }
        } else {
            lemma_text_run_end(s, i + 1, open);
        }
    }
}

pub proof fn lemma_string_run_end(s: Seq<char>, i: int)
    requires
        0 <= i <= s.len(),
    ensures
        i <= string_run(s, i).1 <= s.len(),
    decreases s.len() - i,
{
    if i < s.len() {
        if s[i] == '\\' {
            if i + 1 < s.len() && (s[i + 1] == '"' || s[i + 1] == '\\') {
                lemma_string_run_end(s, i + 2);
            }
        } else if s[i] != '"' {
            lemma_string_run_end(s, i + 1);
        }
    }
}

pub proof fn lemma_ident_end(s: Seq<char>, i: int)
    requires
        0 <= i <= s.len(),
    ensures
        i <= ident_end(s, i) <= s.len(),
    decreases s.len() - i,
{
    if i < s.len() && (is_ident_start(s[i]) || is_digit(s[i])) {
        lemma_ident_end(s, i + 1);
    }
}

} // verus!
