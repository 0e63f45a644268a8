use vstd::prelude::*;

use crate::dice::Dice;
use crate::dice_expression::serialize_spec;
use crate::dice_expression::term_of;
use crate::dice_expression::counts_fit;
use crate::dice_expression::distinct_keys;
use crate::dice_expression::merge_all;
use crate::dice_expression::terms_of;
use crate::dice_expression::DiceExpression;
use crate::dice_expression::DiceModel;
use crate::dice_expression::FactoredDice;
use crate::dice_expression::Term;
use crate::errors::TokenError;
use crate::numeric::decimal;
use crate::numeric::is_digit;
use crate::numeric::signed_decimal;
use crate::dice::faces;
use crate::numeric::lemma_decimal_digits;
use crate::text::str_chars;
use crate::tokenizer::lemma_skip_space;
use crate::tokenizer::number_or_dice;
use crate::tokenizer::number_or_dice_spec;
use crate::tokenizer::scan_space;
use crate::tokenizer::skip_space;
use crate::tokenizer::NumberOrDice;

verus! {

/// A token of the dice expression text form.
#[derive(Clone, Copy, Debug, PartialEq, Eq, Structural)]
pub enum DiceToken {
    Number(isize),
    Dice(Dice),
    Plus,
    Minus,
    Times,
    Open,
    Close,
    Invalid(TokenError),
}

/// Why text could not be read as a dice expression.
#[derive(Clone, Copy, Debug, PartialEq, Eq, Structural)]
pub enum ParseDiceExpressionError {
    ScanError(TokenError),
    ExpectedNumberAfterMinus,
    ExpectedNumberAfterMultiply,
    ExpectedMultiplySymbolAfterDiceInParens,
    ExpectedDiceAfterOpenParen,
    ExpectedCloseParen,
    ExpectedDiceAfterFirstMinus,
    ExpectedMinusParenOrDiceAsFirstToken,
    UnexpectedContentAfterAddend,
    ExpectedNumberOrDiceAfterMinus,
    ExpectedNumberDiceOrParenAfterPlus,
    ExpectedPlusOrMinusAfterTerm,
    TooManyDice,
}

pub open spec fn prepend(t: DiceToken, rest: Result<Seq<DiceToken>, TokenError>) -> Result<
    Seq<DiceToken>,
    TokenError,
> {
    match rest {
        Ok(ts) => Ok(seq![t] + ts),
        Err(e) => Err(e),
    }
}

/// The tokens of the text from position `i` on, blank space skipped.
pub open spec fn dice_tokens_from(s: Seq<char>, i: int) -> Result<Seq<DiceToken>, TokenError>
    decreases s.len() - i, 1int,
{
    if !(0 <= i <= s.len()) {
        Ok(Seq::empty())
    } else {
        let j = skip_space(s, i);
        if !(i <= j < s.len()) {
            Ok(Seq::empty())
        } else {
            dice_token_at(s, j)
        }
    }
}

/// The tokens of the text from the token that starts at `j` on.
pub open spec fn dice_token_at(s: Seq<char>, j: int) -> Result<Seq<DiceToken>, TokenError>
    recommends
        0 <= j < s.len(),
    decreases s.len() - j, 0int,
{
    if !(0 <= j < s.len()) {
        Ok(Seq::empty())
    } else {
        let c = s[j];
        if is_digit(c) {
            let (lit, e) = number_or_dice_spec(s, j);
            if e <= j || e > s.len() {
                Ok(Seq::empty())
            } else {
                match lit {
                    Ok(NumberOrDice::Number(n)) => prepend(DiceToken::Number(n), dice_tokens_from(s, e)),
                    Ok(NumberOrDice::Dice(d)) => prepend(DiceToken::Dice(d), dice_tokens_from(s, e)),
                    Err(err) => Err(err),
                }
            }
        } else if c == '+' {
            prepend(DiceToken::Plus, dice_tokens_from(s, j + 1))
        } else if c == '-' {
            prepend(DiceToken::Minus, dice_tokens_from(s, j + 1))
        } else if c == '×' || c == '*' {
            prepend(DiceToken::Times, dice_tokens_from(s, j + 1))
        } else if c == '(' {
            prepend(DiceToken::Open, dice_tokens_from(s, j + 1))
        } else if c == ')' {
            prepend(DiceToken::Close, dice_tokens_from(s, j + 1))
        } else {
            Err(TokenError::UnexpectedCharacter)
        }
    }
}

pub open spec fn tok(ts: Seq<DiceToken>, p: int) -> Option<DiceToken> {
    if 0 <= p < ts.len() {
        Some(ts[p])
    } else {
        None
    }
}

/// The token error where the parser meets the token that stands for it, else `err`.
pub open spec fn or_scan(t: Option<DiceToken>, err: ParseDiceExpressionError) -> ParseDiceExpressionError {
    match t {
        Some(DiceToken::Invalid(e)) => ParseDiceExpressionError::ScanError(e),
        _ => err,
    }
}

/// Reads `dice '×' ['-'] number ')'` at `p`, just after an open parenthesis: the term and the
/// position after it.
pub open spec fn factored_spec(ts: Seq<DiceToken>, p: int) -> Result<(Term, int), ParseDiceExpressionError> {
    match tok(ts, p) {
        Some(DiceToken::Dice(d)) => match tok(ts, p + 1) {
            Some(DiceToken::Times) => {
                let (factor, q): (Result<int, ParseDiceExpressionError>, int) = match tok(ts, p + 2) {
                    Some(DiceToken::Minus) => match tok(ts, p + 3) {
                        Some(DiceToken::Number(n)) => (Ok(-n), p + 4),
                        _ => (Err(or_scan(tok(ts, p + 3), ParseDiceExpressionError::ExpectedNumberAfterMinus)), p),
                    },
                    Some(DiceToken::Number(n)) => (Ok(n as int), p + 3),
                    _ => (Err(or_scan(tok(ts, p + 2), ParseDiceExpressionError::ExpectedNumberAfterMultiply)), p),
                };
                match factor {
                    Err(e) => Err(e),
                    Ok(f) => match tok(ts, q) {
                        Some(DiceToken::Close) => Ok(((d.die, d.coefficient as int, f), q + 1)),
                        _ => Err(or_scan(tok(ts, q), ParseDiceExpressionError::ExpectedCloseParen)),
                    },
                }
            },
            _ => Err(or_scan(tok(ts, p + 1), ParseDiceExpressionError::ExpectedMultiplySymbolAfterDiceInParens)),
        },
        _ => Err(or_scan(tok(ts, p), ParseDiceExpressionError::ExpectedDiceAfterOpenParen)),
    }
}

pub open spec fn addend_end(ts: Seq<DiceToken>, p: int, a: int) -> Result<(Seq<Term>, int), ParseDiceExpressionError> {
    if p >= ts.len() {
        Ok((Seq::empty(), a))
    } else {
        Err(or_scan(tok(ts, p), ParseDiceExpressionError::UnexpectedContentAfterAddend))
    }
}

pub open spec fn push_front_term(t: Term, rest: Result<(Seq<Term>, int), ParseDiceExpressionError>) -> Result<
    (Seq<Term>, int),
    ParseDiceExpressionError,
> {
    match rest {
        Ok((ms, a)) => Ok((seq![t] + ms, a)),
        Err(e) => Err(e),
    }
}

/// Reads the terms after the head, from token `p` on: the further terms and the addend. A
/// factored term after `-` has its factor negated.
pub open spec fn predicates_spec(ts: Seq<DiceToken>, p: int) -> Result<(Seq<Term>, int), ParseDiceExpressionError>
    decreases ts.len() - p,
{
    if p < 0 || p >= ts.len() {
        Ok((Seq::empty(), 0))
    } else {
        match ts[p] {
            DiceToken::Minus => match tok(ts, p + 1) {
                Some(DiceToken::Number(n)) => addend_end(ts, p + 2, -n),
                Some(DiceToken::Dice(d)) => push_front_term(
                    (d.die, d.coefficient as int, -1),
                    predicates_spec(ts, p + 2),
                ),
                Some(DiceToken::Open) => match factored_spec(ts, p + 2) {
                    Ok((t, q)) => if q > p {
                        push_front_term((t.0, t.1, -t.2), predicates_spec(ts, q))
                    } else {
                        Err(ParseDiceExpressionError::ExpectedCloseParen)
                    },
                    Err(e) => Err(e),
                },
                _ => Err(or_scan(tok(ts, p + 1), ParseDiceExpressionError::ExpectedNumberOrDiceAfterMinus)),
            },
            DiceToken::Plus => match tok(ts, p + 1) {
                Some(DiceToken::Number(n)) => addend_end(ts, p + 2, n as int),
                Some(DiceToken::Dice(d)) => push_front_term(
                    (d.die, d.coefficient as int, 1),
                    predicates_spec(ts, p + 2),
                ),
                Some(DiceToken::Open) => match factored_spec(ts, p + 2) {
                    Ok((t, q)) => if q > p {
                        push_front_term(t, predicates_spec(ts, q))
                    } else {
                        Err(ParseDiceExpressionError::ExpectedCloseParen)
                    },
                    Err(e) => Err(e),
                },
                _ => Err(or_scan(tok(ts, p + 1), ParseDiceExpressionError::ExpectedNumberDiceOrParenAfterPlus)),
            },
            _ => Err(or_scan(tok(ts, p), ParseDiceExpressionError::ExpectedPlusOrMinusAfterTerm)),
        }
    }
}

/// Reads the head term: `'-' dice`, `dice`, or a factored term in parentheses.
pub open spec fn head_spec(ts: Seq<DiceToken>) -> Result<(Term, int), ParseDiceExpressionError> {
    match tok(ts, 0) {
        Some(DiceToken::Minus) => match tok(ts, 1) {
            Some(DiceToken::Dice(d)) => Ok(((d.die, d.coefficient as int, -1), 2)),
            _ => Err(or_scan(tok(ts, 1), ParseDiceExpressionError::ExpectedDiceAfterFirstMinus)),
        },
        Some(DiceToken::Dice(d)) => Ok(((d.die, d.coefficient as int, 1), 1)),
        Some(DiceToken::Open) => factored_spec(ts, 1),
        _ => Err(or_scan(tok(ts, 0), ParseDiceExpressionError::ExpectedMinusParenOrDiceAsFirstToken)),
    }
}

/// What reading a token sequence as a dice expression gives: the terms as written, merged in
/// order so that no two share die and factor, and the addend.
pub open spec fn parse_tokens_spec(ts: Seq<DiceToken>) -> Result<DiceModel, ParseDiceExpressionError> {
    match head_spec(ts) {
        Err(e) => Err(e),
        Ok((h, p)) => match predicates_spec(ts, p) {
            Err(e) => Err(e),
            Ok((ms, a)) => if counts_fit(merge_all(Seq::<Term>::empty(), seq![h] + ms)) {
                Ok((merge_all(Seq::<Term>::empty(), seq![h] + ms), a))
            } else {
                Err(ParseDiceExpressionError::TooManyDice)
            },
        },
    }
}

/// The tokens read from position `i` before any token error.
pub open spec fn dice_prefix_from(s: Seq<char>, i: int) -> Seq<DiceToken>
    decreases s.len() - i, 1int,
{
    if !(0 <= i <= s.len()) {
        Seq::empty()
    } else {
        let j = skip_space(s, i);
        if !(i <= j < s.len()) {
            Seq::empty()
        } else {
            dice_prefix_at(s, j)
        }
    }
}

pub open spec fn dice_prefix_at(s: Seq<char>, j: int) -> Seq<DiceToken>
    decreases s.len() - j, 0int,
{
    if !(0 <= j < s.len()) {
        Seq::empty()
    } else {
        let c = s[j];
        if is_digit(c) {
            let (lit, e) = number_or_dice_spec(s, j);
            if e <= j || e > s.len() {
                Seq::empty()
            } else {
                match lit {
                    Ok(NumberOrDice::Number(n)) => seq![DiceToken::Number(n)] + dice_prefix_from(s, e),
                    Ok(NumberOrDice::Dice(d)) => seq![DiceToken::Dice(d)] + dice_prefix_from(s, e),
                    Err(_) => Seq::empty(),
                }
            }
        } else if c == '+' {
            seq![DiceToken::Plus] + dice_prefix_from(s, j + 1)
        } else if c == '-' {
            seq![DiceToken::Minus] + dice_prefix_from(s, j + 1)
        } else if c == '×' || c == '*' {
            seq![DiceToken::Times] + dice_prefix_from(s, j + 1)
        } else if c == '(' {
            seq![DiceToken::Open] + dice_prefix_from(s, j + 1)
        } else if c == ')' {
            seq![DiceToken::Close] + dice_prefix_from(s, j + 1)
        } else {
            Seq::empty()
        }
    }
}

/// What reading text as a dice expression gives. Tokens are read as the parser needs them: a
/// token error is reported only where the parser reaches the bad token.
pub open spec fn parse_expression_spec(s: Seq<char>) -> Result<DiceModel, ParseDiceExpressionError> {
    match dice_tokens_from(s, 0) {
        Err(e) => parse_tokens_spec(dice_prefix_from(s, 0) + seq![DiceToken::Invalid(e)]),
        Ok(ts) => parse_tokens_spec(ts),
    }
}

/// Every number token is non-negative, as the lexer makes them.
pub open spec fn numbers_nonneg(ts: Seq<DiceToken>) -> bool {
    forall|i: int| 0 <= i < ts.len() ==> (#[trigger] ts[i] matches DiceToken::Number(n) ==> n >= 0)
}

pub open spec fn join_tokens(done: Seq<DiceToken>, rest: Result<Seq<DiceToken>, TokenError>) -> Result<
    Seq<DiceToken>,
    TokenError,
> {
    match rest {
        Ok(ts) => Ok(done + ts),
        Err(e) => Err(e),
    }
}

/// Splits text into dice expression tokens.
/// Splits text into dice expression tokens, up to the first token error, which comes back too.
pub fn dice_tokens(s: &Vec<char>) -> (r: (Vec<DiceToken>, Option<TokenError>))
    ensures
        numbers_nonneg(r.0@),
        match r.1 {
            None => dice_tokens_from(s@, 0) == Ok::<Seq<DiceToken>, TokenError>(r.0@),
            Some(e) => dice_tokens_from(s@, 0) == Err::<Seq<DiceToken>, TokenError>(e) && r.0@ == dice_prefix_from(
                s@,
                0,
            ),
        },
{
    let mut out: Vec<DiceToken> = Vec::new();
    let mut i: usize = 0;
    assert(join_tokens(out@, dice_tokens_from(s@, 0)) == dice_tokens_from(s@, 0)) by {
        match dice_tokens_from(s@, 0) {
            Ok(ts) => {
                assert(out@ + ts =~= ts);
            },
            Err(e) => {
            },
        }
    }
    loop
        invariant
            0 <= i <= s@.len(),
            dice_tokens_from(s@, 0) == join_tokens(out@, dice_tokens_from(s@, i as int)),
            dice_prefix_from(s@, 0) == out@ + dice_prefix_from(s@, i as int),
            numbers_nonneg(out@),
        decreases s@.len() - i,
    {
        let j = scan_space(s, i);
        proof {
            lemma_skip_space(s@, i as int);
        }
        if j >= s.len() {
            assert(out@ + Seq::<DiceToken>::empty() =~= out@);
            return (out, None);
        }
        let c = s[j];
        let ghost before = out@;
        let next: usize;
        let t: DiceToken;
        if c >= '0' && c <= '9' {
            let (lit, e) = number_or_dice(s, j);
            match lit {
                Ok(NumberOrDice::Number(n)) => {
                    t = DiceToken::Number(n);
                },
                Ok(NumberOrDice::Dice(d)) => {
                    t = DiceToken::Dice(d);
                },
                Err(err) => {
                    assert(dice_prefix_from(s@, i as int) == Seq::<DiceToken>::empty());
                    assert(out@ + Seq::<DiceToken>::empty() =~= out@);
                    return (out, Some(err));
                },
            }
            next = e;
        } else if c == '+' {
            t = DiceToken::Plus;
            next = j + 1;
        } else if c == '-' {
            t = DiceToken::Minus;
            next = j + 1;
        } else if c == '×' || c == '*' {
            t = DiceToken::Times;
            next = j + 1;
        } else if c == '(' {
            t = DiceToken::Open;
            next = j + 1;
        } else if c == ')' {
            t = DiceToken::Close;
            next = j + 1;
        } else {
            assert(dice_prefix_from(s@, i as int) == Seq::<DiceToken>::empty());
            assert(out@ + Seq::<DiceToken>::empty() =~= out@);
            return (out, Some(TokenError::UnexpectedCharacter));
        }
        assert(dice_tokens_from(s@, i as int) == prepend(t, dice_tokens_from(s@, next as int)));
        assert(dice_prefix_from(s@, i as int) == seq![t] + dice_prefix_from(s@, next as int));
        assert(t matches DiceToken::Number(n) ==> n >= 0);
        out.push(t);
        assert(numbers_nonneg(out@)) by {
            assert forall|k: int| 0 <= k < out@.len() implies (#[trigger] out@[k] matches DiceToken::Number(n)
                ==> n >= 0) by {
                if k < before.len() {
                    assert(out@[k] == before[k]);
                }
            }
        }
        proof {
            assert(before + (seq![t] + dice_prefix_from(s@, next as int)) =~= out@ + dice_prefix_from(s@, next as int));
            match dice_tokens_from(s@, next as int) {
                Ok(ts) => {
                    assert(before + (seq![t] + ts) =~= out@ + ts);
                },
                Err(e) => {
                },
            }
        }
        i = next;
    }
}

fn or_scan_at(ts: &Vec<DiceToken>, p: usize, err: ParseDiceExpressionError) -> (r: ParseDiceExpressionError)
    ensures
        r == or_scan(tok(ts@, p as int), err),
{
    if p < ts.len() {
        if let DiceToken::Invalid(e) = ts[p] {
            return ParseDiceExpressionError::ScanError(e);
        }
    }
    err
}

fn tok_at(ts: &Vec<DiceToken>, p: usize) -> (r: Option<DiceToken>)
    ensures
        r == tok(ts@, p as int),
{
    if p < ts.len() {
        Some(ts[p])
    } else {
        None
    }
}

fn parse_factored(ts: &Vec<DiceToken>, p: usize) -> (r: Result<(FactoredDice, usize), ParseDiceExpressionError>)
    requires
        p <= ts@.len(),
        numbers_nonneg(ts@),
    ensures
        match r {
            Ok((fd, q)) => factored_spec(ts@, p as int) == Ok::<(Term, int), ParseDiceExpressionError>(
                (term_of(fd), q as int),
            ) && p < q <= ts@.len() && fd.factor > isize::MIN,
            Err(e) => factored_spec(ts@, p as int) == Err::<(Term, int), ParseDiceExpressionError>(e),
        },
{
    let d = match tok_at(ts, p) {
        Some(DiceToken::Dice(d)) => d,
        _ => {
            return Err(or_scan_at(ts, p, ParseDiceExpressionError::ExpectedDiceAfterOpenParen));
        },
    };
    assert(p < ts@.len());
    let len = ts.len();
    match tok_at(ts, p + 1) {
        Some(DiceToken::Times) => {
            assert(p + 1 < ts@.len());
        },
        _ => {
            return Err(or_scan_at(ts, p + 1, ParseDiceExpressionError::ExpectedMultiplySymbolAfterDiceInParens));
        },
    }
    let (factor, q): (isize, usize) = match tok_at(ts, p + 2) {
        Some(DiceToken::Minus) => match tok_at(ts, p + 3) {
            Some(DiceToken::Number(n)) => {
                assert(ts@[p as int + 3] == DiceToken::Number(n));
                (-n, p + 4)
            },
            _ => {
                return Err(or_scan_at(ts, p + 3, ParseDiceExpressionError::ExpectedNumberAfterMinus));
            },
        },
        Some(DiceToken::Number(n)) => (n, p + 3),
        _ => {
            return Err(or_scan_at(ts, p + 2, ParseDiceExpressionError::ExpectedNumberAfterMultiply));
        },
    };
    match tok_at(ts, q) {
        Some(DiceToken::Close) => Ok((FactoredDice { dice: d, factor }, q + 1)),
        _ => Err(or_scan_at(ts, q, ParseDiceExpressionError::ExpectedCloseParen)),
    }
}

pub open spec fn prefix_terms(done: Seq<Term>, r: Result<(Seq<Term>, int), ParseDiceExpressionError>) -> Result<
    (Seq<Term>, int),
    ParseDiceExpressionError,
> {
    match r {
        Ok((ms, a)) => Ok((done + ms, a)),
        Err(e) => Err(e),
    }
}

fn parse_predicates(ts: &Vec<DiceToken>, start: usize) -> (r: Result<(Vec<FactoredDice>, isize), ParseDiceExpressionError>)
    requires
        start <= ts@.len(),
        numbers_nonneg(ts@),
    ensures
        match r {
            Ok((v, a)) => predicates_spec(ts@, start as int) == Ok::<(Seq<Term>, int), ParseDiceExpressionError>(
                (terms_of(v@), a as int),
            ),
            Err(e) => predicates_spec(ts@, start as int) == Err::<(Seq<Term>, int), ParseDiceExpressionError>(e),
        },
{
    let mut done: Vec<FactoredDice> = Vec::new();
    let mut p = start;
    let len = ts.len();
    assert(prefix_terms(terms_of(done@), predicates_spec(ts@, start as int)) == predicates_spec(ts@, start as int)) by {
        assert(terms_of(done@) =~= Seq::<Term>::empty());
        match predicates_spec(ts@, start as int) {
            Ok((ms, a)) => {
                assert(Seq::<Term>::empty() + ms =~= ms);
            },
            Err(e) => {
            },
        }
    }
    loop
        invariant
            start <= p <= ts@.len(),
            len == ts@.len(),
            numbers_nonneg(ts@),
            predicates_spec(ts@, start as int) == prefix_terms(terms_of(done@), predicates_spec(ts@, p as int)),
        decreases ts@.len() - p,
    {
        if p >= len {
            assert(terms_of(done@) + Seq::<Term>::empty() =~= terms_of(done@));
            return Ok((done, 0));
        }
        let ghost before = terms_of(done@);
        let t: FactoredDice;
        let next: usize;
        match ts[p] {
            DiceToken::Minus => match tok_at(ts, p + 1) {
                Some(DiceToken::Number(n)) => {
                    assert(ts@[p as int + 1] == DiceToken::Number(n));
                    if p + 2 >= len {
                        assert(terms_of(done@) + Seq::<Term>::empty() =~= terms_of(done@));
                        return Ok((done, -n));
                    }
                    return Err(or_scan_at(ts, p + 2, ParseDiceExpressionError::UnexpectedContentAfterAddend));
                },
                Some(DiceToken::Dice(d)) => {
                    t = FactoredDice { dice: d, factor: -1 };
                    next = p + 2;
                },
                Some(DiceToken::Open) => {
                    match parse_factored(ts, p + 2) {
                        Ok((fd, q)) => {
                            t = FactoredDice { dice: fd.dice, factor: -fd.factor };
                            next = q;
                        },
                        Err(e) => {
                            return Err(e);
                        },
                    }
                },
                _ => {
                    return Err(or_scan_at(ts, p + 1, ParseDiceExpressionError::ExpectedNumberOrDiceAfterMinus));
                },
            },
            DiceToken::Plus => match tok_at(ts, p + 1) {
                Some(DiceToken::Number(n)) => {
                    if p + 2 >= len {
                        assert(terms_of(done@) + Seq::<Term>::empty() =~= terms_of(done@));
                        return Ok((done, n));
                    }
                    return Err(or_scan_at(ts, p + 2, ParseDiceExpressionError::UnexpectedContentAfterAddend));
                },
                Some(DiceToken::Dice(d)) => {
                    t = FactoredDice { dice: d, factor: 1 };
                    next = p + 2;
                },
                Some(DiceToken::Open) => {
                    match parse_factored(ts, p + 2) {
                        Ok((fd, q)) => {
                            t = fd;
                            next = q;
                        },
                        Err(e) => {
                            return Err(e);
                        },
                    }
                },
                _ => {
                    return Err(or_scan_at(ts, p + 1, ParseDiceExpressionError::ExpectedNumberDiceOrParenAfterPlus));
                },
            },
            _ => {
                return Err(or_scan_at(ts, p, ParseDiceExpressionError::ExpectedPlusOrMinusAfterTerm));
            },
        }
        assert(predicates_spec(ts@, p as int) == push_front_term(term_of(t), predicates_spec(ts@, next as int)));
        done.push(t);
        proof {
            assert(terms_of(done@) =~= before.push(term_of(t)));
            match predicates_spec(ts@, next as int) {
                Ok((ms, a)) => {
                    assert(before + (seq![term_of(t)] + ms) =~= terms_of(done@) + ms);
                },
                Err(e) => {
                },
            }
        }
        p = next;
    }
}

fn parse_head(ts: &Vec<DiceToken>) -> (r: Result<(FactoredDice, usize), ParseDiceExpressionError>)
    requires
        numbers_nonneg(ts@),
    ensures
        match r {
            Ok((fd, q)) => head_spec(ts@) == Ok::<(Term, int), ParseDiceExpressionError>((term_of(fd), q as int))
                && q <= ts@.len(),
            Err(e) => head_spec(ts@) == Err::<(Term, int), ParseDiceExpressionError>(e),
        },
{
    match tok_at(ts, 0) {
        Some(DiceToken::Minus) => match tok_at(ts, 1) {
            Some(DiceToken::Dice(d)) => Ok((FactoredDice { dice: d, factor: -1 }, 2)),
            _ => Err(or_scan_at(ts, 1, ParseDiceExpressionError::ExpectedDiceAfterFirstMinus)),
        },
        Some(DiceToken::Dice(d)) => Ok((FactoredDice { dice: d, factor: 1 }, 1)),
        Some(DiceToken::Open) => parse_factored(ts, 1),
        _ => Err(or_scan_at(ts, 0, ParseDiceExpressionError::ExpectedMinusParenOrDiceAsFirstToken)),
    }
}

/// Reads a dice expression from tokens.
pub fn parse_dice_tokens(ts: &Vec<DiceToken>) -> (r: Result<DiceExpression, ParseDiceExpressionError>)
    requires
        numbers_nonneg(ts@),
    ensures
        match r {
            Ok(e) => parse_tokens_spec(ts@) == Ok::<DiceModel, ParseDiceExpressionError>(e@),
            Err(e) => parse_tokens_spec(ts@) == Err::<DiceModel, ParseDiceExpressionError>(e),
        },
{
    let (head, p) = match parse_head(ts) {
        Ok(x) => x,
        Err(e) => {
            return Err(e);
        },
    };
    let (medial, addend) = match parse_predicates(ts, p) {
        Ok(x) => x,
        Err(e) => {
            return Err(e);
        },
    };
    let mut terms: Vec<FactoredDice> = Vec::new();
    terms.push(head);
    let mut medial = medial;
    let ghost m = terms_of(medial@);
    terms.append(&mut medial);
    assert(terms_of(terms@) =~= seq![term_of(head)] + m);
    match DiceExpression::from_terms(&terms, addend) {
        Some(e) => Ok(e),
        None => Err(ParseDiceExpressionError::TooManyDice),
    }
}

impl DiceExpression {
    /// Reads a dice expression from characters.
    pub fn parse_chars(s: &Vec<char>) -> (r: Result<DiceExpression, ParseDiceExpressionError>)
        ensures
            match r {
                Ok(e) => parse_expression_spec(s@) == Ok::<DiceModel, ParseDiceExpressionError>(e@),
                Err(e) => parse_expression_spec(s@) == Err::<DiceModel, ParseDiceExpressionError>(e),
            },
    {
        let (mut ts, fail) = dice_tokens(s);
        match fail {
            None => parse_dice_tokens(&ts),
            Some(e) => {
                let ghost before = ts@;
                ts.push(DiceToken::Invalid(e));
                assert(ts@ == before + seq![DiceToken::Invalid(e)]);
                assert(numbers_nonneg(ts@)) by {
                    assert forall|k: int| 0 <= k < ts@.len() implies (#[trigger] ts@[k] matches DiceToken::Number(n)
                        ==> n >= 0) by {
                        if k < before.len() {
                            assert(ts@[k] == before[k]);
                        }
                    }
                }
                parse_dice_tokens(&ts)
            },
        }
    }

    /// Reads a dice expression from its text form, such as `2d6 + 3`.
    pub fn parse(s: &str) -> (r: Result<DiceExpression, ParseDiceExpressionError>)
        ensures
            match r {
                Ok(e) => parse_expression_spec(s@) == Ok::<DiceModel, ParseDiceExpressionError>(e@),
                Err(e) => parse_expression_spec(s@) == Err::<DiceModel, ParseDiceExpressionError>(e),
            },
    {
        let v = str_chars(s);
        DiceExpression::parse_chars(&v)
    }
}

/// The dice of a term.
pub open spec fn term_dice(t: Term) -> Dice {
    Dice { coefficient: t.1 as u8, die: t.0 }
}

/// The tokens of a factor inside parentheses: `×`, an optional minus, the number, `)`.
pub open spec fn factor_tokens(f: int) -> Seq<DiceToken> {
    if f < 0 {
        seq![DiceToken::Times, DiceToken::Minus, DiceToken::Number((-f) as isize), DiceToken::Close]
    } else {
        seq![DiceToken::Times, DiceToken::Number(f as isize), DiceToken::Close]
    }
}

/// The tokens of the head term in its text form.
pub open spec fn head_tokens(t: Term) -> Seq<DiceToken> {
    if t.2 == -1 {
        seq![DiceToken::Minus, DiceToken::Dice(term_dice(t))]
    } else if t.2 == 1 {
        seq![DiceToken::Dice(term_dice(t))]
    } else {
        seq![DiceToken::Open, DiceToken::Dice(term_dice(t))] + factor_tokens(t.2)
    }
}

/// The tokens of a further term in its text form.
pub open spec fn medial_tokens(t: Term) -> Seq<DiceToken> {
    if t.2 == -1 {
        seq![DiceToken::Minus, DiceToken::Dice(term_dice(t))]
    } else if t.2 == 1 {
        seq![DiceToken::Plus, DiceToken::Dice(term_dice(t))]
    } else {
        seq![DiceToken::Plus, DiceToken::Open, DiceToken::Dice(term_dice(t))] + factor_tokens(t.2)
    }
}

pub open spec fn medials_tokens(ts: Seq<Term>) -> Seq<DiceToken>
    decreases ts.len(),
{
    if ts.len() == 0 {
        Seq::empty()
    } else {
        medial_tokens(ts[0]) + medials_tokens(ts.drop_first())
    }
}

pub open spec fn addend_tokens(a: int) -> Seq<DiceToken> {
    if a < 0 {
        seq![DiceToken::Minus, DiceToken::Number((-a) as isize)]
    } else if a > 0 {
        seq![DiceToken::Plus, DiceToken::Number(a as isize)]
    } else {
        Seq::empty()
    }
}

/// The tokens of an expression's text form: the head, each further term, then the addend.
pub open spec fn model_tokens(m: DiceModel) -> Seq<DiceToken> {
    head_tokens(m.0[0]) + medials_tokens(m.0.drop_first()) + addend_tokens(m.1)
}

/// A term that the text form can carry: a count of a byte, a factor whose magnitude fits.
pub open spec fn term_writable(t: Term) -> bool {
    0 <= t.1 <= 255 && -isize::MAX <= t.2 <= isize::MAX
}

/// An expression that the text form can carry.
pub open spec fn model_writable(m: DiceModel) -> bool {
    &&& m.0.len() >= 1
    &&& forall|i: int| 0 <= i < m.0.len() ==> term_writable(#[trigger] m.0[i])
    &&& -isize::MAX <= m.1 <= isize::MAX
}

proof fn lemma_split_suffix(ts: Seq<DiceToken>, p: int, x: Seq<DiceToken>, y: Seq<DiceToken>)
    requires
        0 <= p <= ts.len(),
        ts.subrange(p, ts.len() as int) == x + y,
    ensures
        ts.subrange(p + x.len(), ts.len() as int) == y,
        forall|k: int| 0 <= k < x.len() ==> ts[p + k] == #[trigger] x[k],
        p + x.len() <= ts.len(),
{
    let rest = ts.subrange(p, ts.len() as int);
    assert(rest.len() == ts.len() - p);
    assert(rest.len() == x.len() + y.len());
    assert forall|k: int| 0 <= k < x.len() implies ts[p + k] == #[trigger] x[k] by {
        assert(rest[k] == ts[p + k]);
        assert(rest[k] == (x + y)[k]);
    }
    assert forall|k: int| 0 <= k < y.len() implies ts.subrange(p + x.len(), ts.len() as int)[k] == y[k] by {
        assert(rest[x.len() + k] == ts[p + x.len() + k]);
        assert(rest[x.len() + k] == (x + y)[x.len() + k]);
    }
    assert(ts.subrange(p + x.len(), ts.len() as int) =~= y);
}

proof fn lemma_factored_tokens(ts: Seq<DiceToken>, p: int, t: Term)
    requires
        term_writable(t),
        t.2 != 1 && t.2 != -1,
        0 <= p,
        p + 1 + factor_tokens(t.2).len() <= ts.len(),
        forall|k: int| 0 <= k < 1 + factor_tokens(t.2).len() ==> ts[p + k] == #[trigger] (seq![
            DiceToken::Dice(term_dice(t)),
        ] + factor_tokens(t.2))[k],
    ensures
        factored_spec(ts, p) == Ok::<(Term, int), ParseDiceExpressionError>((t, p + 1 + factor_tokens(t.2).len())),
{
    let sub = seq![DiceToken::Dice(term_dice(t))] + factor_tokens(t.2);
    assert(ts[p + 0] == sub[0]);
    assert(ts[p + 1] == sub[1]);
    assert(ts[p + 2] == sub[2]);
    assert(ts[p + 3] == sub[3]);
    if t.2 < 0 {
        assert(ts[p + 4] == sub[4]);
    }
    assert(term_dice(t).die == t.0 && term_dice(t).coefficient as int == t.1);
}

proof fn lemma_predicates_of_tokens(ts: Seq<DiceToken>, p: int, ms: Seq<Term>, a: int)
    requires
        0 <= p <= ts.len(),
        ts.subrange(p, ts.len() as int) == medials_tokens(ms) + addend_tokens(a),
        forall|i: int| 0 <= i < ms.len() ==> term_writable(#[trigger] ms[i]),
        -isize::MAX <= a <= isize::MAX,
    ensures
        predicates_spec(ts, p) == Ok::<(Seq<Term>, int), ParseDiceExpressionError>((ms, a)),
    decreases ms.len(),
{
    if ms.len() == 0 {
        assert(ms =~= Seq::<Term>::empty());
        assert(medials_tokens(ms) + addend_tokens(a) =~= addend_tokens(a) + Seq::<DiceToken>::empty());
        lemma_split_suffix(ts, p, addend_tokens(a), Seq::empty());
        assert(p + addend_tokens(a).len() == ts.len());
        if a < 0 {
            assert(ts[p + 0] == addend_tokens(a)[0] && ts[p + 1] == addend_tokens(a)[1]);
            assert(ts[p] == DiceToken::Minus);
            assert(tok(ts, p + 1) == Some(DiceToken::Number((-a) as isize)));
            assert(addend_end(ts, p + 2, -(((-a) as isize) as int)) == Ok::<(Seq<Term>, int), ParseDiceExpressionError>((Seq::<Term>::empty(), a)));
        } else if a > 0 {
            assert(ts[p + 0] == addend_tokens(a)[0] && ts[p + 1] == addend_tokens(a)[1]);
            assert(ts[p] == DiceToken::Plus);
            assert(tok(ts, p + 1) == Some(DiceToken::Number(a as isize)));
        }
    } else {
        let t = ms[0];
        assert(term_writable(t));
        let mt = medial_tokens(t);
        let tail = medials_tokens(ms.drop_first()) + addend_tokens(a);
        assert(medials_tokens(ms) + addend_tokens(a) =~= mt + tail);
        lemma_split_suffix(ts, p, mt, tail);
        let q = p + mt.len();
        assert forall|i: int| 0 <= i < ms.drop_first().len() implies term_writable(#[trigger] ms.drop_first()[i]) by {
            assert(ms.drop_first()[i] == ms[i + 1]);
        }
        lemma_predicates_of_tokens(ts, q, ms.drop_first(), a);
        assert(ts[p + 0] == mt[0]);
        assert(ts[p + 1] == mt[1]);
        assert(term_dice(t).die == t.0 && term_dice(t).coefficient as int == t.1);
        if t.2 != 1 && t.2 != -1 {
            let sub = seq![DiceToken::Dice(term_dice(t))] + factor_tokens(t.2);
            assert forall|k: int| 0 <= k < 1 + factor_tokens(t.2).len() implies ts[(p + 2) + k] == #[trigger] sub[k] by {
                assert(mt[2 + k] == sub[k]);
                assert(ts[p + (2 + k)] == mt[2 + k]);
            }
            lemma_factored_tokens(ts, p + 2, t);
        }
        assert(seq![t] + ms.drop_first() =~= ms);
    }
}

/// Reading the tokens of an expression's text form gives the expression back.
#[verifier::rlimit(100)]
pub proof fn lemma_parse_model_tokens(m: DiceModel)
    requires
        model_writable(m),
        distinct_keys(m.0),
    ensures
        parse_tokens_spec(model_tokens(m)) == Ok::<DiceModel, ParseDiceExpressionError>(m),
{
    let ts = model_tokens(m);
    let h = m.0[0];
    assert(term_writable(h));
    let ht = head_tokens(h);
    let tail = medials_tokens(m.0.drop_first()) + addend_tokens(m.1);
    assert(ts.subrange(0, ts.len() as int) =~= ht + tail);
    lemma_split_suffix(ts, 0, ht, tail);
    let p = ht.len() as int;
    assert forall|i: int| 0 <= i < m.0.drop_first().len() implies term_writable(#[trigger] m.0.drop_first()[i]) by {
        assert(m.0.drop_first()[i] == m.0[i + 1]);
    }
    lemma_predicates_of_tokens(ts, p, m.0.drop_first(), m.1);
    assert(ts[0int + 0int] == ht[0]);
    assert(term_dice(h).die == h.0 && term_dice(h).coefficient as int == h.1);
    if h.2 == -1 {
        assert(ts[0int + 1int] == ht[1]);
    } else if h.2 != 1 {
        let sub = seq![DiceToken::Dice(term_dice(h))] + factor_tokens(h.2);
        assert forall|k: int| 0 <= k < 1 + factor_tokens(h.2).len() implies ts[1 + k] == #[trigger] sub[k] by {
            assert(ht[1 + k] == sub[k]);
            assert(ts[0int + (1 + k)] == ht[1 + k]);
        }
        lemma_factored_tokens(ts, 1, h);
    }
    assert(seq![h] + m.0.drop_first() =~= m.0);
    lemma_canonical_merge(m);
}

proof fn lemma_canonical_merge(m: DiceModel)
    requires
        model_writable(m),
        distinct_keys(m.0),
    ensures
        merge_all(Seq::<Term>::empty(), m.0) == m.0,
        counts_fit(m.0),
{
    crate::dice_expression::lemma_merge_distinct_is_identity(m.0);
    assert forall|i: int| 0 <= i < m.0.len() implies 0 <= (#[trigger] m.0[i]).1 <= 255 by {
        assert(term_writable(m.0[i]));
    }
}

// ---- lexing the text form

proof fn lemma_digits_end_at(s: Seq<char>, i: int, k: int)
    requires
        0 <= i,
        0 <= k,
        i + k <= s.len(),
        forall|j: int| i <= j < i + k ==> is_digit(#[trigger] s[j]),
        i + k == s.len() || !is_digit(s[i + k]),
    ensures
        crate::tokenizer::digits_end(s, i) == i + k,
    decreases k,
{
    if k > 0 {
        lemma_digits_end_at(s, i + 1, k - 1);
    }
}

proof fn lemma_space_step(s: Seq<char>, i: int)
    requires
        0 <= i < s.len(),
        s[i] == ' ',
    ensures
        dice_tokens_from(s, i) == dice_tokens_from(s, i + 1),
{
    assert(skip_space(s, i) == skip_space(s, i + 1));
    crate::tokenizer::lemma_skip_space(s, i + 1);
}

proof fn lemma_char_step(s: Seq<char>, i: int, t: DiceToken)
    requires
        0 <= i < s.len(),
        (s[i] == '+' && t == DiceToken::Plus) || (s[i] == '-' && t == DiceToken::Minus) || (s[i] == '×'
            && t == DiceToken::Times) || (s[i] == '(' && t == DiceToken::Open) || (s[i] == ')' && t
            == DiceToken::Close),
    ensures
        dice_tokens_from(s, i) == prepend(t, dice_tokens_from(s, i + 1)),
{
    assert(skip_space(s, i) == i);
}

proof fn lemma_number_step(s: Seq<char>, i: int, n: nat)
    requires
        0 <= i,
        i + decimal(n).len() <= s.len(),
        s.subrange(i, i + decimal(n).len()) == decimal(n),
        i + decimal(n).len() == s.len() || (!is_digit(s[i + decimal(n).len()]) && !crate::dice::is_d(
            s[i + decimal(n).len()],
        )),
        n <= isize::MAX,
    ensures
        dice_tokens_from(s, i) == prepend(DiceToken::Number(n as isize), dice_tokens_from(s, i + decimal(n).len())),
{
    let k = decimal(n).len() as int;
    lemma_decimal_digits(n);
    assert forall|j: int| i <= j < i + k implies is_digit(#[trigger] s[j]) by {
        assert(s[j] == decimal(n)[j - i]);
    }
    lemma_digits_end_at(s, i, k);
    assert(s[i] == decimal(n)[0]);
    assert(skip_space(s, i) == i);
}

proof fn lemma_dice_step(s: Seq<char>, i: int, c: nat, f: nat)
    requires
        0 <= i,
        c <= 255,
        f <= 255,
        i + decimal(c).len() + 1 + decimal(f).len() <= s.len(),
        s.subrange(i, i + decimal(c).len() + 1 + decimal(f).len()) == decimal(c) + seq!['d'] + decimal(f),
        i + decimal(c).len() + 1 + decimal(f).len() == s.len() || !is_digit(
            s[i + decimal(c).len() + 1 + decimal(f).len()],
        ),
    ensures
        dice_tokens_from(s, i) == prepend(
            DiceToken::Dice(Dice { coefficient: c as u8, die: crate::dice::die_of(f as u8) }),
            dice_tokens_from(s, i + decimal(c).len() + 1 + decimal(f).len()),
        ),
{
    let kc = decimal(c).len() as int;
    let kf = decimal(f).len() as int;
    let whole = decimal(c) + seq!['d'] + decimal(f);
    lemma_decimal_digits(c);
    lemma_decimal_digits(f);
    assert forall|j: int| i <= j < i + kc implies is_digit(#[trigger] s[j]) by {
        assert(s[j] == whole[j - i]);
        assert(whole[j - i] == decimal(c)[j - i]);
    }
    assert(s[i + kc] == whole[kc]);
    lemma_digits_end_at(s, i, kc);
    assert forall|j: int| i + kc + 1 <= j < i + kc + 1 + kf implies is_digit(#[trigger] s[j]) by {
        assert(s[j] == whole[j - i]);
        assert(whole[j - i] == decimal(f)[j - i - kc - 1]);
    }
    lemma_digits_end_at(s, i + kc + 1, kf);
    assert(s.subrange(i, i + kc) =~= decimal(c)) by {
        assert forall|j: int| 0 <= j < kc implies s.subrange(i, i + kc)[j] == decimal(c)[j] by {
            assert(s[i + j] == whole[j]);
        }
    }
    assert(s.subrange(i + kc + 1, i + kc + 1 + kf) =~= decimal(f)) by {
        assert forall|j: int| 0 <= j < kf implies s.subrange(i + kc + 1, i + kc + 1 + kf)[j] == decimal(f)[j] by {
            assert(s[i + kc + 1 + j] == whole[kc + 1 + j]);
        }
    }
    assert(s[i] == whole[0]);
    assert(skip_space(s, i) == i);
}

/// The text `p` stands at position `i` of `s`.
pub open spec fn text_at(s: Seq<char>, i: int, p: Seq<char>) -> bool {
    0 <= i && i + p.len() <= s.len() && s.subrange(i, i + p.len()) == p
}

/// Position `i` is the end of the text or holds a blank.
pub open spec fn ends_or_space(s: Seq<char>, i: int) -> bool {
    i == s.len() || (0 <= i < s.len() && s[i] == ' ')
}

proof fn lemma_text_at_split(s: Seq<char>, i: int, a: Seq<char>, b: Seq<char>)
    requires
        text_at(s, i, a + b),
    ensures
        text_at(s, i, a),
        text_at(s, i + a.len(), b),
{
    assert forall|k: int| 0 <= k < a.len() implies s.subrange(i, i + a.len())[k] == a[k] by {
        assert(s.subrange(i, i + (a + b).len())[k] == (a + b)[k]);
    }
    assert(s.subrange(i, i + a.len()) =~= a);
    assert forall|k: int| 0 <= k < b.len() implies s.subrange(i + a.len(), i + a.len() + b.len())[k] == b[k] by {
        assert(s.subrange(i, i + (a + b).len())[a.len() + k] == (a + b)[a.len() + k]);
    }
    assert(s.subrange(i + a.len(), i + a.len() + b.len()) =~= b);
}

proof fn lemma_text_at_char(s: Seq<char>, i: int, p: Seq<char>, k: int)
    requires
        text_at(s, i, p),
        0 <= k < p.len(),
    ensures
        s[i + k] == p[k],
{
    assert(s.subrange(i, i + p.len())[k] == p[k]);
}

proof fn lemma_join_assoc(a: Seq<DiceToken>, b: Seq<DiceToken>, r: Result<Seq<DiceToken>, TokenError>)
    ensures
        join_tokens(a, join_tokens(b, r)) == join_tokens(a + b, r),
        prepend(b[0], r) == join_tokens(seq![b[0]], r),
{
    match r {
        Ok(ts) => {
            assert(a + (b + ts) =~= (a + b) + ts);
        },
        Err(e) => {
        },
    }
}

/// Whether every die of an expression is written as itself: a standard die as such.
pub open spec fn dice_canonical(m: DiceModel) -> bool {
    forall|i: int| 0 <= i < m.0.len() ==> (#[trigger] m.0[i]).0 == crate::dice::die_of(faces(m.0[i].0) as u8)
}

proof fn lemma_dice_piece(s: Seq<char>, i: int, t: Term)
    requires
        term_writable(t),
        t.0 == crate::dice::die_of(faces(t.0) as u8),
        text_at(s, i, crate::dice_expression::term_dice_text(t)),
        ends_or_space(s, i + crate::dice_expression::term_dice_text(t).len()),
    ensures
        dice_tokens_from(s, i) == join_tokens(
            seq![DiceToken::Dice(term_dice(t))],
            dice_tokens_from(s, i + crate::dice_expression::term_dice_text(t).len()),
        ),
{
    let c = t.1 as nat;
    let f = faces(t.0);
    assert(f <= 255);
    assert(crate::dice_expression::term_dice_text(t) =~= decimal(c) + seq!['d'] + decimal(f));
    lemma_dice_step(s, i, c, f);
    lemma_join_assoc(Seq::empty(), seq![DiceToken::Dice(term_dice(t))], dice_tokens_from(s, i + crate::dice_expression::term_dice_text(t).len()));
    match dice_tokens_from(s, i + crate::dice_expression::term_dice_text(t).len()) {
        Ok(ts) => {
        },
        Err(e) => {
        },
    }
}

#[verifier::rlimit(100)]
proof fn lemma_factor_piece(s: Seq<char>, i: int, f: int)
    requires
        -isize::MAX <= f <= isize::MAX,
        text_at(s, i, seq![' ', '×', ' '] + signed_decimal(f) + seq![')']),
        ends_or_space(s, i + (seq![' ', '×', ' '] + signed_decimal(f) + seq![')']).len()),
    ensures
        dice_tokens_from(s, i) == join_tokens(
            factor_tokens(f),
            dice_tokens_from(s, i + (seq![' ', '×', ' '] + signed_decimal(f) + seq![')']).len()),
        ),
{
    let p = seq![' ', '×', ' '] + signed_decimal(f) + seq![')'];
    let e = i + p.len();
    let rest = dice_tokens_from(s, e);
    lemma_text_at_split(s, i, seq![' ', '×', ' '] + signed_decimal(f), seq![')']);
    lemma_text_at_split(s, i, seq![' ', '×', ' '], signed_decimal(f));
    lemma_text_at_char(s, i, p, 0);
    lemma_text_at_char(s, i, p, 1);
    lemma_text_at_char(s, i, p, 2);
    lemma_text_at_char(s, i, p, p.len() - 1);
    lemma_space_step(s, i);
    lemma_char_step(s, i + 1, DiceToken::Times);
    lemma_space_step(s, i + 2);
    let close = e - 1;
    lemma_char_step(s, close, DiceToken::Close);
    if f < 0 {
        let n = (-f) as nat;
        assert(signed_decimal(f) == seq!['-'] + decimal(n));
        lemma_text_at_split(s, i + 3, seq!['-'], decimal(n));
        lemma_text_at_char(s, i + 3, seq!['-'], 0);
        lemma_char_step(s, i + 3, DiceToken::Minus);
        assert(close == i + 4 + decimal(n).len());
        lemma_number_step(s, i + 4, n);
        match rest {
            Ok(ts) => {
                assert(seq![DiceToken::Times] + (seq![DiceToken::Minus] + (seq![DiceToken::Number(n as isize)]
                    + (seq![DiceToken::Close] + ts))) =~= factor_tokens(f) + ts);
            },
            Err(_) => {
            },
        }
    } else {
        let n = f as nat;
        assert(close == i + 3 + decimal(n).len());
        lemma_number_step(s, i + 3, n);
        match rest {
            Ok(ts) => {
                assert(seq![DiceToken::Times] + (seq![DiceToken::Number(n as isize)] + (seq![DiceToken::Close]
                    + ts)) =~= factor_tokens(f) + ts);
            },
            Err(_) => {
            },
        }
    }
}

pub open spec fn factor_text(f: int) -> Seq<char> {
    seq![' ', '×', ' '] + signed_decimal(f) + seq![')']
}

#[verifier::rlimit(100)]
proof fn lemma_head_piece(s: Seq<char>, i: int, t: Term)
    requires
        term_writable(t),
        t.0 == crate::dice::die_of(faces(t.0) as u8),
        text_at(s, i, crate::dice_expression::head_text(t)),
        ends_or_space(s, i + crate::dice_expression::head_text(t).len()),
    ensures
        dice_tokens_from(s, i) == join_tokens(
            head_tokens(t),
            dice_tokens_from(s, i + crate::dice_expression::head_text(t).len()),
        ),
{
    let tdt = crate::dice_expression::term_dice_text(t);
    let e = i + crate::dice_expression::head_text(t).len();
    let rest = dice_tokens_from(s, e);
    let d = seq![DiceToken::Dice(term_dice(t))];
    if t.2 == -1 {
        assert(crate::dice_expression::head_text(t) == seq!['-'] + tdt);
        lemma_text_at_split(s, i, seq!['-'], tdt);
        lemma_text_at_char(s, i, seq!['-'], 0);
        lemma_char_step(s, i, DiceToken::Minus);
        lemma_dice_piece(s, i + 1, t);
        lemma_join_assoc(seq![DiceToken::Minus], d, rest);
        lemma_join_assoc(Seq::empty(), seq![DiceToken::Minus], join_tokens(d, rest));
        assert(seq![DiceToken::Minus] + d =~= head_tokens(t));
    } else if t.2 == 1 {
        lemma_dice_piece(s, i, t);
    } else {
        let ft = factor_text(t.2);
        assert(crate::dice_expression::head_text(t) =~= seq!['('] + (tdt + ft));
        lemma_text_at_split(s, i, seq!['('], tdt + ft);
        lemma_text_at_split(s, i + 1, tdt, ft);
        lemma_text_at_char(s, i, seq!['('], 0);
        lemma_text_at_char(s, i + 1 + tdt.len(), ft, 0);
        lemma_char_step(s, i, DiceToken::Open);
        lemma_dice_piece(s, i + 1, t);
        lemma_factor_piece(s, i + 1 + tdt.len(), t.2);
        lemma_join_assoc(d, factor_tokens(t.2), rest);
        lemma_join_assoc(seq![DiceToken::Open], d + factor_tokens(t.2), rest);
        lemma_join_assoc(Seq::empty(), seq![DiceToken::Open], join_tokens(d + factor_tokens(t.2), rest));
        assert(seq![DiceToken::Open] + (d + factor_tokens(t.2)) =~= head_tokens(t));
    }
}

#[verifier::rlimit(100)]
proof fn lemma_medial_piece(s: Seq<char>, i: int, t: Term)
    requires
        term_writable(t),
        t.0 == crate::dice::die_of(faces(t.0) as u8),
        text_at(s, i, crate::dice_expression::medial_text(t)),
        ends_or_space(s, i + crate::dice_expression::medial_text(t).len()),
    ensures
        dice_tokens_from(s, i) == join_tokens(
            medial_tokens(t),
            dice_tokens_from(s, i + crate::dice_expression::medial_text(t).len()),
        ),
{
    let tdt = crate::dice_expression::term_dice_text(t);
    let e = i + crate::dice_expression::medial_text(t).len();
    let rest = dice_tokens_from(s, e);
    let d = seq![DiceToken::Dice(term_dice(t))];
    let mt = crate::dice_expression::medial_text(t);
    lemma_text_at_char(s, i, mt, 0);
    lemma_text_at_char(s, i, mt, 1);
    lemma_text_at_char(s, i, mt, 2);
    lemma_space_step(s, i);
    lemma_space_step(s, i + 2);
    if t.2 == -1 || t.2 == 1 {
        let op = if t.2 == -1 { DiceToken::Minus } else { DiceToken::Plus };
        let lead = if t.2 == -1 { seq![' ', '-', ' '] } else { seq![' ', '+', ' '] };
        assert(mt == lead + tdt);
        lemma_text_at_split(s, i, lead, tdt);
        lemma_char_step(s, i + 1, op);
        lemma_dice_piece(s, i + 3, t);
        lemma_join_assoc(seq![op], d, rest);
        lemma_join_assoc(Seq::empty(), seq![op], join_tokens(d, rest));
        assert(seq![op] + d =~= medial_tokens(t));
    } else {
        let ft = factor_text(t.2);
        assert(mt =~= seq![' ', '+', ' ', '('] + (tdt + ft));
        lemma_text_at_split(s, i, seq![' ', '+', ' ', '('], tdt + ft);
        lemma_text_at_split(s, i + 4, tdt, ft);
        lemma_text_at_char(s, i, mt, 3);
        lemma_text_at_char(s, i + 4 + tdt.len(), ft, 0);
        lemma_char_step(s, i + 1, DiceToken::Plus);
        lemma_char_step(s, i + 3, DiceToken::Open);
        lemma_dice_piece(s, i + 4, t);
        lemma_factor_piece(s, i + 4 + tdt.len(), t.2);
        let body = d + factor_tokens(t.2);
        lemma_join_assoc(d, factor_tokens(t.2), rest);
        lemma_join_assoc(seq![DiceToken::Open], body, rest);
        lemma_join_assoc(seq![DiceToken::Plus], seq![DiceToken::Open] + body, rest);
        lemma_join_assoc(Seq::empty(), seq![DiceToken::Open], join_tokens(body, rest));
        lemma_join_assoc(Seq::empty(), seq![DiceToken::Plus], join_tokens(seq![DiceToken::Open] + body, rest));
        assert(seq![DiceToken::Plus] + (seq![DiceToken::Open] + body) =~= medial_tokens(t));
    }
}

proof fn lemma_addend_piece(s: Seq<char>, i: int, a: int)
    requires
        -isize::MAX <= a <= isize::MAX,
        text_at(s, i, crate::dice_expression::addend_text(a)),
        i + crate::dice_expression::addend_text(a).len() == s.len(),
    ensures
        dice_tokens_from(s, i) == Ok::<Seq<DiceToken>, TokenError>(addend_tokens(a)),
{
    let at = crate::dice_expression::addend_text(a);
    if a != 0 {
        let n = if a < 0 { (-a) as nat } else { a as nat };
        let op = if a < 0 { DiceToken::Minus } else { DiceToken::Plus };
        let lead = if a < 0 { seq![' ', '-', ' '] } else { seq![' ', '+', ' '] };
        assert(at == lead + decimal(n));
        lemma_text_at_split(s, i, lead, decimal(n));
        lemma_text_at_char(s, i, at, 0);
        lemma_text_at_char(s, i, at, 1);
        lemma_text_at_char(s, i, at, 2);
        lemma_space_step(s, i);
        lemma_char_step(s, i + 1, op);
        lemma_space_step(s, i + 2);
        lemma_number_step(s, i + 3, n);
        assert(dice_tokens_from(s, s.len() as int) == Ok::<Seq<DiceToken>, TokenError>(Seq::empty()));
        assert(seq![op] + (seq![DiceToken::Number(n as isize)] + Seq::<DiceToken>::empty()) =~= addend_tokens(a));
    } else {
        assert(dice_tokens_from(s, s.len() as int) == Ok::<Seq<DiceToken>, TokenError>(Seq::empty()));
    }
}

proof fn lemma_medials_text_front(ms: Seq<Term>)
    requires
        ms.len() >= 1,
    ensures
        crate::dice_expression::medials_text(ms) == crate::dice_expression::medial_text(ms[0])
            + crate::dice_expression::medials_text(ms.drop_first()),
    decreases ms.len(),
{
    if ms.len() == 1 {
        assert(ms.drop_last() =~= Seq::<Term>::empty());
        assert(ms.drop_first() =~= Seq::<Term>::empty());
        assert(crate::dice_expression::medial_text(ms[0]) + Seq::<char>::empty() =~= crate::dice_expression::medial_text(ms[0]));
    } else {
        lemma_medials_text_front(ms.drop_last());
        assert(ms.drop_last().drop_first() =~= ms.drop_first().drop_last());
        assert(ms.drop_first().last() == ms.last());
        assert(ms.drop_last()[0] == ms[0]);
        assert(crate::dice_expression::medials_text(ms) =~= crate::dice_expression::medial_text(ms[0])
            + crate::dice_expression::medials_text(ms.drop_first()));
    }
}

proof fn lemma_medials_piece(s: Seq<char>, i: int, ms: Seq<Term>)
    requires
        forall|k: int| 0 <= k < ms.len() ==> term_writable(#[trigger] ms[k]),
        forall|k: int| 0 <= k < ms.len() ==> (#[trigger] ms[k]).0 == crate::dice::die_of(faces(ms[k].0) as u8),
        text_at(s, i, crate::dice_expression::medials_text(ms)),
        ends_or_space(s, i + crate::dice_expression::medials_text(ms).len()),
    ensures
        dice_tokens_from(s, i) == join_tokens(
            medials_tokens(ms),
            dice_tokens_from(s, i + crate::dice_expression::medials_text(ms).len()),
        ),
    decreases ms.len(),
{
    if ms.len() == 0 {
        assert(crate::dice_expression::medials_text(ms) == Seq::<char>::empty());
        match dice_tokens_from(s, i) {
            Ok(ts) => {
                assert(Seq::<DiceToken>::empty() + ts =~= ts);
            },
            Err(_) => {
            },
        }
    } else {
        let t = ms[0];
        let rest = ms.drop_first();
        lemma_medials_text_front(ms);
        let mt = crate::dice_expression::medial_text(t);
        let rt = crate::dice_expression::medials_text(rest);
        lemma_text_at_split(s, i, mt, rt);
        assert forall|k: int| 0 <= k < rest.len() implies term_writable(#[trigger] rest[k]) by {
            assert(rest[k] == ms[k + 1]);
        }
        assert forall|k: int| 0 <= k < rest.len() implies (#[trigger] rest[k]).0 == crate::dice::die_of(
            faces(rest[k].0) as u8,
        ) by {
            assert(rest[k] == ms[k + 1]);
        }
        if rest.len() > 0 {
            lemma_medials_text_front(rest);
            let nt = crate::dice_expression::medial_text(rest[0]);
            lemma_text_at_split(s, i + mt.len(), nt, crate::dice_expression::medials_text(rest.drop_first()));
            lemma_text_at_char(s, i + mt.len(), nt, 0);
            assert(nt[0] == ' ');
        } else {
            assert(rt == Seq::<char>::empty());
        }
        assert(term_writable(t));
        lemma_medial_piece(s, i, t);
        lemma_medials_piece(s, i + mt.len(), rest);
        let end = dice_tokens_from(s, i + mt.len() + rt.len());
        lemma_join_assoc(medial_tokens(t), medials_tokens(rest), end);
    }
}

/// The tokens of an expression's text form are those of its head, each further term and its
/// addend.
#[verifier::rlimit(60)]
pub proof fn lemma_serialize_tokens(m: DiceModel)
    requires
        model_writable(m),
        dice_canonical(m),
    ensures
        dice_tokens_from(serialize_spec(m), 0) == Ok::<Seq<DiceToken>, TokenError>(model_tokens(m)),
{
    let s = serialize_spec(m);
    let h = m.0[0];
    let ms = m.0.drop_first();
    let ht = crate::dice_expression::head_text(h);
    let mst = crate::dice_expression::medials_text(ms);
    let at = crate::dice_expression::addend_text(m.1);
    assert(s == ht + mst + at);
    assert(s.subrange(0, s.len() as int) =~= s);
    assert(text_at(s, 0, (ht + mst) + at));
    lemma_text_at_split(s, 0, ht + mst, at);
    lemma_text_at_split(s, 0, ht, mst);
    assert forall|k: int| 0 <= k < ms.len() implies term_writable(#[trigger] ms[k]) by {
        assert(ms[k] == m.0[k + 1]);
    }
    assert forall|k: int| 0 <= k < ms.len() implies (#[trigger] ms[k]).0 == crate::dice::die_of(faces(ms[k].0) as u8) by {
        assert(ms[k] == m.0[k + 1]);
    }
    if m.1 != 0 {
        lemma_text_at_char(s, (ht.len() + mst.len()) as int, at, 0);
    }
    if ms.len() > 0 {
        lemma_medials_text_front(ms);
        let nt = crate::dice_expression::medial_text(ms[0]);
        lemma_text_at_split(s, ht.len() as int, nt, crate::dice_expression::medials_text(ms.drop_first()));
        lemma_text_at_char(s, ht.len() as int, nt, 0);
    }
    assert(term_writable(h));
    lemma_head_piece(s, 0, h);
    lemma_medials_piece(s, ht.len() as int, ms);
    lemma_addend_piece(s, (ht.len() + mst.len()) as int, m.1);
    lemma_join_assoc(head_tokens(h), medials_tokens(ms), Ok::<Seq<DiceToken>, TokenError>(addend_tokens(m.1)));
    lemma_join_assoc(head_tokens(h) + medials_tokens(ms), addend_tokens(m.1), Ok::<Seq<DiceToken>, TokenError>(Seq::empty()));
    assert(head_tokens(h) + medials_tokens(ms) + addend_tokens(m.1) =~= model_tokens(m));
}

/// Reading the text form of an expression gives the same expression back, term for term and
/// with its addend, when no two terms share die and factor (as in every expression value), every
/// die is written as itself and no factor or addend is the most negative machine integer.
pub proof fn lemma_round_trip(m: DiceModel)
    requires
        model_writable(m),
        dice_canonical(m),
        distinct_keys(m.0),
    ensures
        parse_expression_spec(serialize_spec(m)) == Ok::<DiceModel, ParseDiceExpressionError>(m),
{
    lemma_serialize_tokens(m);
    lemma_parse_model_tokens(m);
}

} // verus!
