use vstd::prelude::*;

use crate::errors::InterpolationError;
use crate::errors::TokenError;
use crate::errors::TokenErrorDetails;
use crate::evaluator::op_view;
use crate::evaluator::tape_ops;
use crate::evaluator::InterpolationOperation;
use crate::evaluator::OpView;
use crate::lexer::tokens_view;
use crate::parse_position::Position;
use crate::parse_position::PositionRange;
use crate::text::chars_to_string;
use crate::tokenizer::token_view;
use crate::tokenizer::StructureKeyword;
use crate::tokenizer::Token;
use crate::tokenizer::TokenView;

verus! {

pub type Tape = Vec<(InterpolationOperation, PositionRange)>;

pub type ParseError = (InterpolationError, PositionRange);

/// What the parser finds at a position: a token, the end of the input, or the token error that
/// stopped the lexer there.
pub enum Look {
    Tok(TokenView),
    End,
    Fail(TokenError),
}

/// Why a document cannot be parsed.
/// Why a document cannot be parsed; each expectation holds the index of the token found instead
/// (an index past the last token is the end of the input).
pub enum ParseFailure {
    Scan(TokenError),
    ExpectedIdentifier(int),
    ExpectedCloseParen(int),
    ExpectedExpression(int),
}

/// Instructions for a piece of the input, and the position after it.
pub type Parsed = Result<(Seq<OpView>, int), ParseFailure>;

/// The number of tokens left from `p`.
pub open spec fn rem(ts: Seq<TokenView>, p: int) -> nat {
    if 0 <= p < ts.len() {
        (ts.len() - p) as nat
    } else {
        0
    }
}

pub open spec fn look(ts: Seq<TokenView>, fe: Option<TokenError>, p: int) -> Look {
    if 0 <= p < ts.len() {
        Look::Tok(ts[p])
    } else {
        match fe {
            Some(e) => Look::Fail(e),
            None => Look::End,
        }
    }
}

/// The text naming a token in error messages.
pub open spec fn token_text(t: TokenView) -> Seq<char> {
    match t {
        TokenView::Text(s) => s,
        TokenView::Identifier(s) => s,
        TokenView::String(s) => s,
        TokenView::Number(n) => crate::numeric::signed_decimal(n),
        TokenView::Dice(d) => crate::dice::dice_text(d),
        TokenView::Keyword(StructureKeyword::Par) => "par"@,
        TokenView::Keyword(StructureKeyword::Sub) => "sub"@,
        TokenView::Keyword(StructureKeyword::Italic) => "italic"@,
        TokenView::Keyword(StructureKeyword::Bold) => "bold"@,
        TokenView::Plus => "+"@,
        TokenView::Minus => "-"@,
        TokenView::Asterisk => "*"@,
        TokenView::SlashLessThan => "/<"@,
        TokenView::SlashGreaterThan => "/>"@,
        TokenView::OpenParenthesis => "("@,
        TokenView::CloseParenthesis => ")"@,
        TokenView::Dot => "."@,
        TokenView::Dollar => "$"@,
    }
}

/// The text naming the token at `i`, or the end of the input.
pub open spec fn found_text(ts: Seq<TokenView>, i: int) -> Seq<char> {
    if 0 <= i < ts.len() {
        token_text(ts[i])
    } else {
        "end of file"@
    }
}

/// The position reported for the token at `i`: its own, or the last token's past the end.
pub open spec fn position_spec(ts: Seq<(Token, PositionRange)>, i: int) -> PositionRange {
    if 0 <= i < ts.len() {
        ts[i].1
    } else if ts.len() > 0 {
        ts[ts.len() - 1].1
    } else {
        PositionRange { start: Position { line: 0, column: 0 }, end: Position { line: 0, column: 0 } }
    }
}

/// Whether an error is the one a parse failure names, with the text of the token found.
pub open spec fn error_is(e: InterpolationError, f: ParseFailure, ts: Seq<TokenView>) -> bool {
    match f {
        ParseFailure::Scan(k) => e == InterpolationError::ScanError(k),
        ParseFailure::ExpectedIdentifier(i) => e matches InterpolationError::ExpectedIdentifier(t) && t@
            == found_text(ts, i),
        ParseFailure::ExpectedCloseParen(i) => e matches InterpolationError::ExpectedCloseParen(t) && t@
            == found_text(ts, i),
        ParseFailure::ExpectedExpression(i) => e matches InterpolationError::ExpectedExpression(t) && t@
            == found_text(ts, i),
    }
}

/// Whether an error is the one a parse failure names, with the found token's text and position,
/// or the token error's own position.
pub open spec fn error_at(
    e: ParseError,
    f: ParseFailure,
    ts: Seq<(Token, PositionRange)>,
    fail: Option<TokenErrorDetails>,
) -> bool {
    &&& error_is(e.0, f, tokens_view(ts))
    &&& match f {
        ParseFailure::Scan(_) => (fail matches Some(d) && e.1 == d.position),
        ParseFailure::ExpectedIdentifier(i) => e.1 == position_spec(ts, i),
        ParseFailure::ExpectedCloseParen(i) => e.1 == position_spec(ts, i),
        ParseFailure::ExpectedExpression(i) => e.1 == position_spec(ts, i),
    }
}

/// The instructions in reverse order.
pub open spec fn reversed(s: Seq<OpView>) -> Seq<OpView>
    decreases s.len(),
{
    if s.len() == 0 {
        s
    } else {
        seq![s.last()] + reversed(s.drop_last())
    }
}

/// `('.' (identifier | number))*` after a variable, the chain's instructions so far in `acc`.
pub open spec fn variable_rest(ts: Seq<TokenView>, fe: Option<TokenError>, p: int, acc: Seq<OpView>) -> Parsed
    decreases rem(ts, p), 0nat,
{
    match look(ts, fe, p) {
        Look::Fail(e) => Err(ParseFailure::Scan(e)),
        Look::Tok(TokenView::Dot) => match look(ts, fe, p + 1) {
            Look::Tok(TokenView::Identifier(s)) => variable_rest(ts, fe, p + 2, acc.push(OpView::GetProperty(s))),
            Look::Tok(TokenView::Number(n)) => if 0 <= n <= usize::MAX {
                variable_rest(ts, fe, p + 2, acc.push(OpView::GetIndex(n as usize)))
            } else {
                Err(ParseFailure::ExpectedIdentifier(p + 1))
            },
            Look::Fail(e) => Err(ParseFailure::Scan(e)),
            _ => Err(ParseFailure::ExpectedIdentifier(p + 1)),
        },
        _ => Ok((acc, p)),
    }
}

/// `term = string | number | dice | variable | '(' expression ')'`
pub open spec fn term_spec(ts: Seq<TokenView>, fe: Option<TokenError>, p: int) -> Parsed
    decreases rem(ts, p), 1nat,
{
    match look(ts, fe, p) {
        Look::Fail(e) => Err(ParseFailure::Scan(e)),
        Look::End => Err(ParseFailure::ExpectedExpression(p)),
        Look::Tok(t) => match t {
            TokenView::String(s) => Ok((seq![OpView::CreateString(s)], p + 1)),
            TokenView::Number(n) => Ok((seq![OpView::CreateNumber(n as isize)], p + 1)),
            TokenView::Dice(d) => Ok((seq![OpView::CreateDice(d)], p + 1)),
            TokenView::OpenParenthesis => match expression_spec(ts, fe, p + 1) {
                Err(e) => Err(e),
                Ok((ops, q)) => match look(ts, fe, q) {
                    Look::Tok(TokenView::CloseParenthesis) => Ok((ops, q + 1)),
                    Look::Fail(e) => Err(ParseFailure::Scan(e)),
                    _ => Err(ParseFailure::ExpectedCloseParen(q)),
                },
            },
            TokenView::Identifier(name) => variable_rest(ts, fe, p + 1, seq![OpView::GetVariable(name)]),
            _ => Err(ParseFailure::ExpectedExpression(p)),
        },
    }
}

/// The prefix operators `-`, `$` and `+` from `p` on, in reading order.
pub open spec fn prefix_spec(ts: Seq<TokenView>, fe: Option<TokenError>, p: int) -> Parsed
    decreases rem(ts, p), 0nat,
{
    match look(ts, fe, p) {
        Look::Fail(e) => Err(ParseFailure::Scan(e)),
        Look::Tok(TokenView::Minus) => prefix_cons(OpView::Negate, prefix_spec(ts, fe, p + 1)),
        Look::Tok(TokenView::Dollar) => prefix_cons(OpView::Stringify, prefix_spec(ts, fe, p + 1)),
        Look::Tok(TokenView::Plus) => prefix_cons(OpView::Sign, prefix_spec(ts, fe, p + 1)),
        _ => Ok((Seq::empty(), p)),
    }
}

pub open spec fn prefix_cons(op: OpView, r: Parsed) -> Parsed {
    match r {
        Ok((ops, q)) => Ok((seq![op] + ops, q)),
        Err(e) => Err(e),
    }
}

/// `unary = ('-' | '$' | '+')* term`: the term, then its prefix operators innermost first.
pub open spec fn unary_spec(ts: Seq<TokenView>, fe: Option<TokenError>, p: int) -> Parsed
    decreases rem(ts, p), 2nat,
{
    match prefix_spec(ts, fe, p) {
        Err(e) => Err(e),
        Ok((pre, q)) => if q < p {
            Err(ParseFailure::ExpectedExpression(p))
        } else {
            match term_spec(ts, fe, q) {
                Ok((ops, r)) => Ok((ops + reversed(pre), r)),
                Err(e) => Err(e),
            }
        },
    }
}

pub open spec fn mul_op(t: TokenView) -> Option<OpView> {
    match t {
        TokenView::Asterisk => Some(OpView::Multiply),
        TokenView::SlashLessThan => Some(OpView::FloorDivide),
        TokenView::SlashGreaterThan => Some(OpView::CeilingDivide),
        _ => None,
    }
}

pub open spec fn add_op(t: TokenView) -> Option<OpView> {
    match t {
        TokenView::Plus => Some(OpView::Add),
        TokenView::Minus => Some(OpView::Subtract),
        _ => None,
    }
}

/// `(('*' | '/<' | '/>') unary)*` from `p`, left to right.
pub open spec fn mul_rest(ts: Seq<TokenView>, fe: Option<TokenError>, p: int, acc: Seq<OpView>) -> Parsed
    decreases rem(ts, p), 3nat,
{
    match look(ts, fe, p) {
        Look::Fail(e) => Err(ParseFailure::Scan(e)),
        Look::Tok(t) => match mul_op(t) {
            Some(op) => match unary_spec(ts, fe, p + 1) {
                Err(e) => Err(e),
                Ok((ops, q)) => if q <= p {
                    Err(ParseFailure::ExpectedExpression(p))
                } else {
                    mul_rest(ts, fe, q, acc + ops + seq![op])
                },
            },
            None => Ok((acc, p)),
        },
        Look::End => Ok((acc, p)),
    }
}

/// `mul = unary (('*' | '/<' | '/>') unary)*`
pub open spec fn mul_spec(ts: Seq<TokenView>, fe: Option<TokenError>, p: int) -> Parsed
    decreases rem(ts, p), 4nat,
{
    match unary_spec(ts, fe, p) {
        Err(e) => Err(e),
        Ok((ops, q)) => if q < p || rem(ts, q) > rem(ts, p) {
            Err(ParseFailure::ExpectedExpression(p))
        } else {
            mul_rest(ts, fe, q, ops)
        },
    }
}

/// `(('+' | '-') mul)*` from `p`, left to right.
pub open spec fn add_rest(ts: Seq<TokenView>, fe: Option<TokenError>, p: int, acc: Seq<OpView>) -> Parsed
    decreases rem(ts, p), 5nat,
{
    match look(ts, fe, p) {
        Look::Fail(e) => Err(ParseFailure::Scan(e)),
        Look::Tok(t) => match add_op(t) {
            Some(op) => match mul_spec(ts, fe, p + 1) {
                Err(e) => Err(e),
                Ok((ops, q)) => if q <= p {
                    Err(ParseFailure::ExpectedExpression(p))
                } else {
                    add_rest(ts, fe, q, acc + ops + seq![op])
                },
            },
            None => Ok((acc, p)),
        },
        Look::End => Ok((acc, p)),
    }
}

/// `add = mul (('+' | '-') mul)*`
pub open spec fn add_spec(ts: Seq<TokenView>, fe: Option<TokenError>, p: int) -> Parsed
    decreases rem(ts, p), 6nat,
{
    match mul_spec(ts, fe, p) {
        Err(e) => Err(e),
        Ok((ops, q)) => if q < p || rem(ts, q) > rem(ts, p) {
            Err(ParseFailure::ExpectedExpression(p))
        } else {
            add_rest(ts, fe, q, ops)
        },
    }
}

/// `expression = text | add`
pub open spec fn expression_spec(ts: Seq<TokenView>, fe: Option<TokenError>, p: int) -> Parsed
    decreases rem(ts, p), 7nat,
{
    match look(ts, fe, p) {
        Look::Tok(TokenView::Text(s)) => Ok((seq![OpView::CreateString(s)], p + 1)),
        _ => add_spec(ts, fe, p),
    }
}

pub open spec fn start_op(k: StructureKeyword) -> OpView {
    match k {
        StructureKeyword::Bold => OpView::StartBold,
        StructureKeyword::Italic => OpView::StartItalic,
        StructureKeyword::Sub => OpView::StartListItem,
        StructureKeyword::Par => OpView::StartParagraph,
    }
}

pub open spec fn end_op(k: StructureKeyword) -> OpView {
    match k {
        StructureKeyword::Bold => OpView::EndBold,
        StructureKeyword::Italic => OpView::EndItalic,
        _ => OpView::EndBlockStart,
    }
}

/// A command at `p`: its start instruction, its argument, its closing instruction.
pub open spec fn command_spec(ts: Seq<TokenView>, fe: Option<TokenError>, p: int, k: StructureKeyword) -> Parsed
    decreases rem(ts, p), 8nat,
{
    if !(0 <= p < ts.len()) {
        Err(ParseFailure::ExpectedExpression(p))
    } else {
        match args_spec(ts, fe, p + 1) {
            Err(e) => Err(e),
            Ok((ops, q)) => Ok((seq![start_op(k)] + ops + seq![end_op(k)], q)),
        }
    }
}

/// The items of a command argument from `p` up to its `)`: commands, and expressions each
/// appended.
pub open spec fn args_rest(ts: Seq<TokenView>, fe: Option<TokenError>, p: int, acc: Seq<OpView>) -> Parsed
    decreases rem(ts, p), 9nat,
{
    match look(ts, fe, p) {
        Look::Fail(e) => Err(ParseFailure::Scan(e)),
        Look::Tok(TokenView::CloseParenthesis) => Ok((acc, p + 1)),
        Look::Tok(TokenView::Keyword(k)) => match command_spec(ts, fe, p, k) {
            Err(e) => Err(e),
            Ok((ops, q)) => if q <= p {
                Err(ParseFailure::ExpectedExpression(p))
            } else {
                args_rest(ts, fe, q, acc + ops)
            },
        },
        _ => match expression_spec(ts, fe, p) {
            Err(e) => Err(e),
            Ok((ops, q)) => if q <= p {
                Err(ParseFailure::ExpectedExpression(p))
            } else {
                args_rest(ts, fe, q, acc + ops + seq![OpView::Append])
            },
        },
    }
}

/// The optional argument of a command, `'(' (command | expression)* ')'`, at `p`.
pub open spec fn args_spec(ts: Seq<TokenView>, fe: Option<TokenError>, p: int) -> Parsed
    decreases rem(ts, p), 10nat,
{
    match look(ts, fe, p) {
        Look::Fail(e) => Err(ParseFailure::Scan(e)),
        Look::Tok(TokenView::OpenParenthesis) => args_rest(ts, fe, p + 1, Seq::empty()),
        _ => Ok((Seq::empty(), p)),
    }
}

/// `(command | expression)*` from `p` to the end, each expression appended.
pub open spec fn document_rest(ts: Seq<TokenView>, fe: Option<TokenError>, p: int, acc: Seq<OpView>) -> Result<
    Seq<OpView>,
    ParseFailure,
>
    decreases rem(ts, p), 11nat,
{
    match look(ts, fe, p) {
        Look::End => Ok(acc),
        Look::Fail(e) => Err(ParseFailure::Scan(e)),
        Look::Tok(TokenView::Keyword(k)) => match command_spec(ts, fe, p, k) {
            Err(e) => Err(e),
            Ok((ops, q)) => if q <= p {
                Err(ParseFailure::ExpectedExpression(p))
            } else {
                document_rest(ts, fe, q, acc + ops)
            },
        },
        _ => match expression_spec(ts, fe, p) {
            Err(e) => Err(e),
            Ok((ops, q)) => if q <= p {
                Err(ParseFailure::ExpectedExpression(p))
            } else {
                document_rest(ts, fe, q, acc + ops + seq![OpView::Append])
            },
        },
    }
}

/// The instruction tape of a document read from tokens that stop at an optional token error.
pub open spec fn document_spec(ts: Seq<TokenView>, fe: Option<TokenError>) -> Result<Seq<OpView>, ParseFailure> {
    document_rest(ts, fe, 0, Seq::empty())
}

pub open spec fn fail_view(f: Option<TokenErrorDetails>) -> Option<TokenError> {
    match f {
        Some(d) => Some(d.error),
        None => None,
    }
}

/// A parse function's result matches its rule: the same end position and the rule's
/// instructions added to the tape, or the rule's error.
pub open spec fn parsed_as(
    spec: Parsed,
    r: Result<usize, ParseError>,
    before: Seq<OpView>,
    after: Seq<OpView>,
    ts: Seq<(Token, PositionRange)>,
    fail: Option<TokenErrorDetails>,
) -> bool {
    match (r, spec) {
        (Ok(q), Ok((ops, q2))) => q2 == q as int && after == before + ops,
        (Err(e), Err(f)) => error_at(e, f, ts, fail),
        _ => false,
    }
}

/// A short text naming a token, for error messages.
pub fn describe_token(t: &Token) -> (r: String)
    ensures
        r@ == token_text(token_view(*t)),
{
    match t {
        Token::Text(s) => s.clone(),
        Token::Identifier(s) => s.clone(),
        Token::String(s) => s.clone(),
        Token::Number(n) => {
            let mut out: Vec<char> = Vec::new();
            crate::numeric::push_signed_decimal(&mut out, *n);
            chars_to_string(&out)
        },
        Token::Dice(d) => d.to_string(),
        Token::Keyword(StructureKeyword::Par) => "par".to_owned(),
        Token::Keyword(StructureKeyword::Sub) => "sub".to_owned(),
        Token::Keyword(StructureKeyword::Italic) => "italic".to_owned(),
        Token::Keyword(StructureKeyword::Bold) => "bold".to_owned(),
        Token::Plus => "+".to_owned(),
        Token::Minus => "-".to_owned(),
        Token::Asterisk => "*".to_owned(),
        Token::SlashLessThan => "/<".to_owned(),
        Token::SlashGreaterThan => "/>".to_owned(),
        Token::OpenParenthesis => "(".to_owned(),
        Token::CloseParenthesis => ")".to_owned(),
        Token::Dot => ".".to_owned(),
        Token::Dollar => "$".to_owned(),
    }
}

/// The text naming the token at `p`, or the end of the input.
fn found_at(ts: &Vec<(Token, PositionRange)>, p: usize) -> (r: String)
    ensures
        r@ == found_text(tokens_view(ts@), p as int),
{
    if p < ts.len() {
        describe_token(&ts[p].0)
    } else {
        "end of file".to_owned()
    }
}

/// The position of the token at `p`, or of the last token at the end.
fn position_at(ts: &Vec<(Token, PositionRange)>, p: usize) -> (r: PositionRange)
    ensures
        r == position_spec(ts@, p as int),
{
    if p < ts.len() {
        ts[p].1
    } else if ts.len() > 0 {
        ts[ts.len() - 1].1
    } else {
        PositionRange::none()
    }
}

/// The token error past the last token, if reading stopped on one.
fn scan_failure(fail: &Option<TokenErrorDetails>) -> (r: Option<ParseError>)
    ensures
        match (r, fail_view(*fail)) {
            (Some(e), Some(k)) => e.0 == InterpolationError::ScanError(k) && (fail matches Some(d) && e.1
                == d.position),
            (None, None) => true,
            _ => false,
        },
{
    match fail {
        Some(d) => Some((InterpolationError::ScanError(d.error), d.position)),
        None => None,
    }
}

/// The error for the position `p` past the last token: the pending token error, or `missing`.
fn past_end(ts: &Vec<(Token, PositionRange)>, fail: &Option<TokenErrorDetails>, p: usize, missing: InterpolationError) -> (r: ParseError)
    requires
        p >= ts@.len(),
    ensures
        match look(tokens_view(ts@), fail_view(*fail), p as int) {
            Look::Fail(k) => r.0 == InterpolationError::ScanError(k) && (fail matches Some(d) && r.1 == d.position),
            _ => r.0 == missing && r.1 == position_spec(ts@, p as int),
        },
{
    match scan_failure(fail) {
        Some(e) => e,
        None => (missing, position_at(ts, p)),
    }
}

proof fn lemma_tok(ts: Seq<(Token, PositionRange)>, p: int)
    requires
        0 <= p < ts.len(),
    ensures
        tokens_view(ts)[p] == token_view(ts[p].0),
        tokens_view(ts).len() == ts.len(),
{
}

/// `variable = identifier ('.' (identifier | number))*`, the identifier at `p`.
fn parse_variable(ts: &Vec<(Token, PositionRange)>, fail: &Option<TokenErrorDetails>, p: usize, name: &String, out: &mut Tape) -> (r: Result<usize, ParseError>)
    requires
        p < ts@.len(),
    ensures
        parsed_as(
            variable_rest(tokens_view(ts@), fail_view(*fail), p + 1, seq![OpView::GetVariable(name@)]),
            r,
            tape_ops(old(out)@),
            tape_ops(final(out)@),
            ts@,
            *fail,
        ),
        r matches Ok(q) ==> p < q <= ts@.len(),
{
    let ghost tv = tokens_view(ts@);
    let ghost fe = fail_view(*fail);
    let len = ts.len();
    let ghost before = tape_ops(out@);
    out.push((InterpolationOperation::GetVariable(name.clone()), ts[p].1));
    let ghost acc0 = seq![OpView::GetVariable(name@)];
    assert(tape_ops(out@) =~= before + acc0);
    assert(tape_ops(out@).subrange(before.len() as int, tape_ops(out@).len() as int) =~= acc0);
    assert(tape_ops(out@).subrange(0, before.len() as int) =~= before);
    let mut q = p + 1;
    loop
        invariant
            p < q <= ts@.len(),
            len == ts@.len(),
            tv == tokens_view(ts@),
            fe == fail_view(*fail),
            before == tape_ops(old(out)@),
            acc0 == seq![OpView::GetVariable(name@)],
            tape_ops(out@).len() >= before.len(),
            tape_ops(out@).subrange(0, before.len() as int) == before,
            variable_rest(tv, fe, p + 1, acc0) == variable_rest(
                tv,
                fe,
                q as int,
                tape_ops(out@).subrange(before.len() as int, tape_ops(out@).len() as int),
            ),
        decreases ts@.len() - q,
    {
        let ghost acc = tape_ops(out@).subrange(before.len() as int, tape_ops(out@).len() as int);
        assert(tape_ops(out@) =~= before + acc);
        assert(tv.len() == ts@.len());
        if q >= len {
            let f = scan_failure(fail);
            if let Some(e) = f {
                return Err(e);
            }
            return Ok(q);
        }
        proof {
            lemma_tok(ts@, q as int);
        }
        match &ts[q].0 {
            Token::Dot => {
                if q + 1 >= len {
                    return Err(past_end(ts, fail, q + 1, InterpolationError::ExpectedIdentifier(found_at(ts, q + 1))));
                }
                proof {
                    lemma_tok(ts@, q as int + 1);
                }
                let op = match &ts[q + 1].0 {
                    Token::Identifier(s) => InterpolationOperation::GetProperty(s.clone()),
                    Token::Number(n) => {
                        if *n < 0 {
                            return Err((InterpolationError::ExpectedIdentifier(found_at(ts, q + 1)), ts[q + 1].1));
                        }
                        InterpolationOperation::GetIndex(*n as usize)
                    },
                    _ => {
                        return Err((InterpolationError::ExpectedIdentifier(found_at(ts, q + 1)), ts[q + 1].1));
                    },
                };
                let ghost o = op_view(op);
                out.push((op, ts[q + 1].1));
                proof {
                    assert(tape_ops(out@) =~= before + acc.push(o));
                    assert(tape_ops(out@).subrange(before.len() as int, tape_ops(out@).len() as int) =~= acc.push(o));
                    assert(tape_ops(out@).subrange(0, before.len() as int) =~= before);
                }
                q = q + 2;
            },
            _ => {
                return Ok(q);
            },
        }
    }
}

/// The pending token error at `p`, where `p` is past the last token and reading stopped on one.
fn pending(ts: &Vec<(Token, PositionRange)>, fail: &Option<TokenErrorDetails>, p: usize) -> (r: Option<ParseError>)
    ensures
        r is Some <==> look(tokens_view(ts@), fail_view(*fail), p as int) is Fail,
        r matches Some(e) ==> (look(tokens_view(ts@), fail_view(*fail), p as int) matches Look::Fail(k)
            && e.0 == InterpolationError::ScanError(k) && (fail matches Some(d) && e.1 == d.position)),
{
    if p < ts.len() {
        None
    } else {
        scan_failure(fail)
    }
}

/// `term = string | number | dice | variable | '(' expression ')'`
fn parse_term(ts: &Vec<(Token, PositionRange)>, fail: &Option<TokenErrorDetails>, p: usize, out: &mut Tape) -> (r: Result<usize, ParseError>)
    requires
        p <= ts@.len(),
    ensures
        parsed_as(term_spec(tokens_view(ts@), fail_view(*fail), p as int), r, tape_ops(old(out)@), tape_ops(final(out)@), ts@, *fail),
        r matches Ok(q) ==> p < q <= ts@.len(),
    decreases ts@.len() - p, 1nat,
{
    let ghost tv = tokens_view(ts@);
    let ghost before = tape_ops(out@);
    assert(tv.len() == ts@.len());
    if p >= ts.len() {
        return Err(past_end(ts, fail, p, InterpolationError::ExpectedExpression(found_at(ts, p))));
    }
    proof {
        lemma_tok(ts@, p as int);
    }
    let pos = ts[p].1;
    let op = match &ts[p].0 {
        Token::String(s) => InterpolationOperation::CreateString(s.clone()),
        Token::Number(n) => InterpolationOperation::CreateNumber(*n),
        Token::Dice(d) => InterpolationOperation::CreateDice(*d),
        Token::OpenParenthesis => {
            let q = parse_expression(ts, fail, p + 1, out)?;
            if q >= ts.len() {
                return Err(past_end(ts, fail, q, InterpolationError::ExpectedCloseParen(found_at(ts, q))));
            }
            proof {
                lemma_tok(ts@, q as int);
            }
            return match &ts[q].0 {
                Token::CloseParenthesis => Ok(q + 1),
                _ => Err((InterpolationError::ExpectedCloseParen(found_at(ts, q)), position_at(ts, q))),
            };
        },
        Token::Identifier(s) => {
            return parse_variable(ts, fail, p, s, out);
        },
        _ => {
            return Err((InterpolationError::ExpectedExpression(found_at(ts, p)), pos));
        },
    };
    let ghost o = op_view(op);
    out.push((op, pos));
    assert(tape_ops(out@) =~= before.push(o));
    assert(tape_ops(out@) =~= before + seq![o]);
    Ok(p + 1)
}

pub open spec fn prefix_cat(pre: Seq<OpView>, r: Parsed) -> Parsed {
    match r {
        Ok((ops, q)) => Ok((pre + ops, q)),
        Err(e) => Err(e),
    }
}

/// `unary = ('-' | '$' | '+')* term`; the prefix operators run innermost first.
fn parse_unary(ts: &Vec<(Token, PositionRange)>, fail: &Option<TokenErrorDetails>, p: usize, out: &mut Tape) -> (r: Result<usize, ParseError>)
    requires
        p <= ts@.len(),
    ensures
        parsed_as(unary_spec(tokens_view(ts@), fail_view(*fail), p as int), r, tape_ops(old(out)@), tape_ops(final(out)@), ts@, *fail),
        r matches Ok(q) ==> p < q <= ts@.len(),
    decreases ts@.len() - p, 2nat,
{
    let ghost tv = tokens_view(ts@);
    let ghost fe = fail_view(*fail);
    let ghost before = tape_ops(out@);
    assert(tv.len() == ts@.len());
    let mut prefix: Tape = Vec::new();
    let mut q = p;
    proof {
        assert(tape_ops(prefix@) =~= Seq::<OpView>::empty());
        match prefix_spec(tv, fe, p as int) {
            Ok((ops, q2)) => {
                assert(Seq::<OpView>::empty() + ops =~= ops);
            },
            Err(_) => {
            },
        }
    }
    loop
        invariant
            p <= q <= ts@.len(),
            tv == tokens_view(ts@),
            fe == fail_view(*fail),
            tv.len() == ts@.len(),
            prefix_spec(tv, fe, p as int) == prefix_cat(tape_ops(prefix@), prefix_spec(tv, fe, q as int)),
            before == tape_ops(old(out)@),
            tape_ops(out@) == before,
        ensures
            p <= q <= ts@.len(),
            prefix_spec(tv, fe, p as int) == prefix_cat(tape_ops(prefix@), prefix_spec(tv, fe, q as int)),
            tape_ops(out@) == before,
            q < ts@.len() ==> prefix_spec(tv, fe, q as int) == Ok::<(Seq<OpView>, int), ParseFailure>(
                (Seq::<OpView>::empty(), q as int),
            ),
        decreases ts@.len() - q,
    {
        if q >= ts.len() {
            break ;
        }
        proof {
            lemma_tok(ts@, q as int);
        }
        let op = match &ts[q].0 {
            Token::Minus => InterpolationOperation::Negate,
            Token::Dollar => InterpolationOperation::Stringify,
            Token::Plus => InterpolationOperation::Sign,
            _ => {
                break ;
            },
        };
        let ghost pre = tape_ops(prefix@);
        let ghost o = op_view(op);
        prefix.push((op, ts[q].1));
        proof {
            assert(tape_ops(prefix@) =~= pre.push(o));
            match prefix_spec(tv, fe, q as int + 1) {
                Ok((ops, q2)) => {
                    assert(pre + (seq![o] + ops) =~= pre.push(o) + ops);
                },
                Err(_) => {
                },
            }
        }
        q = q + 1;
    }
    if let Some(e) = pending(ts, fail, q) {
        return Err(e);
    }
    let ghost pre0 = tape_ops(prefix@);
    proof {
        assert(pre0 + Seq::<OpView>::empty() =~= pre0);
        assert(prefix_spec(tv, fe, q as int) == Ok::<(Seq<OpView>, int), ParseFailure>((Seq::<OpView>::empty(), q as int)));
        assert(prefix_spec(tv, fe, p as int) == Ok::<(Seq<OpView>, int), ParseFailure>((pre0, q as int)));
    }
    let e = parse_term(ts, fail, q, out)?;
    let ghost ops_t = match term_spec(tv, fe, q as int) {
        Ok((o, _)) => o,
        Err(_) => Seq::<OpView>::empty(),
    };
    assert(tape_ops(out@) =~= before + ops_t);
    proof {
        assert(before + ops_t + reversed(pre0) =~= tape_ops(out@) + reversed(tape_ops(prefix@)));
    }
    while prefix.len() > 0
        invariant
            before + ops_t + reversed(pre0) == tape_ops(out@) + reversed(tape_ops(prefix@)),
        decreases prefix@.len(),
    {
        let ghost cur = tape_ops(prefix@);
        let ghost mid = tape_ops(out@);
        let op = prefix.pop().unwrap();
        proof {
            assert(tape_ops(prefix@) =~= cur.drop_last());
            assert(cur.last() == op_view(op.0));
        }
        out.push(op);
        proof {
            assert(tape_ops(out@) =~= mid.push(cur.last()));
            assert(mid + reversed(cur) =~= tape_ops(out@) + reversed(tape_ops(prefix@)));
        }
    }
    proof {
        assert(reversed(tape_ops(prefix@)) =~= Seq::<OpView>::empty());
        assert(tape_ops(out@) + Seq::<OpView>::empty() =~= tape_ops(out@));
        assert(tape_ops(out@) =~= before + (ops_t + reversed(pre0)));
    }
    Ok(e)
}

/// `mul = unary (('*' | '/<' | '/>') unary)*`
fn parse_mul(ts: &Vec<(Token, PositionRange)>, fail: &Option<TokenErrorDetails>, p: usize, out: &mut Tape) -> (r: Result<usize, ParseError>)
    requires
        p <= ts@.len(),
    ensures
        parsed_as(mul_spec(tokens_view(ts@), fail_view(*fail), p as int), r, tape_ops(old(out)@), tape_ops(final(out)@), ts@, *fail),
        r matches Ok(q) ==> p < q <= ts@.len(),
    decreases ts@.len() - p, 4nat,
{
    let ghost tv = tokens_view(ts@);
    let ghost fe = fail_view(*fail);
    let ghost before = tape_ops(out@);
    assert(tv.len() == ts@.len());
    let mut q = parse_unary(ts, fail, p, out)?;
    let ghost mut acc = match unary_spec(tv, fe, p as int) {
        Ok((o, _)) => o,
        Err(_) => Seq::<OpView>::empty(),
    };
    assert(tape_ops(out@) =~= before + acc);
    loop
        invariant
            p < q <= ts@.len(),
            tv == tokens_view(ts@),
            fe == fail_view(*fail),
            tv.len() == ts@.len(),
            before == tape_ops(old(out)@),
            tape_ops(out@) == before + acc,
            mul_spec(tv, fe, p as int) == mul_rest(tv, fe, q as int, acc),
        decreases ts@.len() - q,
    {
        if q >= ts.len() {
            if let Some(e) = pending(ts, fail, q) {
                return Err(e);
            }
            return Ok(q);
        }
        proof {
            lemma_tok(ts@, q as int);
        }
        let pos = ts[q].1;
        let op = match &ts[q].0 {
            Token::Asterisk => InterpolationOperation::Multiply,
            Token::SlashLessThan => InterpolationOperation::FloorDivide,
            Token::SlashGreaterThan => InterpolationOperation::CeilingDivide,
            _ => {
                return Ok(q);
            },
        };
        let ghost mid = tape_ops(out@);
        let next = parse_unary(ts, fail, q + 1, out)?;
        let ghost ops = match unary_spec(tv, fe, q as int + 1) {
            Ok((o, _)) => o,
            Err(_) => Seq::<OpView>::empty(),
        };
        assert(tape_ops(out@) =~= mid + ops);
        let ghost o = op_view(op);
        let ghost m2 = tape_ops(out@);
        out.push((op, pos));
        proof {
            assert(tape_ops(out@) =~= m2.push(o));
            assert(tape_ops(out@) =~= before + (acc + ops + seq![o]));
            acc = acc + ops + seq![o];
        }
        q = next;
    }
}

/// `add = mul (('+' | '-') mul)*`
fn parse_add(ts: &Vec<(Token, PositionRange)>, fail: &Option<TokenErrorDetails>, p: usize, out: &mut Tape) -> (r: Result<usize, ParseError>)
    requires
        p <= ts@.len(),
    ensures
        parsed_as(add_spec(tokens_view(ts@), fail_view(*fail), p as int), r, tape_ops(old(out)@), tape_ops(final(out)@), ts@, *fail),
        r matches Ok(q) ==> p < q <= ts@.len(),
    decreases ts@.len() - p, 6nat,
{
    let ghost tv = tokens_view(ts@);
    let ghost fe = fail_view(*fail);
    let ghost before = tape_ops(out@);
    assert(tv.len() == ts@.len());
    let mut q = parse_mul(ts, fail, p, out)?;
    let ghost mut acc = match mul_spec(tv, fe, p as int) {
        Ok((o, _)) => o,
        Err(_) => Seq::<OpView>::empty(),
    };
    assert(tape_ops(out@) =~= before + acc);
    loop
        invariant
            p < q <= ts@.len(),
            tv == tokens_view(ts@),
            fe == fail_view(*fail),
            tv.len() == ts@.len(),
            before == tape_ops(old(out)@),
            tape_ops(out@) == before + acc,
            add_spec(tv, fe, p as int) == add_rest(tv, fe, q as int, acc),
        decreases ts@.len() - q,
    {
        if q >= ts.len() {
            if let Some(e) = pending(ts, fail, q) {
                return Err(e);
            }
            return Ok(q);
        }
        proof {
            lemma_tok(ts@, q as int);
        }
        let pos = ts[q].1;
        let op = match &ts[q].0 {
            Token::Plus => InterpolationOperation::Add,
            Token::Minus => InterpolationOperation::Subtract,
            _ => {
                return Ok(q);
            },
        };
        let ghost mid = tape_ops(out@);
        let next = parse_mul(ts, fail, q + 1, out)?;
        let ghost ops = match mul_spec(tv, fe, q as int + 1) {
            Ok((o, _)) => o,
            Err(_) => Seq::<OpView>::empty(),
        };
        assert(tape_ops(out@) =~= mid + ops);
        let ghost o = op_view(op);
        let ghost m2 = tape_ops(out@);
        out.push((op, pos));
        proof {
            assert(tape_ops(out@) =~= m2.push(o));
            assert(tape_ops(out@) =~= before + (acc + ops + seq![o]));
            acc = acc + ops + seq![o];
        }
        q = next;
    }
}

/// `expression = text | add`
fn parse_expression(ts: &Vec<(Token, PositionRange)>, fail: &Option<TokenErrorDetails>, p: usize, out: &mut Tape) -> (r: Result<usize, ParseError>)
    requires
        p <= ts@.len(),
    ensures
        parsed_as(expression_spec(tokens_view(ts@), fail_view(*fail), p as int), r, tape_ops(old(out)@), tape_ops(final(out)@), ts@, *fail),
        r matches Ok(q) ==> p < q <= ts@.len(),
    decreases ts@.len() - p, 7nat,
{
    let ghost before = tape_ops(out@);
    if p < ts.len() {
        proof {
            lemma_tok(ts@, p as int);
        }
        if let Token::Text(s) = &ts[p].0 {
            let op = InterpolationOperation::CreateString(s.clone());
            let ghost o = op_view(op);
            out.push((op, ts[p].1));
            assert(tape_ops(out@) =~= before.push(o));
            assert(tape_ops(out@) =~= before + seq![o]);
            return Ok(p + 1);
        }
    }
    parse_add(ts, fail, p, out)
}

/// The optional argument of a command, `'(' (command | expression)* ')'`, each expression
/// appended.
#[verifier::rlimit(100)]
fn parse_command_arguments(ts: &Vec<(Token, PositionRange)>, fail: &Option<TokenErrorDetails>, p: usize, out: &mut Tape) -> (r: Result<(usize, PositionRange), ParseError>)
    requires
        p <= ts@.len(),
    ensures
        match (r, args_spec(tokens_view(ts@), fail_view(*fail), p as int)) {
            (Ok((q, _)), Ok((ops, q2))) => q2 == q as int && tape_ops(final(out)@) == tape_ops(old(out)@) + ops,
            (Err(e), Err(f)) => error_at(e, f, ts@, *fail),
            _ => false,
        },
        r matches Ok((q, _)) ==> p <= q <= ts@.len(),
    decreases ts@.len() - p, 10nat,
{
    let ghost tv = tokens_view(ts@);
    let ghost fe = fail_view(*fail);
    let ghost before = tape_ops(out@);
    assert(tv.len() == ts@.len());
    if let Some(e) = pending(ts, fail, p) {
        return Err(e);
    }
    if p >= ts.len() {
        assert(before + Seq::<OpView>::empty() =~= before);
        return Ok((p, position_at(ts, p)));
    }
    proof {
        lemma_tok(ts@, p as int);
    }
    match &ts[p].0 {
        Token::OpenParenthesis => {},
        _ => {
            assert(before + Seq::<OpView>::empty() =~= before);
            return Ok((p, position_at(ts, p)));
        },
    }
    let mut q = p + 1;
    let ghost mut acc: Seq<OpView> = Seq::empty();
    assert(tape_ops(out@) =~= before + acc);
    loop
        invariant
            p < q <= ts@.len(),
            tv == tokens_view(ts@),
            fe == fail_view(*fail),
            tv.len() == ts@.len(),
            before == tape_ops(old(out)@),
            tape_ops(out@) == before + acc,
            args_spec(tv, fe, p as int) == args_rest(tv, fe, q as int, acc),
        decreases ts@.len() - q,
    {
        if let Some(e) = pending(ts, fail, q) {
            return Err(e);
        }
        let ghost mid = tape_ops(out@);
        if q < ts.len() {
            proof {
                lemma_tok(ts@, q as int);
            }
            if let Token::CloseParenthesis = &ts[q].0 {
                return Ok((q + 1, ts[q].1));
            }
            if let Token::Keyword(k) = &ts[q].0 {
                let next = parse_command(ts, fail, q, *k, out)?;
                let ghost ops = match command_spec(tv, fe, q as int, *k) {
                    Ok((o, _)) => o,
                    Err(_) => Seq::<OpView>::empty(),
                };
                proof {
                    assert(tape_ops(out@) =~= mid + ops);
                    assert(tape_ops(out@) =~= before + (acc + ops));
                    acc = acc + ops;
                }
                q = next;
                continue ;
            }
        }
        let e = parse_expression(ts, fail, q, out)?;
        let ghost ops = match expression_spec(tv, fe, q as int) {
            Ok((o, _)) => o,
            Err(_) => Seq::<OpView>::empty(),
        };
        assert(tape_ops(out@) =~= mid + ops);
        let ghost o = OpView::Append;
        let ghost m2 = tape_ops(out@);
        out.push((InterpolationOperation::Append, ts[e - 1].1));
        proof {
            assert(tape_ops(out@) =~= m2.push(o));
            assert(tape_ops(out@) =~= before + (acc + ops + seq![o]));
            acc = acc + ops + seq![o];
        }
        q = e;
    }
}

/// A structural command at `p`: its start instruction, its argument, and its closing instruction.
#[verifier::rlimit(100)]
fn parse_command(ts: &Vec<(Token, PositionRange)>, fail: &Option<TokenErrorDetails>, p: usize, keyword: StructureKeyword, out: &mut Tape) -> (r: Result<usize, ParseError>)
    requires
        p < ts@.len(),
    ensures
        parsed_as(command_spec(tokens_view(ts@), fail_view(*fail), p as int, keyword), r, tape_ops(old(out)@), tape_ops(final(out)@), ts@, *fail),
        r matches Ok(q) ==> p < q <= ts@.len(),
    decreases ts@.len() - p, 8nat,
{
    let ghost before = tape_ops(out@);
    let len = ts.len();
    let pos = ts[p].1;
    let (start, end) = match keyword {
        StructureKeyword::Bold => (InterpolationOperation::StartBold, InterpolationOperation::EndBold),
        StructureKeyword::Italic => (InterpolationOperation::StartItalic, InterpolationOperation::EndItalic),
        StructureKeyword::Sub => (InterpolationOperation::StartListItem, InterpolationOperation::EndBlockStart),
        StructureKeyword::Par => (InterpolationOperation::StartParagraph, InterpolationOperation::EndBlockStart),
    };
    assert(op_view(start) == start_op(keyword) && op_view(end) == end_op(keyword));
    out.push((start, pos));
    let ghost mid = tape_ops(out@);
    assert(mid =~= before.push(start_op(keyword)));
    assert(mid =~= before + seq![start_op(keyword)]);
    let (q, end_pos) = match parse_command_arguments(ts, fail, p + 1, out) {
        Ok(x) => x,
        Err(e) => {
            return Err(e);
        },
    };
    let ghost ops = match args_spec(tokens_view(ts@), fail_view(*fail), p as int + 1) {
        Ok((o, _)) => o,
        Err(_) => Seq::<OpView>::empty(),
    };
    assert(tape_ops(out@) =~= mid + ops);
    let ghost m2 = tape_ops(out@);
    out.push((end, end_pos));
    assert(tape_ops(out@) =~= m2.push(end_op(keyword)));
    assert(tape_ops(out@) =~= before + (seq![start_op(keyword)] + ops + seq![end_op(keyword)]));
    Ok(q)
}

/// `document = (command | expression)*`, each expression followed by an append instruction.
/// The tokens stop where reading stopped; a pending token error is reported where the parser
/// reaches it.
pub fn parse_document(ts: &Vec<(Token, PositionRange)>, fail: &Option<TokenErrorDetails>) -> (r: Result<Tape, ParseError>)
    ensures
        match (r, document_spec(tokens_view(ts@), fail_view(*fail))) {
            (Ok(t), Ok(ops)) => tape_ops(t@) == ops,
            (Err(e), Err(f)) => error_at(e, f, ts@, *fail),
            _ => false,
        },
{
    let ghost tv = tokens_view(ts@);
    let ghost fe = fail_view(*fail);
    assert(tv.len() == ts@.len());
    let mut out: Tape = Vec::new();
    let mut p: usize = 0;
    let ghost mut acc: Seq<OpView> = Seq::empty();
    assert(tape_ops(out@) =~= acc);
    loop
        invariant
            p <= ts@.len(),
            tv == tokens_view(ts@),
            fe == fail_view(*fail),
            tv.len() == ts@.len(),
            tape_ops(out@) == acc,
            document_spec(tv, fe) == document_rest(tv, fe, p as int, acc),
        decreases ts@.len() - p,
    {
        if let Some(e) = pending(ts, fail, p) {
            return Err(e);
        }
        if p >= ts.len() {
            return Ok(out);
        }
        proof {
            lemma_tok(ts@, p as int);
        }
        let ghost mid = tape_ops(out@);
        if let Token::Keyword(k) = &ts[p].0 {
            let next = parse_command(ts, fail, p, *k, &mut out)?;
            let ghost ops = match command_spec(tv, fe, p as int, *k) {
                Ok((o, _)) => o,
                Err(_) => Seq::<OpView>::empty(),
            };
            proof {
                assert(tape_ops(out@) =~= mid + ops);
                acc = acc + ops;
            }
            p = next;
        } else {
            let e = parse_expression(ts, fail, p, &mut out)?;
            let ghost ops = match expression_spec(tv, fe, p as int) {
                Ok((o, _)) => o,
                Err(_) => Seq::<OpView>::empty(),
            };
            assert(tape_ops(out@) =~= mid + ops);
            let ghost m2 = tape_ops(out@);
            out.push((InterpolationOperation::Append, ts[e - 1].1));
            proof {
                assert(tape_ops(out@) =~= m2.push(OpView::Append));
                assert(tape_ops(out@) =~= acc + ops + seq![OpView::Append]);
                acc = acc + ops + seq![OpView::Append];
            }
            p = e;
        }
    }
}

} // verus!
