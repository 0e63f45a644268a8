use vstd::prelude::*;

use crate::errors::InterpolationError;
use crate::errors::InterpolationErrorDetails;
use crate::evaluator::interpolate;
use crate::evaluator::interpolate_spec;
use crate::evaluator::tape_ops;
use crate::evaluator::BlockV;
use crate::evaluator::InterpolationOperation;
use crate::evaluator::OpView;
use crate::lexer::lex_spec;
use crate::lexer::InterpolationMode;
use crate::lexer::InterpolationTokenizer;
use crate::parse_position::Position;
use crate::parse_position::PositionRange;
use crate::parser::document_spec;
use crate::parser::error_is;
use crate::parser::parse_document;
use crate::parser::ParseFailure;
use crate::parser::Tape;
use crate::structured_text::blocks_view;
use crate::structured_text::SpanStyle;
use crate::structured_text::TextBlock;
use crate::structured_text::TextSpan;
use crate::value::EmptyContext;
use crate::value::InterpolationObject;

verus! {

pub open spec fn tokens_view_of(ts: Seq<(crate::tokenizer::Token, PositionRange)>) -> Seq<crate::tokenizer::TokenView> {
    crate::lexer::tokens_view(ts)
}

/// Why interpolating a document failed: in reading and parsing it, or in running its tape.
pub enum Failure {
    Parse(ParseFailure),
    Run(InterpolationError),
}

/// Whether an error is the failure, a parse failure naming the token found among `ts`.
pub open spec fn failure_is(e: InterpolationError, f: Failure, ts: Seq<crate::tokenizer::TokenView>) -> bool {
    match f {
        Failure::Parse(p) => error_is(e, p, ts),
        Failure::Run(k) => e == k,
    }
}

/// The instruction tape of a document: its tokens, read up to the first token error, parsed.
pub open spec fn parse_text_spec(s: Seq<char>, mode: InterpolationMode) -> Result<Seq<OpView>, ParseFailure> {
    document_spec(lex_spec(s, mode).0, lex_spec(s, mode).1)
}

/// The blocks of a document run against a context, or the first failure.
pub open spec fn run_text_spec<D: InterpolationObject>(s: Seq<char>, mode: InterpolationMode, data: D) -> Result<
    Seq<BlockV>,
    Failure,
> {
    match parse_text_spec(s, mode) {
        Err(f) => Err(Failure::Parse(f)),
        Ok(ops) => match interpolate_spec(ops, data) {
            Ok(b) => Ok(b),
            Err((e, _)) => Err(Failure::Run(e)),
        },
    }
}

/// Blocks that are one paragraph without heading holding one normal span: plain text.
pub open spec fn plain_text_of(blocks: Seq<BlockV>) -> Option<Seq<char>> {
    if blocks.len() == 1 && !blocks[0].0 && blocks[0].1 is None && blocks[0].2.len() == 1
        && blocks[0].2[0].0 == SpanStyle::Normal {
        Some(blocks[0].2[0].1)
    } else {
        None
    }
}

/// The text of inclusion text run against a context: the plain text of its blocks, or the first
/// failure, or unexpected structured text where the blocks are not plain text.
pub open spec fn include_text_spec<D: InterpolationObject>(s: Seq<char>, data: D) -> Result<Seq<char>, Failure> {
    match run_text_spec(s, InterpolationMode::DeserializeCreatureCommands, data) {
        Err(f) => Err(f),
        Ok(b) => match plain_text_of(b) {
            Some(t) => Ok(t),
            None => Err(Failure::Run(InterpolationError::UnexpectedStructuredText)),
        },
    }
}

/// The range that points nowhere.
pub open spec fn no_range(r: PositionRange) -> bool {
    r.start.line == 0 && r.start.column == 0 && r.end.line == 0 && r.end.column == 0
}

/// A reading or parsing failure points at a range of the source, or nowhere for an empty
/// token list.
pub open spec fn parse_error_located(s: Seq<char>, f: Result<Seq<BlockV>, Failure>, e: InterpolationErrorDetails) -> bool {
    f matches Err(Failure::Parse(_)) ==> (crate::lexer::range_in(s, e.position) || no_range(e.position))
}

fn with_text(e: InterpolationErrorDetails, source: &str, show_text_in_error: bool) -> (r: InterpolationErrorDetails)
    ensures
        r.error == e.error,
        r.position == e.position,
        show_text_in_error ==> (r.full_text matches Some(t) && t@ == source@),
        !show_text_in_error ==> r.full_text == e.full_text,
{
    if show_text_in_error {
        e.with_full_text(source)
    } else {
        e
    }
}

/// Splits and parses a document into its instruction tape.
pub fn parse_str(source: &str, source_name: &str, mode: InterpolationMode) -> (r: Result<Tape, InterpolationErrorDetails>)
    requires
        source@.len() < usize::MAX,
    ensures
        match (r, parse_text_spec(source@, mode)) {
            (Ok(t), Ok(ops)) => tape_ops(t@) == ops,
            (Err(e), Err(f)) => error_is(e.error, f, lex_spec(source@, mode).0),
            _ => false,
        },
        r matches Err(e) ==> e.full_text is None,
        r matches Err(e) ==> (crate::lexer::range_in(source@, e.position) || no_range(e.position)),
{
    let mut tokenizer = InterpolationTokenizer::new(source_name, source, mode);
    let (tokens, fail) = tokenizer.tokenize();
    proof {
        assert(crate::parser::fail_view(fail) == lex_spec(source@, mode).1);
    }
    match parse_document(&tokens, &fail) {
        Ok(tape) => Ok(tape),
        Err((error, position)) => {
            proof {
                if tokens@.len() > 0 {
                    assert(crate::lexer::range_in(source@, tokens@[tokens@.len() - 1].1));
                }
                match fail {
                    Some(d) => {
                        assert(crate::lexer::range_in(source@, d.position));
                    },
                    None => {},
                }
                let ghost f = crate::parser::document_spec(tokens_view_of(tokens@), crate::parser::fail_view(fail));
                match f {
                    Err(ParseFailure::ExpectedIdentifier(i)) => {
                        if 0 <= i < tokens@.len() {
                            assert(crate::lexer::range_in(source@, tokens@[i].1));
                        }
                    },
                    Err(ParseFailure::ExpectedCloseParen(i)) => {
                        if 0 <= i < tokens@.len() {
                            assert(crate::lexer::range_in(source@, tokens@[i].1));
                        }
                    },
                    Err(ParseFailure::ExpectedExpression(i)) => {
                        if 0 <= i < tokens@.len() {
                            assert(crate::lexer::range_in(source@, tokens@[i].1));
                        }
                    },
                    _ => {},
                }
            }
            Err(error.details(source_name, &position))
        },
    }
}

fn run_tape<D: InterpolationObject>(source: &str, source_name: &str, mode: InterpolationMode, data: &D) -> (r: Result<
    Vec<TextBlock>,
    InterpolationErrorDetails,
>)
    requires
        source@.len() < usize::MAX,
    ensures
        match (r, run_text_spec(source@, mode, *data)) {
            (Ok(b), Ok(bs)) => blocks_view(b@) == bs,
            (Err(e), Err(f)) => failure_is(e.error, f, lex_spec(source@, mode).0),
            _ => false,
        },
        r matches Err(e) ==> e.full_text is None,
        r matches Err(e) ==> parse_error_located(source@, run_text_spec(source@, mode, *data), e),
{
    let tape = parse_str(source, source_name, mode)?;
    interpolate(&tape, source_name, data)
}

/// Interpolates stat-block text (`${` … `}`), with its structural commands, into blocks.
pub fn interpolate_str_for_statblock<D: InterpolationObject>(
    source: &str,
    source_name: &str,
    data: &D,
    show_text_in_error: bool,
) -> (r: Result<Vec<TextBlock>, InterpolationErrorDetails>)
    requires
        source@.len() < usize::MAX,
    ensures
        r matches Err(e) ==> parse_error_located(
            source@,
            run_text_spec(source@, InterpolationMode::CalculateStatBlock, *data),
            e,
        ),
        match (r, run_text_spec(source@, InterpolationMode::CalculateStatBlock, *data)) {
            (Ok(b), Ok(bs)) => blocks_view(b@) == bs,
            (Err(e), Err(f)) => failure_is(e.error, f, lex_spec(source@, InterpolationMode::CalculateStatBlock).0),
            _ => false,
        },
        r matches Err(e) ==> (if show_text_in_error {
            e.full_text matches Some(t) && t@ == source@
        } else {
            e.full_text is None
        }),
{
    match run_tape(source, source_name, InterpolationMode::CalculateStatBlock, data) {
        Ok(b) => Ok(b),
        Err(e) => Err(with_text(e, source, show_text_in_error)),
    }
}

/// The text of blocks that hold exactly one plain span, if they do.
fn plain_text(blocks: &Vec<TextBlock>) -> (r: Option<String>)
    ensures
        match r {
            Some(t) => plain_text_of(blocks_view(blocks@)) == Some(t@),
            None => plain_text_of(blocks_view(blocks@)) is None,
        },
{
    if blocks.len() != 1 {
        return None;
    }
    match &blocks[0] {
        TextBlock::Paragraph { heading: None, body } => {
            if body.len() != 1 {
                return None;
            }
            match &body[0] {
                TextSpan::Normal(t) => Some(t.clone()),
                _ => None,
            }
        },
        _ => None,
    }
}

/// Interpolates inclusion text (`$<` … `>`) into a plain string. Anything other than one plain
/// paragraph of one normal span is refused as unexpected structured text, at position 0:0-0:0.
pub fn interpolate_str_for_deserialization<D: InterpolationObject>(
    source: &str,
    source_name: &str,
    data: &D,
    show_text_in_error: bool,
) -> (r: Result<String, InterpolationErrorDetails>)
    requires
        source@.len() < usize::MAX,
    ensures
        r matches Err(e) ==> parse_error_located(
            source@,
            run_text_spec(source@, InterpolationMode::DeserializeCreatureCommands, *data),
            e,
        ),
        match (r, include_text_spec(source@, *data)) {
            (Ok(t), Ok(u)) => t@ == u,
            (Err(e), Err(f)) => failure_is(e.error, f, lex_spec(source@, InterpolationMode::DeserializeCreatureCommands).0),
            _ => false,
        },
        r matches Err(e) ==> (if show_text_in_error {
            e.full_text matches Some(t) && t@ == source@
        } else {
            e.full_text is None
        }),
        r matches Err(e) ==> (run_text_spec(source@, InterpolationMode::DeserializeCreatureCommands, *data) is Ok
            ==> e.position == (PositionRange {
            start: Position { line: 0, column: 0 },
            end: Position { line: 0, column: 0 },
        })),
{
    match run_tape(source, source_name, InterpolationMode::DeserializeCreatureCommands, data) {
        Ok(blocks) => match plain_text(&blocks) {
            Some(t) => Ok(t),
            None => {
                let e = InterpolationErrorDetails {
                    error: InterpolationError::UnexpectedStructuredText,
                    source_name: source_name.to_owned(),
                    position: PositionRange::none(),
                    full_text: None,
                };
                Err(with_text(e, source, show_text_in_error))
            },
        },
        Err(e) => Err(with_text(e, source, show_text_in_error)),
    }
}

pub open spec fn flush_ops(cur: Seq<char>) -> Seq<OpView> {
    seq![OpView::CreateString(cur), OpView::Append]
}

/// The instructions for markdown text from position `i` on, with the text gathered so far and
/// the bold and italic flags.
pub open spec fn markdown_rest(s: Seq<char>, i: int, cur: Seq<char>, bold: bool, italic: bool) -> Seq<OpView>
    decreases s.len() - i,
{
    if i < 0 || i >= s.len() {
        flush_ops(cur)
    } else if s[i] == '\n' {
        let sub = i + 1 < s.len() && s[i + 1] == '•';
        flush_ops(cur) + seq![
            if sub {
                OpView::StartListItem
            } else {
                OpView::StartParagraph
            },
            OpView::EndBlockStart,
        ] + markdown_rest(s, if sub { i + 2 } else { i + 1 }, Seq::empty(), bold, italic)
    } else if s[i] == '*' && i + 1 < s.len() && s[i + 1] == '*' {
        flush_ops(cur) + seq![
            if bold {
                OpView::EndBold
            } else {
                OpView::StartBold
            },
        ] + markdown_rest(s, i + 2, Seq::empty(), !bold, italic)
    } else if s[i] == '_' {
        flush_ops(cur) + seq![
            if italic {
                OpView::EndItalic
            } else {
                OpView::StartItalic
            },
        ] + markdown_rest(
            s,
            if i + 1 < s.len() && s[i + 1] == '_' { i + 2 } else { i + 1 },
            Seq::empty(),
            bold,
            !italic,
        )
    } else {
        markdown_rest(s, i + 1, cur.push(s[i]), bold, italic)
    }
}

/// The tape for a heading and markdown text: a block opening with the heading, then the text.
pub open spec fn markdown_spec(heading: Seq<char>, s: Seq<char>, use_sub_block: bool) -> Seq<OpView> {
    seq![
        if use_sub_block {
            OpView::StartListItem
        } else {
            OpView::StartParagraph
        },
        OpView::CreateString(heading),
        OpView::Append,
        OpView::EndBlockStart,
    ] + markdown_rest(s, 0, Seq::empty(), false, false)
}

fn markdown_position(start: usize, end: usize) -> (r: PositionRange)
    ensures
        r.start.line == 1 && r.start.column == start && r.end.line == 1 && r.end.column == end,
{
    PositionRange { start: Position { line: 1, column: start }, end: Position { line: 1, column: end } }
}

/// Pushes the text gathered so far as a string, and its append instruction.
fn flush_markdown(current: &mut Vec<char>, ops: &mut Tape, start: usize, end: usize)
    ensures
        final(current)@.len() == 0,
        tape_ops(final(ops)@) == tape_ops(old(ops)@) + flush_ops(old(current)@),
{
    let text = crate::text::chars_to_string(current);
    let ghost t0 = tape_ops(ops@);
    ops.push((InterpolationOperation::CreateString(text), markdown_position(start, end)));
    ops.push((InterpolationOperation::Append, markdown_position(end, end)));
    assert(tape_ops(ops@) =~= t0 + flush_ops(old(current)@));
    *current = Vec::new();
}

fn push_op(ops: &mut Tape, op: InterpolationOperation, pos: PositionRange)
    ensures
        tape_ops(final(ops)@) == tape_ops(old(ops)@).push(crate::evaluator::op_view(op)),
{
    ops.push((op, pos));
    assert(tape_ops(ops@) =~= tape_ops(old(ops)@).push(crate::evaluator::op_view(op)));
}

/// Turns a heading and text with a few markdown marks into blocks: a line break starts a
/// paragraph (a sub-paragraph where the line starts with `•`), `**` toggles bold and `_` or `__`
/// toggles italic.
pub fn interpolate_simple_markdown_naively(
    heading_source: &str,
    source: &str,
    source_name: &str,
    use_sub_block: bool,
    show_text_in_error: bool,
) -> (r: Result<Vec<TextBlock>, InterpolationErrorDetails>)
    ensures
        match (r, interpolate_spec(markdown_spec(heading_source@, source@, use_sub_block), EmptyContext)) {
            (Ok(b), Ok(bs)) => blocks_view(b@) == bs,
            (Err(e), Err((k, _))) => e.error == k,
            _ => false,
        },
        r matches Err(e) ==> (if show_text_in_error {
            e.full_text matches Some(t) && t@ == source@
        } else {
            e.full_text is None
        }),
{
    let chars = crate::text::str_chars(source);
    let ghost s = source@;
    let mut ops: Tape = Vec::new();
    let mut current: Vec<char> = Vec::new();
    let mut start: usize = 0;
    let mut end: usize = 0;
    let mut bold = false;
    let mut italic = false;
    let first = if use_sub_block {
        InterpolationOperation::StartListItem
    } else {
        InterpolationOperation::StartParagraph
    };
    push_op(&mut ops, first, markdown_position(start, end));
    push_op(&mut ops, InterpolationOperation::CreateString(heading_source.to_owned()), markdown_position(0, 0));
    push_op(&mut ops, InterpolationOperation::Append, markdown_position(0, 0));
    push_op(&mut ops, InterpolationOperation::EndBlockStart, markdown_position(start, end));
    let ghost head = tape_ops(ops@);
    assert(markdown_spec(heading_source@, s, use_sub_block) =~= head + markdown_rest(s, 0, Seq::empty(), false, false));
    assert(current@ =~= Seq::<char>::empty());
    let mut i: usize = 0;
    while i < chars.len()
        invariant
            0 <= i <= chars@.len(),
            chars@ == s,
            markdown_spec(heading_source@, s, use_sub_block) == tape_ops(ops@) + markdown_rest(
                s,
                i as int,
                current@,
                bold,
                italic,
            ),
        decreases chars@.len() - i,
    {
        end = i;
        let c = chars[i];
        let ghost t0 = tape_ops(ops@);
        let ghost cur0 = current@;
        let ghost i0 = i as int;
        i = i + 1;
        if c == '\n' {
            let use_sub = i < chars.len() && chars[i] == '•';
            if use_sub {
                i = i + 1;
            }
            flush_markdown(&mut current, &mut ops, start, end);
            start = end;
            let op = if use_sub {
                InterpolationOperation::StartListItem
            } else {
                InterpolationOperation::StartParagraph
            };
            push_op(&mut ops, op, markdown_position(start, end));
            push_op(&mut ops, InterpolationOperation::EndBlockStart, markdown_position(start, end));
            proof {
                assert(current@ =~= Seq::<char>::empty());
                let rest = markdown_rest(s, i as int, Seq::empty(), bold, italic);
                assert(t0 + (flush_ops(cur0) + seq![crate::evaluator::op_view(op), OpView::EndBlockStart] + rest)
                    =~= tape_ops(ops@) + rest);
            }
        } else if c == '*' && i < chars.len() && chars[i] == '*' {
            i = i + 1;
            flush_markdown(&mut current, &mut ops, start, end);
            start = end;
            let op = if bold {
                InterpolationOperation::EndBold
            } else {
                InterpolationOperation::StartBold
            };
            push_op(&mut ops, op, markdown_position(start, end));
            bold = !bold;
            proof {
                assert(current@ =~= Seq::<char>::empty());
                let rest = markdown_rest(s, i as int, Seq::empty(), bold, italic);
                assert(t0 + (flush_ops(cur0) + seq![crate::evaluator::op_view(op)] + rest) =~= tape_ops(ops@) + rest);
            }
        } else if c == '_' {
            if i < chars.len() && chars[i] == '_' {
                i = i + 1;
            }
            flush_markdown(&mut current, &mut ops, start, end);
            start = end;
            let op = if italic {
                InterpolationOperation::EndItalic
            } else {
                InterpolationOperation::StartItalic
            };
            push_op(&mut ops, op, markdown_position(start, end));
            italic = !italic;
            proof {
                assert(current@ =~= Seq::<char>::empty());
                let rest = markdown_rest(s, i as int, Seq::empty(), bold, italic);
                assert(t0 + (flush_ops(cur0) + seq![crate::evaluator::op_view(op)] + rest) =~= tape_ops(ops@) + rest);
            }
        } else {
            current.push(c);
        }
    }
    flush_markdown(&mut current, &mut ops, start, end);
    match interpolate(&ops, source_name, &EmptyContext) {
        Ok(blocks) => Ok(blocks),
        Err(e) => Err(with_text(e, source, show_text_in_error)),
    }
}

} // verus!
