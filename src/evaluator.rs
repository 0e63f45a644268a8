use vstd::prelude::*;

use crate::dice::Dice;
use crate::dice_expression::DiceExpression;
use crate::dice_expression::DiceModel;
use crate::dice_expression::ScaleOp;
use crate::errors::InterpolationError;
use crate::errors::InterpolationErrorDetails;
use crate::parse_position::PositionRange;
use crate::structured_text::block_view;
use crate::structured_text::blocks_view;
use crate::structured_text::span_view;
use crate::structured_text::spans_view;
use crate::structured_text::style_of;
use crate::structured_text::SpanStyle;
use crate::structured_text::TextBlock;
use crate::structured_text::TextSpan;
use crate::text::chars_to_string;
use crate::value::add_spec;
use crate::value::divide_spec;
use crate::value::multiply_spec;
use crate::value::negate_spec;
use crate::value::sign_spec;
use crate::value::stringify_spec;
use crate::value::subtract_spec;
use crate::value::value_text;
use crate::value::value_view;
use crate::value::InterpolationObject;
use crate::value::InterpolationValue;
use crate::value::ValueView;

verus! {

/// One instruction of the tape that the parser writes and the evaluator runs.
#[derive(Debug)]
pub enum InterpolationOperation {
    CreateString(String),
    CreateNumber(isize),
    CreateDice(Dice),
    GetVariable(String),
    GetIndex(usize),
    GetProperty(String),
    Negate,
    Stringify,
    Sign,
    Multiply,
    FloorDivide,
    CeilingDivide,
    Add,
    Subtract,
    Append,
    StartItalic,
    StartBold,
    EndItalic,
    EndBold,
    StartParagraph,
    StartListItem,
    EndBlockStart,
}

/// An instruction as plain values.
pub enum OpView {
    CreateString(Seq<char>),
    CreateNumber(isize),
    CreateDice(Dice),
    GetVariable(Seq<char>),
    GetIndex(usize),
    GetProperty(Seq<char>),
    Negate,
    Stringify,
    Sign,
    Multiply,
    FloorDivide,
    CeilingDivide,
    Add,
    Subtract,
    Append,
    StartItalic,
    StartBold,
    EndItalic,
    EndBold,
    StartParagraph,
    StartListItem,
    EndBlockStart,
}

pub open spec fn op_view(op: InterpolationOperation) -> OpView {
    match op {
        InterpolationOperation::CreateString(s) => OpView::CreateString(s@),
        InterpolationOperation::CreateNumber(n) => OpView::CreateNumber(n),
        InterpolationOperation::CreateDice(d) => OpView::CreateDice(d),
        InterpolationOperation::GetVariable(s) => OpView::GetVariable(s@),
        InterpolationOperation::GetIndex(i) => OpView::GetIndex(i),
        InterpolationOperation::GetProperty(s) => OpView::GetProperty(s@),
        InterpolationOperation::Negate => OpView::Negate,
        InterpolationOperation::Stringify => OpView::Stringify,
        InterpolationOperation::Sign => OpView::Sign,
        InterpolationOperation::Multiply => OpView::Multiply,
        InterpolationOperation::FloorDivide => OpView::FloorDivide,
        InterpolationOperation::CeilingDivide => OpView::CeilingDivide,
        InterpolationOperation::Add => OpView::Add,
        InterpolationOperation::Subtract => OpView::Subtract,
        InterpolationOperation::Append => OpView::Append,
        InterpolationOperation::StartItalic => OpView::StartItalic,
        InterpolationOperation::StartBold => OpView::StartBold,
        InterpolationOperation::EndItalic => OpView::EndItalic,
        InterpolationOperation::EndBold => OpView::EndBold,
        InterpolationOperation::StartParagraph => OpView::StartParagraph,
        InterpolationOperation::StartListItem => OpView::StartListItem,
        InterpolationOperation::EndBlockStart => OpView::EndBlockStart,
    }
}

pub type SpanV = (SpanStyle, Seq<char>);

pub type BlockV = (bool, Option<Seq<SpanV>>, Seq<SpanV>);

/// The evaluator's state as plain values.
pub struct EvalState {
    pub stack: Seq<ValueView>,
    pub buffer: Seq<char>,
    pub spans: Seq<SpanV>,
    pub heading: Option<Seq<SpanV>>,
    pub italic: bool,
    pub bold: bool,
    pub list: bool,
    pub blocks: Seq<BlockV>,
}

pub open spec fn initial_state() -> EvalState {
    EvalState {
        stack: Seq::empty(),
        buffer: Seq::empty(),
        spans: Seq::empty(),
        heading: None,
        italic: false,
        bold: false,
        list: false,
        blocks: Seq::empty(),
    }
}

/// Moves the buffered text, if any, into a span of the current style.
pub open spec fn end_span(st: EvalState) -> EvalState {
    if st.buffer.len() > 0 {
        EvalState {
            spans: st.spans.push((style_of(st.italic, st.bold), st.buffer)),
            buffer: Seq::empty(),
            ..st
        }
    } else {
        st
    }
}

/// Closes the current block; a block with neither heading nor body is dropped.
pub open spec fn end_block(st: EvalState) -> EvalState {
    if st.heading is Some || st.spans.len() > 0 {
        EvalState {
            blocks: st.blocks.push((st.list, st.heading, st.spans)),
            heading: None,
            spans: Seq::empty(),
            ..st
        }
    } else {
        st
    }
}

pub open spec fn reset_style(st: EvalState) -> EvalState {
    EvalState { italic: false, bold: false, ..st }
}

pub open spec fn push_value(st: EvalState, v: ValueView) -> EvalState {
    EvalState { stack: st.stack.push(v), ..st }
}

pub open spec fn pop_state(st: EvalState) -> EvalState {
    EvalState { stack: st.stack.drop_last(), ..st }
}

pub open spec fn unary(st: EvalState, r: Result<ValueView, InterpolationError>) -> Result<EvalState, InterpolationError> {
    match r {
        Ok(v) => Ok(push_value(pop_state(st), v)),
        Err(e) => Err(e),
    }
}

pub open spec fn binary(st: EvalState, r: Result<ValueView, InterpolationError>) -> Result<EvalState, InterpolationError> {
    match r {
        Ok(v) => Ok(push_value(pop_state(pop_state(st)), v)),
        Err(e) => Err(e),
    }
}

pub open spec fn top(st: EvalState) -> ValueView {
    st.stack.last()
}

pub open spec fn second(st: EvalState) -> ValueView {
    st.stack[st.stack.len() - 2]
}

/// What one instruction does to the state.
pub open spec fn step_spec<D: InterpolationObject>(st: EvalState, op: OpView, data: D) -> Result<
    EvalState,
    InterpolationError,
> {
    match op {
        OpView::CreateString(s) => Ok(push_value(st, ValueView::Str(s))),
        OpView::CreateNumber(n) => Ok(push_value(st, ValueView::Number(n as int, false))),
        OpView::CreateDice(d) => Ok(
            push_value(st, ValueView::Dice((seq![(d.die, d.coefficient as int, 1int)], 0int), false)),
        ),
        OpView::GetVariable(name) => match data.spec_variable(name) {
            Some(v) => Ok(push_value(st, v)),
            None => Err(InterpolationError::UnknownVariable),
        },
        OpView::GetIndex(i) => if st.stack.len() == 0 {
            Err(InterpolationError::EmptyStack)
        } else {
            match top(st) {
                ValueView::Object(o) => match data.spec_index(o, i) {
                    Some(v) => Ok(push_value(pop_state(st), v)),
                    None => Err(InterpolationError::InvalidIndex),
                },
                _ => Err(InterpolationError::InvalidIndex),
            }
        },
        OpView::GetProperty(name) => if st.stack.len() == 0 {
            Err(InterpolationError::EmptyStack)
        } else {
            match top(st) {
                ValueView::Object(o) => match data.spec_property(o, name) {
                    Some(v) => Ok(push_value(pop_state(st), v)),
                    None => Err(InterpolationError::UnknownProperty),
                },
                _ => Err(InterpolationError::UnknownProperty),
            }
        },
        OpView::Negate => if st.stack.len() == 0 {
            Err(InterpolationError::EmptyStack)
        } else {
            unary(st, negate_spec(top(st)))
        },
        OpView::Stringify => if st.stack.len() == 0 {
            Err(InterpolationError::EmptyStack)
        } else {
            unary(st, stringify_spec(top(st)))
        },
        OpView::Sign => if st.stack.len() == 0 {
            Err(InterpolationError::EmptyStack)
        } else {
            unary(st, sign_spec(top(st)))
        },
        OpView::Multiply => if st.stack.len() < 2 {
            Err(InterpolationError::EmptyStack)
        } else {
            binary(st, multiply_spec(second(st), top(st)))
        },
        OpView::FloorDivide => if st.stack.len() < 2 {
            Err(InterpolationError::EmptyStack)
        } else {
            binary(st, divide_spec(second(st), top(st), ScaleOp::FloorDivide))
        },
        OpView::CeilingDivide => if st.stack.len() < 2 {
            Err(InterpolationError::EmptyStack)
        } else {
            binary(st, divide_spec(second(st), top(st), ScaleOp::CeilingDivide))
        },
        OpView::Add => if st.stack.len() < 2 {
            Err(InterpolationError::EmptyStack)
        } else {
            binary(st, add_spec(second(st), top(st)))
        },
        OpView::Subtract => if st.stack.len() < 2 {
            Err(InterpolationError::EmptyStack)
        } else {
            binary(st, subtract_spec(second(st), top(st)))
        },
        OpView::Append => if st.stack.len() == 0 {
            Err(InterpolationError::EmptyStack)
        } else {
            match value_text(top(st)) {
                Some(t) => Ok(EvalState { buffer: st.buffer + t, ..pop_state(st) }),
                None => Err(InterpolationError::NumberOutOfRange),
            }
        },
        OpView::StartItalic => if st.italic {
            Err(InterpolationError::TextIsAlreadyItalic)
        } else {
            Ok(EvalState { italic: true, ..end_span(st) })
        },
        OpView::StartBold => if st.bold {
            Err(InterpolationError::TextIsAlreadyBold)
        } else {
            Ok(EvalState { bold: true, ..end_span(st) })
        },
        OpView::EndItalic => if !st.italic {
            Err(InterpolationError::TextIsNotItalic)
        } else {
            Ok(EvalState { italic: false, ..end_span(st) })
        },
        OpView::EndBold => if !st.bold {
            Err(InterpolationError::TextIsNotBold)
        } else {
            Ok(EvalState { bold: false, ..end_span(st) })
        },
        OpView::EndBlockStart => {
            let s1 = end_span(st);
            let s2 = if s1.spans.len() > 0 {
                EvalState { heading: Some(s1.spans), spans: Seq::empty(), ..s1 }
            } else {
                s1
            };
            Ok(reset_style(s2))
        },
        OpView::StartParagraph => Ok(
            EvalState { list: false, ..reset_style(end_block(end_span(st))) },
        ),
        OpView::StartListItem => Ok(
            EvalState { list: true, ..reset_style(end_block(end_span(st))) },
        ),
    }
}

/// Runs the first `n` instructions: the state, or the first error and its instruction's index.
pub open spec fn run_spec<D: InterpolationObject>(ops: Seq<OpView>, data: D, n: nat) -> Result<
    EvalState,
    (InterpolationError, int),
>
    decreases n,
{
    if n == 0 {
        Ok(initial_state())
    } else {
        match run_spec(ops, data, (n - 1) as nat) {
            Err(e) => Err(e),
            Ok(st) => match step_spec(st, ops[n - 1], data) {
                Ok(s2) => Ok(s2),
                Err(e) => Err((e, n - 1)),
            },
        }
    }
}

/// The blocks a whole tape produces, or its first error and that instruction's index.
pub open spec fn interpolate_spec<D: InterpolationObject>(ops: Seq<OpView>, data: D) -> Result<
    Seq<BlockV>,
    (InterpolationError, int),
> {
    match run_spec(ops, data, ops.len()) {
        Err(e) => Err(e),
        Ok(st) => Ok(end_block(end_span(st)).blocks),
    }
}

pub open spec fn tape_ops(tape: Seq<(InterpolationOperation, PositionRange)>) -> Seq<OpView> {
    tape.map_values(|p: (InterpolationOperation, PositionRange)| op_view(p.0))
}

/// The evaluator's working state.
struct Machine {
    stack: Vec<InterpolationValue>,
    buffer: Vec<char>,
    spans: Vec<TextSpan>,
    heading: Option<Vec<TextSpan>>,
    italic: bool,
    bold: bool,
    list: bool,
    blocks: Vec<TextBlock>,
}

impl Machine {
    spec fn view(&self) -> EvalState {
        EvalState {
            stack: self.stack@.map_values(|v: InterpolationValue| value_view(v)),
            buffer: self.buffer@,
            spans: spans_view(self.spans@),
            heading: match self.heading {
                Some(h) => Some(spans_view(h@)),
                None => None,
            },
            italic: self.italic,
            bold: self.bold,
            list: self.list,
            blocks: blocks_view(self.blocks@),
        }
    }

    fn new() -> (r: Machine)
        ensures
            r.view() == initial_state(),
    {
        let r = Machine {
            stack: Vec::new(),
            buffer: Vec::new(),
            spans: Vec::new(),
            heading: None,
            italic: false,
            bold: false,
            list: false,
            blocks: Vec::new(),
        };
        assert(r.view().stack =~= Seq::<ValueView>::empty());
        assert(r.view().spans =~= Seq::<SpanV>::empty());
        assert(r.view().blocks =~= Seq::<BlockV>::empty());
        r
    }

    fn end_span(&mut self)
        ensures
            final(self).view() == end_span(old(self).view()),
    {
        if self.buffer.len() > 0 {
            let style = if self.italic && self.bold {
                SpanStyle::BoldItalic
            } else if self.italic {
                SpanStyle::Italic
            } else if self.bold {
                SpanStyle::Bold
            } else {
                SpanStyle::Normal
            };
            let text = chars_to_string(&self.buffer);
            let span = TextSpan::new(style, text);
            let ghost before = spans_view(self.spans@);
            self.spans.push(span);
            self.buffer = Vec::new();
            assert(spans_view(self.spans@) =~= before.push(span_view(span)));
            assert(self.view().stack =~= end_span(old(self).view()).stack);
            assert(self.view().buffer =~= end_span(old(self).view()).buffer);
        }
    }

    fn end_block(&mut self)
        ensures
            final(self).view() == end_block(old(self).view()),
    {
        if self.heading.is_some() || self.spans.len() > 0 {
            let heading = self.heading.take();
            let mut body: Vec<TextSpan> = Vec::new();
            std::mem::swap(&mut body, &mut self.spans);
            let block = if self.list {
                TextBlock::SubParagraph { heading, body }
            } else {
                TextBlock::Paragraph { heading, body }
            };
            let ghost before = blocks_view(self.blocks@);
            self.blocks.push(block);
            assert(blocks_view(self.blocks@) =~= before.push(block_view(block)));
            assert(spans_view(self.spans@) =~= Seq::<SpanV>::empty());
        }
    }

    fn push(&mut self, v: InterpolationValue)
        ensures
            final(self).view() == push_value(old(self).view(), value_view(v)),
    {
        self.stack.push(v);
        assert(self.view().stack =~= old(self).view().stack.push(value_view(v)));
    }

    fn pop(&mut self) -> (r: InterpolationValue)
        requires
            old(self).stack@.len() > 0,
        ensures
            value_view(r) == old(self).view().stack.last(),
            final(self).view() == pop_state(old(self).view()),
    {
        let v = self.stack.pop().unwrap();
        assert(self.view().stack =~= old(self).view().stack.drop_last());
        v
    }

    /// Runs one instruction.
    fn step<D: InterpolationObject>(&mut self, op: &InterpolationOperation, data: &D) -> (r: Result<(), InterpolationError>)
        ensures
            match r {
                Ok(()) => step_spec(old(self).view(), op_view(*op), *data) == Ok::<EvalState, InterpolationError>(final(self).view()),
                Err(e) => step_spec(old(self).view(), op_view(*op), *data) == Err::<EvalState, InterpolationError>(e),
            },
    {
        let ghost st = self.view();
        match op {
            InterpolationOperation::CreateString(s) => {
                self.push(InterpolationValue::String(s.clone()));
                Ok(())
            },
            InterpolationOperation::CreateNumber(n) => {
                self.push(InterpolationValue::Number(*n, false));
                Ok(())
            },
            InterpolationOperation::CreateDice(d) => {
                self.push(InterpolationValue::Dice(DiceExpression::from_dice(*d, 0), false));
                Ok(())
            },
            InterpolationOperation::GetVariable(name) => {
                match data.get_property(name.as_str()) {
                    Some(v) => {
                        self.push(v);
                        Ok(())
                    },
                    None => Err(InterpolationError::UnknownVariable),
                }
            },
            InterpolationOperation::GetIndex(i) => {
                if self.stack.len() == 0 {
                    return Err(InterpolationError::EmptyStack);
                }
                let v = self.pop();
                match v {
                    InterpolationValue::Object(o) => match data.get_index(o, *i) {
                        Some(x) => {
                            self.push(x);
                            Ok(())
                        },
                        None => Err(InterpolationError::InvalidIndex),
                    },
                    _ => Err(InterpolationError::InvalidIndex),
                }
            },
            InterpolationOperation::GetProperty(name) => {
                if self.stack.len() == 0 {
                    return Err(InterpolationError::EmptyStack);
                }
                let v = self.pop();
                match v {
                    InterpolationValue::Object(o) => match data.get_object_property(o, name.as_str()) {
                        Some(x) => {
                            self.push(x);
                            Ok(())
                        },
                        None => Err(InterpolationError::UnknownProperty),
                    },
                    _ => Err(InterpolationError::UnknownProperty),
                }
            },
            InterpolationOperation::Negate | InterpolationOperation::Stringify | InterpolationOperation::Sign => {
                if self.stack.len() == 0 {
                    return Err(InterpolationError::EmptyStack);
                }
                let v = self.pop();
                let r = match op {
                    InterpolationOperation::Negate => v.negate(),
                    InterpolationOperation::Stringify => v.stringify(),
                    _ => v.signed(),
                };
                match r {
                    Ok(x) => {
                        self.push(x);
                        Ok(())
                    },
                    Err(e) => Err(e),
                }
            },
            InterpolationOperation::Multiply | InterpolationOperation::FloorDivide
            | InterpolationOperation::CeilingDivide | InterpolationOperation::Add
            | InterpolationOperation::Subtract => {
                if self.stack.len() < 2 {
                    return Err(InterpolationError::EmptyStack);
                }
                let rhs = self.pop();
                let lhs = self.pop();
                assert(value_view(lhs) == second(st));
                let r = match op {
                    InterpolationOperation::Multiply => lhs.multiply(&rhs),
                    InterpolationOperation::FloorDivide => lhs.divide_floor(&rhs),
                    InterpolationOperation::CeilingDivide => lhs.divide_ceiling(&rhs),
                    InterpolationOperation::Add => lhs.add(&rhs),
                    _ => lhs.subtract(&rhs),
                };
                match r {
                    Ok(x) => {
                        self.push(x);
                        Ok(())
                    },
                    Err(e) => Err(e),
                }
            },
            InterpolationOperation::Append => {
                if self.stack.len() == 0 {
                    return Err(InterpolationError::EmptyStack);
                }
                let v = self.pop();
                if v.push_display(&mut self.buffer) {
                    Ok(())
                } else {
                    Err(InterpolationError::NumberOutOfRange)
                }
            },
            InterpolationOperation::StartItalic => {
                if self.italic {
                    return Err(InterpolationError::TextIsAlreadyItalic);
                }
                self.end_span();
                self.italic = true;
                Ok(())
            },
            InterpolationOperation::StartBold => {
                if self.bold {
                    return Err(InterpolationError::TextIsAlreadyBold);
                }
                self.end_span();
                self.bold = true;
                Ok(())
            },
            InterpolationOperation::EndItalic => {
                if !self.italic {
                    return Err(InterpolationError::TextIsNotItalic);
                }
                self.end_span();
                self.italic = false;
                Ok(())
            },
            InterpolationOperation::EndBold => {
                if !self.bold {
                    return Err(InterpolationError::TextIsNotBold);
                }
                self.end_span();
                self.bold = false;
                Ok(())
            },
            InterpolationOperation::EndBlockStart => {
                self.end_span();
                if self.spans.len() > 0 {
                    let mut spans: Vec<TextSpan> = Vec::new();
                    std::mem::swap(&mut spans, &mut self.spans);
                    self.heading = Some(spans);
                    assert(spans_view(self.spans@) =~= Seq::<SpanV>::empty());
                }
                self.italic = false;
                self.bold = false;
                Ok(())
            },
            InterpolationOperation::StartParagraph => {
                self.end_span();
                self.end_block();
                self.italic = false;
                self.bold = false;
                self.list = false;
                Ok(())
            },
            InterpolationOperation::StartListItem => {
                self.end_span();
                self.end_block();
                self.italic = false;
                self.bold = false;
                self.list = true;
                Ok(())
            },
        }
    }
}

/// Runs a tape against a context: the finished blocks, or the first error at its instruction's
/// position.
pub fn interpolate<D: InterpolationObject>(
    tape: &Vec<(InterpolationOperation, PositionRange)>,
    source_name: &str,
    data: &D,
) -> (r: Result<Vec<TextBlock>, InterpolationErrorDetails>)
    ensures
        match r {
            Ok(b) => interpolate_spec(tape_ops(tape@), *data) == Ok::<Seq<BlockV>, (InterpolationError, int)>(
                blocks_view(b@),
            ),
            Err(e) => exists|i: int|
                0 <= i < tape@.len() && interpolate_spec(tape_ops(tape@), *data) == Err::<
                    Seq<BlockV>,
                    (InterpolationError, int),
                >((e.error, i)) && e.position == tape@[i].1 && e.source_name@ == source_name@,
        },
        r matches Err(e) ==> e.full_text is None,
{
    let ghost ops = tape_ops(tape@);
    let mut m = Machine::new();
    let mut i: usize = 0;
    while i < tape.len()
        invariant
            0 <= i <= tape@.len(),
            ops == tape_ops(tape@),
            run_spec(ops, *data, i as nat) == Ok::<EvalState, (InterpolationError, int)>(m.view()),
        decreases tape@.len() - i,
    {
        let ghost before = m.view();
        assert(ops[i as int] == op_view(tape@[i as int].0));
        match m.step(&tape[i].0, data) {
            Ok(()) => {},
            Err(e) => {
                assert(run_spec(ops, *data, (i + 1) as nat) == Err::<EvalState, (InterpolationError, int)>(
                    (e, i as int),
                ));
                assert(run_spec(ops, *data, ops.len()) == Err::<EvalState, (InterpolationError, int)>((e, i as int)))
                    by {
                    lemma_run_error_stays(ops, *data, (i + 1) as nat, ops.len());
                }
                return Err(
                    InterpolationErrorDetails {
                        error: e,
                        source_name: source_name.to_owned(),
                        position: tape[i].1,
                        full_text: None,
                    },
                );
            },
        }
        i = i + 1;
    }
    m.end_span();
    m.end_block();
    Ok(m.blocks)
}

proof fn lemma_run_error_stays<D: InterpolationObject>(ops: Seq<OpView>, data: D, k: nat, n: nat)
    requires
        k <= n,
        run_spec(ops, data, k) is Err,
    ensures
        run_spec(ops, data, n) == run_spec(ops, data, k),
    decreases n - k,
{
    if k < n {
        lemma_run_error_stays(ops, data, k, (n - 1) as nat);
    }
}

} // verus!
