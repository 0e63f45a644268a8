use vstd::prelude::*;

use crate::dice::Dice;
use crate::dice_expression::average_fits;
use crate::dice_expression::difference_model;
use crate::dice_expression::factors_fit;
use crate::dice_expression::counts_fit;
use crate::dice_expression::in_isize;
use crate::dice_expression::lemma_model_fits;
use crate::dice_expression::model_average;
use crate::dice_expression::scale_fits;
use crate::dice_expression::scale_terms;
use crate::dice_expression::scaled_model;
use crate::dice_expression::serialize_spec;
use crate::dice_expression::sum_model;
use crate::dice_expression::DiceExpression;
use crate::dice_expression::DiceModel;
use crate::dice_expression::ScaleOp;
use crate::errors::InterpolationError;
use crate::numeric::ceil_div;
use crate::numeric::decimal;
use crate::numeric::div_ceiling;
use crate::numeric::div_floor;
use crate::numeric::floor_div;
use crate::numeric::push_decimal;
use crate::numeric::push_signed_decimal;
use crate::numeric::signed_decimal;
use crate::text::chars_to_string;
use crate::text::push_all;
use crate::text::str_chars;

verus! {

/// A value of an interpolation expression. The flag of a number or dice asks for a leading `+`
/// when the value is shown and is not negative.
pub enum InterpolationValue {
    String(String),
    Number(isize, bool),
    Dice(DiceExpression, bool),
    Object(usize),
}

/// A value as plain values.
pub enum ValueView {
    Str(Seq<char>),
    Number(int, bool),
    Dice(DiceModel, bool),
    Object(usize),
}

pub open spec fn value_view(v: InterpolationValue) -> ValueView {
    match v {
        InterpolationValue::String(s) => ValueView::Str(s@),
        InterpolationValue::Number(n, s) => ValueView::Number(n as int, s),
        InterpolationValue::Dice(d, s) => ValueView::Dice(d@, s),
        InterpolationValue::Object(o) => ValueView::Object(o),
    }
}

pub open spec fn option_value_view(v: Option<InterpolationValue>) -> Option<ValueView> {
    match v {
        Some(x) => Some(value_view(x)),
        None => None,
    }
}

/// What expressions can read: variables, and the properties and items of objects.
pub trait InterpolationObject {
    spec fn spec_variable(&self, name: Seq<char>) -> Option<ValueView>;

    spec fn spec_property(&self, object: usize, name: Seq<char>) -> Option<ValueView>;

    spec fn spec_index(&self, object: usize, index: usize) -> Option<ValueView>;

    /// The value of a variable, if there is one.
    fn get_property(&self, property: &str) -> (r: Option<InterpolationValue>)
        ensures
            option_value_view(r) == self.spec_variable(property@),
    ;

    /// A property of an object, if there is one.
    fn get_object_property(&self, object: usize, property: &str) -> (r: Option<InterpolationValue>)
        ensures
            option_value_view(r) == self.spec_property(object, property@),
    ;

    /// An item of a list object, if there is one.
    fn get_index(&self, object: usize, index: usize) -> (r: Option<InterpolationValue>)
        ensures
            option_value_view(r) == self.spec_index(object, index),
    ;
}

/// A context with no variables.
pub struct EmptyContext;

impl InterpolationObject for EmptyContext {
    open spec fn spec_variable(&self, name: Seq<char>) -> Option<ValueView> {
        None
    }

    open spec fn spec_property(&self, object: usize, name: Seq<char>) -> Option<ValueView> {
        None
    }

    open spec fn spec_index(&self, object: usize, index: usize) -> Option<ValueView> {
        None
    }

    fn get_property(&self, property: &str) -> (r: Option<InterpolationValue>) {
        None
    }

    fn get_object_property(&self, object: usize, property: &str) -> (r: Option<InterpolationValue>) {
        None
    }

    fn get_index(&self, object: usize, index: usize) -> (r: Option<InterpolationValue>) {
        None
    }
}

/// The first value stored under a name.
pub open spec fn lookup(entries: Seq<(Seq<char>, Seq<char>)>, name: Seq<char>) -> Option<Seq<char>>
    decreases entries.len(),
{
    if entries.len() == 0 {
        None
    } else if entries[0].0 == name {
        Some(entries[0].1)
    } else {
        lookup(entries.drop_first(), name)
    }
}

/// Named string variables, as the parameters of an included file.
pub struct StringMapContext {
    entries: Vec<(String, String)>,
}

impl StringMapContext {
    pub closed spec fn entries_view(&self) -> Seq<(Seq<char>, Seq<char>)> {
        self.entries@.map_values(|e: (String, String)| (e.0@, e.1@))
    }

    /// A context with no variables.
    pub fn new() -> (r: Self)
        ensures
            r.entries_view() == Seq::<(Seq<char>, Seq<char>)>::empty(),
    {
        let r = StringMapContext { entries: Vec::new() };
        assert(r.entries_view() =~= Seq::<(Seq<char>, Seq<char>)>::empty());
        r
    }

    /// Sets a variable; the newest value of a name is the one read.
    pub fn insert(&mut self, name: &str, value: &str)
        ensures
            final(self).entries_view() == seq![(name@, value@)] + old(self).entries_view(),
    {
        let ghost before = self.entries_view();
        self.entries.insert(0, (name.to_owned(), value.to_owned()));
        assert(self.entries_view() =~= seq![(name@, value@)] + before);
    }
}

impl InterpolationObject for StringMapContext {
    open spec fn spec_variable(&self, name: Seq<char>) -> Option<ValueView> {
        match lookup(self.entries_view(), name) {
            Some(v) => Some(ValueView::Str(v)),
            None => None,
        }
    }

    open spec fn spec_property(&self, object: usize, name: Seq<char>) -> Option<ValueView> {
        None
    }

    open spec fn spec_index(&self, object: usize, index: usize) -> Option<ValueView> {
        None
    }

    fn get_property(&self, property: &str) -> (r: Option<InterpolationValue>) {
        let name = str_chars(property);
        let ghost es = self.entries_view();
        let mut i: usize = 0;
        assert(es.skip(0) =~= es);
        while i < self.entries.len()
            invariant
                0 <= i <= self.entries@.len(),
                es == self.entries_view(),
                name@ == property@,
                lookup(es, name@) == lookup(es.skip(i as int), name@),
            decreases self.entries@.len() - i,
        {
            let key = str_chars(self.entries[i].0.as_str());
            assert(es.skip(i as int)[0] == es[i as int]);
            if crate::text::chars_equal(&key, &name) {
                return Some(InterpolationValue::String(self.entries[i].1.clone()));
            }
            assert(es.skip(i as int).drop_first() =~= es.skip(i as int + 1));
            i = i + 1;
        }
        None
    }

    fn get_object_property(&self, object: usize, property: &str) -> (r: Option<InterpolationValue>) {
        None
    }

    fn get_index(&self, object: usize, index: usize) -> (r: Option<InterpolationValue>) {
        None
    }
}

// ---- showing values

/// A number as text; with the flag, a leading `+` when not negative.
pub open spec fn number_text(n: int, sign: bool) -> Seq<char> {
    if sign && n >= 0 {
        seq!['+'] + decimal(n as nat)
    } else {
        signed_decimal(n)
    }
}

/// Dice as text: the average, then the expression in parentheses; with the flag, a leading `+`
/// when the head term is not negative. None where the average does not fit.
pub open spec fn dice_display(m: DiceModel, sign: bool) -> Option<Seq<char>> {
    if average_fits(m) {
        let base = signed_decimal(model_average(m)) + seq![' ', '('] + serialize_spec(m) + seq![')'];
        Some(
            if sign && !(m.0[0].2 < 0) {
                seq!['+'] + base
            } else {
                base
            },
        )
    } else {
        None
    }
}

/// The text a value shows when appended; None where a dice average does not fit.
pub open spec fn value_text(v: ValueView) -> Option<Seq<char>> {
    match v {
        ValueView::Str(s) => Some(s),
        ValueView::Number(n, s) => Some(number_text(n, s)),
        ValueView::Dice(m, s) => dice_display(m, s),
        ValueView::Object(_) => Some(seq!['<', 'o', 'b', 'j', 'e', 'c', 't', '>']),
    }
}

// ---- value operations as plain values

pub open spec fn negate_spec(v: ValueView) -> Result<ValueView, InterpolationError> {
    match v {
        ValueView::Number(n, s) => if in_isize(-n) {
            Ok(ValueView::Number(-n, s))
        } else {
            Err(InterpolationError::NumberOutOfRange)
        },
        ValueView::Dice(m, s) => if scale_fits(m, -1, ScaleOp::Multiply) {
            Ok(ValueView::Dice(scaled_model(m, -1, ScaleOp::Multiply), s))
        } else {
            Err(InterpolationError::NumberOutOfRange)
        },
        ValueView::Str(_) => Err(InterpolationError::CantNegateString),
        ValueView::Object(_) => Err(InterpolationError::CantNegateObject),
    }
}

pub open spec fn stringify_spec(v: ValueView) -> Result<ValueView, InterpolationError> {
    match v {
        ValueView::Number(n, s) => Ok(ValueView::Str(number_text(n, s))),
        ValueView::Dice(m, s) => match dice_display(m, s) {
            Some(t) => Ok(ValueView::Str(t)),
            None => Err(InterpolationError::NumberOutOfRange),
        },
        ValueView::Str(_) => Err(InterpolationError::StringIsAlreadyStringified),
        ValueView::Object(_) => Err(InterpolationError::CantStringifyObjects),
    }
}

pub open spec fn sign_spec(v: ValueView) -> Result<ValueView, InterpolationError> {
    match v {
        ValueView::Number(n, _) => Ok(ValueView::Number(n, true)),
        ValueView::Dice(m, _) => Ok(ValueView::Dice(m, true)),
        ValueView::Str(_) => Err(InterpolationError::CantSignString),
        ValueView::Object(_) => Err(InterpolationError::CantSignObject),
    }
}

pub open spec fn is_str(v: ValueView) -> bool {
    v is Str
}

pub open spec fn is_object(v: ValueView) -> bool {
    v is Object
}

pub open spec fn dice_scaled(m: DiceModel, k: int, op: ScaleOp, s: bool) -> Result<ValueView, InterpolationError> {
    if scale_fits(m, k, op) {
        Ok(ValueView::Dice(scaled_model(m, k, op), s))
    } else {
        Err(InterpolationError::NumberOutOfRange)
    }
}

pub open spec fn number_result(n: int, s: bool) -> Result<ValueView, InterpolationError> {
    if in_isize(n) {
        Ok(ValueView::Number(n, s))
    } else {
        Err(InterpolationError::NumberOutOfRange)
    }
}

pub open spec fn multiply_spec(l: ValueView, r: ValueView) -> Result<ValueView, InterpolationError> {
    match (l, r) {
        (ValueView::Number(a, s), ValueView::Number(b, _)) => number_result(a * b, s),
        (ValueView::Dice(m, s), ValueView::Number(k, _)) => dice_scaled(m, k, ScaleOp::Multiply, s),
        (ValueView::Number(k, s), ValueView::Dice(m, _)) => dice_scaled(m, k, ScaleOp::Multiply, s),
        _ => if is_str(l) || is_str(r) {
            Err(InterpolationError::CantMultiplyStrings)
        } else if is_object(l) || is_object(r) {
            Err(InterpolationError::CantMultiplyObjects)
        } else {
            Err(InterpolationError::CantMultiplyDice)
        },
    }
}

/// Floor (`/<`) or ceiling (`/>`) division of values.
pub open spec fn divide_spec(l: ValueView, r: ValueView, op: ScaleOp) -> Result<ValueView, InterpolationError> {
    match (l, r) {
        (ValueView::Number(a, s), ValueView::Number(b, _)) => if b == 0 {
            Err(InterpolationError::DivideByZero)
        } else {
            number_result(
                if op == ScaleOp::CeilingDivide {
                    ceil_div(a, b)
                } else {
                    floor_div(a, b)
                },
                s,
            )
        },
        (ValueView::Dice(m, s), ValueView::Number(k, _)) => if k == 0 {
            Err(InterpolationError::DivideByZero)
        } else {
            dice_scaled(m, k, op, s)
        },
        _ => if is_str(l) || is_str(r) {
            Err(InterpolationError::CantDivideStrings)
        } else if is_object(l) || is_object(r) {
            Err(InterpolationError::CantDivideObjects)
        } else {
            Err(InterpolationError::CantDivideByDice)
        },
    }
}

pub open spec fn dice_result(m: DiceModel, s: bool) -> Result<ValueView, InterpolationError> {
    if counts_fit(m.0) && factors_fit(m.0) && in_isize(m.1) {
        Ok(ValueView::Dice(m, s))
    } else {
        Err(InterpolationError::NumberOutOfRange)
    }
}

pub open spec fn add_spec(l: ValueView, r: ValueView) -> Result<ValueView, InterpolationError> {
    match (l, r) {
        (ValueView::Number(a, s), ValueView::Number(b, _)) => number_result(a + b, s),
        (ValueView::Dice(m, s), ValueView::Number(k, _)) => dice_result((m.0, m.1 + k), s),
        (ValueView::Number(k, s), ValueView::Dice(m, _)) => dice_result((m.0, m.1 + k), s),
        (ValueView::Str(a), ValueView::Str(b)) => Ok(ValueView::Str(a + b)),
        (ValueView::Dice(a, s), ValueView::Dice(b, _)) => dice_result(sum_model(a, b), s),
        _ => if is_object(l) || is_object(r) {
            Err(InterpolationError::CantAddObjects)
        } else {
            Err(InterpolationError::CantConcatenateNonStrings)
        },
    }
}

pub open spec fn subtract_spec(l: ValueView, r: ValueView) -> Result<ValueView, InterpolationError> {
    match (l, r) {
        (ValueView::Number(a, s), ValueView::Number(b, _)) => number_result(a - b, s),
        (ValueView::Dice(m, s), ValueView::Number(k, _)) => dice_result((m.0, m.1 - k), s),
        (ValueView::Number(k, s), ValueView::Dice(m, _)) => if scale_fits(m, -1, ScaleOp::Multiply) {
            let n = scaled_model(m, -1, ScaleOp::Multiply);
            dice_result((n.0, n.1 + k), s)
        } else {
            Err(InterpolationError::NumberOutOfRange)
        },
        (ValueView::Dice(a, s), ValueView::Dice(b, _)) => if factors_fit(
            scale_terms(b.0, -1, ScaleOp::Multiply),
        ) {
            dice_result(difference_model(a, b), s)
        } else {
            Err(InterpolationError::NumberOutOfRange)
        },
        _ => if is_object(l) || is_object(r) {
            Err(InterpolationError::CantSubtractObjects)
        } else {
            Err(InterpolationError::CantSubtractStrings)
        },
    }
}

fn push_number_text(out: &mut Vec<char>, n: isize, sign: bool)
    ensures
        final(out)@ == old(out)@ + number_text(n as int, sign),
{
    if sign && n >= 0 {
        out.push('+');
        push_decimal(out, n as u64);
        assert(final(out)@ =~= old(out)@ + number_text(n as int, sign));
    } else {
        push_signed_decimal(out, n);
    }
}

fn push_dice_text(out: &mut Vec<char>, d: &DiceExpression, sign: bool) -> (ok: bool)
    ensures
        ok == dice_display(d@, sign) is Some,
        ok ==> final(out)@ == old(out)@ + dice_display(d@, sign)->Some_0,
{
    let avg = match d.average() {
        Some(a) => a,
        None => {
            return false;
        },
    };
    let ghost start = out@;
    let neg = d.is_negative();
    if sign && !neg {
        out.push('+');
    }
    let ghost mid = out@;
    push_signed_decimal(out, avg);
    out.push(' ');
    out.push('(');
    d.push_text(out);
    out.push(')');
    assert(out@ =~= mid + (signed_decimal(model_average(d@)) + seq![' ', '('] + serialize_spec(d@) + seq![')']));
    assert(out@ =~= start + dice_display(d@, sign)->Some_0);
    true
}

impl InterpolationValue {
    /// Writes the text the value shows; false, where a dice average does not fit.
    pub fn push_display(&self, out: &mut Vec<char>) -> (ok: bool)
        ensures
            ok == value_text(value_view(*self)) is Some,
            ok ==> final(out)@ == old(out)@ + value_text(value_view(*self))->Some_0,
    {
        match self {
            InterpolationValue::String(t) => {
                let v = str_chars(t.as_str());
                push_all(out, &v);
                true
            },
            InterpolationValue::Number(n, sign) => {
                push_number_text(out, *n, *sign);
                true
            },
            InterpolationValue::Dice(d, sign) => push_dice_text(out, d, *sign),
            InterpolationValue::Object(_) => {
                let v = str_chars("<object>");
                proof {
                    reveal_strlit("<object>");
                }
                push_all(out, &v);
                true
            },
        }
    }

    /// The value with its sign changed.
    pub fn negate(&self) -> (r: Result<InterpolationValue, InterpolationError>)
        ensures
            match r {
                Ok(v) => negate_spec(value_view(*self)) == Ok::<ValueView, InterpolationError>(value_view(v)),
                Err(e) => negate_spec(value_view(*self)) == Err::<ValueView, InterpolationError>(e),
            },
    {
        match self {
            InterpolationValue::Number(n, s) => {
                if *n == isize::MIN {
                    Err(InterpolationError::NumberOutOfRange)
                } else {
                    Ok(InterpolationValue::Number(-*n, *s))
                }
            },
            InterpolationValue::Dice(d, s) => match d.multiply(&-1) {
                Some(x) => Ok(InterpolationValue::Dice(x, *s)),
                None => Err(InterpolationError::NumberOutOfRange),
            },
            InterpolationValue::String(_) => Err(InterpolationError::CantNegateString),
            InterpolationValue::Object(_) => Err(InterpolationError::CantNegateObject),
        }
    }

    /// A number or dice turned into the string it shows.
    pub fn stringify(&self) -> (r: Result<InterpolationValue, InterpolationError>)
        ensures
            match r {
                Ok(v) => stringify_spec(value_view(*self)) == Ok::<ValueView, InterpolationError>(value_view(v)),
                Err(e) => stringify_spec(value_view(*self)) == Err::<ValueView, InterpolationError>(e),
            },
    {
        match self {
            InterpolationValue::Number(n, s) => {
                let mut out: Vec<char> = Vec::new();
                push_number_text(&mut out, *n, *s);
                assert(out@ =~= number_text(*n as int, *s));
                Ok(InterpolationValue::String(chars_to_string(&out)))
            },
            InterpolationValue::Dice(d, s) => {
                let mut out: Vec<char> = Vec::new();
                if push_dice_text(&mut out, d, *s) {
                    assert(out@ =~= dice_display(d@, *s)->Some_0);
                    Ok(InterpolationValue::String(chars_to_string(&out)))
                } else {
                    Err(InterpolationError::NumberOutOfRange)
                }
            },
            InterpolationValue::String(_) => Err(InterpolationError::StringIsAlreadyStringified),
            InterpolationValue::Object(_) => Err(InterpolationError::CantStringifyObjects),
        }
    }

    /// The value, asking for a leading `+` when shown.
    pub fn signed(&self) -> (r: Result<InterpolationValue, InterpolationError>)
        ensures
            match r {
                Ok(v) => sign_spec(value_view(*self)) == Ok::<ValueView, InterpolationError>(value_view(v)),
                Err(e) => sign_spec(value_view(*self)) == Err::<ValueView, InterpolationError>(e),
            },
    {
        match self {
            InterpolationValue::Number(n, _) => Ok(InterpolationValue::Number(*n, true)),
            InterpolationValue::Dice(d, _) => Ok(InterpolationValue::Dice(d.copy(), true)),
            InterpolationValue::String(_) => Err(InterpolationError::CantSignString),
            InterpolationValue::Object(_) => Err(InterpolationError::CantSignObject),
        }
    }

    /// The product of two values: numbers, or dice and a number.
    pub fn multiply(&self, rhs: &InterpolationValue) -> (r: Result<InterpolationValue, InterpolationError>)
        ensures
            match r {
                Ok(v) => multiply_spec(value_view(*self), value_view(*rhs)) == Ok::<ValueView, InterpolationError>(
                    value_view(v),
                ),
                Err(e) => multiply_spec(value_view(*self), value_view(*rhs)) == Err::<ValueView, InterpolationError>(e),
            },
    {
        match (self, rhs) {
            (InterpolationValue::Number(a, s), InterpolationValue::Number(b, _)) => {
                assert(-0x8000_0000_0000_0000_0000_0000_0000_0000 <= (*a as int) * (*b as int)
                    <= 0x7fff_ffff_ffff_ffff_ffff_ffff_ffff_ffff) by (nonlinear_arith)
                    requires
                        -0x8000_0000_0000_0000 <= *a <= 0x7fff_ffff_ffff_ffff,
                        -0x8000_0000_0000_0000 <= *b <= 0x7fff_ffff_ffff_ffff,
                {
                }
                let p: i128 = *a as i128 * *b as i128;
                if p < isize::MIN as i128 || p > isize::MAX as i128 {
                    Err(InterpolationError::NumberOutOfRange)
                } else {
                    Ok(InterpolationValue::Number(p as isize, *s))
                }
            },
            (InterpolationValue::Dice(d, s), InterpolationValue::Number(k, _)) => match d.multiply(k) {
                Some(x) => Ok(InterpolationValue::Dice(x, *s)),
                None => Err(InterpolationError::NumberOutOfRange),
            },
            (InterpolationValue::Number(k, s), InterpolationValue::Dice(d, _)) => match d.multiply(k) {
                Some(x) => Ok(InterpolationValue::Dice(x, *s)),
                None => Err(InterpolationError::NumberOutOfRange),
            },
            (InterpolationValue::String(_), _) | (_, InterpolationValue::String(_)) => Err(
                InterpolationError::CantMultiplyStrings,
            ),
            (InterpolationValue::Object(_), _) | (_, InterpolationValue::Object(_)) => Err(
                InterpolationError::CantMultiplyObjects,
            ),
            (InterpolationValue::Dice(..), InterpolationValue::Dice(..)) => Err(InterpolationError::CantMultiplyDice),
        }
    }

    fn divide(&self, rhs: &InterpolationValue, op: ScaleOp) -> (r: Result<InterpolationValue, InterpolationError>)
        requires
            op != ScaleOp::Multiply,
        ensures
            match r {
                Ok(v) => divide_spec(value_view(*self), value_view(*rhs), op) == Ok::<ValueView, InterpolationError>(
                    value_view(v),
                ),
                Err(e) => divide_spec(value_view(*self), value_view(*rhs), op) == Err::<ValueView, InterpolationError>(e),
            },
    {
        match (self, rhs) {
            (InterpolationValue::Number(a, s), InterpolationValue::Number(b, _)) => {
                if *b == 0 {
                    Err(InterpolationError::DivideByZero)
                } else if *a == isize::MIN && *b == -1 {
                    assert(floor_div(*a as int, -1) == -(*a as int));
                    assert(floor_div(-(*a as int), -1) == *a as int);
                    Err(InterpolationError::NumberOutOfRange)
                } else if op == ScaleOp::CeilingDivide {
                    Ok(InterpolationValue::Number(div_ceiling(*a, *b), *s))
                } else {
                    Ok(InterpolationValue::Number(div_floor(*a, *b), *s))
                }
            },
            (InterpolationValue::Dice(d, s), InterpolationValue::Number(k, _)) => {
                if *k == 0 {
                    Err(InterpolationError::DivideByZero)
                } else {
                    let x = if op == ScaleOp::CeilingDivide {
                        d.div_ceiling(k)
                    } else {
                        d.div_floor(k)
                    };
                    match x {
                        Some(x) => Ok(InterpolationValue::Dice(x, *s)),
                        None => Err(InterpolationError::NumberOutOfRange),
                    }
                }
            },
            (InterpolationValue::String(_), _) | (_, InterpolationValue::String(_)) => Err(
                InterpolationError::CantDivideStrings,
            ),
            (InterpolationValue::Object(_), _) | (_, InterpolationValue::Object(_)) => Err(
                InterpolationError::CantDivideObjects,
            ),
            (_, InterpolationValue::Dice(..)) => Err(InterpolationError::CantDivideByDice),
        }
    }

    /// Division rounded up (`/>`).
    pub fn divide_ceiling(&self, rhs: &InterpolationValue) -> (r: Result<InterpolationValue, InterpolationError>)
        ensures
            match r {
                Ok(v) => divide_spec(value_view(*self), value_view(*rhs), ScaleOp::CeilingDivide) == Ok::<
                    ValueView,
                    InterpolationError,
                >(value_view(v)),
                Err(e) => divide_spec(value_view(*self), value_view(*rhs), ScaleOp::CeilingDivide) == Err::<
                    ValueView,
                    InterpolationError,
                >(e),
            },
    {
        self.divide(rhs, ScaleOp::CeilingDivide)
    }

    /// Division rounded down (`/<`).
    pub fn divide_floor(&self, rhs: &InterpolationValue) -> (r: Result<InterpolationValue, InterpolationError>)
        ensures
            match r {
                Ok(v) => divide_spec(value_view(*self), value_view(*rhs), ScaleOp::FloorDivide) == Ok::<
                    ValueView,
                    InterpolationError,
                >(value_view(v)),
                Err(e) => divide_spec(value_view(*self), value_view(*rhs), ScaleOp::FloorDivide) == Err::<
                    ValueView,
                    InterpolationError,
                >(e),
            },
    {
        self.divide(rhs, ScaleOp::FloorDivide)
    }

    /// The sum of numbers or dice, or two strings joined.
    pub fn add(&self, rhs: &InterpolationValue) -> (r: Result<InterpolationValue, InterpolationError>)
        ensures
            match r {
                Ok(v) => add_spec(value_view(*self), value_view(*rhs)) == Ok::<ValueView, InterpolationError>(
                    value_view(v),
                ),
                Err(e) => add_spec(value_view(*self), value_view(*rhs)) == Err::<ValueView, InterpolationError>(e),
            },
    {
        match (self, rhs) {
            (InterpolationValue::Number(a, s), InterpolationValue::Number(b, _)) => {
                let t: i128 = *a as i128 + *b as i128;
                if t < isize::MIN as i128 || t > isize::MAX as i128 {
                    Err(InterpolationError::NumberOutOfRange)
                } else {
                    Ok(InterpolationValue::Number(t as isize, *s))
                }
            },
            (InterpolationValue::Dice(d, s), InterpolationValue::Number(k, _)) => match d.add(k) {
                Some(x) => {
                    proof {
                        lemma_model_fits(x);
                    }
                    Ok(InterpolationValue::Dice(x, *s))
                },
                None => Err(InterpolationError::NumberOutOfRange),
            },
            (InterpolationValue::Number(k, s), InterpolationValue::Dice(d, _)) => match d.add(k) {
                Some(x) => {
                    proof {
                        lemma_model_fits(x);
                    }
                    Ok(InterpolationValue::Dice(x, *s))
                },
                None => Err(InterpolationError::NumberOutOfRange),
            },
            (InterpolationValue::String(a), InterpolationValue::String(b)) => {
                let mut v = str_chars(a.as_str());
                let w = str_chars(b.as_str());
                push_all(&mut v, &w);
                Ok(InterpolationValue::String(chars_to_string(&v)))
            },
            (InterpolationValue::Dice(a, s), InterpolationValue::Dice(b, _)) => match a.add_dice(b) {
                Some(x) => {
                    proof {
                        lemma_model_fits(x);
                        lemma_model_fits(*a);
                    }
                    Ok(InterpolationValue::Dice(x, *s))
                },
                None => Err(InterpolationError::NumberOutOfRange),
            },
            (InterpolationValue::Object(_), _) | (_, InterpolationValue::Object(_)) => Err(
                InterpolationError::CantAddObjects,
            ),
            (InterpolationValue::String(_), _) | (_, InterpolationValue::String(_)) => Err(
                InterpolationError::CantConcatenateNonStrings,
            ),
        }
    }

    /// The difference of numbers or dice.
    pub fn subtract(&self, rhs: &InterpolationValue) -> (r: Result<InterpolationValue, InterpolationError>)
        ensures
            match r {
                Ok(v) => subtract_spec(value_view(*self), value_view(*rhs)) == Ok::<ValueView, InterpolationError>(
                    value_view(v),
                ),
                Err(e) => subtract_spec(value_view(*self), value_view(*rhs)) == Err::<ValueView, InterpolationError>(e),
            },
    {
        match (self, rhs) {
            (InterpolationValue::Number(a, s), InterpolationValue::Number(b, _)) => {
                let t: i128 = *a as i128 - *b as i128;
                if t < isize::MIN as i128 || t > isize::MAX as i128 {
                    Err(InterpolationError::NumberOutOfRange)
                } else {
                    Ok(InterpolationValue::Number(t as isize, *s))
                }
            },
            (InterpolationValue::Dice(d, s), InterpolationValue::Number(k, _)) => match d.subtract(k) {
                Some(x) => {
                    proof {
                        lemma_model_fits(x);
                    }
                    Ok(InterpolationValue::Dice(x, *s))
                },
                None => Err(InterpolationError::NumberOutOfRange),
            },
            (InterpolationValue::Number(k, s), InterpolationValue::Dice(d, _)) => match d.multiply(&-1) {
                Some(n) => match n.add(k) {
                    Some(x) => {
                        proof {
                            lemma_model_fits(x);
                        }
                        Ok(InterpolationValue::Dice(x, *s))
                    },
                    None => Err(InterpolationError::NumberOutOfRange),
                },
                None => Err(InterpolationError::NumberOutOfRange),
            },
            (InterpolationValue::Dice(a, s), InterpolationValue::Dice(b, _)) => match a.subtract_dice(b) {
                Some(x) => {
                    proof {
                        lemma_model_fits(x);
                    }
                    Ok(InterpolationValue::Dice(x, *s))
                },
                None => Err(InterpolationError::NumberOutOfRange),
            },
            (InterpolationValue::Object(_), _) | (_, InterpolationValue::Object(_)) => Err(
                InterpolationError::CantSubtractObjects,
            ),
            (InterpolationValue::String(_), _) | (_, InterpolationValue::String(_)) => Err(
                InterpolationError::CantSubtractStrings,
            ),
        }
    }
}

} // verus!
