use vstd::prelude::*;

use crate::dice_expression::ScaleOp;
use crate::errors::InterpolationError;
use crate::value::add_spec;
use crate::value::divide_spec;
use crate::value::multiply_spec;
use crate::value::subtract_spec;
use crate::value::ValueView;

verus! {

/// The display flag of a number or dice value.
pub open spec fn sign_flag(v: ValueView) -> Option<bool> {
    match v {
        ValueView::Number(_, s) => Some(s),
        ValueView::Dice(_, s) => Some(s),
        _ => None,
    }
}

/// The result of every arithmetic operation on numbers and dice keeps the display flag of its
/// left operand, whatever the flag of the right one.
pub proof fn lemma_sign_follows_left(l: ValueView, r: ValueView)
    requires
        sign_flag(l) is Some,
    ensures
        add_spec(l, r) matches Ok(v) ==> sign_flag(v) == sign_flag(l),
        subtract_spec(l, r) matches Ok(v) ==> sign_flag(v) == sign_flag(l),
        multiply_spec(l, r) matches Ok(v) ==> sign_flag(v) == sign_flag(l),
        divide_spec(l, r, ScaleOp::FloorDivide) matches Ok(v) ==> sign_flag(v) == sign_flag(l),
        divide_spec(l, r, ScaleOp::CeilingDivide) matches Ok(v) ==> sign_flag(v) == sign_flag(l),
{
}

/// Dividing a number or dice by dice is refused, rounding down or up.
pub proof fn lemma_no_division_by_dice(l: ValueView, r: ValueView)
    requires
        sign_flag(l) is Some,
        r is Dice,
    ensures
        divide_spec(l, r, ScaleOp::FloorDivide) == Err::<ValueView, InterpolationError>(
            InterpolationError::CantDivideByDice,
        ),
        divide_spec(l, r, ScaleOp::CeilingDivide) == Err::<ValueView, InterpolationError>(
            InterpolationError::CantDivideByDice,
        ),
{
}

} // verus!
