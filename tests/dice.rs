use monstorr::dice::Dice;
use monstorr::dice::Die;
use monstorr::dice::ParseDiceError;
use monstorr::dice_expression::DiceExpression;
use monstorr::dice_parser::ParseDiceExpressionError;
use monstorr::errors::TokenError;

fn expr(s: &str) -> DiceExpression {
    match DiceExpression::parse(s) {
        Ok(e) => e,
        Err(e) => panic!("could not parse {}: {:?}", s, e),
    }
}

#[test]
fn die_new_picks_standard_dice() {
    assert_eq!(Die::new(6), Die::D6);
    assert_eq!(Die::new(20), Die::D20);
    assert_eq!(Die::new(7), Die::DCustom(7));
}

#[test]
fn die_parse_accepts_optional_d() {
    assert_eq!(Die::parse("d8"), Ok(Die::D8));
    assert_eq!(Die::parse(" D12 "), Ok(Die::D12));
    assert_eq!(Die::parse("100"), Ok(Die::DCustom(100)));
    assert_eq!(Die::parse("d300"), Err(ParseDiceError::ExpectedU8ForSides));
    assert_eq!(Die::parse("dx"), Err(ParseDiceError::ExpectedU8ForSides));
}

#[test]
fn dice_parse_and_text() {
    assert_eq!(Dice::parse("2d6"), Ok(Dice::new(2, &Die::D6)));
    assert_eq!(Dice::parse("d8"), Ok(Dice::new(1, &Die::D8)));
    assert_eq!(Dice::parse("x6"), Err(ParseDiceError::ExpectedDCharacter));
    assert_eq!(Dice::parse("999d6"), Err(ParseDiceError::ExpectedU8ForCount));
    assert_eq!(Dice::new(3, &Die::D10).to_string(), "3d10");
    assert_eq!(Die::DCustom(7).to_string(), "d7");
}

#[test]
fn dice_average_rounds_down() {
    assert_eq!(Dice::new(1, &Die::D6).average(), 3);
    assert_eq!(Dice::new(2, &Die::D6).average(), 7);
    assert_eq!(Dice::new(3, &Die::D8).average(), 13);
    assert_eq!(Dice::new(255, &Die::DCustom(255)).average(), 32640);
}

#[test]
fn expression_round_trip_examples() {
    for s in ["2d6", "1d8 + 3", "(2d6 × 2) - 1d4 + 5", "-1d6 - 2", "1d4 + (1d6 × -3) - 1d8"] {
        let e = expr(s);
        assert_eq!(e.serialize_to_string(), s);
        let again = expr(&e.serialize_to_string());
        assert_eq!(again.serialize_to_string(), s);
        assert_eq!(again.average(), e.average());
    }
}

#[test]
fn expression_parse_errors() {
    assert_eq!(DiceExpression::parse("x").err(), Some(ParseDiceExpressionError::ScanError(TokenError::UnexpectedCharacter)));
    assert_eq!(DiceExpression::parse("5 + x").err(), Some(ParseDiceExpressionError::ExpectedMinusParenOrDiceAsFirstToken));
    assert_eq!(DiceExpression::parse("1d6 + x").err(), Some(ParseDiceExpressionError::ScanError(TokenError::UnexpectedCharacter)));
    assert_eq!(DiceExpression::parse("1d6 + 2 + 1d4").err(), Some(ParseDiceExpressionError::UnexpectedContentAfterAddend));
    assert_eq!(DiceExpression::parse("5").err(), Some(ParseDiceExpressionError::ExpectedMinusParenOrDiceAsFirstToken));
    assert_eq!(DiceExpression::parse("-5").err(), Some(ParseDiceExpressionError::ExpectedDiceAfterFirstMinus));
    assert_eq!(DiceExpression::parse("(1d6 2)").err(), Some(ParseDiceExpressionError::ExpectedMultiplySymbolAfterDiceInParens));
    assert_eq!(DiceExpression::parse("(1d6 * 2").err(), Some(ParseDiceExpressionError::ExpectedCloseParen));
    assert_eq!(DiceExpression::parse("1d6 1d4").err(), Some(ParseDiceExpressionError::ExpectedPlusOrMinusAfterTerm));
    assert_eq!(expr("1d6 - (1d4 * 2)").serialize_to_string(), "1d6 + (1d4 × -2)");
    assert_eq!(expr("1d6 - (1d4 × -2) + 1").serialize_to_string(), "1d6 + (1d4 × 2) + 1");
    assert_eq!(DiceExpression::parse("1d6 - 2d").err(), Some(ParseDiceExpressionError::ScanError(TokenError::InvalidDice)));
    assert_eq!(DiceExpression::parse("1d6 - x").err(), Some(ParseDiceExpressionError::ScanError(TokenError::UnexpectedCharacter)));
    assert_eq!(DiceExpression::parse("1d6 - *").err(), Some(ParseDiceExpressionError::ExpectedNumberOrDiceAfterMinus));
    assert_eq!(DiceExpression::parse("1d").err(), Some(ParseDiceExpressionError::ScanError(TokenError::InvalidDice)));
}

#[test]
fn parsing_merges_repeated_terms() {
    assert_eq!(expr("1d6 + 1d6 + 2").serialize_to_string(), "2d6 + 2");
    assert_eq!(expr("1d6 + 1d4 - 1d6 + 1d6").serialize_to_string(), "2d6 + 1d4 - 1d6");
    assert_eq!(DiceExpression::parse("200d6 + 100d6").err(), Some(ParseDiceExpressionError::TooManyDice));
}

#[test]
fn adding_same_dice_merges_counts() {
    let a = expr("1d6");
    let b = expr("1d6");
    let sum = a.add_dice(&b).unwrap();
    assert_eq!(sum.serialize_to_string(), "2d6");
    let c = expr("1d6 + 1d4 + 2");
    let d = expr("1d4 + 1d6 + 3");
    assert_eq!(c.add_dice(&d).unwrap().serialize_to_string(), "2d6 + 2d4 + 5");
}

#[test]
fn factor_and_count_stay_distinct() {
    let two_dice = DiceExpression::from_dice(Dice::new(2, &Die::D6), 0);
    let doubled = DiceExpression::from_dice(Dice::new(1, &Die::D6), 0).multiply(&2).unwrap();
    assert_eq!(two_dice.serialize_to_string(), "2d6");
    assert_eq!(doubled.serialize_to_string(), "(1d6 × 2)");
    assert_eq!(two_dice.average(), Some(7));
    assert_eq!(doubled.average(), Some(7));
}

#[test]
fn arithmetic_on_expressions() {
    let e = expr("2d6 + 1d4 + 3");
    assert_eq!(e.multiply(&-1).unwrap().serialize_to_string(), "-2d6 - 1d4 - 3");
    assert_eq!(e.multiply(&0).unwrap().serialize_to_string(), "(2d6 × 0) + (1d4 × 0)");
    assert_eq!(expr("(1d6 × 3) + (1d6 × 2) + 5").div_floor(&2).unwrap().serialize_to_string(), "2d6 + 2");
    assert_eq!(expr("(1d6 × 3) + 5").div_ceiling(&2).unwrap().serialize_to_string(), "(1d6 × 2) + 3");
    assert_eq!(expr("1d6 + 1").add(&4).unwrap().serialize_to_string(), "1d6 + 5");
    assert_eq!(expr("1d6 + 1").subtract(&4).unwrap().serialize_to_string(), "1d6 - 3");
    assert_eq!(expr("1d6 + 2").subtract_dice(&expr("1d6 + 1")).unwrap().serialize_to_string(), "1d6 - 1d6 + 1");
    assert_eq!(expr("2d8").coefficient_add(3).unwrap().serialize_to_string(), "5d8");
    assert!(expr("200d8").coefficient_add(100).is_none());
    assert!(expr("200d6").add_dice(&expr("100d6")).is_none());
    assert!(expr("1d6").add(&isize::MAX).unwrap().add(&1).is_none());
    assert!(expr("-1d6").is_negative());
    assert!(!expr("1d6 - 1d4").is_negative());
}

#[test]
fn expression_average_and_display() {
    assert_eq!(expr("1d8 + 2").average(), Some(6));
    assert_eq!(expr("(2d6 × 2) - 1d4 + 5").average(), Some(16));
    assert_eq!(expr("(1d6 × 3)").average(), Some(10));
    assert_eq!(expr("1d6 + 1d6").average(), Some(7));
    assert_eq!(expr("1d8 + 2").display_with_alternate_average(None).unwrap(), "6 (1d8 + 2)");
    assert_eq!(expr("1d8 + 2").display_with_alternate_average(Some(9)).unwrap(), "9 (1d8 + 2)");
}
