use monstorr::dice::Dice;
use monstorr::dice::Die;
use monstorr::dice_expression::DiceExpression;
use monstorr::errors::InterpolationError;
use monstorr::evaluator::interpolate;
use monstorr::evaluator::InterpolationOperation;
use monstorr::interpolation::interpolate_simple_markdown_naively;
use monstorr::interpolation::interpolate_str_for_deserialization;
use monstorr::interpolation::interpolate_str_for_statblock;
use monstorr::interpolation::parse_str;
use monstorr::errors::TokenError;
use monstorr::lexer::InterpolationMode;
use monstorr::lexer::InterpolationTokenizer;
use monstorr::parse_position::PositionRange;
use monstorr::structured_text::TextBlock;
use monstorr::structured_text::TextSpan;
use monstorr::tokenizer::Token;
use monstorr::value::EmptyContext;
use monstorr::value::InterpolationValue;
use monstorr::value::StringMapContext;

fn goblin() -> StringMapContext {
    let mut c = StringMapContext::new();
    c.insert("Subj", "The goblin");
    c.insert("name", "Goblin");
    c
}

fn statblock_error(source: &str) -> InterpolationError {
    match interpolate_str_for_statblock(source, "test", &goblin(), false) {
        Ok(_) => panic!("expected an error for {}", source),
        Err(e) => e.error,
    }
}

fn span_texts(spans: &Vec<TextSpan>) -> String {
    let mut s = String::new();
    for span in spans {
        s.push_str(span.content());
    }
    s
}

#[test]
fn end_to_end_goblin_hit_points() {
    let blocks = interpolate_str_for_statblock("${Subj} has ${1d8 + 2} hit points.", "test", &goblin(), true).unwrap();
    assert_eq!(blocks.len(), 1);
    match &blocks[0] {
        TextBlock::Paragraph { heading, body } => {
            assert!(heading.is_none());
            assert!(body.iter().all(|s| matches!(s, TextSpan::Normal(_))));
            assert_eq!(span_texts(body), "The goblin has 6 (1d8 + 2) hit points.");
        },
        _ => panic!("expected a paragraph"),
    }
}

#[test]
fn nested_italic_is_refused() {
    assert!(matches!(statblock_error("${italic(}${italic(}x${)}${)}"), InterpolationError::TextIsAlreadyItalic));
}

#[test]
fn closing_bold_that_is_not_open_is_refused() {
    let tape = vec![
        (InterpolationOperation::CreateString("x".to_owned()), PositionRange::none()),
        (InterpolationOperation::Append, PositionRange::none()),
        (InterpolationOperation::EndBold, PositionRange::none()),
    ];
    match interpolate(&tape, "test", &EmptyContext) {
        Err(e) => assert!(matches!(e.error, InterpolationError::TextIsNotBold)),
        Ok(_) => panic!("expected an error"),
    }
}

#[test]
fn dividing_by_dice_is_refused() {
    assert!(matches!(statblock_error("${5 /< 1d6}"), InterpolationError::CantDivideByDice));
    assert!(matches!(statblock_error("${5 /> 1d6}"), InterpolationError::CantDivideByDice));
    assert!(matches!(statblock_error("${1d6 /> 1d6}"), InterpolationError::CantDivideByDice));
}

#[test]
fn sign_is_inherited_from_the_left() {
    let signed = InterpolationValue::Number(3, true);
    let plain = InterpolationValue::Number(4, false);
    assert!(matches!(signed.add(&plain), Ok(InterpolationValue::Number(7, true))));
    assert!(matches!(plain.add(&signed), Ok(InterpolationValue::Number(7, false))));
    let dice = InterpolationValue::Dice(DiceExpression::from_dice(Dice::new(1, &Die::D6), 0), false);
    assert!(matches!(signed.add(&dice), Ok(InterpolationValue::Dice(_, true))));
    assert!(matches!(dice.subtract(&signed), Ok(InterpolationValue::Dice(_, false))));
}

#[test]
fn inclusion_mode_refuses_structured_text() {
    let mut c = StringMapContext::new();
    c.insert("x", "value");
    assert_eq!(interpolate_str_for_deserialization("a $<x> b", "test", &c, false).unwrap(), "a value b");
    match interpolate_str_for_deserialization("", "test", &c, true) {
        Err(e) => {
            assert!(matches!(e.error, InterpolationError::UnexpectedStructuredText));
            assert_eq!(e.full_text.as_deref(), Some(""));
        },
        Ok(_) => panic!("expected an error"),
    }
    assert_eq!(interpolate_str_for_deserialization("${par}", "test", &c, false).unwrap(), "${par}");
    assert!(matches!(
        interpolate_str_for_deserialization("$<par>", "test", &c, false).map_err(|e| e.error),
        Err(InterpolationError::UnknownVariable)
    ));
}

#[test]
fn structural_commands_build_blocks() {
    let blocks = interpolate_str_for_statblock("${par(}Bite.${)} Hit: ${bold(}5${)}.${sub(}Note${)}more", "t", &EmptyContext, false).unwrap();
    assert_eq!(blocks.len(), 2);
    match &blocks[0] {
        TextBlock::Paragraph { heading: Some(h), body } => {
            assert_eq!(span_texts(h), "Bite.");
            assert_eq!(body.len(), 3);
            assert!(matches!(&body[1], TextSpan::Bold(t) if t == "5"));
        },
        _ => panic!("expected a paragraph with a heading"),
    }
    match &blocks[1] {
        TextBlock::SubParagraph { heading: Some(h), body } => {
            assert_eq!(span_texts(h), "Note");
            assert_eq!(span_texts(body), "more");
        },
        _ => panic!("expected a sub-paragraph"),
    }
}

#[test]
fn expressions_evaluate() {
    let check = |src: &str, want: &str| {
        let blocks = interpolate_str_for_statblock(src, "t", &EmptyContext, false).unwrap();
        match &blocks[0] {
            TextBlock::Paragraph { body, .. } => assert_eq!(span_texts(body), want),
            _ => panic!("expected a paragraph"),
        }
    };
    check("${2 * 3 + 1}", "7");
    check("${7 /< 2} ${7 /> 2} ${-7 /< 2}", "3 4 -4");
    check("${10 - 3 - 2}", "5");
    check("${+3} ${+ -3} ${+0}", "+3 -3 +0");
    check("${\"a\" + \"b\"}", "ab");
    check("${\"n=\" + $(1 + 1)}", "n=2");
    check("${1d6 + 1d6}", "7 (2d6)");
    check("${2 * 1d6}", "7 ((1d6 × 2))");
    check("${5 - 1d6}", "1 (-1d6 + 5)");
    check("${+1d8}", "+4 (1d8)");
    check("a\\${b", "a${b");
}

#[test]
fn evaluation_errors() {
    assert!(matches!(statblock_error("${-\"a\"}"), InterpolationError::CantNegateString));
    assert!(matches!(statblock_error("${$\"a\"}"), InterpolationError::StringIsAlreadyStringified));
    assert!(matches!(statblock_error("${+\"a\"}"), InterpolationError::CantSignString));
    assert!(matches!(statblock_error("${1d6 * 1d6}"), InterpolationError::CantMultiplyDice));
    assert!(matches!(statblock_error("${\"a\" * 2}"), InterpolationError::CantMultiplyStrings));
    assert!(matches!(statblock_error("${\"a\" /< 2}"), InterpolationError::CantDivideStrings));
    assert!(matches!(statblock_error("${\"a\" + 2}"), InterpolationError::CantConcatenateNonStrings));
    assert!(matches!(statblock_error("${\"a\" - 2}"), InterpolationError::CantSubtractStrings));
    assert!(matches!(statblock_error("${nobody}"), InterpolationError::UnknownVariable));
    assert!(matches!(statblock_error("${name.first}"), InterpolationError::UnknownProperty));
    assert!(matches!(statblock_error("${name.0}"), InterpolationError::InvalidIndex));
    assert!(matches!(statblock_error("${5 /< 0}"), InterpolationError::DivideByZero));
    assert!(matches!(statblock_error("${9223372036854775807 + 1}"), InterpolationError::NumberOutOfRange));
    assert!(matches!(statblock_error("${bold(}a${bold(}b${)}${)}"), InterpolationError::TextIsAlreadyBold));
}

#[test]
fn parse_and_scan_errors() {
    assert!(matches!(statblock_error("${(1 + 2}"), InterpolationError::ExpectedCloseParen(_)));
    assert!(matches!(statblock_error("${name.+}"), InterpolationError::ExpectedIdentifier(_)));
    assert!(matches!(statblock_error("${*}"), InterpolationError::ExpectedExpression(_)));
    assert!(matches!(statblock_error("${1 / 2}"), InterpolationError::ScanError(TokenError::SlashIsNotValid)));
    assert!(matches!(statblock_error("${\"abc}"), InterpolationError::ScanError(TokenError::UnterminatedString)));
    assert!(matches!(statblock_error("a\\b"), InterpolationError::ScanError(TokenError::InvalidEscape)));
    assert!(matches!(statblock_error("${#}"), InterpolationError::ScanError(TokenError::UnexpectedCharacter)));
    assert!(matches!(statblock_error("${99999999999999999999}"), InterpolationError::ScanError(TokenError::InvalidNumber)));
    assert!(matches!(statblock_error("${1d}"), InterpolationError::ScanError(TokenError::InvalidDice)));
}

#[test]
fn tokenizer_positions_and_modes() {
    let mut t = InterpolationTokenizer::new("t", "ab$<x\r\n + 1>c", InterpolationMode::DeserializeCreatureCommands);
    let (tokens, fail) = t.tokenize();
    assert!(fail.is_none());
    assert_eq!(tokens.len(), 5);
    assert_eq!((tokens[0].1.start.line, tokens[0].1.start.column), (1, 1));
    assert!(matches!(&tokens[0].0, Token::Text(s) if s == "ab"));
    assert!(matches!(&tokens[1].0, Token::Identifier(s) if s == "x"));
    assert!(matches!(&tokens[2].0, Token::Plus));
    assert_eq!(tokens[2].1.start.line, 2);
    assert!(matches!(&tokens[4].0, Token::Text(s) if s == "c"));
    let mut t = InterpolationTokenizer::new("t", "${par}", InterpolationMode::CalculateStatBlock);
    let (tokens, _) = t.tokenize();
    assert!(matches!(&tokens[1].0, Token::Keyword(_)));
    let mut t = InterpolationTokenizer::new("t", "$<par>", InterpolationMode::DeserializeCreatureCommands);
    let (tokens, _) = t.tokenize();
    assert!(matches!(&tokens[1].0, Token::Identifier(_)));
    let mut t = InterpolationTokenizer::new("t", "a$<1 # 2>", InterpolationMode::DeserializeCreatureCommands);
    let (tokens, fail) = t.tokenize();
    assert_eq!(tokens.len(), 2);
    assert!(matches!(fail.map(|e| e.error), Some(TokenError::UnexpectedCharacter)));
}

#[test]
fn markdown_headings_and_styles() {
    let blocks = interpolate_simple_markdown_naively("Title.", "some **bold** and _it_\n•item", "t", false, false).unwrap();
    assert_eq!(blocks.len(), 2);
    match &blocks[0] {
        TextBlock::Paragraph { heading: Some(h), body } => {
            assert_eq!(span_texts(h), "Title.");
            assert_eq!(span_texts(body), "some bold and it");
            assert!(matches!(&body[1], TextSpan::Bold(t) if t == "bold"));
            assert!(matches!(&body[3], TextSpan::Italic(t) if t == "it"));
        },
        _ => panic!("expected a paragraph"),
    }
    assert!(matches!(&blocks[1], TextBlock::SubParagraph { .. }));
}

fn tape_of(source: &str) -> Vec<String> {
    parse_str(source, "t", InterpolationMode::CalculateStatBlock)
        .unwrap()
        .iter()
        .map(|(op, _)| format!("{:?}", op))
        .collect()
}

#[test]
fn parser_builds_the_tape() {
    assert_eq!(
        tape_of("${-$+x}"),
        vec!["CreateString(\"\")", "Append", "GetVariable(\"x\")", "Sign", "Stringify", "Negate", "Append", "CreateString(\"\")", "Append"]
    );
    assert_eq!(
        tape_of("${10 - 2 - 3}")[2..7].to_vec(),
        vec!["CreateNumber(10)", "CreateNumber(2)", "Subtract", "CreateNumber(3)", "Subtract"]
    );
    assert_eq!(
        tape_of("${2 * 3 + 1}")[2..7].to_vec(),
        vec!["CreateNumber(2)", "CreateNumber(3)", "Multiply", "CreateNumber(1)", "Add"]
    );
    assert_eq!(
        tape_of("${a.b.c}")[2..5].to_vec(),
        vec!["GetVariable(\"a\")", "GetProperty(\"b\")", "GetProperty(\"c\")"]
    );
    assert_eq!(tape_of("${a.0}")[2..4].to_vec(), vec!["GetVariable(\"a\")", "GetIndex(0)"]);
    assert_eq!(tape_of("${(1 + 2)}")[2..5].to_vec(), vec!["CreateNumber(1)", "CreateNumber(2)", "Add"]);
    assert!(matches!(
        parse_str("${a.(b)}", "t", InterpolationMode::CalculateStatBlock).map_err(|e| e.error),
        Err(InterpolationError::ExpectedIdentifier(_))
    ));
}

#[test]
fn parentheses_and_precedence_evaluate() {
    let text = |src: &str| match &interpolate_str_for_statblock(src, "t", &EmptyContext, false).unwrap()[0] {
        TextBlock::Paragraph { body, .. } => span_texts(body),
        _ => panic!("expected a paragraph"),
    };
    assert_eq!(text("${(1 + 2)}"), "3");
    assert_eq!(text("${(1 + 2) * 3}"), "9");
    assert_eq!(text("${1 + 2 * 3}"), "7");
}

#[test]
fn first_error_in_reading_order() {
    assert!(matches!(statblock_error("${* #}"), InterpolationError::ExpectedExpression(_)));
    assert!(matches!(statblock_error("${1 + #}"), InterpolationError::ScanError(TokenError::UnexpectedCharacter)));
}

#[test]
fn markdown_example_blocks() {
    for sub in [false, true] {
        let blocks = interpolate_simple_markdown_naively("Name", "a **b** _c_", "t", sub, false).unwrap();
        assert_eq!(blocks.len(), 1);
        let (heading, body) = match &blocks[0] {
            TextBlock::Paragraph { heading, body } => {
                assert!(!sub);
                (heading, body)
            },
            TextBlock::SubParagraph { heading, body } => {
                assert!(sub);
                (heading, body)
            },
        };
        assert_eq!(span_texts(heading.as_ref().unwrap()), "Name");
        assert_eq!(body.len(), 4);
        assert!(matches!(&body[0], TextSpan::Normal(t) if t == "a "));
        assert!(matches!(&body[1], TextSpan::Bold(t) if t == "b"));
        assert!(matches!(&body[2], TextSpan::Normal(t) if t == " "));
        assert!(matches!(&body[3], TextSpan::Italic(t) if t == "c"));
    }
}

#[test]
fn parse_errors_name_the_token_found() {
    match interpolate_str_for_statblock("ab ${*}", "t", &EmptyContext, false) {
        Err(e) => {
            assert!(matches!(&e.error, InterpolationError::ExpectedExpression(t) if t == "*"));
            assert_eq!((e.position.start.line, e.position.start.column), (1, 6));
        },
        Ok(_) => panic!("expected an error"),
    }
    match interpolate_str_for_statblock("${a.+}", "t", &EmptyContext, false) {
        Err(e) => assert!(matches!(&e.error, InterpolationError::ExpectedIdentifier(t) if t == "+")),
        Ok(_) => panic!("expected an error"),
    }
}
