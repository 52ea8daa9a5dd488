use flow::ast::{Actuator, Block, Bound, Comparator, Condition, Device, Operation, Sensor, AST};
use flow::num::Num;
use flow::parser::{make_ast, ParseError};
use flow::token::{tokenize, Token};

fn parse(src: &str) -> Result<AST, ParseError> {
    let toks = tokenize(src.to_string());
    make_ast(&toks)
}

fn actuator(name: &str) -> Actuator {
    Actuator { name: name.to_string(), min: Bound::Lowest, max: Bound::Highest }
}

fn sensor(name: &str) -> Sensor {
    Sensor { name: name.to_string(), min: Bound::Lowest, max: Bound::Highest }
}

fn num(digits: Vec<u8>, scale: usize) -> Num {
    Num { digits, scale }
}

#[test]
fn round_trip_scenario() {
    // one actuator, one block with a single in-range set, entry block `start`
    let ast = parse("actuator a\n\nblock start\n    set a 5\nendblock\n\n").unwrap();
    assert_eq!(ast.first_block_name, "start".to_string());
    assert_eq!(ast.devices.entries, vec![Device::Actuator(actuator("a"))]);
    assert_eq!(ast.blocks.entries.len(), 1);
    assert_eq!(ast.blocks.entries[0].0, "start".to_string());
    assert_eq!(
        ast.blocks.entries[0].1,
        Block { ops: vec![Operation::SetOp { actuator: actuator("a"), value: num(vec![5], 0) }] }
    );
}

#[test]
fn wait_scenario() {
    // `sensor s` + a block with one wait on `s > 3`
    let ast = parse("sensor s\n\nblock b\n    wait:\n        - s > 3\nendblock\n\n").unwrap();
    assert_eq!(ast.first_block_name, "b".to_string());
    assert_eq!(ast.blocks.entries.len(), 1);
    assert_eq!(
        ast.blocks.entries[0].1,
        Block {
            ops: vec![Operation::Wait {
                condition: Condition::Base(sensor("s"), Comparator::GT, num(vec![3], 0)),
            }],
        }
    );
}

#[test]
fn undeclared_set_device_is_a_reference_error() {
    let e = parse("\nblock b\n    set x 1\nendblock\n").unwrap_err();
    assert_eq!(e, ParseError::ExpectedSetDeviceName);
    assert_eq!(e.message(), "Expected valid device name after \"set\" statement");
}

#[test]
fn if_with_matching_else_has_both_branches() {
    let src = "sensor s\nactuator a\n\nblock b\n    if:\n        - s > 1\n        set a 2\n    else:\n        set a 3\nendblock\n";
    let ast = parse(src).unwrap();
    let ops = &ast.blocks.entries[0].1.ops;
    assert_eq!(ops.len(), 1);
    match &ops[0] {
        Operation::IfElse { if_condition, if_actions, else_actions } => {
            assert_eq!(
                *if_condition,
                Condition::Base(sensor("s"), Comparator::GT, num(vec![1], 0))
            );
            assert_eq!(
                *if_actions,
                vec![Operation::SetOp { actuator: actuator("a"), value: num(vec![2], 0) }]
            );
            assert_eq!(
                *else_actions,
                Some(vec![Operation::SetOp { actuator: actuator("a"), value: num(vec![3], 0) }])
            );
        },
        other => panic!("expected an if/else operation, got {:?}", other),
    }
}

#[test]
fn if_without_else_has_absent_else_branch() {
    let src = "sensor s\nactuator a\n\nblock b\n    if:\n        - s > 1\n        set a 2\nendblock\n";
    let ast = parse(src).unwrap();
    match &ast.blocks.entries[0].1.ops[0] {
        Operation::IfElse { else_actions, .. } => {
            assert_eq!(*else_actions, None);
        },
        other => panic!("expected an if operation, got {:?}", other),
    }
}

#[test]
fn device_section_without_blocks_fails() {
    let e = parse("actuator a\n\n").unwrap_err();
    assert_eq!(e, ParseError::NoBlocks);
    assert_eq!(e.message(), "No blocks provided");
}

#[test]
fn parsing_is_deterministic() {
    let src = "sensor s\nactuator a\n\nblock b\n    wait:\n        - s > 3\n    set a 1\nendblock\n";
    assert_eq!(parse(src), parse(src));
    let bad = "actuator a\n\nblock b\n    set x 1\nendblock\n";
    assert_eq!(parse(bad), parse(bad));
    assert!(parse(bad).is_err());
}

#[test]
fn deeper_indentation_is_an_error() {
    // depth-one statement written with two tabs
    let e = parse("actuator a\n\nblock b\n        set a 1\nendblock\n").unwrap_err();
    assert_eq!(e, ParseError::UnexpectedToken);
}

#[test]
fn shallower_indentation_closes_the_list() {
    // depth-one statement written with no tabs: the list closes and the
    // parser then wants `endblock`
    let e = parse("actuator a\n\nblock b\nset a 1\nendblock\n").unwrap_err();
    assert_eq!(e, ParseError::ExpectedEndblock);
}

#[test]
fn empty_aggregate_is_rejected() {
    let e = parse("sensor s\n\nblock b\n    wait:\n        - any:\nendblock\n").unwrap_err();
    assert_eq!(e, ParseError::EmptyConditionSet);
    assert_eq!(e.message(), "Expected conditions after any/all statement");
}

#[test]
fn aggregate_keeps_all_parts_in_source_order() {
    let src = "sensor s\n\nblock b\n    wait:\n        - all:\n            - s > 1\n            - s < 5\nendblock\n";
    let ast = parse(src).unwrap();
    match &ast.blocks.entries[0].1.ops[0] {
        Operation::Wait { condition: Condition::All(parts) } => {
            assert_eq!(parts.len(), 2);
            assert_eq!(parts[0], Condition::Base(sensor("s"), Comparator::GT, num(vec![1], 0)));
            assert_eq!(parts[1], Condition::Base(sensor("s"), Comparator::LT, num(vec![5], 0)));
        },
        other => panic!("expected a wait on an `all` aggregate, got {:?}", other),
    }
}

#[test]
fn tab_character_indents_like_four_spaces() {
    let ast = parse("actuator a\n\nblock b\n\tset a 5\nendblock\n").unwrap();
    assert_eq!(
        ast.blocks.entries[0].1.ops,
        vec![Operation::SetOp { actuator: actuator("a"), value: num(vec![5], 0) }]
    );
}

#[test]
fn first_block_is_the_entry_block() {
    let ast = parse("\nblock one\nendblock\n\nblock two\nendblock\n").unwrap();
    assert_eq!(ast.first_block_name, "one".to_string());
    assert_eq!(ast.blocks.entries.len(), 2);
    assert_eq!(ast.blocks.entries[0].0, "one".to_string());
    assert_eq!(ast.blocks.entries[1].0, "two".to_string());
}

#[test]
fn goto_destination_is_not_validated() {
    let ast = parse("\nblock b\n    goto nowhere\nendblock\n").unwrap();
    assert_eq!(
        ast.blocks.entries[0].1.ops,
        vec![Operation::Goto { dest: "nowhere".to_string() }]
    );
}

#[test]
fn later_device_declaration_wins() {
    // `x` is redeclared as a sensor, so `set x` sees a sensor
    let e = parse("actuator x\nsensor x\n\nblock b\n    set x 1\nendblock\n").unwrap_err();
    assert_eq!(e, ParseError::ExpectedSetActuator);
}

#[test]
fn empty_input_misses_device_separator() {
    let toks: Vec<Token> = Vec::new();
    assert_eq!(make_ast(&toks).unwrap_err(), ParseError::ExpectedNewlineAfterDevices);
}

#[test]
fn device_keyword_without_name() {
    assert_eq!(parse("actuator\n").unwrap_err(), ParseError::ExpectedIdentAfterDeviceKind);
}

#[test]
fn device_declaration_without_newline() {
    let toks = vec![Token::Sensor, Token::Identifier("s".to_string()), Token::Colon];
    assert_eq!(make_ast(&toks).unwrap_err(), ParseError::ExpectedNewlineAfterDevice);
}

#[test]
fn block_section_must_start_with_block() {
    assert_eq!(parse("\nfoo\n").unwrap_err(), ParseError::ExpectedBlockDecl);
}

#[test]
fn block_without_name() {
    assert_eq!(parse("\nblock\nendblock\n").unwrap_err(), ParseError::ExpectedBlockName);
}

#[test]
fn block_name_without_newline() {
    assert_eq!(parse("\nblock b c\n").unwrap_err(), ParseError::ExpectedNewlineAfterBlockName);
}

#[test]
fn block_without_endblock() {
    assert_eq!(parse("\nblock b\n").unwrap_err(), ParseError::ExpectedEndblock);
}

#[test]
fn endblock_without_newline() {
    let toks = vec![
        Token::Newline,
        Token::StartBlock,
        Token::Identifier("b".to_string()),
        Token::Newline,
        Token::EndBlock,
    ];
    assert_eq!(make_ast(&toks).unwrap_err(), ParseError::ExpectedNewlineAfterEndblock);
}

#[test]
fn set_without_trailing_newline() {
    let e = parse("actuator a\n\nblock b\n    set a 1 2\nendblock\n").unwrap_err();
    assert_eq!(e, ParseError::ExpectedNewlineAfterSet);
}

#[test]
fn goto_without_trailing_newline() {
    let e = parse("\nblock b\n    goto c c\nendblock\n").unwrap_err();
    assert_eq!(e, ParseError::ExpectedNewlineAfterSet);
}

#[test]
fn wait_without_colon() {
    assert_eq!(
        parse("\nblock b\n    wait\nendblock\n").unwrap_err(),
        ParseError::ExpectedColonAfterWait
    );
}

#[test]
fn if_without_colon() {
    assert_eq!(
        parse("\nblock b\n    if\nendblock\n").unwrap_err(),
        ParseError::ExpectedColonAfterIf
    );
}

#[test]
fn else_without_colon() {
    let src = "sensor s\n\nblock b\n    if:\n        - s > 1\n    else\nendblock\n";
    assert_eq!(parse(src).unwrap_err(), ParseError::ExpectedColonAfterElse);
}

#[test]
fn colon_without_newline() {
    let e = parse("\nblock b\n    wait: x\nendblock\n").unwrap_err();
    assert_eq!(e, ParseError::ExpectedNewlineAfterColon);
}

#[test]
fn statement_line_with_unknown_token() {
    let e = parse("\nblock b\n    5\nendblock\n").unwrap_err();
    assert_eq!(e, ParseError::UnexpectedToken);
}

#[test]
fn set_with_non_identifier_device() {
    let e = parse("actuator a\n\nblock b\n    set 5 1\nendblock\n").unwrap_err();
    assert_eq!(e, ParseError::ExpectedSetDeviceName);
}

#[test]
fn set_on_a_sensor() {
    let e = parse("sensor s\n\nblock b\n    set s 1\nendblock\n").unwrap_err();
    assert_eq!(e, ParseError::ExpectedSetActuator);
}

#[test]
fn set_without_value() {
    let e = parse("actuator a\n\nblock b\n    set a x\nendblock\n").unwrap_err();
    assert_eq!(e, ParseError::ExpectedSetValue);
}

#[test]
fn goto_without_block_name() {
    let e = parse("\nblock b\n    goto 5\nendblock\n").unwrap_err();
    assert_eq!(e, ParseError::ExpectedGotoBlockName);
}

#[test]
fn condition_without_marker() {
    let e = parse("sensor s\n\nblock b\n    wait:\n        s > 1\nendblock\n").unwrap_err();
    assert_eq!(e, ParseError::ExpectedConditionStart);
}

#[test]
fn condition_with_undeclared_device() {
    let e = parse("sensor s\n\nblock b\n    wait:\n        - x > 1\nendblock\n").unwrap_err();
    assert_eq!(e, ParseError::ExpectedCondDeviceName);
}

#[test]
fn condition_on_an_actuator() {
    let e = parse("actuator a\n\nblock b\n    wait:\n        - a > 1\nendblock\n").unwrap_err();
    assert_eq!(e, ParseError::ExpectedCondSensor);
}

#[test]
fn condition_without_comparator() {
    let e = parse("sensor s\n\nblock b\n    wait:\n        - s 5\nendblock\n").unwrap_err();
    assert_eq!(e, ParseError::ExpectedCondComparator);
}

#[test]
fn condition_without_value() {
    let e = parse("sensor s\n\nblock b\n    wait:\n        - s > x\nendblock\n").unwrap_err();
    assert_eq!(e, ParseError::ExpectedCondValue);
}

#[test]
fn condition_with_unknown_opener() {
    let e = parse("sensor s\n\nblock b\n    wait:\n        - 5 > 1\nendblock\n").unwrap_err();
    assert_eq!(e, ParseError::ExpectedCondKeyword);
}

#[test]
fn condition_with_too_few_tabs() {
    let e = parse("sensor s\n\nblock b\n    wait:\n    - s > 1\nendblock\n").unwrap_err();
    assert_eq!(e, ParseError::BadIndentation);
    assert_eq!(e.message(), "Invalid indentation, expected a tab (4 spaces)");
}

#[test]
fn unknown_comparator_spelling_is_an_internal_error() {
    // only hand-built token streams can carry such a spelling
    let toks = vec![
        Token::Sensor,
        Token::Identifier("s".to_string()),
        Token::Newline,
        Token::Newline,
        Token::StartBlock,
        Token::Identifier("b".to_string()),
        Token::Newline,
        Token::Tab,
        Token::Wait,
        Token::Colon,
        Token::Newline,
        Token::Tab,
        Token::Tab,
        Token::ConditionStart,
        Token::Identifier("s".to_string()),
        Token::Comparator("!=".to_string()),
        Token::Value(Num { digits: vec![1], scale: 0 }),
        Token::Newline,
        Token::EndBlock,
        Token::Newline,
    ];
    let e = make_ast(&toks).unwrap_err();
    assert_eq!(e, ParseError::Internal);
    assert_eq!(e.message(), "Error in parsing, please report this bug");
}

#[test]
fn error_messages_are_fixed() {
    assert_eq!(
        ParseError::ExpectedNewlineAfterDevices.message(),
        "Expected newline after end of device list"
    );
    assert_eq!(
        ParseError::ValueOutOfRange.message(),
        "Expected value in range of device range"
    );
    assert_eq!(ParseError::ExpectedEndblock.message(), "Expected \"endblock\" after block body");
    assert_eq!(ParseError::UnexpectedToken.message(), "Unexpected token");
}

#[test]
fn nested_aggregates_parse() {
    let src = "sensor s\n\nblock b\n    wait:\n        - any:\n            - all:\n                - s > 1\n            - s = 2\nendblock\n";
    let ast = parse(src).unwrap();
    match &ast.blocks.entries[0].1.ops[0] {
        Operation::Wait { condition: Condition::Any(parts) } => {
            assert_eq!(parts.len(), 2);
            assert_eq!(
                parts[0],
                Condition::All(vec![Condition::Base(sensor("s"), Comparator::GT, num(vec![1], 0))])
            );
            assert_eq!(parts[1], Condition::Base(sensor("s"), Comparator::EQ, num(vec![2], 0)));
        },
        other => panic!("expected a wait on an `any` aggregate, got {:?}", other),
    }
}
