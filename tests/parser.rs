use acvm::abi_errors::{AbiError, InputParserError};
use acvm::native_types::Witness;
use acvm::parser::{Location, LValue, Parser, StatementKind, StatementOrExpressionOrLValue, Token};

#[test]
fn parses_interned_lvalue() {
    let mut p = Parser { tokens: vec![Token::InternedLValue(3)], pos: 0 };
    assert_eq!(
        p.parse_statement_or_expression_or_lvalue(),
        StatementOrExpressionOrLValue::LValue(LValue::Interned(3, Location { start: 0, end: 1 }))
    );
}

#[test]
fn parses_assignment_to_interned_lvalue() {
    let mut p = Parser {
        tokens: vec![Token::InternedLValue(3), Token::Assign, Token::Other(1), Token::Other(2)],
        pos: 0,
    };
    match p.parse_statement_or_expression_or_lvalue() {
        StatementOrExpressionOrLValue::Statement(s) => {
            assert_eq!(s.location, Location { start: 0, end: 4 });
            match s.kind {
                StatementKind::Assign { lvalue, expression } => {
                    assert_eq!(lvalue, LValue::Interned(3, Location { start: 0, end: 1 }));
                    assert_eq!(expression.tokens, vec![Token::Other(1), Token::Other(2)]);
                }
                other => panic!("unexpected kind {:?}", other),
            }
        }
        other => panic!("unexpected result {:?}", other),
    }
}

#[test]
fn parses_let_and_expression() {
    let mut p = Parser { tokens: vec![Token::Let, Token::Other(1)], pos: 0 };
    assert!(matches!(
        p.parse_statement_or_expression_or_lvalue(),
        StatementOrExpressionOrLValue::Statement(_)
    ));
    let mut p = Parser { tokens: vec![Token::Other(1)], pos: 0 };
    match p.parse_statement_or_expression_or_lvalue() {
        StatementOrExpressionOrLValue::Expression(e) => assert_eq!(e.tokens, vec![Token::Other(1)]),
        other => panic!("unexpected result {:?}", other),
    }
}

#[test]
fn abi_errors_carry_their_context() {
    let e = AbiError::MissingParamWitnessValue { name: "x".to_string(), witness_index: Witness(4) };
    assert_eq!(
        e,
        AbiError::MissingParamWitnessValue { name: "x".to_string(), witness_index: Witness(4) }
    );
    assert_ne!(
        InputParserError::MissingArgument("a".to_string()),
        InputParserError::MissingArgument("b".to_string())
    );
}
