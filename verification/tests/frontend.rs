//! Unit checks of the lexer, the symbol context, the typed IR and the
//! operator tables.

use minijit::ast;
use minijit::error::CompileError;
use minijit::hlir::{Context, Node, ValueType};
use minijit::lexer::Lexer;
use minijit::operator::Operator;
use minijit::token::Token;

fn lex(source: &str) -> Result<Vec<Token>, CompileError> {
    Lexer::new(source.as_bytes().to_vec()).lex()
}

#[test]
fn tokens_of_a_small_program() {
    let tokens = lex("fn main() { let x = 2; }").unwrap();
    assert_eq!(
        tokens,
        vec![
            Token::Fn,
            Token::Identifier(b"main".to_vec()),
            Token::OpeningParen,
            Token::ClosingParen,
            Token::OpeningCurly,
            Token::Let,
            Token::Identifier(b"x".to_vec()),
            Token::Equals,
            Token::Number(2),
            Token::SemiColon,
            Token::ClosingCurly,
        ]
    );
}

#[test]
fn keywords_need_exact_spelling() {
    let tokens = lex("iff fns lets returns").unwrap();
    assert_eq!(
        tokens,
        vec![
            Token::Identifier(b"iff".to_vec()),
            Token::Identifier(b"fns".to_vec()),
            Token::Identifier(b"lets".to_vec()),
            Token::Identifier(b"returns".to_vec()),
        ]
    );
}

#[test]
fn number_too_large_for_i64_is_an_identifier() {
    let tokens = lex("99999999999999999999").unwrap();
    assert_eq!(tokens, vec![Token::Identifier(b"99999999999999999999".to_vec())]);
}

#[test]
fn largest_i64_still_lexes_as_a_number() {
    let tokens = lex("9223372036854775807").unwrap();
    assert_eq!(tokens, vec![Token::Number(i64::MAX)]);
    let tokens = lex("9223372036854775808").unwrap();
    assert_eq!(
        tokens,
        vec![Token::Identifier(b"9223372036854775808".to_vec())]
    );
}

#[test]
fn unknown_byte_fails_the_lexer() {
    assert_eq!(lex("fn @"), Err(CompileError::InvalidCharacter));
}

#[test]
fn whitespace_only_input_lexes_to_nothing() {
    assert_eq!(lex(" \t\r\n ").unwrap(), vec![]);
}

#[test]
fn context_resolves_the_nearest_binding() {
    let mut ctx = Context::new();
    ctx.push_scope();
    let outer = ctx.define_variable(b"x".to_vec(), ValueType::I64);
    ctx.push_scope();
    let inner = ctx.define_variable(b"x".to_vec(), ValueType::I64);
    assert_eq!(outer, 0);
    assert_eq!(inner, 1);
    assert_eq!(ctx.find_variable(&b"x".to_vec()), Some((1, ValueType::I64)));
    ctx.pop_scope();
    assert_eq!(ctx.find_variable(&b"x".to_vec()), Some((0, ValueType::I64)));
    ctx.pop_scope();
    // the stack emptied: the per-function slots are gone
    assert_eq!(ctx.find_variable(&b"x".to_vec()), None);
    assert_eq!(ctx.local_variables().len(), 0);
}

#[test]
fn function_ids_are_monotonic_and_shadow_by_name() {
    let mut ctx = Context::new();
    ctx.define_function(b"f".to_vec());
    ctx.define_function(b"g".to_vec());
    ctx.define_function(b"f".to_vec());
    assert_eq!(ctx.find_function(&b"g".to_vec()), Some(1));
    assert_eq!(ctx.find_function(&b"f".to_vec()), Some(2));
    assert_eq!(ctx.find_function(&b"h".to_vec()), None);
}

#[test]
fn get_type_of_arithmetic_and_comparison() {
    let add = Node::Add {
        lhs: Box::new(Node::I64(1)),
        rhs: Box::new(Node::Local(0)),
    };
    assert_eq!(add.get_type(), ValueType::I64);
    let eq = Node::Equals {
        lhs: Box::new(Node::I64(1)),
        rhs: Box::new(Node::I64(2)),
    };
    assert_eq!(eq.get_type(), ValueType::Boolean);
    assert_eq!(Node::Ret { value: None }.get_type(), ValueType::Unit);
}

#[test]
fn try_get_type_rejects_a_non_function_callee() {
    let call = Node::Call {
        function: Box::new(Node::Local(0)),
        arguments: vec![],
    };
    assert_eq!(call.try_get_type(), None);
    let call = Node::Call {
        function: Box::new(Node::Function(0)),
        arguments: vec![],
    };
    assert_eq!(call.try_get_type(), Some(ValueType::I64));
}

#[test]
fn operator_precedence_table() {
    assert_eq!(Operator::Assignment.precedence(), 1);
    assert_eq!(Operator::Equal.precedence(), 2);
    assert_eq!(Operator::NotEqual.precedence(), 2);
    assert_eq!(Operator::Add.precedence(), 3);
    assert_eq!(Operator::Sub.precedence(), 3);
    assert_eq!(Operator::Mul.precedence(), 4);
    assert_eq!(Operator::Div.precedence(), 4);
}

#[test]
fn token_precedence_table() {
    assert_eq!(Token::Plus.precedence(), 2);
    assert_eq!(Token::Minus.precedence(), 2);
    assert_eq!(Token::Star.precedence(), 3);
    assert_eq!(Token::Slash.precedence(), 3);
    assert_eq!(Token::Equals.precedence(), 1);
}

#[test]
fn llir_function_constructor_starts_empty() {
    let f = minijit::llir::Function::new(true, vec![8]);
    assert!(f.is_entry_point);
    assert_eq!(f.parameters, vec![8]);
    assert_eq!(f.body, vec![]);
    assert_eq!(f.register_count, 0);
}

#[test]
fn generate_binds_a_let_to_the_next_slot() {
    let mut ctx = Context::new();
    ctx.push_scope();
    ctx.define_variable(b"before".to_vec(), ValueType::I64);

    let def = ast::VariableDefinition::new(
        b"x".to_vec(),
        Box::new(ast::Node::Integer(ast::Integer::new(5))),
    );
    let h = def.generate(&mut ctx).unwrap();
    // the initializer's node first, bound to the next free slot
    assert_eq!(
        h,
        Node::Assignment {
            variable: Box::new(Node::Local(1)),
            value: Box::new(Node::I64(5)),
        }
    );
    assert_eq!(ctx.find_variable(&b"x".to_vec()), Some((1, ValueType::I64)));
}

#[test]
fn generate_dispatches_the_operator() {
    let mut ctx = Context::new();
    let add = ast::BinaryOperation::new(
        Box::new(ast::Node::Integer(ast::Integer::new(1))),
        Box::new(ast::Node::Integer(ast::Integer::new(2))),
        Operator::Add,
    );
    assert_eq!(
        add.generate(&mut ctx),
        Ok(Node::Add {
            lhs: Box::new(Node::I64(1)),
            rhs: Box::new(Node::I64(2)),
        })
    );
    let sub = ast::BinaryOperation::new(
        Box::new(ast::Node::Integer(ast::Integer::new(1))),
        Box::new(ast::Node::Integer(ast::Integer::new(2))),
        Operator::Sub,
    );
    assert_eq!(sub.generate(&mut ctx), Err(CompileError::UnsupportedOperator));
}

#[test]
fn generate_requires_a_boolean_condition() {
    let mut ctx = Context::new();
    let branch = ast::If::new(
        Box::new(ast::Node::Integer(ast::Integer::new(1))),
        ast::Scope::new(vec![]),
        None,
    );
    assert_eq!(branch.generate(&mut ctx), Err(CompileError::ExpectedBoolean));
}

#[test]
fn error_messages_are_nonempty() {
    let errors = [
        CompileError::InvalidCharacter,
        CompileError::UnexpectedToken,
        CompileError::UnexpectedEnd,
        CompileError::UnknownIdentifier,
        CompileError::TypeMismatch,
        CompileError::ExpectedBoolean,
        CompileError::UnsupportedOperator,
    ];
    for e in errors {
        assert!(!e.message().is_empty());
    }
}
