//! End-to-end scenarios: source text through the lexer, parser, typed IR
//! build and lowering, with the produced LLIR run by a small reference
//! interpreter.

use minijit::error::CompileError;
use minijit::hlir;
use minijit::lexer::Lexer;
use minijit::llir;
use minijit::lowerer::{check_lowerable, Lowerer};
use minijit::parser::Parser;

fn build_hlir(source: &str) -> Result<hlir::Node, CompileError> {
    let lexer = Lexer::new(source.as_bytes().to_vec());
    let tokens = lexer.lex()?;
    let parser = Parser::new(tokens);
    let ast = parser.parse_global_scope()?;

    let mut ctx = hlir::Context::new();
    ast.define_functions(&mut ctx);
    ast.generate(&mut ctx)
}

fn lower(source: &str) -> Result<Vec<llir::Function>, CompileError> {
    let hlir = build_hlir(source)?;
    if !check_lowerable(&hlir) {
        panic!("program not lowerable");
    }
    let mut lowerer = Lowerer::new();
    lowerer.lower(hlir);
    Ok(lowerer.get())
}

/// Runs one lowered function on the given arguments.
fn run_function(functions: &[llir::Function], index: usize, args: &[i64]) -> i64 {
    let f = &functions[index];
    let mut regs = vec![0i64; f.register_count];
    for (i, a) in args.iter().enumerate() {
        regs[i] = *a;
    }
    let mut pc = 0usize;
    loop {
        assert!(pc < f.body.len(), "fell off the end of the body");
        match &f.body[pc] {
            llir::Node::Move { dst, src } => {
                regs[dst.0] = regs[src.0];
                pc += 1;
            }
            llir::Node::MoveImmI64 { dst, imm } => {
                regs[dst.0] = *imm;
                pc += 1;
            }
            llir::Node::Jump { target } => {
                pc = *target;
            }
            llir::Node::JumpOnZero { condition, target } => {
                if regs[condition.0] == 0 {
                    pc = *target;
                } else {
                    pc += 1;
                }
            }
            llir::Node::Add { dst, lhs, rhs } => {
                regs[dst.0] = regs[lhs.0].wrapping_add(regs[rhs.0]);
                pc += 1;
            }
            llir::Node::Mul { dst, lhs, rhs } => {
                regs[dst.0] = regs[lhs.0].wrapping_mul(regs[rhs.0]);
                pc += 1;
            }
            llir::Node::Equals { dst, lhs, rhs } => {
                regs[dst.0] = if regs[lhs.0] == regs[rhs.0] { 1 } else { 0 };
                pc += 1;
            }
            llir::Node::Return { value } => {
                return match value {
                    Some(v) => regs[v.0],
                    None => 0,
                };
            }
            llir::Node::Call { dst, function, arguments } => {
                let vals: Vec<i64> = arguments.iter().map(|r| regs[r.0]).collect();
                regs[dst.0] = run_function(functions, *function, &vals);
                pc += 1;
            }
        }
    }
}

fn run(source: &str) -> i64 {
    let functions = lower(source).expect("compilation failed");
    let entry = functions
        .iter()
        .rposition(|f| f.is_entry_point)
        .expect("no entry point");
    run_function(&functions, entry, &[])
}

#[test]
fn return_constant() {
    assert_eq!(run("fn main() { return 42; }"), 42);
}

#[test]
fn sum_of_locals() {
    assert_eq!(run("fn main() { let x = 2; let y = 3; return x + y; }"), 5);
}

#[test]
fn product_of_locals() {
    assert_eq!(run("fn main() { let x = 4; let y = 5; return x * y; }"), 20);
}

#[test]
fn call_with_argument() {
    assert_eq!(
        run("fn add(a: i64) { return a + 1; } fn main() { return add(41); }"),
        42
    );
}

#[test]
fn if_taken() {
    assert_eq!(
        run("fn main() { let x = 1; if x == 1 { return 7; } return 9; }"),
        7
    );
}

#[test]
fn if_not_taken() {
    assert_eq!(
        run("fn main() { let x = 2; if x == 1 { return 7; } return 9; }"),
        9
    );
}

#[test]
fn unresolved_identifier_is_an_error() {
    assert_eq!(
        build_hlir("fn main() { return a; }"),
        Err(CompileError::UnknownIdentifier)
    );
}

#[test]
fn non_boolean_condition_is_an_error() {
    assert_eq!(
        build_hlir("fn main() { if 1 { return 0; } }"),
        Err(CompileError::ExpectedBoolean)
    );
}

#[test]
fn unsupported_operator_is_an_error() {
    assert_eq!(
        build_hlir("fn main() { return 4 - 2; }"),
        Err(CompileError::UnsupportedOperator)
    );
}

#[test]
fn type_mismatch_is_an_error() {
    assert_eq!(
        build_hlir("fn main() { let x = 1; return x + main; }"),
        Err(CompileError::TypeMismatch)
    );
}

#[test]
fn invalid_character_is_an_error() {
    assert_eq!(
        build_hlir("fn main() { return @; }"),
        Err(CompileError::InvalidCharacter)
    );
}

#[test]
fn forward_reference_between_functions() {
    assert_eq!(
        run("fn main() { return later(20); } fn later(a: i64) { return a * 2; }"),
        40
    );
}

#[test]
fn shadowing_keeps_the_nearest_binding() {
    assert_eq!(
        run("fn main() { let x = 1; if x == 1 { let x = 5; return x; } return x; }"),
        5
    );
}

#[test]
fn equality_yields_one_or_zero() {
    assert_eq!(run("fn main() { let x = 3; return x == 3; }"), 1);
    assert_eq!(run("fn main() { let x = 3; return x == 4; }"), 0);
}

#[test]
fn trailing_if_is_rejected_before_emission() {
    // The branch target of the final `if` points one past the body, which
    // the encoder does not accept.
    let functions = lower("fn main() { if 1 == 1 { } }").expect("compilation failed");
    assert!(!minijit::x86_64::check_emitable(&functions));
}

#[test]
fn assignment_statement_updates_a_local() {
    assert_eq!(run("fn main() { let x = 1; x = 5; return x; }"), 5);
}

#[test]
fn inequality_is_an_unsupported_operator() {
    assert_eq!(
        build_hlir("fn main() { return 1 != 2; }"),
        Err(CompileError::UnsupportedOperator)
    );
}

#[test]
fn nested_branches() {
    assert_eq!(
        run("fn main() { let x = 1; if x == 1 { if x == 1 { return 3; } } return 9; }"),
        3
    );
}

#[test]
fn empty_return_yields_unit() {
    // `return;` carries no value; the entry point falls back on whatever
    // the reference interpreter defines for a bare return
    assert_eq!(run("fn main() { return; }"), 0);
}

#[test]
fn lowering_is_deterministic() {
    let a = lower("fn main() { let x = 2; if x == 2 { return x * 3; } return 0; }").unwrap();
    let b = lower("fn main() { let x = 2; if x == 2 { return x * 3; } return 0; }").unwrap();
    assert_eq!(a, b);
}
