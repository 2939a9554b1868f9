//! Byte-exact checks of the x86-64 encoder: frames, instruction encodings,
//! and both fixup passes, against hand-assembled expectations.

use minijit::hlir;
use minijit::lexer::Lexer;
use minijit::llir::{Function, Node, Register};
use minijit::lowerer::{check_lowerable, Lowerer};
use minijit::parser::Parser;
use minijit::x86_64::{check_emitable, Compiler, Executable};

fn compile_source(source: &str) -> Executable {
    let lexer = Lexer::new(source.as_bytes().to_vec());
    let tokens = lexer.lex().expect("lex failed");
    let ast = Parser::new(tokens).parse_global_scope().expect("parse failed");
    let mut ctx = hlir::Context::new();
    ast.define_functions(&mut ctx);
    let hlir = ast.generate(&mut ctx).expect("generate failed");
    assert!(check_lowerable(&hlir));
    let mut lowerer = Lowerer::new();
    lowerer.lower(hlir);
    let functions = lowerer.get();
    assert!(check_emitable(&functions));
    Compiler::new().compile(functions)
}

fn compile_functions(functions: Vec<Function>) -> Executable {
    assert!(check_emitable(&functions));
    Compiler::new().compile(functions)
}

fn prologue(frame: u32) -> Vec<u8> {
    let mut v = vec![0x55, 0x48, 0x89, 0xE5, 0x48, 0x81, 0xEC];
    v.extend_from_slice(&frame.to_le_bytes());
    v
}

#[test]
fn return_42_image() {
    let exe = compile_source("fn main() { return 42; }");

    let mut expected = prologue(8);
    // movabs rax, 42; mov [rsp + 0], rax
    expected.extend_from_slice(&[0x48, 0xB8]);
    expected.extend_from_slice(&42i64.to_le_bytes());
    expected.extend_from_slice(&[0x48, 0x89, 0x84, 0x24, 0, 0, 0, 0]);
    // mov rax, [rsp + 0]; epilogue
    expected.extend_from_slice(&[0x48, 0x8B, 0x84, 0x24, 0, 0, 0, 0]);
    expected.extend_from_slice(&[0x48, 0x89, 0xEC, 0x5D, 0xC3]);

    assert_eq!(exe.code, expected);
    assert_eq!(exe.entry_point_offset, 0);
}

#[test]
fn frame_allocates_eight_bytes_per_register() {
    // two literal temporaries, two locals, one product: five registers
    let exe = compile_source("fn main() { let x = 4; let y = 5; return x * y; }");
    assert_eq!(&exe.code[..11], prologue(5 * 8).as_slice());
}

#[test]
fn epilogue_restores_rsp_from_rbp() {
    let exe = compile_source("fn main() { return 42; }");
    assert_eq!(&exe.code[exe.code.len() - 5..], &[0x48, 0x89, 0xEC, 0x5D, 0xC3]);
}

#[test]
fn parameter_spills_from_rdi_to_slot_zero() {
    let exe = compile_source("fn id(a: i64) { return a; } fn main() { return id(3); }");
    // after the first function's prologue: mov [rsp + 0], rdi
    assert_eq!(&exe.code[11..19], &[0x48, 0x89, 0xBC, 0x24, 0, 0, 0, 0]);
}

#[test]
fn backward_branch_displacement() {
    // jz back to instruction 0: target byte 11, field ends at byte 28
    let f = Function {
        is_entry_point: true,
        parameters: vec![],
        body: vec![
            Node::JumpOnZero { condition: Register(0), target: 0 },
            Node::Return { value: None },
        ],
        register_count: 1,
    };
    let exe = compile_functions(vec![f]);
    let disp = (-17i32).to_le_bytes();
    assert_eq!(&exe.code[24..28], &disp);
}

#[test]
fn forward_jump_displacement() {
    // jmp to instruction 1, which starts right after the field: zero
    let f = Function {
        is_entry_point: true,
        parameters: vec![],
        body: vec![Node::Jump { target: 1 }, Node::Return { value: None }],
        register_count: 0,
    };
    let exe = compile_functions(vec![f]);
    assert_eq!(&exe.code[12..16], &[0, 0, 0, 0]);
}

#[test]
fn call_displacement_and_entry_offset() {
    // f0 occupies bytes [0, 16); main starts at 16 and calls f0
    let f0 = Function {
        is_entry_point: false,
        parameters: vec![],
        body: vec![Node::Return { value: None }],
        register_count: 0,
    };
    let main = Function {
        is_entry_point: true,
        parameters: vec![],
        body: vec![
            Node::Call { dst: Register(0), function: 0, arguments: vec![] },
            Node::Return { value: Some(Register(0)) },
        ],
        register_count: 1,
    };
    let exe = compile_functions(vec![f0, main]);
    assert_eq!(exe.entry_point_offset, 16);
    // call field sits at bytes [28, 32); displacement 0 - 32
    assert_eq!(&exe.code[28..32], &(-32i32).to_le_bytes());
}

#[test]
fn equality_encoding() {
    let f = Function {
        is_entry_point: true,
        parameters: vec![],
        body: vec![
            Node::Equals { dst: Register(0), lhs: Register(1), rhs: Register(2) },
            Node::Return { value: Some(Register(0)) },
        ],
        register_count: 3,
    };
    let exe = compile_functions(vec![f]);
    let mut expected = prologue(24);
    expected.extend_from_slice(&[0x48, 0x8B, 0x84, 0x24, 8, 0, 0, 0]);
    expected.extend_from_slice(&[0x48, 0x8B, 0x8C, 0x24, 16, 0, 0, 0]);
    expected.extend_from_slice(&[0x48, 0x39, 0xC8]);
    expected.extend_from_slice(&[0x0F, 0x94, 0xC0]);
    expected.extend_from_slice(&[0x48, 0x0F, 0xB6, 0xC0]);
    expected.extend_from_slice(&[0x48, 0x89, 0x84, 0x24, 0, 0, 0, 0]);
    expected.extend_from_slice(&[0x48, 0x8B, 0x84, 0x24, 0, 0, 0, 0]);
    expected.extend_from_slice(&[0x48, 0x89, 0xEC, 0x5D, 0xC3]);
    assert_eq!(exe.code, expected);
}

#[test]
fn identical_programs_yield_identical_images() {
    let a = compile_source("fn main() { let x = 6; return x * 7; }");
    let b = compile_source("fn main() { let x = 6; return x * 7; }");
    assert_eq!(a.code, b.code);
    assert_eq!(a.entry_point_offset, b.entry_point_offset);
}

#[test]
fn entry_point_defaults_to_zero_without_main() {
    let exe = compile_source("fn other() { return 1; }");
    assert_eq!(exe.entry_point_offset, 0);
}
