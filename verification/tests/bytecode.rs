use monkey::code::{Definitions, OP_ADD, OP_CONSTANT};
use monkey::compiler::Compiler;
use monkey::lexer::Lexer;
use monkey::object::Object;
use monkey::parser::Parser;
use monkey::vm::VM;

fn compile_source(src: &str) -> monkey::compiler::ByteCode {
    let lexer = Lexer::new(src.to_string());
    let mut parser = Parser::new(lexer);
    let program = parser.parse_program().expect("program should parse");
    let mut compiler = Compiler::new();
    compiler.compile_program(program).expect("program should compile");
    compiler.byte_code()
}

#[test]
fn make_encodes_a_two_byte_operand_big_endian() {
    let definitions = Definitions::new();
    let instructions = definitions.make(OP_CONSTANT, vec![65534]);
    assert_eq!(instructions, vec![OP_CONSTANT, 255, 254]);
}

#[test]
fn make_encodes_an_operandless_opcode_as_one_byte() {
    let definitions = Definitions::new();
    let instructions = definitions.make(OP_ADD, vec![]);
    assert_eq!(instructions, vec![OP_ADD]);
}

#[test]
fn make_encodes_an_unknown_opcode_as_nothing() {
    let definitions = Definitions::new();
    let instructions = definitions.make(200, vec![1]);
    assert!(instructions.is_empty());
}

#[test]
fn lookup_finds_the_defined_opcodes() {
    let definitions = Definitions::new();
    let constant = definitions.lookup(OP_CONSTANT).expect("OpConstant should be defined");
    assert_eq!(constant.name, "OpConstant");
    assert_eq!(constant.operand_widths, vec![2]);
    let add = definitions.lookup(OP_ADD).expect("OpAdd should be defined");
    assert_eq!(add.name, "OpAdd");
    assert!(add.operand_widths.is_empty());
    assert!(definitions.lookup(200).is_none());
}

#[test]
fn compiler_lowers_an_addition() {
    let byte_code = compile_source("1 + 2");
    assert_eq!(
        byte_code.instructions,
        vec![OP_CONSTANT, 0, 0, OP_CONSTANT, 0, 1, OP_ADD]
    );
    assert_eq!(byte_code.constants.len(), 2);
    assert!(matches!(byte_code.constants[0], Object::Integer { value: 1 }));
    assert!(matches!(byte_code.constants[1], Object::Integer { value: 2 }));
}

#[test]
fn compiler_rejects_unsupported_constructs() {
    let lexer = Lexer::new("true".to_string());
    let mut parser = Parser::new(lexer);
    let program = parser.parse_program().expect("program should parse");
    let mut compiler = Compiler::new();
    assert!(compiler.compile_program(program).is_err());

    let lexer = Lexer::new("1 - 2".to_string());
    let mut parser = Parser::new(lexer);
    let program = parser.parse_program().expect("program should parse");
    let mut compiler = Compiler::new();
    assert!(compiler.compile_program(program).is_err());
}

#[test]
fn vm_leaves_the_sum_on_top_of_the_stack() {
    let byte_code = compile_source("1 + 2");
    let mut vm = VM::new(&byte_code);
    vm.run().expect("the program should run");
    assert!(matches!(vm.stack_top(), Object::Integer { value: 3 }));
}

#[test]
fn vm_runs_nested_additions() {
    let byte_code = compile_source("1 + 2 + 39");
    let mut vm = VM::new(&byte_code);
    vm.run().expect("the program should run");
    assert!(matches!(vm.stack_top(), Object::Integer { value: 42 }));
}

#[test]
fn vm_stack_top_of_a_fresh_machine_is_null() {
    let byte_code = compile_source("1");
    let vm = VM::new(&byte_code);
    assert!(matches!(vm.stack_top(), Object::Null));
}

#[test]
fn vm_reports_a_bad_constant_index() {
    let byte_code = monkey::compiler::ByteCode { instructions: vec![OP_CONSTANT, 0, 5], constants: vec![] };
    let mut vm = VM::new(&byte_code);
    assert_eq!(vm.run(), Err(monkey::vm::VmError::BadConstantIndex));
}

#[test]
fn vm_reports_a_truncated_instruction() {
    let byte_code = monkey::compiler::ByteCode { instructions: vec![OP_CONSTANT, 0], constants: vec![] };
    let mut vm = VM::new(&byte_code);
    assert_eq!(vm.run(), Err(monkey::vm::VmError::TruncatedInstruction));
}

#[test]
fn vm_reports_an_underflowing_add() {
    let byte_code = monkey::compiler::ByteCode { instructions: vec![OP_ADD], constants: vec![] };
    let mut vm = VM::new(&byte_code);
    assert_eq!(vm.run(), Err(monkey::vm::VmError::StackUnderflow));
}

#[test]
fn vm_reports_adding_non_integers() {
    let byte_code = monkey::compiler::ByteCode {
        instructions: vec![OP_CONSTANT, 0, 0, OP_CONSTANT, 0, 1, OP_ADD],
        constants: vec![Object::Boolean { value: true }, Object::Integer { value: 1 }],
    };
    let mut vm = VM::new(&byte_code);
    assert_eq!(vm.run(), Err(monkey::vm::VmError::TypeMismatch));
}

#[test]
fn vm_reports_an_overflowing_add() {
    let byte_code = monkey::compiler::ByteCode {
        instructions: vec![OP_CONSTANT, 0, 0, OP_CONSTANT, 0, 0, OP_ADD],
        constants: vec![Object::Integer { value: i64::MAX }],
    };
    let mut vm = VM::new(&byte_code);
    assert_eq!(vm.run(), Err(monkey::vm::VmError::IntegerOverflow));
}

#[test]
fn vm_push_reports_a_full_stack() {
    let byte_code = monkey::compiler::ByteCode { instructions: vec![], constants: vec![] };
    let mut vm = VM::new(&byte_code);
    for _ in 0..monkey::vm::STACK_SIZE {
        vm.push(Object::Null).expect("the stack should have room");
    }
    assert_eq!(vm.push(Object::Null), Err(monkey::vm::VmError::StackOverflow));
}
