use minicc::assembly::AssemblyASTFunction;
use minicc::assembly::AssemblyASTInstruction;
use minicc::assembly::AssemblyASTOperand;
use minicc::assembly::AssemblyASTRootNode;
use minicc::emission::emit_code;

fn return_program(name: &str, value: i32) -> AssemblyASTRootNode {
    AssemblyASTRootNode::Program(AssemblyASTFunction {
        name: name.to_string(),
        instructions: vec![
            AssemblyASTInstruction::Mov {
                src: AssemblyASTOperand::Imm(value),
                dst: AssemblyASTOperand::Register,
            },
            AssemblyASTInstruction::Ret,
        ],
    })
}

#[test]
fn emit_zero_immediate_exactly() {
    let text = emit_code(return_program("main", 0));
    assert_eq!(
        text,
        "  .globl main\nmain:\n   movl $0, %eax\n   ret\n.section .note.GNU-stack,\"\",@progbits"
    );
}

#[test]
fn emit_negative_immediate_exactly() {
    let text = emit_code(return_program("main", -5));
    assert_eq!(
        text,
        "  .globl main\nmain:\n   movl $-5, %eax\n   ret\n.section .note.GNU-stack,\"\",@progbits"
    );
}

#[test]
fn emit_most_negative_immediate_exactly() {
    let text = emit_code(return_program("main", i32::MIN));
    assert_eq!(
        text,
        "  .globl main\nmain:\n   movl $-2147483648, %eax\n   ret\n.section .note.GNU-stack,\"\",@progbits"
    );
}

#[test]
fn emit_twice_is_byte_identical() {
    let first = emit_code(return_program("twice", 19));
    let second = emit_code(return_program("twice", 19));
    assert_eq!(first, second);
    assert_eq!(first.as_bytes(), second.as_bytes());
}

#[test]
fn emit_empty_instruction_list_renders_header_and_trailer() {
    let text = emit_code(AssemblyASTRootNode::Program(AssemblyASTFunction {
        name: "f".to_string(),
        instructions: Vec::new(),
    }));
    assert_eq!(text, "  .globl f\nf:\n.section .note.GNU-stack,\"\",@progbits");
}
