use minicc::assembly::generate_assembly;
use minicc::assembly::AssemblyASTInstruction;
use minicc::assembly::AssemblyASTOperand;
use minicc::assembly::AssemblyASTRootNode;
use minicc::emission::emit_code;
use minicc::lexer::lex;
use minicc::lexer::Token;
use minicc::parser::parse;
use minicc::parser::ASTExpression;
use minicc::parser::ASTFunction;
use minicc::parser::ASTRootNode;
use minicc::parser::ASTStatement;

fn compile(source: &str) -> String {
    let tokens = lex(source.to_string()).unwrap();
    let ast = parse(tokens).unwrap();
    let assembly_ast = generate_assembly(ast);
    emit_code(assembly_ast)
}

#[test]
fn pipeline_concrete_program() {
    let tokens = lex("int main(void){return 2;}".to_string()).unwrap();
    let expected_tokens = vec![
        Token::Int,
        Token::Identifier("main".to_string()),
        Token::OpenParenthesis,
        Token::Void,
        Token::CloseParenthesis,
        Token::OpenBrace,
        Token::Return,
        Token::Constant(2),
        Token::Semicolon,
        Token::CloseBrace,
    ];
    assert_eq!(tokens, expected_tokens);

    let ast = parse(tokens).unwrap();
    let ASTRootNode::Program(function) = &ast;
    assert_eq!(function.name, "main");
    let ASTStatement::Return(expr) = &function.body;
    let ASTExpression::Constant(value) = expr;
    assert_eq!(*value, 2);

    let assembly_ast = generate_assembly(ast);
    let code = emit_code(assembly_ast);
    assert_eq!(
        code,
        "  .globl main\nmain:\n   movl $2, %eax\n   ret\n.section .note.GNU-stack,\"\",@progbits"
    );
}

#[test]
fn pipeline_arbitrary_whitespace() {
    let text = compile("  int\n\tmain ( void ) {\n  return\t42 ;\n}\n");
    assert_eq!(
        text,
        "  .globl main\nmain:\n   movl $42, %eax\n   ret\n.section .note.GNU-stack,\"\",@progbits"
    );
}

#[test]
fn pipeline_minimal_whitespace() {
    let text = compile("int f(void){return 0;}");
    assert_eq!(
        text,
        "  .globl f\nf:\n   movl $0, %eax\n   ret\n.section .note.GNU-stack,\"\",@progbits"
    );
}

#[test]
fn pipeline_underscore_identifier() {
    let text = compile("int _start_2(void){return 7;}");
    assert_eq!(
        text,
        "  .globl _start_2\n_start_2:\n   movl $7, %eax\n   ret\n.section .note.GNU-stack,\"\",@progbits"
    );
}

#[test]
fn pipeline_largest_constant() {
    let text = compile("int main(void){return 2147483647;}");
    assert_eq!(
        text,
        "  .globl main\nmain:\n   movl $2147483647, %eax\n   ret\n.section .note.GNU-stack,\"\",@progbits"
    );
}

#[test]
fn emission_idempotent() {
    let make_ast = || {
        let tokens = lex("int main(void){return 5;}".to_string()).unwrap();
        generate_assembly(parse(tokens).unwrap())
    };
    let first = emit_code(make_ast());
    let second = emit_code(make_ast());
    assert_eq!(first.as_bytes(), second.as_bytes());
}

#[test]
fn generated_assembly_shape() {
    let tokens = lex("int main(void){return 2;}".to_string()).unwrap();
    let ast = parse(tokens).unwrap();
    let AssemblyASTRootNode::Program(function) = generate_assembly(ast);
    assert_eq!(function.name, "main");
    assert_eq!(function.instructions.len(), 2);
    assert!(matches!(
        &function.instructions[0],
        AssemblyASTInstruction::Mov {
            src: AssemblyASTOperand::Imm(2),
            dst: AssemblyASTOperand::Register,
        }
    ));
    assert!(matches!(&function.instructions[1], AssemblyASTInstruction::Ret));
}

#[test]
fn lowering_keeps_name_and_fixes_instructions() {
    let ast = ASTRootNode::Program(ASTFunction {
        name: "answer".to_string(),
        body: ASTStatement::Return(ASTExpression::Constant(-3)),
    });
    let AssemblyASTRootNode::Program(function) = generate_assembly(ast);
    assert_eq!(function.name, "answer");
    assert_eq!(function.instructions.len(), 2);
    assert!(matches!(
        &function.instructions[0],
        AssemblyASTInstruction::Mov {
            src: AssemblyASTOperand::Imm(-3),
            dst: AssemblyASTOperand::Register,
        }
    ));
    assert!(matches!(&function.instructions[1], AssemblyASTInstruction::Ret));
}
