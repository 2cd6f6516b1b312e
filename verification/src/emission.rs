//! Emission: bit-exact rendering of the assembly tree into GNU-assembler
//! text. Every rendering rule is a spec function, and `emit_code` is proved
//! to produce exactly the modelled text, character for character.

use vstd::prelude::*;
use vstd::string::StrSliceExecFns;
use vstd::string::StringExecFns;

use crate::assembly::AssemblyASTFunction;
use crate::assembly::AssemblyASTFunctionView;
use crate::assembly::AssemblyASTInstruction;
use crate::assembly::AssemblyASTInstructionView;
use crate::assembly::AssemblyASTOperand;
use crate::assembly::AssemblyASTOperandView;
use crate::assembly::AssemblyASTRootNode;
use crate::assembly::AssemblyASTRootNodeView;
use crate::assembly::instruction_views;
use crate::decimal::dec_int;
use crate::decimal::i32_dec_string;

verus! {

/// The rendering of an operand: the fixed accumulator register, or a
/// decimal immediate with a dollar prefix.
pub open spec fn spec_emit_operand(op: AssemblyASTOperandView) -> Seq<char> {
    match op {
        AssemblyASTOperandView::Register => "%eax"@,
        AssemblyASTOperandView::Imm(v) => "$"@ + dec_int(v as int),
    }
}

/// The rendering of one instruction, on a line of its own.
pub open spec fn spec_emit_instruction(instr: AssemblyASTInstructionView) -> Seq<char> {
    match instr {
        AssemblyASTInstructionView::Mov { src, dst } => "   movl "@ + spec_emit_operand(src)
            + ", "@ + spec_emit_operand(dst) + "\n"@,
        AssemblyASTInstructionView::Ret => "   ret\n"@,
    }
}

/// The rendering of an instruction sequence, in order.
pub open spec fn spec_emit_instructions(instrs: Seq<AssemblyASTInstructionView>) -> Seq<char>
    decreases instrs.len(),
{
    if instrs.len() == 0 {
        Seq::empty()
    } else {
        spec_emit_instructions(instrs.drop_last()) + spec_emit_instruction(instrs.last())
    }
}

/// The rendering of a function: a global-symbol declaration line, a label
/// line, then the instructions.
pub open spec fn spec_emit_function(f: AssemblyASTFunctionView) -> Seq<char> {
    "  .globl "@ + f.name + "\n"@ + f.name + ":\n"@ + spec_emit_instructions(f.instructions)
}

/// The fixed trailer marking the stack as non-executable.
pub open spec fn spec_trailer() -> Seq<char> {
    ".section .note.GNU-stack,\"\",@progbits"@
}

/// The rendering of a whole program: the function, then the trailer.
pub open spec fn spec_emit_program(p: AssemblyASTRootNodeView) -> Seq<char> {
    match p {
        AssemblyASTRootNodeView::Program(f) => spec_emit_function(f) + spec_trailer(),
    }
}

/// Serializes an assembly tree into assembler text. Total: the result is
/// exactly the text the `spec_emit_program` rendering table says.
pub fn emit_code(assembly_ast: AssemblyASTRootNode) -> (r: String)
    ensures
        r@ == spec_emit_program(assembly_ast@),
{
    let mut program = String::new();
    match assembly_ast {
        AssemblyASTRootNode::Program(f) => {
            let function_string = emit_function(f);
            program.append(function_string.as_str());
            program.append(".section .note.GNU-stack,\"\",@progbits");
        },
    }

    program
}

fn emit_function(f: AssemblyASTFunction) -> (r: String)
    ensures
        r@ == spec_emit_function(f@),
{
    let mut function_string = String::new();

    function_string.append("  .globl ");
    function_string.append(f.name.as_str());
    function_string.append("\n");
    function_string.append(f.name.as_str());
    function_string.append(":\n");

    let ghost header = function_string@;

    let mut i: usize = 0;
    while i < f.instructions.len()
        invariant
            i <= f.instructions@.len(),
            function_string@ == header + spec_emit_instructions(
                instruction_views(f.instructions@).take(i as int),
            ),
            header + spec_emit_instructions(Seq::<AssemblyASTInstructionView>::empty()) == header,
        decreases f.instructions@.len() - i,
    {
        let instruction_string = emit_instruction(&f.instructions[i]);
        function_string.append(instruction_string.as_str());
        proof {
            let views = instruction_views(f.instructions@);
            assert(views.take(i + 1).drop_last() =~= views.take(i as int));
            assert(views.take(i + 1).last() == views[i as int]);
        }
        i += 1;
    }

    proof {
        assert(instruction_views(f.instructions@).take(f.instructions@.len() as int)
            =~= instruction_views(f.instructions@));
    }

    function_string
}

fn emit_instruction(asm_instr: &AssemblyASTInstruction) -> (r: String)
    ensures
        r@ == spec_emit_instruction(asm_instr@),
{
    match asm_instr {
        AssemblyASTInstruction::Mov { src, dst } => {
            let mut line = String::from_str("   movl ");
            let src_string = emit_operand(src);
            line.append(src_string.as_str());
            line.append(", ");
            let dst_string = emit_operand(dst);
            line.append(dst_string.as_str());
            line.append("\n");
            line
        },
        AssemblyASTInstruction::Ret => String::from_str("   ret\n"),
    }
}

fn emit_operand(asm_operand: &AssemblyASTOperand) -> (r: String)
    ensures
        r@ == spec_emit_operand(asm_operand@),
{
    match asm_operand {
        AssemblyASTOperand::Register => String::from_str("%eax"),
        AssemblyASTOperand::Imm(c) => {
            let mut text = String::from_str("$");
            let digits = i32_dec_string(*c);
            text.append(digits.as_str());
            text
        },
    }
}

} // verus!
