//! Lowering: the total, deterministic transformation from the syntactic tree
//! to the assembly-level tree. A return of a constant becomes a move of the
//! immediate into the accumulator register followed by a return instruction.

use vstd::prelude::*;

use crate::parser::ASTExpression;
use crate::parser::ASTExpressionView;
use crate::parser::ASTFunction;
use crate::parser::ASTRootNode;
use crate::parser::ASTRootNodeView;
use crate::parser::ASTStatement;
use crate::parser::ASTStatementView;

verus! {

/// The root of the assembly tree: a whole program.
#[derive(Debug)]
pub enum AssemblyASTRootNode {
    Program(AssemblyASTFunction),
}

/// A function at instruction level: a name and its instructions in emission
/// order.
#[derive(Debug)]
pub struct AssemblyASTFunction {
    pub name: String,
    pub instructions: Vec<AssemblyASTInstruction>,
}

/// One machine instruction.
#[derive(Debug)]
pub enum AssemblyASTInstruction {
    Mov { src: AssemblyASTOperand, dst: AssemblyASTOperand },
    Ret,
}

/// An instruction operand: the fixed accumulator register, or a 32-bit
/// signed immediate.
#[derive(Debug)]
pub enum AssemblyASTOperand {
    Register,
    Imm(i32),
}

/// The model of an operand.
pub enum AssemblyASTOperandView {
    Register,
    Imm(i32),
}

/// The model of an instruction.
pub enum AssemblyASTInstructionView {
    Mov { src: AssemblyASTOperandView, dst: AssemblyASTOperandView },
    Ret,
}

/// The model of a function at instruction level.
pub struct AssemblyASTFunctionView {
    pub name: Seq<char>,
    pub instructions: Seq<AssemblyASTInstructionView>,
}

/// The model of an assembly program.
pub enum AssemblyASTRootNodeView {
    Program(AssemblyASTFunctionView),
}

impl View for AssemblyASTOperand {
    type V = AssemblyASTOperandView;

    open spec fn view(&self) -> AssemblyASTOperandView {
        match self {
            AssemblyASTOperand::Register => AssemblyASTOperandView::Register,
            AssemblyASTOperand::Imm(v) => AssemblyASTOperandView::Imm(*v),
        }
    }
}

impl View for AssemblyASTInstruction {
    type V = AssemblyASTInstructionView;

    open spec fn view(&self) -> AssemblyASTInstructionView {
        match self {
            AssemblyASTInstruction::Mov { src, dst } => AssemblyASTInstructionView::Mov {
                src: src@,
                dst: dst@,
            },
            AssemblyASTInstruction::Ret => AssemblyASTInstructionView::Ret,
        }
    }
}

/// The model of an instruction sequence.
pub open spec fn instruction_views(is: Seq<AssemblyASTInstruction>) -> Seq<
    AssemblyASTInstructionView,
> {
    is.map_values(|i: AssemblyASTInstruction| i@)
}

impl View for AssemblyASTFunction {
    type V = AssemblyASTFunctionView;

    open spec fn view(&self) -> AssemblyASTFunctionView {
        AssemblyASTFunctionView { name: self.name@, instructions: instruction_views(
            self.instructions@,
        ) }
    }
}

impl View for AssemblyASTRootNode {
    type V = AssemblyASTRootNodeView;

    open spec fn view(&self) -> AssemblyASTRootNodeView {
        match self {
            AssemblyASTRootNode::Program(f) => AssemblyASTRootNodeView::Program(f@),
        }
    }
}

/// The lowering of a return statement: move the constant into the
/// accumulator, then return. This table fixes the calling convention.
pub open spec fn spec_lower_statement(s: ASTStatementView) -> Seq<AssemblyASTInstructionView> {
    match s {
        ASTStatementView::Return(ASTExpressionView::Constant(v)) => seq![
            AssemblyASTInstructionView::Mov {
                src: AssemblyASTOperandView::Imm(v),
                dst: AssemblyASTOperandView::Register,
            },
            AssemblyASTInstructionView::Ret,
        ],
    }
}

/// The lowering of a function: the name is kept verbatim, the body becomes
/// its instruction sequence.
pub open spec fn spec_lower_function(f: crate::parser::ASTFunctionView) -> AssemblyASTFunctionView {
    AssemblyASTFunctionView { name: f.name, instructions: spec_lower_statement(f.body) }
}

/// The lowering of a whole program.
pub open spec fn spec_lower(p: ASTRootNodeView) -> AssemblyASTRootNodeView {
    match p {
        ASTRootNodeView::Program(f) => AssemblyASTRootNodeView::Program(spec_lower_function(f)),
    }
}

/// Lowers a syntactic tree into an assembly tree. Total: every valid tree
/// produces exactly the tree the `spec_lower` table says.
pub fn generate_assembly(ast: ASTRootNode) -> (r: AssemblyASTRootNode)
    ensures
        r@ == spec_lower(ast@),
{
    match ast {
        ASTRootNode::Program(f) => AssemblyASTRootNode::Program(generate_function(f)),
    }
}

fn generate_function(f: ASTFunction) -> (r: AssemblyASTFunction)
    ensures
        r@ == spec_lower_function(f@),
{
    let name = f.name;

    let instructions = generate_instructions(f.body);

    AssemblyASTFunction { name, instructions }
}

fn generate_instructions(statement: ASTStatement) -> (r: Vec<AssemblyASTInstruction>)
    ensures
        instruction_views(r@) == spec_lower_statement(statement@),
{
    let mut instructions: Vec<AssemblyASTInstruction> = Vec::new();

    match statement {
        ASTStatement::Return(expr) => {
            let src: i32 = match expr {
                ASTExpression::Constant(c) => c,
            };

            instructions.push(
                AssemblyASTInstruction::Mov {
                    src: AssemblyASTOperand::Imm(src),
                    dst: AssemblyASTOperand::Register,
                },
            );

            instructions.push(AssemblyASTInstruction::Ret);

            proof {
                assert(instruction_views(instructions@) =~= spec_lower_statement(statement@));
            }
        },
    }

    instructions
}

} // verus!
