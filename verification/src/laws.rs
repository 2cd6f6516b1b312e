//! Pipeline-wide laws: what lexing, parsing, lowering and emission together
//! guarantee for every valid program, and what the rendering rules promise
//! for every assembly tree.

use vstd::prelude::*;

use crate::assembly::AssemblyASTOperandView;
use crate::assembly::AssemblyASTRootNodeView;
use crate::assembly::spec_lower;
use crate::decimal::dec_digits;
use crate::decimal::dec_int;
use crate::decimal::digits_val;
use crate::decimal::lemma_dec_digits_canonical;
use crate::decimal::lemma_dec_digits_round_trip;
use crate::emission::spec_emit_instructions;
use crate::emission::spec_emit_operand;
use crate::emission::spec_emit_program;
use crate::emission::spec_trailer;
use crate::decimal::is_digit_char;
use crate::lexer::TokenView;
use crate::lexer::all_digit_chars;
use crate::lexer::is_letter_char;
use crate::lexer::is_space_char;
use crate::lexer::is_word_char;
use crate::lexer::word_token;
use crate::lexer::all_space_chars;
use crate::lexer::is_identifier_text;
use crate::lexer::lemma_lex_constant;
use crate::lexer::lemma_lex_punct;
use crate::lexer::lemma_lex_spaces;
use crate::lexer::lemma_lex_word;
use crate::lexer::lex_prepend;
use crate::lexer::spec_lex;
use crate::lexer::spec_lex_from;
use crate::parser::ASTExpressionView;
use crate::parser::ASTFunctionView;
use crate::parser::ASTRootNodeView;
use crate::parser::ASTStatementView;
use crate::parser::ParseErrorView;
use crate::parser::spec_parse;

verus! {

/// The token sequence of a program `int <name>(void){return <value>;}`.
pub open spec fn program_tokens(name: Seq<char>, value: i32) -> Seq<TokenView> {
    seq![
        TokenView::Int,
        TokenView::Identifier(name),
        TokenView::OpenParenthesis,
        TokenView::Void,
        TokenView::CloseParenthesis,
        TokenView::OpenBrace,
        TokenView::Return,
        TokenView::Constant(value),
        TokenView::Semicolon,
        TokenView::CloseBrace,
    ]
}

/// The syntactic tree of a program `int <name>(void){return <value>;}`.
pub open spec fn program_tree(name: Seq<char>, value: i32) -> ASTRootNodeView {
    ASTRootNodeView::Program(
        ASTFunctionView {
            name: name,
            body: ASTStatementView::Return(ASTExpressionView::Constant(value)),
        },
    )
}

/// The emitted text of a program `int <name>(void){return <value>;}`:
/// exactly one global-symbol line, one label line, one move of the immediate
/// into the accumulator, one return, and the fixed trailer, in that order.
pub open spec fn program_text(name: Seq<char>, value: i32) -> Seq<char> {
    "  .globl "@ + name + "\n"@ + name + ":\n"@ + "   movl "@ + "$"@ + dec_int(value as int)
        + ", "@ + "%eax"@ + "\n"@ + "   ret\n"@ + spec_trailer()
}

/// Parsing the tokens of a valid program always succeeds and yields its
/// tree; an identifier token never collides with a keyword or punctuation.
pub proof fn lemma_parse_program_tokens(name: Seq<char>, value: i32)
    ensures
        spec_parse(program_tokens(name, value)) == Ok::<_, ParseErrorView>(
            program_tree(name, value),
        ),
{
}

/// Lowering then emitting the tree of a valid program yields exactly its
/// text.
pub proof fn lemma_lower_emit_program_tree(name: Seq<char>, value: i32)
    ensures
        spec_emit_program(spec_lower(program_tree(name, value))) == program_text(name, value),
{
    let instrs = spec_lower(program_tree(name, value))->Program_0.instructions;
    assert(instrs.len() == 2);
    reveal_with_fuel(spec_emit_instructions, 3);
    assert(instrs.drop_last() =~= seq![instrs[0]]);
    assert(seq![instrs[0]].drop_last() =~= Seq::<crate::assembly::AssemblyASTInstructionView>::empty());
    assert(spec_emit_program(spec_lower(program_tree(name, value))) =~= program_text(name, value));
}

/// The whole pipeline is total on valid programs: any source text that scans
/// to the tokens of `int <name>(void){return <value>;}` parses to its tree,
/// and lowering then emission turns that tree into exactly its text.
pub proof fn lemma_pipeline_total(src: Seq<char>, name: Seq<char>, value: i32)
    requires
        spec_lex(src) == Ok::<_, crate::lexer::LexErrorView>(program_tokens(name, value)),
    ensures
        spec_parse(program_tokens(name, value)) == Ok::<_, ParseErrorView>(
            program_tree(name, value),
        ),
        spec_emit_program(spec_lower(program_tree(name, value))) == program_text(name, value),
{
    lemma_parse_program_tokens(name, value);
    lemma_lower_emit_program_tree(name, value);
}

/// A valid program source: `int <name>(void){return <digits>;}` with
/// arbitrary whitespace in the gaps `g0` through `g10`.
pub open spec fn valid_source(
    g0: Seq<char>,
    g1: Seq<char>,
    g2: Seq<char>,
    g3: Seq<char>,
    g4: Seq<char>,
    g5: Seq<char>,
    g6: Seq<char>,
    g7: Seq<char>,
    g8: Seq<char>,
    g9: Seq<char>,
    g10: Seq<char>,
    name: Seq<char>,
    digits: Seq<char>,
) -> Seq<char> {
    g0 + "int"@ + g1 + name + g2 + "("@ + g3 + "void"@ + g4 + ")"@ + g5 + "{"@ + g6 + "return"@
        + g7 + digits + g8 + ";"@ + g9 + "}"@ + g10
}

/// The whole pipeline is total on every valid program text: whatever
/// whitespace stands in the gaps, the scan yields exactly the program's
/// tokens, the parse yields its tree, and lowering then emission yields its
/// text. The gap after `int` and the gap after `return` must be non-empty,
/// since the scan takes maximal words and digit runs.
#[verifier::rlimit(100)]
#[verifier::spinoff_prover]
pub proof fn lemma_pipeline_valid_source(
    g0: Seq<char>,
    g1: Seq<char>,
    g2: Seq<char>,
    g3: Seq<char>,
    g4: Seq<char>,
    g5: Seq<char>,
    g6: Seq<char>,
    g7: Seq<char>,
    g8: Seq<char>,
    g9: Seq<char>,
    g10: Seq<char>,
    name: Seq<char>,
    digits: Seq<char>,
)
    requires
        all_space_chars(g0),
        all_space_chars(g1),
        all_space_chars(g2),
        all_space_chars(g3),
        all_space_chars(g4),
        all_space_chars(g5),
        all_space_chars(g6),
        all_space_chars(g7),
        all_space_chars(g8),
        all_space_chars(g9),
        all_space_chars(g10),
        g1.len() > 0,
        g7.len() > 0,
        is_identifier_text(name),
        digits.len() > 0,
        all_digit_chars(digits),
        digits_val(digits) <= 2147483647,
    ensures
        spec_lex(valid_source(g0, g1, g2, g3, g4, g5, g6, g7, g8, g9, g10, name, digits)) == Ok::<
            _,
            crate::lexer::LexErrorView,
        >(program_tokens(name, digits_val(digits) as i32)),
        spec_parse(program_tokens(name, digits_val(digits) as i32)) == Ok::<_, ParseErrorView>(
            program_tree(name, digits_val(digits) as i32),
        ),
        spec_emit_program(spec_lower(program_tree(name, digits_val(digits) as i32)))
            == program_text(name, digits_val(digits) as i32),
{
    let value = digits_val(digits) as i32;
    let src = valid_source(g0, g1, g2, g3, g4, g5, g6, g7, g8, g9, g10, name, digits);
    reveal_strlit("int");
    reveal_strlit("void");
    reveal_strlit("return");
    reveal_strlit("(");
    reveal_strlit(")");
    reveal_strlit("{");
    reveal_strlit("}");
    reveal_strlit(";");

    let p0 = g0.len() as int;
    let p1 = p0 + 3;
    let p2 = p1 + g1.len();
    let p3 = p2 + name.len();
    let p4 = p3 + g2.len();
    let p5 = p4 + 1;
    let p6 = p5 + g3.len();
    let p7 = p6 + 4;
    let p8 = p7 + g4.len();
    let p9 = p8 + 1;
    let p10 = p9 + g5.len();
    let p11 = p10 + 1;
    let p12 = p11 + g6.len();
    let p13 = p12 + 6;
    let p14 = p13 + g7.len();
    let p15 = p14 + digits.len();
    let p16 = p15 + g8.len();
    let p17 = p16 + 1;
    let p18 = p17 + g9.len();
    let p19 = p18 + 1;
    let p20 = p19 + g10.len();
    assert(src.len() == p20);

    assert(src.subrange(0, p0) =~= g0);
    assert(src.subrange(p0, p1) =~= "int"@);
    assert(src.subrange(p1, p2) =~= g1);
    assert(src.subrange(p2, p3) =~= name);
    assert(src.subrange(p3, p4) =~= g2);
    assert(src[p4] == '(');
    assert(src.subrange(p5, p6) =~= g3);
    assert(src.subrange(p6, p7) =~= "void"@);
    assert(src.subrange(p7, p8) =~= g4);
    assert(src[p8] == ')');
    assert(src.subrange(p9, p10) =~= g5);
    assert(src[p10] == '{');
    assert(src.subrange(p11, p12) =~= g6);
    assert(src.subrange(p12, p13) =~= "return"@);
    assert(src.subrange(p13, p14) =~= g7);
    assert(src.subrange(p14, p15) =~= digits);
    assert(src.subrange(p15, p16) =~= g8);
    assert(src[p16] == ';');
    assert(src.subrange(p17, p18) =~= g9);
    assert(src[p18] == '}');
    assert(src.subrange(p19, p20) =~= g10);

    assert forall|k: int| 0 <= k < p0 implies is_space_char(src[k]) by {
        assert(src[k] == src.subrange(0, p0)[k]);
    }
    assert forall|k: int| p0 <= k < p1 implies is_word_char(src[k]) by {
        assert(src[k] == src.subrange(p0, p1)[k - p0]);
    }
    assert forall|k: int| p1 <= k < p2 implies is_space_char(src[k]) by {
        assert(src[k] == src.subrange(p1, p2)[k - p1]);
    }
    assert forall|k: int| p2 <= k < p3 implies is_word_char(src[k]) by {
        assert(src[k] == src.subrange(p2, p3)[k - p2]);
    }
    assert forall|k: int| p3 <= k < p4 implies is_space_char(src[k]) by {
        assert(src[k] == src.subrange(p3, p4)[k - p3]);
    }
    assert forall|k: int| p5 <= k < p6 implies is_space_char(src[k]) by {
        assert(src[k] == src.subrange(p5, p6)[k - p5]);
    }
    assert forall|k: int| p6 <= k < p7 implies is_word_char(src[k]) by {
        assert(src[k] == src.subrange(p6, p7)[k - p6]);
    }
    assert forall|k: int| p7 <= k < p8 implies is_space_char(src[k]) by {
        assert(src[k] == src.subrange(p7, p8)[k - p7]);
    }
    assert forall|k: int| p9 <= k < p10 implies is_space_char(src[k]) by {
        assert(src[k] == src.subrange(p9, p10)[k - p9]);
    }
    assert forall|k: int| p11 <= k < p12 implies is_space_char(src[k]) by {
        assert(src[k] == src.subrange(p11, p12)[k - p11]);
    }
    assert forall|k: int| p12 <= k < p13 implies is_word_char(src[k]) by {
        assert(src[k] == src.subrange(p12, p13)[k - p12]);
    }
    assert forall|k: int| p13 <= k < p14 implies is_space_char(src[k]) by {
        assert(src[k] == src.subrange(p13, p14)[k - p13]);
    }
    assert forall|k: int| p14 <= k < p15 implies is_digit_char(src[k]) by {
        assert(src[k] == src.subrange(p14, p15)[k - p14]);
    }
    assert forall|k: int| p15 <= k < p16 implies is_space_char(src[k]) by {
        assert(src[k] == src.subrange(p15, p16)[k - p15]);
    }
    assert forall|k: int| p17 <= k < p18 implies is_space_char(src[k]) by {
        assert(src[k] == src.subrange(p17, p18)[k - p17]);
    }
    assert forall|k: int| p19 <= k < p20 implies is_space_char(src[k]) by {
        assert(src[k] == src.subrange(p19, p20)[k - p19]);
    }

    lemma_lex_spaces(src, 0, p0);
    assert(src[p1] == g1[0]);
    lemma_lex_word(src, p0, p1);
    assert(word_token(src.subrange(p0, p1)) == TokenView::Int);
    lemma_lex_spaces(src, p1, p2);
    assert(p3 == src.len() || !is_word_char(src[p3])) by {
        if g2.len() > 0 {
            assert(src[p3] == g2[0]);
        } else {
            assert(src[p3] == '(');
        }
    }
    lemma_lex_word(src, p2, p3);
    assert(word_token(src.subrange(p2, p3)) == TokenView::Identifier(name));
    lemma_lex_spaces(src, p3, p4);
    lemma_lex_punct(src, p4);
    lemma_lex_spaces(src, p5, p6);
    assert(p7 == src.len() || !is_word_char(src[p7])) by {
        if g4.len() > 0 {
            assert(src[p7] == g4[0]);
        } else {
            assert(src[p7] == ')');
        }
    }
    lemma_lex_word(src, p6, p7);
    assert(word_token(src.subrange(p6, p7)) == TokenView::Void);
    lemma_lex_spaces(src, p7, p8);
    lemma_lex_punct(src, p8);
    lemma_lex_spaces(src, p9, p10);
    lemma_lex_punct(src, p10);
    lemma_lex_spaces(src, p11, p12);
    assert(src[p13] == g7[0]);
    lemma_lex_word(src, p12, p13);
    assert(word_token(src.subrange(p12, p13)) == TokenView::Return);
    lemma_lex_spaces(src, p13, p14);
    assert(p15 == src.len() || (!is_digit_char(src[p15]) && !is_letter_char(src[p15]))) by {
        if g8.len() > 0 {
            assert(src[p15] == g8[0]);
        } else {
            assert(src[p15] == ';');
        }
    }
    lemma_lex_constant(src, p14, p15);
    assert(digits_val(src.subrange(p14, p15)) == digits_val(digits));
    lemma_lex_spaces(src, p15, p16);
    lemma_lex_punct(src, p16);
    lemma_lex_spaces(src, p17, p18);
    lemma_lex_punct(src, p18);
    lemma_lex_spaces(src, p19, p20);
    assert(spec_lex_from(src, p20) == Ok::<_, crate::lexer::LexErrorView>(Seq::<TokenView>::empty()));

    assert(spec_lex_from(src, 0) == lex_prepend(
        TokenView::Int,
        lex_prepend(
            TokenView::Identifier(name),
            lex_prepend(
                TokenView::OpenParenthesis,
                lex_prepend(
                    TokenView::Void,
                    lex_prepend(
                        TokenView::CloseParenthesis,
                        lex_prepend(
                            TokenView::OpenBrace,
                            lex_prepend(
                                TokenView::Return,
                                lex_prepend(
                                    TokenView::Constant(value),
                                    lex_prepend(
                                        TokenView::Semicolon,
                                        lex_prepend(
                                            TokenView::CloseBrace,
                                            spec_lex_from(src, p20),
                                        ),
                                    ),
                                ),
                            ),
                        ),
                    ),
                ),
            ),
        ),
    ));
    assert(spec_lex(src) matches Ok(ts) && ts =~= program_tokens(name, value));

    lemma_parse_program_tokens(name, value);
    lemma_lower_emit_program_tree(name, value);
}

/// Rendering is a function of the assembly tree alone: emitting equal trees
/// yields byte-identical text, so emitting one tree twice does too.
pub proof fn lemma_emission_deterministic(a: AssemblyASTRootNodeView, b: AssemblyASTRootNodeView)
    requires
        a == b,
    ensures
        spec_emit_program(a) == spec_emit_program(b),
{
}

/// Immediates round-trip exactly: the emitted text of `Imm(v)` is a dollar
/// sign followed by the canonical decimal numeral of `v` — a minus sign
/// exactly for negative values, then digits without a spurious leading zero
/// that read back as the magnitude.
pub proof fn lemma_immediate_round_trip(v: i32)
    ensures
        v >= 0 ==> spec_emit_operand(AssemblyASTOperandView::Imm(v)) == "$"@ + dec_digits(
            v as nat,
        ) && digits_val(dec_digits(v as nat)) == v,
        v < 0 ==> spec_emit_operand(AssemblyASTOperandView::Imm(v)) == "$"@ + seq!['-']
            + dec_digits((-v) as nat) && digits_val(dec_digits((-v) as nat)) == -v,
        v != 0 ==> dec_digits(if v >= 0 {
            v as nat
        } else {
            (-v) as nat
        })[0] != '0',
{
    if v >= 0 {
        lemma_dec_digits_round_trip(v as nat);
        lemma_dec_digits_canonical(v as nat);
    } else {
        lemma_dec_digits_round_trip((-v) as nat);
        lemma_dec_digits_canonical((-v) as nat);
        assert("$"@ + (seq!['-'] + dec_digits((-v) as nat)) =~= "$"@ + seq!['-'] + dec_digits(
            (-v) as nat,
        ));
    }
}

} // verus!
