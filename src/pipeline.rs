use crate::interpreter::{final_depth, stmt_steps, steps_of, Instruction, Interpreter};
use crate::lexer::{is_lex_error, lemma_lex_ends, lex_spec, Lexer};
use crate::parser::{is_fault, parse_spec, Parser};
use crate::qcl_error::QclError;
use vstd::prelude::*;

verus! {

/// Runs the front end on a whole program: tokenizes it, parses one
/// statement, and turns the tree into the steps that evaluate it. Fails
/// with the first lexical or syntax error.
pub fn plan(source: String) -> (r: Result<Vec<Instruction>, QclError>)
    ensures
        match lex_spec(source@, 0) {
            Err(p) => r matches Err(e) && is_lex_error(e, source@, p),
            Ok(toks) => match parse_spec(toks, 0) {
                Err(f) => r matches Err(e) && is_fault(e, f),
                Ok(tree) => r matches Ok(steps) && steps_of(steps@) == stmt_steps(tree)
                    && final_depth(steps_of(steps@), 0) == Some(0int),
            },
        },
{
    let ghost text = source@;
    let mut lexer = Lexer::new(source.clone());
    let tokens = match lexer.lex() {
        Ok(tokens) => tokens,
        Err(e) => return Err(e),
    };
    proof {
        lemma_lex_ends(text, 0);
    }
    let mut parser = Parser::new(source, tokens);
    let ast = match parser.parse() {
        Ok(ast) => ast,
        Err(e) => return Err(e),
    };
    Ok(Interpreter::new(ast).instructions())
}

} // verus!
