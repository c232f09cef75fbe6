//! The front end: tokens, lexer, AST, and parser.

pub mod ast;
pub mod chars;
pub mod error;
pub mod expr_parser;
pub mod parser;
pub mod lexer;
pub mod token;

use vstd::prelude::*;
use crate::syntax::ast::{expr_views, ExprV, Program};
use crate::syntax::error::{LexResult, ParseResult, ParserError, SyntaxError};
use crate::syntax::lexer::{
    lemma_lex_tokens_last_eof, lemma_read_token_progress, lex_tokens, Lexer,
};
use crate::syntax::parser::{program_spec, Parser};
use crate::syntax::token::{Token, TokenType, TokenV};

verus! {

/// Parse a whole token sequence into a program: the top-level constructs
/// in order, or the first parse error.
pub fn parse(tokens: Vec<Token>) -> (r: ParseResult<Program>)
    ensures
        ({
            let s = program_spec(tokens.deep_view(), 0);
            match r {
                Ok(prog) => s.0 == Ok::<Seq<ExprV>, ParserError>(expr_views(prog@)),
                Err(e) => s.0 == Err::<Seq<ExprV>, ParserError>(e),
            }
        }),
{
    let mut parser = Parser::new(tokens);
    parser.parse_program()
}

/// Whether an executable lexing outcome agrees with [`lex_tokens`].
pub open spec fn lex_output_matches(
    r: LexResult<Vec<Token>>,
    spec_r: Result<Seq<TokenV>, SyntaxError>,
) -> bool {
    match r {
        Ok(toks) => spec_r == Ok::<Seq<TokenV>, SyntaxError>(toks.deep_view()),
        Err(e) => spec_r == Err::<Seq<TokenV>, SyntaxError>(e),
    }
}

/// Lex a whole source text: the token sequence of `source`, ending with
/// the end-of-input token, or the first lexical error.
pub fn lex(source: &str) -> (r: LexResult<Vec<Token>>)
    requires
        source@.len() < usize::MAX,
    ensures
        lex_output_matches(r, lex_tokens(source@, 0, 1)),
        r matches Ok(toks) ==> toks@.len() >= 1 && toks@.last().token_type == TokenType::EOF
            && toks@.last().position.start == source@.len() && toks@.last().position.end
            == source@.len(),
{
    let ghost s = source@;
    let mut lexer = Lexer::new(source);
    let mut tokens: Vec<Token> = Vec::new();
    proof {
        if let Ok(rest) = lex_tokens(s, 0, 1) {
            assert(tokens.deep_view() + rest =~= rest);
        }
    }
    loop
        invariant
            lexer.wf(),
            lexer.source@ == s,
            s == source@,
            lexer.pos <= s.len(),
            forall|k: int|
                0 <= k < tokens@.len() ==> (#[trigger] tokens@[k]).token_type != TokenType::EOF,
            ({
                match lex_tokens(s, lexer.pos as int, lexer.line as int) {
                    Ok(rest) => lex_tokens(s, 0, 1) == Ok::<Seq<TokenV>, SyntaxError>(
                        tokens.deep_view() + rest,
                    ),
                    Err(e) => lex_tokens(s, 0, 1) == Err::<Seq<TokenV>, SyntaxError>(e),
                }
            }),
        decreases s.len() - lexer.pos,
    {
        let ghost pos0 = lexer.pos as int;
        let ghost line0 = lexer.line as int;
        proof {
            lemma_read_token_progress(s, pos0, line0);
        }
        match lexer.read_token() {
            Err(e) => {
                return Err(e);
            },
            Ok(None) => {},
            Ok(Some(t)) => {
                let is_eof = t.token_type == TokenType::EOF;
                let ghost old_deep = tokens.deep_view();
                tokens.push(t);
                proof {
                    assert(tokens.deep_view() =~= old_deep + seq![t@]);
                }
                if is_eof {
                    proof {
                        lemma_lex_tokens_last_eof(s, 0, 1);
                    }
                    return Ok(tokens);
                }
                proof {
                    let step = lexer::read_token_spec(s, pos0, line0);
                    if let Ok(rest) = lex_tokens(s, step.next, step.line) {
                        assert(old_deep + (seq![t@] + rest) =~= (old_deep + seq![t@]) + rest);
                    }
                }
            },
        }
    }
}

} // verus!
