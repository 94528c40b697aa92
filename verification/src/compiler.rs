//! The front end as one function: from source text to the verdict of the
//! semantic analyzer.

use crate::lexer::tokenization::{
    drop_trivia, significant, tokenization, tokenize, LexicalError,
};
use crate::parser::derivation::{parse, SyntaxError, SyntaxErrorView};
use crate::parser::halting::steps_per_token;
use crate::parser::language::{is_parsable_length, parse_program};
use crate::parser::language_rules;
use crate::semantics::semantic_errors::{SemanticError, SemanticErrorView};
use crate::semantics::validation::type_check;
use vstd::prelude::*;

verus! {

/// Why the front end turned a source text down.
#[derive(Debug, PartialEq)]
pub enum CompilerError {
    /// The splitter's pattern is no regular expression.
    Splitter,
    /// A piece of the text is no token.
    Lexical(LexicalError),
    /// The text has more tokens than a parse can count steps for.
    TooLong,
    /// The text is not of the language.
    Syntax(SyntaxError),
    /// The trace is of a shape that the analyzer does not know: the
    /// initializer of a declaration holds more than operands and operators.
    UnknownShape,
    /// The program uses a type or an initializer wrongly.
    Semantic(Box<SemanticError>),
}

/// The mathematical value of a [`CompilerError`].
pub enum CompilerErrorView {
    Splitter,
    Lexical(Seq<char>),
    TooLong,
    Syntax(SyntaxErrorView),
    UnknownShape,
    Semantic(SemanticErrorView),
}

impl View for CompilerError {
    type V = CompilerErrorView;

    open spec fn view(&self) -> CompilerErrorView {
        match *self {
            CompilerError::Splitter => CompilerErrorView::Splitter,
            CompilerError::Lexical(error) => CompilerErrorView::Lexical(error@),
            CompilerError::TooLong => CompilerErrorView::TooLong,
            CompilerError::Syntax(error) => CompilerErrorView::Syntax(error@),
            CompilerError::UnknownShape => CompilerErrorView::UnknownShape,
            CompilerError::Semantic(error) => CompilerErrorView::Semantic(error@),
        }
    }
}

/// The verdict of the front end on a source text: the text is cut into
/// tokens, the tokens that are no white space or comment are parsed by the
/// grammar of the language, and the trace is type-checked. The first stage
/// that fails gives the error.
pub open spec fn compilation(source: Seq<char>) -> Result<(), CompilerErrorView> {
    match tokenization(source) {
        None => Err(CompilerErrorView::Splitter),
        Some(Err(error)) => Err(CompilerErrorView::Lexical(error)),
        Some(Ok(tokens)) => if steps_per_token() * significant(tokens).len() + 1 > usize::MAX {
            Err(CompilerErrorView::TooLong)
        } else {
            match parse(language_rules(), significant(tokens)) {
                Err(error) => Err(CompilerErrorView::Syntax(error)),
                Ok(trace) => match type_check(trace) {
                    None => Err(CompilerErrorView::UnknownShape),
                    Some(Err(error)) => Err(CompilerErrorView::Semantic(error)),
                    Some(Ok(())) => Ok(()),
                },
            }
        },
    }
}

/// The mathematical value of the verdict of the front end.
pub open spec fn verdict_view(verdict: Result<(), CompilerError>) -> Result<(), CompilerErrorView> {
    match verdict {
        Ok(()) => Ok(()),
        Err(error) => Err(error@),
    }
}

/// Runs the front end on a source text.
pub fn run_compiler(source: &String) -> (r: Result<(), CompilerError>)
    ensures
        verdict_view(r) == compilation(source@),
{
    let tokens = match tokenize(source.as_str()) {
        None => {
            return Err(CompilerError::Splitter);
        },
        Some(Err(error)) => {
            return Err(CompilerError::Lexical(error));
        },
        Some(Ok(tokens)) => drop_trivia(tokens),
    };
    if !is_parsable_length(tokens.len()) {
        return Err(CompilerError::TooLong);
    }
    let ast = match parse_program(tokens.as_slice()) {
        Err(error) => {
            return Err(CompilerError::Syntax(error));
        },
        Ok(ast) => ast,
    };
    match ast.try_type_check() {
        None => Err(CompilerError::UnknownShape),
        Some(Err(error)) => Err(CompilerError::Semantic(error)),
        Some(Ok(())) => Ok(()),
    }
}

} // verus!
