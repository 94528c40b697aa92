use glim::compiler::{run_compiler, CompilerError};
use glim::lexer::reserved::Separator;
use glim::lexer::tokens::Token;
use glim::parser::derivation::SyntaxError;
use glim::parser::grammar::{DataType, Terminal};
use glim::semantics::semantic_errors::SemanticError;
use glim::semantics::types::TypeCell;

#[test]
fn a_well_typed_program_compiles() {
    let source = "func int f() { let int x = 5; } ".to_string();
    assert_eq!(run_compiler(&source), Ok(()));
}

#[test]
fn a_function_without_a_type_is_no_function() {
    let source = "func main() { let int p = \"any\"; } ".to_string();
    assert_eq!(
        run_compiler(&source),
        Err(CompilerError::Syntax(SyntaxError::UnexpectedToken(
            Terminal::Token(Token::Identifier(String::new())),
            Token::Separator(Separator::OpenParenthesis),
            2
        )))
    );
}

#[test]
fn a_string_for_an_int_does_not_compile() {
    let source = "func int main() {\n let int p = \"any\";\n}\n".to_string();
    assert_eq!(
        run_compiler(&source),
        Err(CompilerError::Semantic(Box::new(SemanticError::IncompatibleTypes(
            TypeCell { identifier: "p".to_string(), data_type: DataType::Int, mutable: true },
            TypeCell { identifier: String::new(), data_type: DataType::Str, mutable: false },
        ))))
    );
}

#[test]
fn text_that_is_no_token_does_not_compile() {
    let source = "func int f() { let int 9x = 5; } ".to_string();
    assert_eq!(
        run_compiler(&source),
        Err(CompilerError::Lexical("Lexical error with: \"9x\" at line 1".to_string()))
    );
}

#[test]
fn a_call_in_an_initializer_is_of_no_known_shape() {
    let source = "func int f() { let int g = 1; let int x = g(1); } ".to_string();
    assert_eq!(run_compiler(&source), Err(CompilerError::UnknownShape));
    let source = "func int f() { let int x = g(1); } ".to_string();
    assert_eq!(
        run_compiler(&source),
        Err(CompilerError::Semantic(Box::new(SemanticError::UndeclaredIdentifier(
            "g".to_string()
        ))))
    );
}

#[test]
fn an_enumeration_and_a_struct_compile() {
    let source = "enumeration Color { Red, Green } struct Point { int x, int y } \
                  func int main() { let Color c = Red; const boolean b = true; } "
        .to_string();
    assert_eq!(run_compiler(&source), Ok(()));
}
