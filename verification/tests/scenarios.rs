use glim::lexer::reserved::{Operator, ReservedWord, Separator};
use glim::lexer::tokens::{Literal, Str, Token};
use glim::parser::derivation::{SyntaxError, AST};
use glim::parser::grammar::{
    DataType, Grammar, NonTerminal, Parser, ParsingRule, Symbol, Terminal,
};
use glim::parser::function::Function;
use glim::parser::language_grammar;
use glim::parser::program::Program;
use glim::semantics::semantic_errors::SemanticError;
use glim::semantics::types::{IdentifierTypeCell, TypeCell};

fn kw(word: ReservedWord) -> Token {
    Token::ReservedWord(word)
}

fn sep(mark: Separator) -> Token {
    Token::Separator(mark)
}

fn ident(name: &str) -> Token {
    Token::Identifier(name.to_string())
}

fn string_literal(content: &str) -> Token {
    Token::Literal(Literal::Str(Str {
        open_quote: Separator::StringQuotation,
        content: content.to_string(),
        close_quote: Separator::StringQuotation,
    }))
}

/// `func int <name>() { <body> }`
fn function(name: &str, body: Vec<Token>) -> Vec<Token> {
    let mut tokens = vec![
        kw(ReservedWord::Function),
        kw(ReservedWord::Int),
        ident(name),
        sep(Separator::OpenParenthesis),
        sep(Separator::CloseParenthesis),
        sep(Separator::OpenCurlyBraces),
    ];
    tokens.extend(body);
    tokens.push(sep(Separator::CloseCurlyBraces));
    tokens
}

/// `let <type> <name> = <value>;`
fn declaration(data_type: Token, name: &str, value: Token) -> Vec<Token> {
    vec![
        kw(ReservedWord::Let),
        data_type,
        ident(name),
        Token::Operator(Operator::Assignment),
        value,
        sep(Separator::Terminator),
    ]
}

fn parse(tokens: &[Token]) -> Result<AST, SyntaxError> {
    ParsingRule::parse_with_table(tokens, &language_grammar())
}

#[test]
fn a_declaration_with_a_literal_of_its_type_passes() {
    let tokens = function(
        "f",
        declaration(kw(ReservedWord::Int), "x", Token::Literal(Literal::Int(5))),
    );
    let ast = parse(&tokens).unwrap();
    let tags: Vec<NonTerminal> = ast.as_vec().iter().map(|entry| entry.0).collect();
    assert_eq!(
        tags,
        vec![
            NonTerminal::Program,
            NonTerminal::Func,
            NonTerminal::FuncArgument,
            NonTerminal::FuncBody,
            NonTerminal::StmntList,
            NonTerminal::Statement,
            NonTerminal::StmntDecl,
            NonTerminal::Expr,
            NonTerminal::ExprOperand,
            NonTerminal::ExprOperation,
            NonTerminal::StmntList,
        ]
    );
    assert_eq!(
        ast.as_vec()[6].1,
        vec![
            Symbol::Terminal(Terminal::Token(kw(ReservedWord::Let))),
            Symbol::Terminal(Terminal::DataType(DataType::Int)),
            Symbol::Terminal(Terminal::Token(ident("x"))),
            Symbol::Terminal(Terminal::Token(Token::Operator(Operator::Assignment))),
            Symbol::NonTerminal(NonTerminal::Expr),
        ]
    );
    assert_eq!(
        ast.as_vec()[8].1,
        vec![Symbol::Terminal(Terminal::Token(Token::Literal(Literal::Int(5))))]
    );
    let table = ast.build_type_table().unwrap();
    assert_eq!(
        table,
        vec![TypeCell { identifier: "x".to_string(), data_type: DataType::Int, mutable: true }]
    );
    let registry = ast.get_valid_identifiers_as_types().unwrap();
    assert!(registry.is_empty());
    assert_eq!(ast.validate_identifiers_as_types_usage(&table, &registry), Ok(()));
    assert_eq!(ast.validate_declaration_expression(&table, &registry), Ok(()));
    assert_eq!(ast.type_check(), Ok(()));
}

#[test]
fn a_string_for_an_int_is_incompatible() {
    let tokens = function("main", declaration(kw(ReservedWord::Int), "p", string_literal("any")));
    let ast = parse(&tokens).unwrap();
    let table = ast.build_type_table().unwrap();
    let registry = ast.get_valid_identifiers_as_types().unwrap();
    assert_eq!(ast.validate_identifiers_as_types_usage(&table, &registry), Ok(()));
    let expected = SemanticError::IncompatibleTypes(
        TypeCell { identifier: "p".to_string(), data_type: DataType::Int, mutable: true },
        TypeCell { identifier: String::new(), data_type: DataType::Str, mutable: false },
    );
    assert_eq!(
        ast.validate_declaration_expression(&table, &registry),
        Err(Box::new(expected))
    );
}

fn color_enumeration() -> Vec<Token> {
    vec![
        kw(ReservedWord::Enum),
        ident("Color"),
        sep(Separator::OpenCurlyBraces),
        ident("Red"),
        sep(Separator::Comma),
        ident("Green"),
        sep(Separator::CloseCurlyBraces),
    ]
}

#[test]
fn a_name_that_is_no_variant_is_not_declared() {
    let mut tokens = color_enumeration();
    tokens.extend(function("main", declaration(ident("Color"), "c", ident("Blue"))));
    let ast = parse(&tokens).unwrap();
    let table = ast.build_type_table().unwrap();
    assert_eq!(
        table,
        vec![TypeCell {
            identifier: "c".to_string(),
            data_type: DataType::Identifier("Color".to_string()),
            mutable: true,
        }]
    );
    let registry = ast.get_valid_identifiers_as_types().unwrap();
    assert_eq!(
        registry,
        vec![IdentifierTypeCell::EnumType {
            identifier: "Color".to_string(),
            variants: vec!["Red".to_string(), "Green".to_string()],
        }]
    );
    assert_eq!(ast.validate_identifiers_as_types_usage(&table, &registry), Ok(()));
    let expected = SemanticError::VariantNotDeclared(
        TypeCell {
            identifier: "c".to_string(),
            data_type: DataType::Identifier("Color".to_string()),
            mutable: true,
        },
        "Blue".to_string(),
        IdentifierTypeCell::EnumType {
            identifier: "Color".to_string(),
            variants: vec!["Red".to_string(), "Green".to_string()],
        },
    );
    assert_eq!(ast.type_check(), Err(Box::new(expected)));
}

#[test]
fn a_declared_variant_passes() {
    let mut tokens = color_enumeration();
    tokens.extend(function("main", declaration(ident("Color"), "c", ident("Green"))));
    let ast = parse(&tokens).unwrap();
    assert_eq!(ast.type_check(), Ok(()));
}

#[test]
fn a_type_that_nothing_declares_is_undeclared() {
    let tokens = function("main", declaration(ident("Foo"), "v", ident("w")));
    let ast = parse(&tokens).unwrap();
    let table = ast.build_type_table().unwrap();
    let registry = ast.get_valid_identifiers_as_types().unwrap();
    assert_eq!(
        ast.validate_identifiers_as_types_usage(&table, &registry),
        Err(Box::new(SemanticError::UndeclaredType("Foo".to_string())))
    );
    assert_eq!(
        ast.type_check(),
        Err(Box::new(SemanticError::UndeclaredType("Foo".to_string())))
    );
}

#[test]
fn an_empty_body_without_a_rule_for_it_is_no_rule() {
    let mut table: Grammar = Program::parsing_table();
    for rule in Function::parsing_table() {
        if rule.non_terminal != NonTerminal::FuncBody {
            table.push(rule);
        }
    }
    table.push(ParsingRule {
        non_terminal: NonTerminal::FuncBody,
        token: Terminal::Token(kw(ReservedWord::Let)),
        production: vec![Symbol::NonTerminal(NonTerminal::StmntList)],
    });
    let tokens = function("f", vec![]);
    assert_eq!(
        ParsingRule::parse_with_table(&tokens, &table),
        Err(SyntaxError::NoRule(
            NonTerminal::FuncBody,
            sep(Separator::CloseCurlyBraces),
            6
        ))
    );
    assert!(parse(&tokens).is_ok());
}
