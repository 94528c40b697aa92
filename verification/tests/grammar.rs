use glim::lexer::reserved::{Operator, ReservedWord, Separator};
use glim::lexer::tokens::{Bool, Literal, Token};
use glim::parser::enumeration::Enumeration;
use glim::parser::function::Function;
use glim::parser::grammar::{
    id, literal, typed, unary_op, DataType, NonTerminal, Parser, ParsingRule, Symbol, Terminal,
};
use glim::parser::language_grammar;
use glim::parser::program::Program;
use glim::parser::structure::Struct;

fn ident(name: &str) -> Token {
    Token::Identifier(name.to_string())
}

#[test]
fn an_exact_token_matches_by_its_tag() {
    let func = Terminal::Token(Token::ReservedWord(ReservedWord::Function));
    assert!(ParsingRule::matches_token(&func, &Token::ReservedWord(ReservedWord::Function)));
    assert!(!ParsingRule::matches_token(&func, &Token::ReservedWord(ReservedWord::Return)));
    assert!(!ParsingRule::matches_token(&func, &ident("func")));
    let comma = Terminal::Token(Token::Separator(Separator::Comma));
    assert!(ParsingRule::matches_token(&comma, &Token::Separator(Separator::Comma)));
    assert!(!ParsingRule::matches_token(&comma, &Token::Separator(Separator::Dot)));
    let assign = Terminal::Token(Token::Operator(Operator::Assignment));
    assert!(ParsingRule::matches_token(&assign, &Token::Operator(Operator::Assignment)));
    assert!(!ParsingRule::matches_token(&assign, &Token::Operator(Operator::Equality)));
    let comment = Terminal::Token(Token::Comment("a".to_string()));
    assert!(!ParsingRule::matches_token(&comment, &Token::Comment("a".to_string())));
}

#[test]
fn identifiers_and_literals_match_whatever_they_carry() {
    assert!(ParsingRule::matches_token(&id(), &ident("anything")));
    assert!(!ParsingRule::matches_token(&id(), &Token::Literal(Literal::Int(1))));
    assert!(ParsingRule::matches_token(&literal(), &Token::Literal(Literal::Bool(Bool::True))));
    assert!(ParsingRule::matches_token(
        &literal(),
        &Token::Literal(Literal::Float("1.5".to_string()))
    ));
    assert!(!ParsingRule::matches_token(&literal(), &ident("x")));
}

#[test]
fn a_type_is_a_type_keyword_or_an_identifier() {
    for word in [
        ReservedWord::Int,
        ReservedWord::Long,
        ReservedWord::Float,
        ReservedWord::Double,
        ReservedWord::Void,
        ReservedWord::Str,
        ReservedWord::Char,
        ReservedWord::Bool,
    ] {
        assert!(ParsingRule::is_data_type(&Token::ReservedWord(word)));
        assert!(ParsingRule::matches_token(&typed(), &Token::ReservedWord(word)));
        assert!(DataType::try_from(word).is_ok());
    }
    for word in [ReservedWord::Let, ReservedWord::Function, ReservedWord::Struct] {
        assert!(!ParsingRule::is_data_type(&Token::ReservedWord(word)));
        assert_eq!(DataType::try_from(word), Err(()));
    }
    assert!(ParsingRule::is_data_type(&ident("Color")));
    assert!(!ParsingRule::is_data_type(&Token::Literal(Literal::Int(1))));
    assert!(!ParsingRule::is_data_type(&Token::Separator(Separator::Comma)));
    assert_eq!(DataType::try_from(ReservedWord::Str), Ok(DataType::Str));
    assert_eq!(DataType::try_from(ReservedWord::Long), Ok(DataType::Long));
}

#[test]
fn the_operator_classes_accept_their_operators() {
    let combining = [
        Operator::GreaterThanOrEqual,
        Operator::LessThanOrEqual,
        Operator::Equality,
        Operator::Inequality,
        Operator::Negation,
        Operator::Sum,
        Operator::Subtraction,
        Operator::Multiplication,
        Operator::Division,
        Operator::GreaterThan,
        Operator::LessThan,
    ];
    let storing = [Operator::Assignment, Operator::Increment, Operator::Decrement];
    for sign in combining {
        assert!(ParsingRule::matches_token(&unary_op(), &Token::Operator(sign)));
        assert!(!ParsingRule::matches_token(&Terminal::ReassignOp, &Token::Operator(sign)));
    }
    for sign in storing {
        assert!(!ParsingRule::matches_token(&unary_op(), &Token::Operator(sign)));
        assert!(ParsingRule::matches_token(&Terminal::ReassignOp, &Token::Operator(sign)));
    }
    assert!(!ParsingRule::matches_token(&unary_op(), &ident("x")));
    assert!(!ParsingRule::matches_token(&Terminal::ReassignOp, &ident("x")));
}

#[test]
fn any_matches_everything_and_epsilon_nothing() {
    for token in [
        ident("x"),
        Token::Literal(Literal::Int(0)),
        Token::Separator(Separator::NewLine),
        Token::Comment(String::new()),
    ] {
        assert!(ParsingRule::matches_token(&Terminal::Any, &token));
        assert!(!ParsingRule::matches_token(&Terminal::Epsilon, &token));
    }
}

#[test]
fn the_first_rule_that_applies_is_found() {
    let table = vec![
        ParsingRule::new(NonTerminal::Expr, id()).with(Symbol::Terminal(id())),
        ParsingRule::new(NonTerminal::Program, Terminal::Any)
            .with(Symbol::NonTerminal(NonTerminal::Func)),
        ParsingRule::new(NonTerminal::Program, id()).with(Symbol::NonTerminal(NonTerminal::Enum)),
        ParsingRule::new(NonTerminal::Program, Terminal::Epsilon)
            .with(Symbol::Terminal(Terminal::Epsilon)),
    ];
    let found = ParsingRule::find_rule(&table, &NonTerminal::Program, &ident("x")).unwrap();
    assert_eq!(found, &table[1]);
    let found = ParsingRule::find_rule(&table, &NonTerminal::Expr, &ident("x")).unwrap();
    assert_eq!(found, &table[0]);
    assert!(ParsingRule::find_rule(&table, &NonTerminal::Func, &ident("x")).is_none());
    assert!(ParsingRule::find_rule(
        &table,
        &NonTerminal::Expr,
        &Token::Separator(Separator::Comma)
    )
    .is_none());
    assert!(ParsingRule::find_rule(&[], &NonTerminal::Program, &ident("x")).is_none());
}

#[test]
fn the_empty_mark_stands_alone() {
    let epsilon = || Symbol::Terminal(Terminal::Epsilon);
    let rule = |production: Vec<Symbol>| ParsingRule {
        non_terminal: NonTerminal::Program,
        token: Terminal::Any,
        production,
    };
    assert!(rule(vec![epsilon()]).is_well_formed());
    assert!(rule(vec![]).is_well_formed());
    assert!(rule(vec![Symbol::NonTerminal(NonTerminal::Func)]).is_well_formed());
    assert!(!rule(vec![Symbol::NonTerminal(NonTerminal::Func), epsilon()]).is_well_formed());
    assert!(!rule(vec![epsilon(), epsilon()]).is_well_formed());
    for rule in language_grammar() {
        assert!(rule.is_well_formed());
    }
}

#[test]
fn the_grammar_is_the_sub_tables_in_their_order() {
    let mut expected = Program::parsing_table();
    expected.extend(Function::parsing_table());
    expected.extend(Enumeration::parsing_table());
    expected.extend(Struct::parsing_table());
    assert_eq!(language_grammar(), expected);
    assert_eq!(Program::parsing_table().len(), 4);
    assert_eq!(Function::parsing_table().len(), 48);
    assert_eq!(Enumeration::parsing_table().len(), 4);
    assert_eq!(Struct::parsing_table().len(), 4);
    assert_eq!(
        Program::parsing_table()[3],
        ParsingRule {
            non_terminal: NonTerminal::Program,
            token: Terminal::Token(Token::Separator(Separator::CloseCurlyBraces)),
            production: vec![Symbol::Terminal(Terminal::Epsilon)],
        }
    );
    assert_eq!(
        Function::parsing_table()[46],
        ParsingRule {
            non_terminal: NonTerminal::StmntDecl,
            token: Terminal::Token(Token::ReservedWord(ReservedWord::Constant)),
            production: vec![
                Symbol::Terminal(Terminal::Token(Token::ReservedWord(ReservedWord::Constant))),
                Symbol::Terminal(Terminal::DataType(DataType::Int)),
                Symbol::Terminal(Terminal::Token(Token::Identifier(String::new()))),
                Symbol::Terminal(Terminal::Token(Token::Operator(Operator::Assignment))),
                Symbol::NonTerminal(NonTerminal::Expr),
            ],
        }
    );
}

#[test]
fn a_literal_has_the_type_of_its_kind() {
    assert_eq!(DataType::from(Literal::Int(1)), DataType::Int);
    assert_eq!(DataType::from(Literal::Long(1)), DataType::Long);
    assert_eq!(DataType::from(Literal::Float("1.0".to_string())), DataType::Float);
    assert_eq!(DataType::from(Literal::Double("1.0".to_string())), DataType::Double);
    assert_eq!(DataType::from(Literal::Bool(Bool::False)), DataType::Bool);
    assert_eq!(DataType::of_literal(&Literal::Int(7)), DataType::Int);
    assert_eq!(DataType::Int.to_string(), "Int");
    assert_eq!(DataType::Str.to_string(), "Str");
    assert_eq!(DataType::Identifier("Color".to_string()).to_string(), "Color");
    assert!(DataType::Identifier("a".to_string()) == DataType::Identifier("a".to_string()));
    assert!(DataType::Identifier("a".to_string()) != DataType::Identifier("b".to_string()));
    assert!(DataType::Identifier("Int".to_string()) != DataType::Int);
}
