use glim::lexer::reserved::{Operator, ReservedWord, Separator};
use glim::lexer::tokens::{Literal, Token};
use glim::parser::derivation::{
    update_production_with_token_value, update_symbols_in_production, ParserState, SyntaxError,
    AST,
};
use glim::parser::grammar::{
    id, literal, typed, unary_op, DataType, NonTerminal, ParsingRule, Symbol, Terminal,
};
use glim::parser::language::{is_parsable_length, parse_program};
use glim::parser::language_grammar;

fn kw(word: ReservedWord) -> Token {
    Token::ReservedWord(word)
}

fn sep(mark: Separator) -> Token {
    Token::Separator(mark)
}

fn ident(name: &str) -> Token {
    Token::Identifier(name.to_string())
}

fn epsilon() -> Symbol {
    Symbol::Terminal(Terminal::Epsilon)
}

fn slots() -> Vec<Symbol> {
    vec![
        Symbol::Terminal(typed()),
        Symbol::Terminal(id()),
        Symbol::Terminal(literal()),
        Symbol::Terminal(unary_op()),
        Symbol::Terminal(Terminal::ReassignOp),
        Symbol::Terminal(Terminal::Token(sep(Separator::Comma))),
        Symbol::NonTerminal(NonTerminal::Expr),
        Symbol::Terminal(id()),
    ]
}

#[test]
fn an_identifier_fills_the_type_slots_where_a_type_is_expected() {
    let mut production = slots();
    update_symbols_in_production(&mut production, &ident("Color"), &typed());
    let mut expected = slots();
    expected[0] = Symbol::Terminal(Terminal::DataType(DataType::Identifier("Color".to_string())));
    assert_eq!(production, expected);
}

#[test]
fn an_identifier_fills_every_identifier_slot_otherwise() {
    let mut production = slots();
    update_symbols_in_production(&mut production, &ident("x"), &id());
    let mut expected = slots();
    expected[1] = Symbol::Terminal(Terminal::Token(ident("x")));
    expected[7] = Symbol::Terminal(Terminal::Token(ident("x")));
    assert_eq!(production, expected);
    let mut production = slots();
    update_symbols_in_production(
        &mut production,
        &ident("x"),
        &Terminal::Token(sep(Separator::Comma)),
    );
    assert_eq!(production, expected);
}

#[test]
fn literals_keywords_and_operators_fill_their_slots() {
    let mut production = slots();
    update_symbols_in_production(&mut production, &Token::Literal(Literal::Long(9)), &literal());
    let mut expected = slots();
    expected[2] = Symbol::Terminal(Terminal::Token(Token::Literal(Literal::Long(9))));
    assert_eq!(production, expected);

    let mut production = slots();
    update_symbols_in_production(&mut production, &kw(ReservedWord::Str), &typed());
    let mut expected = slots();
    expected[0] = Symbol::Terminal(Terminal::DataType(DataType::Str));
    assert_eq!(production, expected);

    let mut production = slots();
    update_symbols_in_production(&mut production, &Token::Operator(Operator::Sum), &unary_op());
    let mut expected = slots();
    expected[3] = Symbol::Terminal(Terminal::UnaryOperator(Operator::Sum));
    assert_eq!(production, expected);
}

#[test]
fn what_carries_nothing_fills_nothing() {
    for (token, expected) in [
        (kw(ReservedWord::Let), typed()),
        (sep(Separator::Comma), Terminal::Token(sep(Separator::Comma))),
        (Token::Operator(Operator::Sum), Terminal::Token(Token::Operator(Operator::Sum))),
        (Token::Operator(Operator::Increment), Terminal::ReassignOp),
        (Token::Comment("c".to_string()), Terminal::Any),
    ] {
        let mut production = slots();
        update_symbols_in_production(&mut production, &token, &expected);
        assert_eq!(production, slots());
    }
}

#[test]
fn only_the_most_recent_entry_is_resolved() {
    let mut trace = vec![
        (NonTerminal::StmntDecl, vec![Symbol::Terminal(id())]),
        (NonTerminal::ExprOperand, vec![Symbol::Terminal(id())]),
    ];
    update_production_with_token_value(&ident("y"), &id(), &mut trace);
    assert_eq!(
        trace,
        vec![
            (NonTerminal::StmntDecl, vec![Symbol::Terminal(id())]),
            (NonTerminal::ExprOperand, vec![Symbol::Terminal(Terminal::Token(ident("y")))]),
        ]
    );
    let mut empty: Vec<(NonTerminal, Vec<Symbol>)> = vec![];
    update_production_with_token_value(&ident("y"), &id(), &mut empty);
    assert!(empty.is_empty());
}

#[test]
fn no_input_gives_an_empty_trace() {
    assert_eq!(ParsingRule::parse_with_table(&[], &language_grammar()), Ok(AST(vec![])));
    assert_eq!(ParsingRule::parse_with_table(&[], &[]), Ok(AST(vec![])));
    assert_eq!(ParsingRule::parse_with_budget(&[], &[], 1), Some(Ok(AST(vec![]))));
    assert_eq!(ParsingRule::parse_with_budget(&[], &[], 0), None);
}

#[test]
fn an_empty_production_is_recorded_and_leaves_the_input_alone() {
    let tokens = [sep(Separator::CloseCurlyBraces), ident("rest")];
    assert_eq!(
        ParsingRule::parse_with_table(&tokens, &language_grammar()),
        Ok(AST(vec![(NonTerminal::Program, vec![epsilon()])]))
    );
    let mut state = ParserState::new();
    assert_eq!(state.step(&tokens, &language_grammar()), Ok(()));
    assert_eq!(
        state,
        ParserState {
            stack: vec![],
            cursor: 0,
            trace: vec![(NonTerminal::Program, vec![epsilon()])],
        }
    );
    assert!(state.is_done());
    assert_eq!(state.finish(&tokens), Ok(AST(vec![(NonTerminal::Program, vec![epsilon()])])));
}

#[test]
fn input_behind_the_program_is_not_an_error() {
    let table = vec![ParsingRule::new(NonTerminal::Program, id()).with(Symbol::Terminal(id()))];
    let tokens = [ident("a"), ident("b"), ident("c")];
    assert_eq!(
        ParsingRule::parse_with_table(&tokens, &table),
        Ok(AST(vec![(NonTerminal::Program, vec![Symbol::Terminal(Terminal::Token(ident("a")))])]))
    );
}

#[test]
fn a_cursor_beyond_the_input_is_an_error() {
    let table = vec![ParsingRule::new(NonTerminal::Program, Terminal::Any)
        .with(Symbol::Terminal(Terminal::Any))
        .with(Symbol::Terminal(Terminal::Any))];
    assert_eq!(
        ParsingRule::parse_with_table(&[ident("a")], &table),
        Err(SyntaxError::UnconsumedInput(2))
    );
    assert!(ParsingRule::parse_with_table(&[ident("a"), ident("b")], &table).is_ok());
}

#[test]
fn the_end_of_the_input_reads_as_a_line_feed() {
    let table = vec![ParsingRule::new(NonTerminal::Program, id())
        .with(Symbol::Terminal(id()))
        .with(Symbol::Terminal(Terminal::Token(sep(Separator::Terminator))))];
    assert_eq!(
        ParsingRule::parse_with_table(&[ident("a")], &table),
        Err(SyntaxError::UnexpectedToken(
            Terminal::Token(sep(Separator::Terminator)),
            sep(Separator::NewLine),
            1
        ))
    );
    let table = vec![ParsingRule::new(NonTerminal::Program, id())
        .with(Symbol::Terminal(id()))
        .with(Symbol::Terminal(Terminal::Token(sep(Separator::NewLine))))];
    assert_eq!(
        ParsingRule::parse_with_table(&[ident("a")], &table),
        Err(SyntaxError::UnconsumedInput(2))
    );
}

#[test]
fn a_token_that_the_stack_does_not_expect_is_unexpected() {
    let tokens = [kw(ReservedWord::Function), kw(ReservedWord::Int), sep(Separator::Comma)];
    assert_eq!(
        ParsingRule::parse_with_table(&tokens, &language_grammar()),
        Err(SyntaxError::UnexpectedToken(id(), sep(Separator::Comma), 2))
    );
    assert_eq!(
        ParsingRule::parse_with_table(&[ident("x")], &language_grammar()),
        Err(SyntaxError::NoRule(NonTerminal::Program, ident("x"), 0))
    );
}

#[test]
fn a_grammar_that_expands_into_itself_runs_out_of_budget() {
    let table = vec![ParsingRule::new(NonTerminal::Program, Terminal::Any)
        .with(Symbol::NonTerminal(NonTerminal::Program))];
    assert_eq!(ParsingRule::parse_with_budget(&[ident("a")], &table, 1000), None);
    assert_eq!(ParsingRule::parse_with_budget(&[ident("a")], &table, 0), None);
}

#[test]
fn the_budget_counts_steps() {
    let tokens = [sep(Separator::CloseCurlyBraces)];
    let table = language_grammar();
    assert_eq!(ParsingRule::parse_with_budget(&tokens, &table, 0), None);
    assert!(ParsingRule::parse_with_budget(&tokens, &table, 1).is_some());
    let tokens = [
        kw(ReservedWord::Enum),
        ident("E"),
        sep(Separator::OpenCurlyBraces),
        sep(Separator::CloseCurlyBraces),
    ];
    // Program, Enum, four terminals and the body between them, Program.
    assert_eq!(ParsingRule::parse_with_budget(&tokens, &table, 7), None);
    assert_eq!(
        ParsingRule::parse_with_budget(&tokens, &table, 8),
        Some(ParsingRule::parse_with_table(&tokens, &table))
    );
}

#[test]
fn the_language_is_parsed_by_its_own_grammar() {
    let tokens = [
        kw(ReservedWord::Enum),
        ident("E"),
        sep(Separator::OpenCurlyBraces),
        ident("A"),
        sep(Separator::CloseCurlyBraces),
    ];
    assert!(is_parsable_length(tokens.len()));
    assert_eq!(
        parse_program(&tokens),
        ParsingRule::parse_with_table(&tokens, &language_grammar())
    );
    assert_eq!(
        ParsingRule::parse_with_budget(&tokens, &language_grammar(), 44 * tokens.len() + 1),
        Some(parse_program(&tokens))
    );
    assert!(is_parsable_length(0));
    assert!(is_parsable_length((usize::MAX - 1) / 44));
    assert!(!is_parsable_length((usize::MAX - 1) / 44 + 1));
    assert!(!is_parsable_length(usize::MAX));
}

#[test]
fn the_same_input_gives_the_same_outcome() {
    let table = language_grammar();
    let good = [
        kw(ReservedWord::Struct),
        ident("P"),
        sep(Separator::OpenCurlyBraces),
        kw(ReservedWord::Int),
        ident("x"),
        sep(Separator::CloseCurlyBraces),
    ];
    let bad = [kw(ReservedWord::Struct), sep(Separator::Comma)];
    for tokens in [&good[..], &bad[..]] {
        let first = ParsingRule::parse_with_table(tokens, &table);
        let second = ParsingRule::parse_with_table(tokens, &table);
        assert_eq!(first, second);
        assert_eq!(ParsingRule::parse_with_budget(tokens, &table, 100), Some(first));
    }
}

/// The end of the expansions of `symbols` that begin at `from`.
fn expansions_end(symbols: &[Symbol], trace: &[(NonTerminal, Vec<Symbol>)], from: usize) -> usize {
    let mut at = from;
    for symbol in symbols {
        if let Symbol::NonTerminal(non_terminal) = symbol {
            if at == trace.len() {
                return at;
            }
            assert_eq!(trace[at].0, *non_terminal);
            at = expansions_end(&trace[at].1, trace, at + 1);
        }
    }
    at
}

#[test]
fn the_trace_is_a_leftmost_derivation() {
    let tokens = [
        kw(ReservedWord::Function),
        kw(ReservedWord::Void),
        ident("f"),
        sep(Separator::OpenParenthesis),
        kw(ReservedWord::Int),
        ident("a"),
        sep(Separator::CloseParenthesis),
        sep(Separator::OpenCurlyBraces),
        kw(ReservedWord::If),
        sep(Separator::OpenParenthesis),
        ident("a"),
        Token::Operator(Operator::LessThan),
        Token::Literal(Literal::Int(3)),
        sep(Separator::CloseParenthesis),
        sep(Separator::OpenCurlyBraces),
        kw(ReservedWord::Return),
        ident("a"),
        sep(Separator::Terminator),
        sep(Separator::CloseCurlyBraces),
        sep(Separator::CloseCurlyBraces),
    ];
    let ast = ParsingRule::parse_with_table(&tokens, &language_grammar()).unwrap();
    let trace = ast.as_vec();
    let start = [Symbol::NonTerminal(NonTerminal::Program)];
    assert_eq!(expansions_end(&start, trace, 0), trace.len());
    assert_eq!(trace.len(), 24);
    assert_eq!(trace[0].0, NonTerminal::Program);
    assert_eq!(trace[1].0, NonTerminal::Func);
    assert_eq!(trace[2].0, NonTerminal::FuncArgument);
    assert_eq!(trace[3].0, NonTerminal::FuncArgument);
    assert_eq!(trace[4].0, NonTerminal::FuncBody);
    assert_eq!(
        trace[2].1,
        vec![
            Symbol::Terminal(Terminal::DataType(DataType::Int)),
            Symbol::Terminal(Terminal::Token(ident("a"))),
            Symbol::NonTerminal(NonTerminal::FuncArgument),
        ]
    );
}
