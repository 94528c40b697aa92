//! The rules of a function declaration, of the statements of its body and
//! of their expressions.

use crate::lexer::reserved::{Operator, ReservedWord, Separator};
use crate::parser::derivation::epsilon;
use crate::parser::grammar::{
    extend, grammar_well_formed, id, identifier_class, keyword, literal, literal_class,
    nonterminal, operator, operator_class, rule_view, separator, terminal, type_class, typed,
    unary_op, Grammar, NonTerminal, Parser, ParsingRule, ParsingRuleView, Symbol, Terminal,
    TerminalView,
};
use vstd::prelude::*;

verus! {

/// A function declaration.
#[derive(Clone, Copy, Debug, PartialEq, Eq)]
pub struct Function;

/// `<Func> :: func <DataType> id ( <FuncArgument> ) { <FuncBody> } <Program>`
pub open spec fn func_rules() -> Seq<ParsingRuleView> {
    seq![
        rule_view(
            NonTerminal::Func,
            keyword(ReservedWord::Function),
            seq![
                terminal(keyword(ReservedWord::Function)),
                terminal(type_class()),
                terminal(identifier_class()),
                terminal(separator(Separator::OpenParenthesis)),
                nonterminal(NonTerminal::FuncArgument),
                terminal(separator(Separator::CloseParenthesis)),
                terminal(separator(Separator::OpenCurlyBraces)),
                nonterminal(NonTerminal::FuncBody),
                terminal(separator(Separator::CloseCurlyBraces)),
                nonterminal(NonTerminal::Program),
            ],
        ),
    ]
}

/// `<FuncArgument> :: <DataType> id <FuncArgument> | , <DataType> id <FuncArgument> | ε`
pub open spec fn func_argument_rules() -> Seq<ParsingRuleView> {
    seq![
        rule_view(
            NonTerminal::FuncArgument,
            type_class(),
            seq![
                terminal(type_class()),
                terminal(identifier_class()),
                nonterminal(NonTerminal::FuncArgument),
            ],
        ),
        rule_view(
            NonTerminal::FuncArgument,
            separator(Separator::Comma),
            seq![
                terminal(separator(Separator::Comma)),
                terminal(type_class()),
                terminal(identifier_class()),
                nonterminal(NonTerminal::FuncArgument),
            ],
        ),
        rule_view(
            NonTerminal::FuncArgument,
            separator(Separator::CloseParenthesis),
            seq![epsilon()],
        ),
    ]
}

/// `<FuncBody> :: <StmntList> | ε`
pub open spec fn func_body_rules() -> Seq<ParsingRuleView> {
    seq![
        rule_view(
            NonTerminal::FuncBody,
            separator(Separator::CloseCurlyBraces),
            seq![epsilon()],
        ),
        rule_view(
            NonTerminal::FuncBody,
            TerminalView::Any,
            seq![nonterminal(NonTerminal::StmntList)],
        ),
    ]
}

/// `<StmntList> :: <Statement> <StmntList> | ε`
pub open spec fn stmnt_list_rules() -> Seq<ParsingRuleView> {
    seq![
        rule_view(
            NonTerminal::StmntList,
            separator(Separator::CloseCurlyBraces),
            seq![epsilon()],
        ),
        rule_view(
            NonTerminal::StmntList,
            TerminalView::Any,
            seq![nonterminal(NonTerminal::Statement), nonterminal(NonTerminal::StmntList)],
        ),
    ]
}

/// `<Statement> :: return <Expr> ; | if ( <Expr> ) { <StmntList> } <StmntElse> | match ( <Expr> ) { <StmntCase> } | for ( <StmntDecl> ; <Expr> ; <StmntAssign> ) { <StmntList> } | while ( <Expr> ) { <StmntList> } | <StmntDecl> ; | <StmntAssign> ;`
pub open spec fn statement_rules() -> Seq<ParsingRuleView> {
    seq![
        rule_view(
            NonTerminal::Statement,
            keyword(ReservedWord::Return),
            seq![
                terminal(keyword(ReservedWord::Return)),
                nonterminal(NonTerminal::Expr),
                terminal(separator(Separator::Terminator)),
            ],
        ),
        rule_view(
            NonTerminal::Statement,
            keyword(ReservedWord::If),
            seq![
                terminal(keyword(ReservedWord::If)),
                terminal(separator(Separator::OpenParenthesis)),
                nonterminal(NonTerminal::Expr),
                terminal(separator(Separator::CloseParenthesis)),
                terminal(separator(Separator::OpenCurlyBraces)),
                nonterminal(NonTerminal::StmntList),
                terminal(separator(Separator::CloseCurlyBraces)),
                nonterminal(NonTerminal::StmntElse),
            ],
        ),
        rule_view(
            NonTerminal::Statement,
            keyword(ReservedWord::Match),
            seq![
                terminal(keyword(ReservedWord::Match)),
                terminal(separator(Separator::OpenParenthesis)),
                nonterminal(NonTerminal::Expr),
                terminal(separator(Separator::CloseParenthesis)),
                terminal(separator(Separator::OpenCurlyBraces)),
                nonterminal(NonTerminal::StmntCase),
                terminal(separator(Separator::CloseCurlyBraces)),
            ],
        ),
        rule_view(
            NonTerminal::Statement,
            keyword(ReservedWord::For),
            seq![
                terminal(keyword(ReservedWord::For)),
                terminal(separator(Separator::OpenParenthesis)),
                nonterminal(NonTerminal::StmntDecl),
                terminal(separator(Separator::Terminator)),
                nonterminal(NonTerminal::Expr),
                terminal(separator(Separator::Terminator)),
                nonterminal(NonTerminal::StmntAssign),
                terminal(separator(Separator::CloseParenthesis)),
                terminal(separator(Separator::OpenCurlyBraces)),
                nonterminal(NonTerminal::StmntList),
                terminal(separator(Separator::CloseCurlyBraces)),
            ],
        ),
        rule_view(
            NonTerminal::Statement,
            keyword(ReservedWord::While),
            seq![
                terminal(keyword(ReservedWord::While)),
                terminal(separator(Separator::OpenParenthesis)),
                nonterminal(NonTerminal::Expr),
                terminal(separator(Separator::CloseParenthesis)),
                terminal(separator(Separator::OpenCurlyBraces)),
                nonterminal(NonTerminal::StmntList),
                terminal(separator(Separator::CloseCurlyBraces)),
            ],
        ),
        rule_view(
            NonTerminal::Statement,
            keyword(ReservedWord::Let),
            seq![nonterminal(NonTerminal::StmntDecl), terminal(separator(Separator::Terminator))],
        ),
        rule_view(
            NonTerminal::Statement,
            keyword(ReservedWord::Constant),
            seq![nonterminal(NonTerminal::StmntDecl), terminal(separator(Separator::Terminator))],
        ),
        rule_view(
            NonTerminal::Statement,
            identifier_class(),
            seq![nonterminal(NonTerminal::StmntAssign), terminal(separator(Separator::Terminator))],
        ),
    ]
}

/// `<StmntCase> :: case literal { <StmntList> } <StmntCase> | default { <StmntList> } | ε`
pub open spec fn stmnt_case_rules() -> Seq<ParsingRuleView> {
    seq![
        rule_view(
            NonTerminal::StmntCase,
            keyword(ReservedWord::Case),
            seq![
                terminal(keyword(ReservedWord::Case)),
                terminal(literal_class()),
                terminal(separator(Separator::OpenCurlyBraces)),
                nonterminal(NonTerminal::StmntList),
                terminal(separator(Separator::CloseCurlyBraces)),
                nonterminal(NonTerminal::StmntCase),
            ],
        ),
        rule_view(
            NonTerminal::StmntCase,
            keyword(ReservedWord::Default),
            seq![
                terminal(keyword(ReservedWord::Default)),
                terminal(separator(Separator::OpenCurlyBraces)),
                nonterminal(NonTerminal::StmntList),
                terminal(separator(Separator::CloseCurlyBraces)),
            ],
        ),
        rule_view(
            NonTerminal::StmntCase,
            TerminalView::Any,
            seq![epsilon()],
        ),
    ]
}

/// `<Expr> :: <ExprOperand> <ExprOperation>`
pub open spec fn expr_rules() -> Seq<ParsingRuleView> {
    seq![
        rule_view(
            NonTerminal::Expr,
            TerminalView::Any,
            seq![nonterminal(NonTerminal::ExprOperand), nonterminal(NonTerminal::ExprOperation)],
        ),
    ]
}

/// `<ExprOperand> :: id <ExprCall> | literal`
pub open spec fn expr_operand_rules() -> Seq<ParsingRuleView> {
    seq![
        rule_view(
            NonTerminal::ExprOperand,
            identifier_class(),
            seq![terminal(identifier_class()), nonterminal(NonTerminal::ExprCall)],
        ),
        rule_view(
            NonTerminal::ExprOperand,
            literal_class(),
            seq![terminal(literal_class())],
        ),
    ]
}

/// `<ExprCall> :: <ExprFuncCall> <ExprCall> | <ExprArrayAccess> <ExprCall> | <ExprFieldAccess> <ExprCall> | id <ExprCall> | ε`
pub open spec fn expr_call_rules() -> Seq<ParsingRuleView> {
    seq![
        rule_view(
            NonTerminal::ExprCall,
            separator(Separator::OpenParenthesis),
            seq![nonterminal(NonTerminal::ExprFuncCall), nonterminal(NonTerminal::ExprCall)],
        ),
        rule_view(
            NonTerminal::ExprCall,
            separator(Separator::OpenBrackets),
            seq![nonterminal(NonTerminal::ExprArrayAccess), nonterminal(NonTerminal::ExprCall)],
        ),
        rule_view(
            NonTerminal::ExprCall,
            separator(Separator::Dot),
            seq![nonterminal(NonTerminal::ExprFieldAccess), nonterminal(NonTerminal::ExprCall)],
        ),
        rule_view(
            NonTerminal::ExprCall,
            identifier_class(),
            seq![terminal(identifier_class()), nonterminal(NonTerminal::ExprCall)],
        ),
        rule_view(
            NonTerminal::ExprCall,
            TerminalView::Any,
            seq![epsilon()],
        ),
    ]
}

/// `<ExprArrayAccess> :: [ <Expr> ] | ε`
pub open spec fn expr_array_access_rules() -> Seq<ParsingRuleView> {
    seq![
        rule_view(
            NonTerminal::ExprArrayAccess,
            separator(Separator::OpenBrackets),
            seq![
                terminal(separator(Separator::OpenBrackets)),
                nonterminal(NonTerminal::Expr),
                terminal(separator(Separator::CloseBrackets)),
            ],
        ),
        rule_view(
            NonTerminal::ExprArrayAccess,
            TerminalView::Any,
            seq![epsilon()],
        ),
    ]
}

/// `<ExprFieldAccess> :: .`
pub open spec fn expr_field_access_rules() -> Seq<ParsingRuleView> {
    seq![
        rule_view(
            NonTerminal::ExprFieldAccess,
            separator(Separator::Dot),
            seq![terminal(separator(Separator::Dot))],
        ),
    ]
}

/// `<ExprFuncCall> :: ( <ExprFuncCallArgs> ) | ε`
pub open spec fn expr_func_call_rules() -> Seq<ParsingRuleView> {
    seq![
        rule_view(
            NonTerminal::ExprFuncCall,
            separator(Separator::OpenParenthesis),
            seq![
                terminal(separator(Separator::OpenParenthesis)),
                nonterminal(NonTerminal::ExprFuncCallArgs),
                terminal(separator(Separator::CloseParenthesis)),
            ],
        ),
        rule_view(
            NonTerminal::ExprFuncCall,
            separator(Separator::CloseParenthesis),
            seq![epsilon()],
        ),
    ]
}

/// `<ExprFuncCallArgs> :: <Expr> <ExprFuncCallArgs> | , <Expr> <ExprFuncCallArgs> | ε`
pub open spec fn expr_func_call_args_rules() -> Seq<ParsingRuleView> {
    seq![
        rule_view(
            NonTerminal::ExprFuncCallArgs,
            identifier_class(),
            seq![nonterminal(NonTerminal::Expr), nonterminal(NonTerminal::ExprFuncCallArgs)],
        ),
        rule_view(
            NonTerminal::ExprFuncCallArgs,
            literal_class(),
            seq![nonterminal(NonTerminal::Expr), nonterminal(NonTerminal::ExprFuncCallArgs)],
        ),
        rule_view(
            NonTerminal::ExprFuncCallArgs,
            separator(Separator::Comma),
            seq![
                terminal(separator(Separator::Comma)),
                nonterminal(NonTerminal::Expr),
                nonterminal(NonTerminal::ExprFuncCallArgs),
            ],
        ),
        rule_view(
            NonTerminal::ExprFuncCallArgs,
            separator(Separator::CloseParenthesis),
            seq![epsilon()],
        ),
    ]
}

/// `<ExprOperation> :: <UnaryOperator> <Expr> <ExprOperation> | ε`
pub open spec fn expr_operation_rules() -> Seq<ParsingRuleView> {
    seq![
        rule_view(
            NonTerminal::ExprOperation,
            operator_class(),
            seq![
                terminal(operator_class()),
                nonterminal(NonTerminal::Expr),
                nonterminal(NonTerminal::ExprOperation),
            ],
        ),
        rule_view(
            NonTerminal::ExprOperation,
            separator(Separator::Terminator),
            seq![epsilon()],
        ),
        rule_view(
            NonTerminal::ExprOperation,
            separator(Separator::CloseCurlyBraces),
            seq![epsilon()],
        ),
        rule_view(
            NonTerminal::ExprOperation,
            separator(Separator::CloseParenthesis),
            seq![epsilon()],
        ),
        rule_view(
            NonTerminal::ExprOperation,
            separator(Separator::CloseBrackets),
            seq![epsilon()],
        ),
        rule_view(
            NonTerminal::ExprOperation,
            separator(Separator::Comma),
            seq![epsilon()],
        ),
    ]
}

/// `<StmntElse> :: elif ( <Expr> ) { <StmntList> } <StmntElse> | else { <StmntList> } | ε`
pub open spec fn stmnt_else_rules() -> Seq<ParsingRuleView> {
    seq![
        rule_view(
            NonTerminal::StmntElse,
            keyword(ReservedWord::Elif),
            seq![
                terminal(keyword(ReservedWord::Elif)),
                terminal(separator(Separator::OpenParenthesis)),
                nonterminal(NonTerminal::Expr),
                terminal(separator(Separator::CloseParenthesis)),
                terminal(separator(Separator::OpenCurlyBraces)),
                nonterminal(NonTerminal::StmntList),
                terminal(separator(Separator::CloseCurlyBraces)),
                nonterminal(NonTerminal::StmntElse),
            ],
        ),
        rule_view(
            NonTerminal::StmntElse,
            keyword(ReservedWord::Else),
            seq![
                terminal(keyword(ReservedWord::Else)),
                terminal(separator(Separator::OpenCurlyBraces)),
                nonterminal(NonTerminal::StmntList),
                terminal(separator(Separator::CloseCurlyBraces)),
            ],
        ),
        rule_view(
            NonTerminal::StmntElse,
            TerminalView::Any,
            seq![epsilon()],
        ),
    ]
}

/// `<StmntDecl> :: let <DataType> id = <Expr> | const <DataType> id = <Expr>`
pub open spec fn stmnt_decl_rules() -> Seq<ParsingRuleView> {
    seq![
        rule_view(
            NonTerminal::StmntDecl,
            keyword(ReservedWord::Let),
            seq![
                terminal(keyword(ReservedWord::Let)),
                terminal(type_class()),
                terminal(identifier_class()),
                terminal(operator(Operator::Assignment)),
                nonterminal(NonTerminal::Expr),
            ],
        ),
        rule_view(
            NonTerminal::StmntDecl,
            keyword(ReservedWord::Constant),
            seq![
                terminal(keyword(ReservedWord::Constant)),
                terminal(type_class()),
                terminal(identifier_class()),
                terminal(operator(Operator::Assignment)),
                nonterminal(NonTerminal::Expr),
            ],
        ),
    ]
}

/// `<StmntAssign> :: id <ExprCall> <ReassignOp> <Expr>`
pub open spec fn stmnt_assign_rules() -> Seq<ParsingRuleView> {
    seq![
        rule_view(
            NonTerminal::StmntAssign,
            identifier_class(),
            seq![
                terminal(identifier_class()),
                nonterminal(NonTerminal::ExprCall),
                terminal(TerminalView::ReassignOp),
                nonterminal(NonTerminal::Expr),
            ],
        ),
    ]
}

impl Function {
    /// `<Func> :: func <DataType> id ( <FuncArgument> ) { <FuncBody> } <Program>`
    fn func_rules() -> (table: Grammar)
        ensures
            table.deep_view() == func_rules(),
    {
        let table = vec![
            ParsingRule::new(NonTerminal::Func, Terminal::keyword(ReservedWord::Function))
                .with(Symbol::Terminal(Terminal::keyword(ReservedWord::Function)))
                .with(Symbol::Terminal(typed()))
                .with(Symbol::Terminal(id()))
                .with(Symbol::Terminal(Terminal::separator(Separator::OpenParenthesis)))
                .with(Symbol::NonTerminal(NonTerminal::FuncArgument))
                .with(Symbol::Terminal(Terminal::separator(Separator::CloseParenthesis)))
                .with(Symbol::Terminal(Terminal::separator(Separator::OpenCurlyBraces)))
                .with(Symbol::NonTerminal(NonTerminal::FuncBody))
                .with(Symbol::Terminal(Terminal::separator(Separator::CloseCurlyBraces)))
                .with(Symbol::NonTerminal(NonTerminal::Program)),
        ];
        assert(table.deep_view() =~~= func_rules());
        table
    }

    /// `<FuncArgument> :: <DataType> id <FuncArgument> | , <DataType> id <FuncArgument> | ε`
    fn func_argument_rules() -> (table: Grammar)
        ensures
            table.deep_view() == func_argument_rules(),
    {
        let table = vec![
            ParsingRule::new(NonTerminal::FuncArgument, typed())
                .with(Symbol::Terminal(typed()))
                .with(Symbol::Terminal(id()))
                .with(Symbol::NonTerminal(NonTerminal::FuncArgument)),
            ParsingRule::new(NonTerminal::FuncArgument, Terminal::separator(Separator::Comma))
                .with(Symbol::Terminal(Terminal::separator(Separator::Comma)))
                .with(Symbol::Terminal(typed()))
                .with(Symbol::Terminal(id()))
                .with(Symbol::NonTerminal(NonTerminal::FuncArgument)),
            ParsingRule::new(NonTerminal::FuncArgument, Terminal::separator(Separator::CloseParenthesis))
                .with(Symbol::Terminal(Terminal::Epsilon)),
        ];
        assert(table.deep_view() =~~= func_argument_rules());
        table
    }

    /// `<FuncBody> :: <StmntList> | ε`
    fn func_body_rules() -> (table: Grammar)
        ensures
            table.deep_view() == func_body_rules(),
    {
        let table = vec![
            ParsingRule::new(NonTerminal::FuncBody, Terminal::separator(Separator::CloseCurlyBraces))
                .with(Symbol::Terminal(Terminal::Epsilon)),
            ParsingRule::new(NonTerminal::FuncBody, Terminal::Any)
                .with(Symbol::NonTerminal(NonTerminal::StmntList)),
        ];
        assert(table.deep_view() =~~= func_body_rules());
        table
    }

    /// `<StmntList> :: <Statement> <StmntList> | ε`
    fn stmnt_list_rules() -> (table: Grammar)
        ensures
            table.deep_view() == stmnt_list_rules(),
    {
        let table = vec![
            ParsingRule::new(NonTerminal::StmntList, Terminal::separator(Separator::CloseCurlyBraces))
                .with(Symbol::Terminal(Terminal::Epsilon)),
            ParsingRule::new(NonTerminal::StmntList, Terminal::Any)
                .with(Symbol::NonTerminal(NonTerminal::Statement))
                .with(Symbol::NonTerminal(NonTerminal::StmntList)),
        ];
        assert(table.deep_view() =~~= stmnt_list_rules());
        table
    }

    /// `<Statement> :: return <Expr> ; | if ( <Expr> ) { <StmntList> } <StmntElse> | match ( <Expr> ) { <StmntCase> } | for ( <StmntDecl> ; <Expr> ; <StmntAssign> ) { <StmntList> } | while ( <Expr> ) { <StmntList> } | <StmntDecl> ; | <StmntAssign> ;`
    fn statement_rules() -> (table: Grammar)
        ensures
            table.deep_view() == statement_rules(),
    {
        let table = vec![
            ParsingRule::new(NonTerminal::Statement, Terminal::keyword(ReservedWord::Return))
                .with(Symbol::Terminal(Terminal::keyword(ReservedWord::Return)))
                .with(Symbol::NonTerminal(NonTerminal::Expr))
                .with(Symbol::Terminal(Terminal::separator(Separator::Terminator))),
            ParsingRule::new(NonTerminal::Statement, Terminal::keyword(ReservedWord::If))
                .with(Symbol::Terminal(Terminal::keyword(ReservedWord::If)))
                .with(Symbol::Terminal(Terminal::separator(Separator::OpenParenthesis)))
                .with(Symbol::NonTerminal(NonTerminal::Expr))
                .with(Symbol::Terminal(Terminal::separator(Separator::CloseParenthesis)))
                .with(Symbol::Terminal(Terminal::separator(Separator::OpenCurlyBraces)))
                .with(Symbol::NonTerminal(NonTerminal::StmntList))
                .with(Symbol::Terminal(Terminal::separator(Separator::CloseCurlyBraces)))
                .with(Symbol::NonTerminal(NonTerminal::StmntElse)),
            ParsingRule::new(NonTerminal::Statement, Terminal::keyword(ReservedWord::Match))
                .with(Symbol::Terminal(Terminal::keyword(ReservedWord::Match)))
                .with(Symbol::Terminal(Terminal::separator(Separator::OpenParenthesis)))
                .with(Symbol::NonTerminal(NonTerminal::Expr))
                .with(Symbol::Terminal(Terminal::separator(Separator::CloseParenthesis)))
                .with(Symbol::Terminal(Terminal::separator(Separator::OpenCurlyBraces)))
                .with(Symbol::NonTerminal(NonTerminal::StmntCase))
                .with(Symbol::Terminal(Terminal::separator(Separator::CloseCurlyBraces))),
            ParsingRule::new(NonTerminal::Statement, Terminal::keyword(ReservedWord::For))
                .with(Symbol::Terminal(Terminal::keyword(ReservedWord::For)))
                .with(Symbol::Terminal(Terminal::separator(Separator::OpenParenthesis)))
                .with(Symbol::NonTerminal(NonTerminal::StmntDecl))
                .with(Symbol::Terminal(Terminal::separator(Separator::Terminator)))
                .with(Symbol::NonTerminal(NonTerminal::Expr))
                .with(Symbol::Terminal(Terminal::separator(Separator::Terminator)))
                .with(Symbol::NonTerminal(NonTerminal::StmntAssign))
                .with(Symbol::Terminal(Terminal::separator(Separator::CloseParenthesis)))
                .with(Symbol::Terminal(Terminal::separator(Separator::OpenCurlyBraces)))
                .with(Symbol::NonTerminal(NonTerminal::StmntList))
                .with(Symbol::Terminal(Terminal::separator(Separator::CloseCurlyBraces))),
            ParsingRule::new(NonTerminal::Statement, Terminal::keyword(ReservedWord::While))
                .with(Symbol::Terminal(Terminal::keyword(ReservedWord::While)))
                .with(Symbol::Terminal(Terminal::separator(Separator::OpenParenthesis)))
                .with(Symbol::NonTerminal(NonTerminal::Expr))
                .with(Symbol::Terminal(Terminal::separator(Separator::CloseParenthesis)))
                .with(Symbol::Terminal(Terminal::separator(Separator::OpenCurlyBraces)))
                .with(Symbol::NonTerminal(NonTerminal::StmntList))
                .with(Symbol::Terminal(Terminal::separator(Separator::CloseCurlyBraces))),
            ParsingRule::new(NonTerminal::Statement, Terminal::keyword(ReservedWord::Let))
                .with(Symbol::NonTerminal(NonTerminal::StmntDecl))
                .with(Symbol::Terminal(Terminal::separator(Separator::Terminator))),
            ParsingRule::new(NonTerminal::Statement, Terminal::keyword(ReservedWord::Constant))
                .with(Symbol::NonTerminal(NonTerminal::StmntDecl))
                .with(Symbol::Terminal(Terminal::separator(Separator::Terminator))),
            ParsingRule::new(NonTerminal::Statement, id())
                .with(Symbol::NonTerminal(NonTerminal::StmntAssign))
                .with(Symbol::Terminal(Terminal::separator(Separator::Terminator))),
        ];
        assert(table.deep_view() =~~= statement_rules());
        table
    }

    /// `<StmntCase> :: case literal { <StmntList> } <StmntCase> | default { <StmntList> } | ε`
    fn stmnt_case_rules() -> (table: Grammar)
        ensures
            table.deep_view() == stmnt_case_rules(),
    {
        let table = vec![
            ParsingRule::new(NonTerminal::StmntCase, Terminal::keyword(ReservedWord::Case))
                .with(Symbol::Terminal(Terminal::keyword(ReservedWord::Case)))
                .with(Symbol::Terminal(literal()))
                .with(Symbol::Terminal(Terminal::separator(Separator::OpenCurlyBraces)))
                .with(Symbol::NonTerminal(NonTerminal::StmntList))
                .with(Symbol::Terminal(Terminal::separator(Separator::CloseCurlyBraces)))
                .with(Symbol::NonTerminal(NonTerminal::StmntCase)),
            ParsingRule::new(NonTerminal::StmntCase, Terminal::keyword(ReservedWord::Default))
                .with(Symbol::Terminal(Terminal::keyword(ReservedWord::Default)))
                .with(Symbol::Terminal(Terminal::separator(Separator::OpenCurlyBraces)))
                .with(Symbol::NonTerminal(NonTerminal::StmntList))
                .with(Symbol::Terminal(Terminal::separator(Separator::CloseCurlyBraces))),
            ParsingRule::new(NonTerminal::StmntCase, Terminal::Any)
                .with(Symbol::Terminal(Terminal::Epsilon)),
        ];
        assert(table.deep_view() =~~= stmnt_case_rules());
        table
    }

    /// `<Expr> :: <ExprOperand> <ExprOperation>`
    fn expr_rules() -> (table: Grammar)
        ensures
            table.deep_view() == expr_rules(),
    {
        let table = vec![
            ParsingRule::new(NonTerminal::Expr, Terminal::Any)
                .with(Symbol::NonTerminal(NonTerminal::ExprOperand))
                .with(Symbol::NonTerminal(NonTerminal::ExprOperation)),
        ];
        assert(table.deep_view() =~~= expr_rules());
        table
    }

    /// `<ExprOperand> :: id <ExprCall> | literal`
    fn expr_operand_rules() -> (table: Grammar)
        ensures
            table.deep_view() == expr_operand_rules(),
    {
        let table = vec![
            ParsingRule::new(NonTerminal::ExprOperand, id())
                .with(Symbol::Terminal(id()))
                .with(Symbol::NonTerminal(NonTerminal::ExprCall)),
            ParsingRule::new(NonTerminal::ExprOperand, literal())
                .with(Symbol::Terminal(literal())),
        ];
        assert(table.deep_view() =~~= expr_operand_rules());
        table
    }

    /// `<ExprCall> :: <ExprFuncCall> <ExprCall> | <ExprArrayAccess> <ExprCall> | <ExprFieldAccess> <ExprCall> | id <ExprCall> | ε`
    fn expr_call_rules() -> (table: Grammar)
        ensures
            table.deep_view() == expr_call_rules(),
    {
        let table = vec![
            ParsingRule::new(NonTerminal::ExprCall, Terminal::separator(Separator::OpenParenthesis))
                .with(Symbol::NonTerminal(NonTerminal::ExprFuncCall))
                .with(Symbol::NonTerminal(NonTerminal::ExprCall)),
            ParsingRule::new(NonTerminal::ExprCall, Terminal::separator(Separator::OpenBrackets))
                .with(Symbol::NonTerminal(NonTerminal::ExprArrayAccess))
                .with(Symbol::NonTerminal(NonTerminal::ExprCall)),
            ParsingRule::new(NonTerminal::ExprCall, Terminal::separator(Separator::Dot))
                .with(Symbol::NonTerminal(NonTerminal::ExprFieldAccess))
                .with(Symbol::NonTerminal(NonTerminal::ExprCall)),
            ParsingRule::new(NonTerminal::ExprCall, id())
                .with(Symbol::Terminal(id()))
                .with(Symbol::NonTerminal(NonTerminal::ExprCall)),
            ParsingRule::new(NonTerminal::ExprCall, Terminal::Any)
                .with(Symbol::Terminal(Terminal::Epsilon)),
        ];
        assert(table.deep_view() =~~= expr_call_rules());
        table
    }

    /// `<ExprArrayAccess> :: [ <Expr> ] | ε`
    fn expr_array_access_rules() -> (table: Grammar)
        ensures
            table.deep_view() == expr_array_access_rules(),
    {
        let table = vec![
            ParsingRule::new(NonTerminal::ExprArrayAccess, Terminal::separator(Separator::OpenBrackets))
                .with(Symbol::Terminal(Terminal::separator(Separator::OpenBrackets)))
                .with(Symbol::NonTerminal(NonTerminal::Expr))
                .with(Symbol::Terminal(Terminal::separator(Separator::CloseBrackets))),
            ParsingRule::new(NonTerminal::ExprArrayAccess, Terminal::Any)
                .with(Symbol::Terminal(Terminal::Epsilon)),
        ];
        assert(table.deep_view() =~~= expr_array_access_rules());
        table
    }

    /// `<ExprFieldAccess> :: .`
    fn expr_field_access_rules() -> (table: Grammar)
        ensures
            table.deep_view() == expr_field_access_rules(),
    {
        let table = vec![
            ParsingRule::new(NonTerminal::ExprFieldAccess, Terminal::separator(Separator::Dot))
                .with(Symbol::Terminal(Terminal::separator(Separator::Dot))),
        ];
        assert(table.deep_view() =~~= expr_field_access_rules());
        table
    }

    /// `<ExprFuncCall> :: ( <ExprFuncCallArgs> ) | ε`
    fn expr_func_call_rules() -> (table: Grammar)
        ensures
            table.deep_view() == expr_func_call_rules(),
    {
        let table = vec![
            ParsingRule::new(NonTerminal::ExprFuncCall, Terminal::separator(Separator::OpenParenthesis))
                .with(Symbol::Terminal(Terminal::separator(Separator::OpenParenthesis)))
                .with(Symbol::NonTerminal(NonTerminal::ExprFuncCallArgs))
                .with(Symbol::Terminal(Terminal::separator(Separator::CloseParenthesis))),
            ParsingRule::new(NonTerminal::ExprFuncCall, Terminal::separator(Separator::CloseParenthesis))
                .with(Symbol::Terminal(Terminal::Epsilon)),
        ];
        assert(table.deep_view() =~~= expr_func_call_rules());
        table
    }

    /// `<ExprFuncCallArgs> :: <Expr> <ExprFuncCallArgs> | , <Expr> <ExprFuncCallArgs> | ε`
    fn expr_func_call_args_rules() -> (table: Grammar)
        ensures
            table.deep_view() == expr_func_call_args_rules(),
    {
        let table = vec![
            ParsingRule::new(NonTerminal::ExprFuncCallArgs, id())
                .with(Symbol::NonTerminal(NonTerminal::Expr))
                .with(Symbol::NonTerminal(NonTerminal::ExprFuncCallArgs)),
            ParsingRule::new(NonTerminal::ExprFuncCallArgs, literal())
                .with(Symbol::NonTerminal(NonTerminal::Expr))
                .with(Symbol::NonTerminal(NonTerminal::ExprFuncCallArgs)),
            ParsingRule::new(NonTerminal::ExprFuncCallArgs, Terminal::separator(Separator::Comma))
                .with(Symbol::Terminal(Terminal::separator(Separator::Comma)))
                .with(Symbol::NonTerminal(NonTerminal::Expr))
                .with(Symbol::NonTerminal(NonTerminal::ExprFuncCallArgs)),
            ParsingRule::new(NonTerminal::ExprFuncCallArgs, Terminal::separator(Separator::CloseParenthesis))
                .with(Symbol::Terminal(Terminal::Epsilon)),
        ];
        assert(table.deep_view() =~~= expr_func_call_args_rules());
        table
    }

    /// `<ExprOperation> :: <UnaryOperator> <Expr> <ExprOperation> | ε`
    fn expr_operation_rules() -> (table: Grammar)
        ensures
            table.deep_view() == expr_operation_rules(),
    {
        let table = vec![
            ParsingRule::new(NonTerminal::ExprOperation, unary_op())
                .with(Symbol::Terminal(unary_op()))
                .with(Symbol::NonTerminal(NonTerminal::Expr))
                .with(Symbol::NonTerminal(NonTerminal::ExprOperation)),
            ParsingRule::new(NonTerminal::ExprOperation, Terminal::separator(Separator::Terminator))
                .with(Symbol::Terminal(Terminal::Epsilon)),
            ParsingRule::new(NonTerminal::ExprOperation, Terminal::separator(Separator::CloseCurlyBraces))
                .with(Symbol::Terminal(Terminal::Epsilon)),
            ParsingRule::new(NonTerminal::ExprOperation, Terminal::separator(Separator::CloseParenthesis))
                .with(Symbol::Terminal(Terminal::Epsilon)),
            ParsingRule::new(NonTerminal::ExprOperation, Terminal::separator(Separator::CloseBrackets))
                .with(Symbol::Terminal(Terminal::Epsilon)),
            ParsingRule::new(NonTerminal::ExprOperation, Terminal::separator(Separator::Comma))
                .with(Symbol::Terminal(Terminal::Epsilon)),
        ];
        assert(table.deep_view() =~~= expr_operation_rules());
        table
    }

    /// `<StmntElse> :: elif ( <Expr> ) { <StmntList> } <StmntElse> | else { <StmntList> } | ε`
    fn stmnt_else_rules() -> (table: Grammar)
        ensures
            table.deep_view() == stmnt_else_rules(),
    {
        let table = vec![
            ParsingRule::new(NonTerminal::StmntElse, Terminal::keyword(ReservedWord::Elif))
                .with(Symbol::Terminal(Terminal::keyword(ReservedWord::Elif)))
                .with(Symbol::Terminal(Terminal::separator(Separator::OpenParenthesis)))
                .with(Symbol::NonTerminal(NonTerminal::Expr))
                .with(Symbol::Terminal(Terminal::separator(Separator::CloseParenthesis)))
                .with(Symbol::Terminal(Terminal::separator(Separator::OpenCurlyBraces)))
                .with(Symbol::NonTerminal(NonTerminal::StmntList))
                .with(Symbol::Terminal(Terminal::separator(Separator::CloseCurlyBraces)))
                .with(Symbol::NonTerminal(NonTerminal::StmntElse)),
            ParsingRule::new(NonTerminal::StmntElse, Terminal::keyword(ReservedWord::Else))
                .with(Symbol::Terminal(Terminal::keyword(ReservedWord::Else)))
                .with(Symbol::Terminal(Terminal::separator(Separator::OpenCurlyBraces)))
                .with(Symbol::NonTerminal(NonTerminal::StmntList))
                .with(Symbol::Terminal(Terminal::separator(Separator::CloseCurlyBraces))),
            ParsingRule::new(NonTerminal::StmntElse, Terminal::Any)
                .with(Symbol::Terminal(Terminal::Epsilon)),
        ];
        assert(table.deep_view() =~~= stmnt_else_rules());
        table
    }

    /// `<StmntDecl> :: let <DataType> id = <Expr> | const <DataType> id = <Expr>`
    fn stmnt_decl_rules() -> (table: Grammar)
        ensures
            table.deep_view() == stmnt_decl_rules(),
    {
        let table = vec![
            ParsingRule::new(NonTerminal::StmntDecl, Terminal::keyword(ReservedWord::Let))
                .with(Symbol::Terminal(Terminal::keyword(ReservedWord::Let)))
                .with(Symbol::Terminal(typed()))
                .with(Symbol::Terminal(id()))
                .with(Symbol::Terminal(Terminal::operator(Operator::Assignment)))
                .with(Symbol::NonTerminal(NonTerminal::Expr)),
            ParsingRule::new(NonTerminal::StmntDecl, Terminal::keyword(ReservedWord::Constant))
                .with(Symbol::Terminal(Terminal::keyword(ReservedWord::Constant)))
                .with(Symbol::Terminal(typed()))
                .with(Symbol::Terminal(id()))
                .with(Symbol::Terminal(Terminal::operator(Operator::Assignment)))
                .with(Symbol::NonTerminal(NonTerminal::Expr)),
        ];
        assert(table.deep_view() =~~= stmnt_decl_rules());
        table
    }

    /// `<StmntAssign> :: id <ExprCall> <ReassignOp> <Expr>`
    fn stmnt_assign_rules() -> (table: Grammar)
        ensures
            table.deep_view() == stmnt_assign_rules(),
    {
        let table = vec![
            ParsingRule::new(NonTerminal::StmntAssign, id())
                .with(Symbol::Terminal(id()))
                .with(Symbol::NonTerminal(NonTerminal::ExprCall))
                .with(Symbol::Terminal(Terminal::ReassignOp))
                .with(Symbol::NonTerminal(NonTerminal::Expr)),
        ];
        assert(table.deep_view() =~~= stmnt_assign_rules());
        table
    }
}

impl Parser for Function {
    /// The rules of a function, of statements and of expressions, nonterminal
    /// by nonterminal; above each group stands what it derives.
    open spec fn rules() -> Seq<ParsingRuleView> {
        func_rules() + func_argument_rules() + func_body_rules() + stmnt_list_rules()
            + statement_rules() + stmnt_case_rules() + expr_rules() + expr_operand_rules()
            + expr_call_rules() + expr_array_access_rules() + expr_field_access_rules()
            + expr_func_call_rules() + expr_func_call_args_rules() + expr_operation_rules()
            + stmnt_else_rules() + stmnt_decl_rules() + stmnt_assign_rules()
    }

    fn parsing_table() -> (table: Grammar) {
        let mut table = Self::func_rules();
        extend(&mut table, Self::func_argument_rules());
        extend(&mut table, Self::func_body_rules());
        extend(&mut table, Self::stmnt_list_rules());
        extend(&mut table, Self::statement_rules());
        extend(&mut table, Self::stmnt_case_rules());
        extend(&mut table, Self::expr_rules());
        extend(&mut table, Self::expr_operand_rules());
        extend(&mut table, Self::expr_call_rules());
        extend(&mut table, Self::expr_array_access_rules());
        extend(&mut table, Self::expr_field_access_rules());
        extend(&mut table, Self::expr_func_call_rules());
        extend(&mut table, Self::expr_func_call_args_rules());
        extend(&mut table, Self::expr_operation_rules());
        extend(&mut table, Self::stmnt_else_rules());
        extend(&mut table, Self::stmnt_decl_rules());
        extend(&mut table, Self::stmnt_assign_rules());
        proof {
            lemma_rules_well_formed();
        }
        table
    }
}

/// Every production of the table is well formed.
pub proof fn lemma_rules_well_formed()
    ensures
        grammar_well_formed(Function::rules()),
{
}

} // verus!
