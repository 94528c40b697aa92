//! The rules that dispatch a program to its top-level constructs.

use crate::lexer::reserved::{ReservedWord, Separator};
use crate::parser::derivation::epsilon;
use crate::parser::grammar::{
    keyword, nonterminal, rule_view, separator, Grammar, NonTerminal, Parser, ParsingRule,
    ParsingRuleView, Symbol, Terminal,
};
use vstd::prelude::*;

verus! {

/// The top level of a source file.
#[derive(Clone, Copy, Debug, PartialEq, Eq)]
pub struct Program;

impl Parser for Program {
    /// `<Program> :: <Func> | <Enum> | <Struct> | ε`
    open spec fn rules() -> Seq<ParsingRuleView> {
        seq![
            rule_view(
                NonTerminal::Program,
                keyword(ReservedWord::Function),
                seq![nonterminal(NonTerminal::Func)],
            ),
            rule_view(
                NonTerminal::Program,
                keyword(ReservedWord::Enum),
                seq![nonterminal(NonTerminal::Enum)],
            ),
            rule_view(
                NonTerminal::Program,
                keyword(ReservedWord::Struct),
                seq![nonterminal(NonTerminal::Struct)],
            ),
            rule_view(
                NonTerminal::Program,
                separator(Separator::CloseCurlyBraces),
                seq![epsilon()],
            ),
        ]
    }

    fn parsing_table() -> (table: Grammar) {
        let table = vec![
            ParsingRule::new(NonTerminal::Program, Terminal::keyword(ReservedWord::Function))
                .with(Symbol::NonTerminal(NonTerminal::Func)),
            ParsingRule::new(NonTerminal::Program, Terminal::keyword(ReservedWord::Enum))
                .with(Symbol::NonTerminal(NonTerminal::Enum)),
            ParsingRule::new(NonTerminal::Program, Terminal::keyword(ReservedWord::Struct))
                .with(Symbol::NonTerminal(NonTerminal::Struct)),
            ParsingRule::new(NonTerminal::Program, Terminal::separator(Separator::CloseCurlyBraces))
                .with(Symbol::Terminal(Terminal::Epsilon)),
        ];
        assert(table.deep_view() =~~= Self::rules());
        table
    }
}

} // verus!
