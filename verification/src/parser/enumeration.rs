//! The rules of an enumeration declaration.

use crate::lexer::reserved::{ReservedWord, Separator};
use crate::parser::derivation::epsilon;
use crate::parser::grammar::{
    id, identifier_class, keyword, nonterminal, rule_view, separator, terminal, Grammar,
    NonTerminal, Parser, ParsingRule, ParsingRuleView, Symbol, Terminal,
};
use vstd::prelude::*;

verus! {

/// An enumeration declaration.
#[derive(Clone, Copy, Debug, PartialEq, Eq)]
pub struct Enumeration;

impl Parser for Enumeration {
    /// `<Enum> :: enumeration id { <EnumBody> } <Program>`
    ///
    /// `<EnumBody> :: id <EnumBody> | , <EnumBody> | ε`
    open spec fn rules() -> Seq<ParsingRuleView> {
        seq![
            rule_view(
                NonTerminal::Enum,
                keyword(ReservedWord::Enum),
                seq![
                    terminal(keyword(ReservedWord::Enum)),
                    terminal(identifier_class()),
                    terminal(separator(Separator::OpenCurlyBraces)),
                    nonterminal(NonTerminal::EnumBody),
                    terminal(separator(Separator::CloseCurlyBraces)),
                    nonterminal(NonTerminal::Program),
                ],
            ),
            rule_view(
                NonTerminal::EnumBody,
                identifier_class(),
                seq![terminal(identifier_class()), nonterminal(NonTerminal::EnumBody)],
            ),
            rule_view(
                NonTerminal::EnumBody,
                separator(Separator::Comma),
                seq![terminal(separator(Separator::Comma)), nonterminal(NonTerminal::EnumBody)],
            ),
            rule_view(
                NonTerminal::EnumBody,
                separator(Separator::CloseCurlyBraces),
                seq![epsilon()],
            ),
        ]
    }

    fn parsing_table() -> (table: Grammar) {
        let table = vec![
            ParsingRule::new(NonTerminal::Enum, Terminal::keyword(ReservedWord::Enum))
                .with(Symbol::Terminal(Terminal::keyword(ReservedWord::Enum)))
                .with(Symbol::Terminal(id()))
                .with(Symbol::Terminal(Terminal::separator(Separator::OpenCurlyBraces)))
                .with(Symbol::NonTerminal(NonTerminal::EnumBody))
                .with(Symbol::Terminal(Terminal::separator(Separator::CloseCurlyBraces)))
                .with(Symbol::NonTerminal(NonTerminal::Program)),
            ParsingRule::new(NonTerminal::EnumBody, id())
                .with(Symbol::Terminal(id()))
                .with(Symbol::NonTerminal(NonTerminal::EnumBody)),
            ParsingRule::new(NonTerminal::EnumBody, Terminal::separator(Separator::Comma))
                .with(Symbol::Terminal(Terminal::separator(Separator::Comma)))
                .with(Symbol::NonTerminal(NonTerminal::EnumBody)),
            ParsingRule::new(NonTerminal::EnumBody, Terminal::separator(Separator::CloseCurlyBraces))
                .with(Symbol::Terminal(Terminal::Epsilon)),
        ];
        assert(table.deep_view() =~~= Self::rules());
        table
    }
}

} // verus!
