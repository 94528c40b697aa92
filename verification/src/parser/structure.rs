//! The rules of a struct declaration.

use crate::lexer::reserved::{ReservedWord, Separator};
use crate::parser::derivation::epsilon;
use crate::parser::grammar::{
    id, identifier_class, keyword, nonterminal, rule_view, separator, terminal, type_class,
    typed, Grammar, NonTerminal, Parser, ParsingRule, ParsingRuleView, Symbol, Terminal,
};
use vstd::prelude::*;

verus! {

/// A struct declaration.
#[derive(Clone, Copy, Debug, PartialEq, Eq)]
pub struct Struct;

impl Parser for Struct {
    /// `<Struct> :: struct id { <StructBody> } <Program>`
    ///
    /// `<StructBody> :: <DataType> id <StructBody> | , <StructBody> | ε`
    open spec fn rules() -> Seq<ParsingRuleView> {
        seq![
            rule_view(
                NonTerminal::Struct,
                keyword(ReservedWord::Struct),
                seq![
                    terminal(keyword(ReservedWord::Struct)),
                    terminal(identifier_class()),
                    terminal(separator(Separator::OpenCurlyBraces)),
                    nonterminal(NonTerminal::StructBody),
                    terminal(separator(Separator::CloseCurlyBraces)),
                    nonterminal(NonTerminal::Program),
                ],
            ),
            rule_view(
                NonTerminal::StructBody,
                type_class(),
                seq![
                    terminal(type_class()),
                    terminal(identifier_class()),
                    nonterminal(NonTerminal::StructBody),
                ],
            ),
            rule_view(
                NonTerminal::StructBody,
                separator(Separator::Comma),
                seq![terminal(separator(Separator::Comma)), nonterminal(NonTerminal::StructBody)],
            ),
            rule_view(
                NonTerminal::StructBody,
                separator(Separator::CloseCurlyBraces),
                seq![epsilon()],
            ),
        ]
    }

    fn parsing_table() -> (table: Grammar) {
        let table = vec![
            ParsingRule::new(NonTerminal::Struct, Terminal::keyword(ReservedWord::Struct))
                .with(Symbol::Terminal(Terminal::keyword(ReservedWord::Struct)))
                .with(Symbol::Terminal(id()))
                .with(Symbol::Terminal(Terminal::separator(Separator::OpenCurlyBraces)))
                .with(Symbol::NonTerminal(NonTerminal::StructBody))
                .with(Symbol::Terminal(Terminal::separator(Separator::CloseCurlyBraces)))
                .with(Symbol::NonTerminal(NonTerminal::Program)),
            ParsingRule::new(NonTerminal::StructBody, typed())
                .with(Symbol::Terminal(typed()))
                .with(Symbol::Terminal(id()))
                .with(Symbol::NonTerminal(NonTerminal::StructBody)),
            ParsingRule::new(NonTerminal::StructBody, Terminal::separator(Separator::Comma))
                .with(Symbol::Terminal(Terminal::separator(Separator::Comma)))
                .with(Symbol::NonTerminal(NonTerminal::StructBody)),
            ParsingRule::new(NonTerminal::StructBody, Terminal::separator(Separator::CloseCurlyBraces))
                .with(Symbol::Terminal(Terminal::Epsilon)),
        ];
        assert(table.deep_view() =~~= Self::rules());
        table
    }
}

} // verus!
