//! The grammar of the language and the engine that parses by it.

use crate::parser::enumeration::Enumeration;
use crate::parser::function::Function;
use crate::parser::grammar::{extend, grammar_well_formed, Grammar, Parser, ParsingRuleView};
use crate::parser::program::Program;
use crate::parser::structure::Struct;
use vstd::prelude::*;

pub mod derivation;
pub mod enumeration;
pub mod function;
pub mod grammar;
pub mod halting;
pub mod instances;
pub mod language;
pub mod leftmost;
pub mod program;
pub mod structure;

verus! {

/// The rules of the whole language: the sub-tables of its constructs in
/// their fixed order. The order matters only where two rules of one
/// nonterminal accept the same token: the earlier one wins.
pub open spec fn language_rules() -> Seq<ParsingRuleView> {
    Program::rules() + Function::rules() + Enumeration::rules() + Struct::rules()
}

/// Builds the grammar table of the whole language.
pub fn language_grammar() -> (table: Grammar)
    ensures
        table.deep_view() == language_rules(),
        grammar_well_formed(table.deep_view()),
{
    let mut table = Program::parsing_table();
    extend(&mut table, Function::parsing_table());
    extend(&mut table, Enumeration::parsing_table());
    extend(&mut table, Struct::parsing_table());
    proof {
        lemma_language_rules_well_formed();
    }
    table
}

/// Every rule of the language keeps the empty mark to itself: a production
/// that holds it holds nothing else.
pub proof fn lemma_language_rules_well_formed()
    ensures
        grammar_well_formed(language_rules()),
{
}

} // verus!
