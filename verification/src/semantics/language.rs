//! What the analyzer can rely on in a trace that a parse by the grammar of
//! the language left: every declaration has its keyword, and every user type
//! and every field has its name, so that the type table and the registry of
//! user types exist.

use crate::lexer::reserved::ReservedWord;
use crate::parser::derivation::TraceView;
use crate::parser::grammar::{
    identifier_class, keyword, terminal, NonTerminal, SymbolView, TerminalView,
};
use crate::parser::instances::{from_table, instance_of, same_class, trace_from_table};
use crate::parser::language_rules;
use crate::semantics::types::{
    body_end, declaration, first_identifier, first_mutability, identifier_from,
    lemma_body_end_bounds, lemma_body_entries, mutability_from, registry, registry_from,
    slot_data_type, slot_identifier, slot_mutability, struct_field, struct_fields, type_table,
};
use vstd::prelude::*;

verus! {

/// What the rules of the language have in common that the analyzer relies
/// on: a declaration statement begins with its keyword, a user type has its
/// name in the second place, and so has a field that begins with its type.
proof fn lemma_language_rule_names(i: int)
    requires
        0 <= i < language_rules().len(),
    ensures
        ({
            let rule = language_rules()[i];
            &&& rule.non_terminal == NonTerminal::StmntDecl ==> rule.production.len() == 5 && (
            rule.production[0] == terminal(keyword(ReservedWord::Let)) || rule.production[0]
                == terminal(keyword(ReservedWord::Constant)))
            &&& rule.non_terminal == NonTerminal::Enum ==> rule.production.len() == 6
                && rule.production[0] == terminal(keyword(ReservedWord::Enum))
                && rule.production[1] == terminal(identifier_class())
            &&& rule.non_terminal == NonTerminal::Struct ==> rule.production.len() == 6
                && rule.production[0] == terminal(keyword(ReservedWord::Struct))
                && rule.production[1] == terminal(identifier_class())
            &&& rule.non_terminal == NonTerminal::StructBody ==> rule.production.len() >= 1 && (
            rule.production[0] matches SymbolView::Terminal(TerminalView::DataType(_))
                ==> rule.production.len() == 3 && rule.production[1] == terminal(
                identifier_class(),
            ))
        }),
{
}

/// A declaration statement of the language has its keyword.
proof fn lemma_language_declaration(entry: (NonTerminal, Seq<SymbolView>))
    requires
        from_table(language_rules(), entry),
    ensures
        declaration(entry) is Some,
{
    if entry.0 == NonTerminal::StmntDecl {
        let table = language_rules();
        let i = choose|i: int|
            0 <= i < table.len() && (#[trigger] table[i]).non_terminal == entry.0 && instance_of(
                entry.1,
                table[i].production,
            );
        lemma_language_rule_names(i);
        assert(same_class(entry.1[0], table[i].production[0]));
        assert(slot_mutability(entry.1[0]) is Some);
        assert(first_mutability(entry.1) is Some);
    }
}

/// A trace of the language has a type table.
proof fn lemma_language_type_table(trace: TraceView)
    requires
        trace_from_table(language_rules(), trace),
    ensures
        type_table(trace) is Some,
    decreases trace.len(),
{
    if trace.len() > 0 {
        let before = trace.drop_last();
        assert forall|k: int| 0 <= k < before.len() implies from_table(
            language_rules(),
            #[trigger] before[k],
        ) by {
            assert(before[k] == trace[k]);
        }
        lemma_language_type_table(before);
        lemma_language_declaration(trace.last());
    }
}

/// A user type of the language has its name.
proof fn lemma_language_user_type(entry: (NonTerminal, Seq<SymbolView>))
    requires
        from_table(language_rules(), entry),
        entry.0 == NonTerminal::Enum || entry.0 == NonTerminal::Struct,
    ensures
        first_identifier(entry.1) is Some,
{
    let table = language_rules();
    let i = choose|i: int|
        0 <= i < table.len() && (#[trigger] table[i]).non_terminal == entry.0 && instance_of(
            entry.1,
            table[i].production,
        );
    lemma_language_rule_names(i);
    assert(same_class(entry.1[0], table[i].production[0]));
    assert(same_class(entry.1[1], table[i].production[1]));
    assert(slot_identifier(entry.1[1]) is Some);
    assert(identifier_from(entry.1, 1) is Some);
}

/// A field of a struct of the language has its name.
proof fn lemma_language_field(entry: (NonTerminal, Seq<SymbolView>))
    requires
        from_table(language_rules(), entry),
        entry.0 == NonTerminal::StructBody,
    ensures
        struct_field(entry.1) is Some,
{
    let table = language_rules();
    let i = choose|i: int|
        0 <= i < table.len() && (#[trigger] table[i]).non_terminal == entry.0 && instance_of(
            entry.1,
            table[i].production,
        );
    lemma_language_rule_names(i);
    assert(same_class(entry.1[0], table[i].production[0]));
    if slot_data_type(entry.1[0]) is Some {
        assert(same_class(entry.1[1], table[i].production[1]));
        assert(slot_identifier(entry.1[1]) is Some);
        assert(identifier_from(entry.1, 1) is Some);
    }
}

/// The body of a struct of the language declares its fields.
proof fn lemma_language_fields(trace: TraceView, from: int, to: int)
    requires
        trace_from_table(language_rules(), trace),
        0 <= from <= to <= trace.len(),
        forall|k: int| from <= k < to ==> (#[trigger] trace[k]).0 == NonTerminal::StructBody,
    ensures
        struct_fields(trace, from, to) is Some,
    decreases to - from,
{
    if from < to {
        lemma_language_fields(trace, from, to - 1);
        assert(from_table(language_rules(), trace[to - 1]));
        lemma_language_field(trace[to - 1]);
    }
}

/// A trace of the language has a registry of user types.
proof fn lemma_language_registry(trace: TraceView, from: int)
    requires
        trace_from_table(language_rules(), trace),
        0 <= from <= trace.len(),
    ensures
        registry_from(trace, from) is Some,
    decreases trace.len() - from,
{
    if from < trace.len() {
        assert(from_table(language_rules(), trace[from]));
        match trace[from].0 {
            NonTerminal::Enum => {
                let end = body_end(trace, NonTerminal::EnumBody, from + 1);
                lemma_body_end_bounds(trace, NonTerminal::EnumBody, from + 1);
                lemma_language_user_type(trace[from]);
                lemma_language_registry(trace, end);
            },
            NonTerminal::Struct => {
                let end = body_end(trace, NonTerminal::StructBody, from + 1);
                lemma_body_end_bounds(trace, NonTerminal::StructBody, from + 1);
                lemma_body_entries(trace, NonTerminal::StructBody, from + 1);
                lemma_language_user_type(trace[from]);
                lemma_language_fields(trace, from + 1, end);
                lemma_language_registry(trace, end);
            },
            _ => {
                lemma_language_registry(trace, from + 1);
            },
        }
    }
}

/// The tables of a trace of the language exist: in a trace whose entries
/// are instances of rules of the language, no declaration lacks its keyword
/// and no user type or field lacks its name.
pub proof fn lemma_language_trace_has_tables(trace: TraceView)
    requires
        trace_from_table(language_rules(), trace),
    ensures
        type_table(trace) is Some,
        registry(trace) is Some,
{
    lemma_language_type_table(trace);
    lemma_language_registry(trace, 0);
}

} // verus!
