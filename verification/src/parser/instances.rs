//! Where trace entries come from: every entry of a trace is an instance of a
//! rule of the table, with the slots of the rule's production resolved and
//! nothing else changed.

use crate::lexer::tokens::TokenView;
use crate::parser::derivation::{
    back_substitute, initial_state, resolve_slot, run, step, ParserStateView, SyntaxErrorView,
    TraceView,
};
use crate::parser::grammar::{
    lemma_find_rule_is_first, NonTerminal, ParsingRuleView, SymbolView, TerminalView,
};
use vstd::prelude::*;

verus! {

/// Whether a slot is of the class of a symbol of a production: the same
/// nonterminal, the same keyword, separator, operator or comment, or a
/// wildcard of the same kind with whatever it holds.
pub open spec fn same_class(slot: SymbolView, pattern: SymbolView) -> bool {
    match (slot, pattern) {
        (SymbolView::NonTerminal(a), SymbolView::NonTerminal(b)) => a == b,
        (SymbolView::Terminal(a), SymbolView::Terminal(b)) => match (a, b) {
            (TerminalView::Token(s), TerminalView::Token(t)) => match (s, t) {
                (TokenView::Identifier(_), TokenView::Identifier(_)) => true,
                (TokenView::Literal(_), TokenView::Literal(_)) => true,
                _ => s == t,
            },
            (TerminalView::DataType(_), TerminalView::DataType(_)) => true,
            (TerminalView::UnaryOperator(_), TerminalView::UnaryOperator(_)) => true,
            _ => a == b,
        },
        _ => false,
    }
}

/// Whether `production` is `pattern` with its slots resolved.
pub open spec fn instance_of(production: Seq<SymbolView>, pattern: Seq<SymbolView>) -> bool {
    production.len() == pattern.len() && forall|i: int|
        0 <= i < production.len() ==> same_class(#[trigger] production[i], pattern[i])
}

/// Whether a trace entry is an instance of a rule of the table for its
/// nonterminal.
pub open spec fn from_table(
    table: Seq<ParsingRuleView>,
    entry: (NonTerminal, Seq<SymbolView>),
) -> bool {
    exists|i: int|
        0 <= i < table.len() && (#[trigger] table[i]).non_terminal == entry.0 && instance_of(
            entry.1,
            table[i].production,
        )
}

/// Whether every entry of the trace is an instance of a rule of the table.
pub open spec fn trace_from_table(table: Seq<ParsingRuleView>, trace: TraceView) -> bool {
    forall|k: int| 0 <= k < trace.len() ==> from_table(table, #[trigger] trace[k])
}

/// Resolving a slot keeps its class.
proof fn lemma_resolved_slot(
    slot: SymbolView,
    pattern: SymbolView,
    token: TokenView,
    expected: TerminalView,
)
    requires
        same_class(slot, pattern),
    ensures
        same_class(resolve_slot(slot, token, expected), pattern),
{
}

/// Back-substitution keeps every entry an instance of its rule.
proof fn lemma_back_substitute_keeps_instances(
    table: Seq<ParsingRuleView>,
    trace: TraceView,
    token: TokenView,
    expected: TerminalView,
)
    requires
        trace_from_table(table, trace),
    ensures
        trace_from_table(table, back_substitute(trace, token, expected)),
{
    let after = back_substitute(trace, token, expected);
    assert forall|k: int| 0 <= k < after.len() implies from_table(table, #[trigger] after[k]) by {
        assert(from_table(table, trace[k]));
        let i = choose|i: int|
            0 <= i < table.len() && (#[trigger] table[i]).non_terminal == trace[k].0
                && instance_of(trace[k].1, table[i].production);
        assert forall|j: int| 0 <= j < after[k].1.len() implies same_class(
            #[trigger] after[k].1[j],
            table[i].production[j],
        ) by {
            assert(same_class(trace[k].1[j], table[i].production[j]));
            lemma_resolved_slot(trace[k].1[j], table[i].production[j], token, expected);
        }
        assert(instance_of(after[k].1, table[i].production));
    }
}

/// A production is an instance of itself.
proof fn lemma_instance_of_itself(production: Seq<SymbolView>)
    ensures
        instance_of(production, production),
{
    assert forall|i: int| 0 <= i < production.len() implies same_class(
        #[trigger] production[i],
        production[i],
    ) by {
        let symbol = production[i];
        match symbol {
            SymbolView::NonTerminal(_) => {},
            SymbolView::Terminal(_) => {},
        }
    }
}

/// A step keeps every entry an instance of its rule.
proof fn lemma_step_keeps_instances(
    table: Seq<ParsingRuleView>,
    tokens: Seq<TokenView>,
    state: ParserStateView,
)
    requires
        state.stack.len() > 0,
        trace_from_table(table, state.trace),
        step(table, tokens, state) is Ok,
    ensures
        trace_from_table(table, step(table, tokens, state)->Ok_0.trace),
{
    let next = step(table, tokens, state)->Ok_0;
    match state.stack.last() {
        SymbolView::Terminal(expected) => {
            if state.cursor < tokens.len() {
                lemma_back_substitute_keeps_instances(
                    table,
                    state.trace,
                    tokens[state.cursor as int],
                    expected,
                );
            }
        },
        SymbolView::NonTerminal(non_terminal) => {
            if state.cursor < tokens.len() {
                let token = tokens[state.cursor as int];
                lemma_find_rule_is_first(table, non_terminal, token);
                let entry = next.trace.last();
                lemma_instance_of_itself(entry.1);
                assert(from_table(table, entry));
                assert forall|k: int| 0 <= k < next.trace.len() implies from_table(
                    table,
                    #[trigger] next.trace[k],
                ) by {
                    if k < state.trace.len() {
                        assert(next.trace[k] == state.trace[k]);
                    }
                }
            }
        },
    }
}

/// A run keeps every entry an instance of its rule.
proof fn lemma_run_keeps_instances(
    table: Seq<ParsingRuleView>,
    tokens: Seq<TokenView>,
    state: ParserStateView,
    fuel: nat,
)
    requires
        trace_from_table(table, state.trace),
        run(table, tokens, state, fuel) matches Some(Ok(_)),
    ensures
        trace_from_table(table, run(table, tokens, state, fuel).unwrap()->Ok_0),
    decreases fuel,
{
    if state.stack.len() > 0 {
        lemma_step_keeps_instances(table, tokens, state);
        lemma_run_keeps_instances(
            table,
            tokens,
            step(table, tokens, state)->Ok_0,
            (fuel - 1) as nat,
        );
    }
}

/// Every entry of the trace of a successful parse is an instance of a rule
/// of the table: the production of a rule for the entry's nonterminal, with
/// its identifier, literal, type and operator slots resolved and every other
/// symbol as the rule has it.
pub proof fn lemma_entries_are_rule_instances(
    table: Seq<ParsingRuleView>,
    tokens: Seq<TokenView>,
    fuel: nat,
    trace: TraceView,
)
    requires
        run(table, tokens, initial_state(), fuel) == Some(
            Ok::<TraceView, SyntaxErrorView>(trace),
        ),
    ensures
        trace_from_table(table, trace),
{
    lemma_run_keeps_instances(table, tokens, initial_state(), fuel);
}

} // verus!
