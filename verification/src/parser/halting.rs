//! Termination: a grammar table in which every expansion leads to a token
//! being consumed lets the machine stop on every input, within a number of
//! steps that grows with the length of the input and no faster.

use crate::lexer::tokens::TokenView;
use crate::parser::derivation::{
    derivation_halts, initial_state, pushed, run, step, ParserStateView,
};
use crate::parser::grammar::{find_rule, NonTerminal, ParsingRuleView, SymbolView};
use vstd::prelude::*;

verus! {

/// The most symbols that a production of a progressive table puts on the
/// stack.
pub open spec fn width() -> nat {
    11
}

/// The highest rank of a nonterminal of a progressive table.
pub open spec fn height() -> nat {
    4
}

/// The steps that one token pays for: for each rank, as many as a
/// production is wide.
pub open spec fn steps_per_token() -> nat {
    44
}

/// The rank of a symbol: that of its nonterminal, and none for a terminal.
pub open spec fn depth(rank: spec_fn(NonTerminal) -> nat, symbol: SymbolView) -> nat {
    match symbol {
        SymbolView::Terminal(_) => 0,
        SymbolView::NonTerminal(non_terminal) => rank(non_terminal),
    }
}

/// Whether `symbol` on top of the stack takes `token` from the input or ends
/// the parse, rather than give way to the symbol below it: a terminal does,
/// and so does a nonterminal that no rule expands on `token` or whose rule
/// puts something on the stack.
pub open spec fn ready(table: Seq<ParsingRuleView>, symbol: SymbolView, token: TokenView) -> bool {
    match symbol {
        SymbolView::Terminal(_) => true,
        SymbolView::NonTerminal(non_terminal) => match find_rule(table, non_terminal, token) {
            None => true,
            Some(rule) => pushed(rule.production).len() > 0,
        },
    }
}

/// Whether every expansion by `table` makes progress towards a token: no
/// production puts more than [`width`] symbols on the stack, no nonterminal
/// ranks higher than [`height`], and the symbol that an expansion puts on
/// top ranks lower than the nonterminal and is [`ready`] for the token that
/// chose the rule. A grammar in which a nonterminal can begin its own
/// expansion has no such ranks.
pub open spec fn progressive(table: Seq<ParsingRuleView>, rank: spec_fn(NonTerminal) -> nat) -> bool {
    forall|non_terminal: NonTerminal, token: TokenView|
        #![trigger find_rule(table, non_terminal, token)]
        rank(non_terminal) <= height() && (find_rule(table, non_terminal, token) matches Some(
            rule,
        ) ==> {
            let symbols = pushed(rule.production);
            symbols.len() <= width() && (symbols.len() > 0 ==> ready(
                table,
                symbols.last(),
                token,
            ) && depth(rank, symbols.last()) < rank(non_terminal))
        })
}

/// What a state may take off the count of its steps: a symbol on top that is
/// ready for the lookahead has the steps of its token partly behind it.
pub open spec fn discount(
    table: Seq<ParsingRuleView>,
    rank: spec_fn(NonTerminal) -> nat,
    tokens: Seq<TokenView>,
    state: ParserStateView,
) -> int {
    if state.cursor < tokens.len() && state.stack.len() > 0 && ready(
        table,
        state.stack.last(),
        tokens[state.cursor as int],
    ) {
        width() * (height() - depth(rank, state.stack.last()))
    } else {
        0
    }
}

/// A bound on the steps that the machine makes from `state`: the steps that
/// the tokens still to be read pay for, and one for each symbol on the
/// stack, less the discount.
pub open spec fn steps_bound(
    table: Seq<ParsingRuleView>,
    rank: spec_fn(NonTerminal) -> nat,
    tokens: Seq<TokenView>,
    state: ParserStateView,
) -> int {
    let left = if state.cursor < tokens.len() {
        tokens.len() - state.cursor
    } else {
        0
    };
    steps_per_token() * left + state.stack.len() - discount(table, rank, tokens, state)
}

/// Every step by a progressive table lowers the bound.
pub proof fn lemma_step_lowers_bound(
    table: Seq<ParsingRuleView>,
    rank: spec_fn(NonTerminal) -> nat,
    tokens: Seq<TokenView>,
    state: ParserStateView,
)
    requires
        progressive(table, rank),
        state.stack.len() > 0,
        step(table, tokens, state) is Ok,
    ensures
        0 <= steps_bound(table, rank, tokens, step(table, tokens, state)->Ok_0) < steps_bound(
            table,
            rank,
            tokens,
            state,
        ),
{
    let next = step(table, tokens, state)->Ok_0;
    lemma_discount_bounds(table, rank, tokens, state);
    lemma_discount_bounds(table, rank, tokens, next);
    match state.stack.last() {
        SymbolView::Terminal(expected) => {},
        SymbolView::NonTerminal(non_terminal) => {
            if state.cursor < tokens.len() {
                let token = tokens[state.cursor as int];
                let rule = find_rule(table, non_terminal, token).unwrap();
                let symbols = pushed(rule.production);
                assert(next.stack == state.stack.drop_last() + symbols);
                if symbols.len() > 0 {
                    assert(next.stack.last() == symbols.last());
                    assert(ready(table, state.stack.last(), token));
                    assert(ready(table, next.stack.last(), token));
                }
            }
        },
    }
}

/// The discount is at most the steps of one token, and there is none where
/// the rank of the symbol on top is not within the height.
proof fn lemma_discount_bounds(
    table: Seq<ParsingRuleView>,
    rank: spec_fn(NonTerminal) -> nat,
    tokens: Seq<TokenView>,
    state: ParserStateView,
)
    requires
        progressive(table, rank),
    ensures
        0 <= discount(table, rank, tokens, state) <= steps_per_token(),
        state.cursor >= tokens.len() ==> discount(table, rank, tokens, state) == 0,
{
    if state.stack.len() > 0 && state.cursor < tokens.len() {
        match state.stack.last() {
            SymbolView::Terminal(_) => {},
            SymbolView::NonTerminal(non_terminal) => {
                let token = tokens[state.cursor as int];
                let found = find_rule(table, non_terminal, token);
                assert(rank(non_terminal) <= height());
            },
        }
    }
}

/// The machine stops within the bound.
pub proof fn lemma_stops_within_bound(
    table: Seq<ParsingRuleView>,
    rank: spec_fn(NonTerminal) -> nat,
    tokens: Seq<TokenView>,
    state: ParserStateView,
    fuel: nat,
)
    requires
        progressive(table, rank),
        steps_bound(table, rank, tokens, state) <= fuel,
    ensures
        run(table, tokens, state, fuel) is Some,
    decreases fuel,
{
    if state.stack.len() > 0 {
        lemma_discount_bounds(table, rank, tokens, state);
        if let Ok(next) = step(table, tokens, state) {
            lemma_step_lowers_bound(table, rank, tokens, state);
            lemma_stops_within_bound(table, rank, tokens, next, (fuel - 1) as nat);
        }
    }
}

/// Termination: by a progressive table the machine stops on every input,
/// within forty-four steps for each token and one more.
pub proof fn lemma_progressive_table_halts(
    table: Seq<ParsingRuleView>,
    rank: spec_fn(NonTerminal) -> nat,
    tokens: Seq<TokenView>,
)
    requires
        progressive(table, rank),
    ensures
        run(table, tokens, initial_state(), steps_per_token() * tokens.len() + 1) is Some,
        steps_per_token() * tokens.len() + 1 <= usize::MAX ==> derivation_halts(table, tokens),
{
    lemma_discount_bounds(table, rank, tokens, initial_state());
    lemma_stops_within_bound(
        table,
        rank,
        tokens,
        initial_state(),
        steps_per_token() * tokens.len() + 1,
    );
}

} // verus!
