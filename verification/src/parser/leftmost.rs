//! The order of a derivation trace: the entries of a successful parse stand
//! in the order of a leftmost derivation. An entry comes before the entries
//! that expand the nonterminals of its own production, and these come one
//! nonterminal after the other, in the order of the production.

use crate::lexer::tokens::TokenView;
use crate::parser::derivation::{
    back_substitute, epsilon, initial_state, pushed, resolve_slot, run, step, ParserStateView,
    SyntaxErrorView, TraceView,
};
use crate::parser::grammar::{NonTerminal, ParsingRuleView, SymbolView, TerminalView};
use vstd::prelude::*;

verus! {

/// Names a position of a trace as the boundary between the expansions of two
/// neighbouring symbols. It holds of every position: it gives the prover a
/// term to look for.
pub open spec fn boundary(position: int) -> bool {
    true
}

/// Whether the entries of `trace` at `from` up to `to` are the expansions of
/// `symbols`, in the order of a leftmost derivation.
///
/// A terminal is expanded by nothing. A nonterminal is expanded by one entry
/// that bears its name, followed by the expansions of that entry's own
/// production; after these come the expansions of the symbols that follow
/// the nonterminal. Where the input ran out, a nonterminal and all that
/// follows it are expanded by nothing.
pub open spec fn derives(symbols: Seq<SymbolView>, trace: TraceView, from: int, to: int) -> bool
    decreases to - from, symbols.len(),
{
    if symbols.len() == 0 {
        from == to
    } else {
        match symbols[0] {
            SymbolView::Terminal(_) => derives(symbols.drop_first(), trace, from, to),
            SymbolView::NonTerminal(non_terminal) => {
                ||| from == to
                ||| {
                    &&& 0 <= from < to <= trace.len()
                    &&& trace[from].0 == non_terminal
                    &&& exists|mid: int|
                        #![trigger boundary(mid)]
                        boundary(mid) && from < mid <= to && derives(
                            trace[from].1,
                            trace,
                            from + 1,
                            mid,
                        ) && derives(symbols.drop_first(), trace, mid, to)
                }
            },
        }
    }
}

/// Whether two symbols are the same nonterminal, or both terminals.
pub open spec fn alike(a: SymbolView, b: SymbolView) -> bool {
    match (a, b) {
        (SymbolView::NonTerminal(x), SymbolView::NonTerminal(y)) => x == y,
        (SymbolView::Terminal(_), SymbolView::Terminal(_)) => true,
        _ => false,
    }
}

/// Whether two productions are alike symbol by symbol.
pub open spec fn productions_alike(a: Seq<SymbolView>, b: Seq<SymbolView>) -> bool {
    a.len() == b.len() && forall|i: int| 0 <= i < a.len() ==> alike(#[trigger] a[i], b[i])
}

/// Whether `later` begins with the entries of `earlier`, up to what the
/// terminal slots hold.
pub open spec fn continues(earlier: TraceView, later: TraceView) -> bool {
    earlier.len() <= later.len() && forall|i: int|
        0 <= i < earlier.len() ==> (#[trigger] earlier[i]).0 == later[i].0 && productions_alike(
            earlier[i].1,
            later[i].1,
        )
}

proof fn lemma_continues_transitive(a: TraceView, b: TraceView, c: TraceView)
    requires
        continues(a, b),
        continues(b, c),
    ensures
        continues(a, c),
{
    assert forall|i: int| 0 <= i < a.len() implies (#[trigger] a[i]).0 == c[i].0
        && productions_alike(a[i].1, c[i].1) by {
        assert(a[i].0 == b[i].0);
        assert(b[i].0 == c[i].0);
        assert(productions_alike(a[i].1, b[i].1));
        assert(productions_alike(b[i].1, c[i].1));
        assert forall|k: int| 0 <= k < a[i].1.len() implies alike(#[trigger] a[i].1[k], c[i].1[k]) by {
            assert(alike(a[i].1[k], b[i].1[k]));
            assert(alike(b[i].1[k], c[i].1[k]));
        }
    }
}

/// Back-substitution changes what terminal slots hold and nothing else.
proof fn lemma_back_substitute_continues(
    trace: TraceView,
    token: TokenView,
    expected: TerminalView,
)
    ensures
        continues(trace, back_substitute(trace, token, expected)),
        back_substitute(trace, token, expected).len() == trace.len(),
{
    let after = back_substitute(trace, token, expected);
    assert forall|i: int| 0 <= i < trace.len() implies (#[trigger] trace[i]).0 == after[i].0
        && productions_alike(trace[i].1, after[i].1) by {
        assert forall|k: int| 0 <= k < trace[i].1.len() implies alike(
            #[trigger] trace[i].1[k],
            after[i].1[k],
        ) by {
            let slot = trace[i].1[k];
            assert(alike(slot, slot));
            assert(alike(slot, resolve_slot(slot, token, expected)));
        }
    }
}

/// A step keeps the entries made so far, up to what the terminal slots hold.
proof fn lemma_step_continues(
    table: Seq<ParsingRuleView>,
    tokens: Seq<TokenView>,
    state: ParserStateView,
)
    requires
        state.stack.len() > 0,
        step(table, tokens, state) is Ok,
    ensures
        continues(state.trace, step(table, tokens, state)->Ok_0.trace),
{
    let next = step(table, tokens, state)->Ok_0;
    match state.stack.last() {
        SymbolView::Terminal(expected) => {
            if state.cursor < tokens.len() {
                lemma_back_substitute_continues(
                    state.trace,
                    tokens[state.cursor as int],
                    expected,
                );
            } else {
                lemma_continues_reflexive(state.trace);
            }
        },
        SymbolView::NonTerminal(_) => {
            lemma_continues_reflexive(state.trace);
            if state.cursor < tokens.len() {
                assert forall|i: int| 0 <= i < state.trace.len() implies (
                #[trigger] state.trace[i]).0 == next.trace[i].0 && productions_alike(
                    state.trace[i].1,
                    next.trace[i].1,
                ) by {
                    assert(next.trace[i] == state.trace[i]);
                }
            }
        },
    }
}

proof fn lemma_continues_reflexive(trace: TraceView)
    ensures
        continues(trace, trace),
{
    assert forall|i: int| 0 <= i < trace.len() implies (#[trigger] trace[i]).0 == trace[i].0
        && productions_alike(trace[i].1, trace[i].1) by {
        assert forall|k: int| 0 <= k < trace[i].1.len() implies alike(
            #[trigger] trace[i].1[k],
            trace[i].1[k],
        ) by {
            let slot = trace[i].1[k];
            match slot {
                SymbolView::NonTerminal(_) => {},
                SymbolView::Terminal(_) => {},
            }
        }
    }
}

/// The trace that a parse ends with continues every trace it passed through.
proof fn lemma_run_continues(
    table: Seq<ParsingRuleView>,
    tokens: Seq<TokenView>,
    state: ParserStateView,
    fuel: nat,
)
    requires
        run(table, tokens, state, fuel) matches Some(Ok(_)),
    ensures
        continues(state.trace, run(table, tokens, state, fuel).unwrap()->Ok_0),
    decreases fuel,
{
    if state.stack.len() == 0 {
        lemma_continues_reflexive(state.trace);
    } else {
        let next = step(table, tokens, state)->Ok_0;
        lemma_step_continues(table, tokens, state);
        lemma_run_continues(table, tokens, next, (fuel - 1) as nat);
        lemma_continues_transitive(
            state.trace,
            next.trace,
            run(table, tokens, state, fuel).unwrap()->Ok_0,
        );
    }
}

/// Once the input is exhausted, the trace stays as it is.
proof fn lemma_exhausted_input(
    table: Seq<ParsingRuleView>,
    tokens: Seq<TokenView>,
    state: ParserStateView,
    fuel: nat,
)
    requires
        state.cursor >= tokens.len(),
        run(table, tokens, state, fuel) matches Some(Ok(_)),
    ensures
        run(table, tokens, state, fuel).unwrap()->Ok_0 == state.trace,
    decreases fuel,
{
    if state.stack.len() > 0 {
        let next = step(table, tokens, state)->Ok_0;
        lemma_exhausted_input(table, tokens, next, (fuel - 1) as nat);
    }
}

/// Nothing expands any symbols where no entry is left for them.
proof fn lemma_derives_nothing(symbols: Seq<SymbolView>, trace: TraceView, at: int)
    ensures
        derives(symbols, trace, at, at),
    decreases symbols.len(),
{
    if symbols.len() > 0 {
        lemma_derives_nothing(symbols.drop_first(), trace, at);
    }
}

/// What expands a production in one trace expands every production like it
/// in every trace that continues the first.
proof fn lemma_derives_alike(
    symbols: Seq<SymbolView>,
    trace: TraceView,
    from: int,
    to: int,
    other_symbols: Seq<SymbolView>,
    other_trace: TraceView,
)
    requires
        derives(symbols, trace, from, to),
        productions_alike(symbols, other_symbols),
        continues(trace, other_trace),
        0 <= from <= to <= trace.len(),
    ensures
        derives(other_symbols, other_trace, from, to),
    decreases to - from, symbols.len(),
{
    if symbols.len() == 0 {
    } else {
        assert(alike(symbols[0], other_symbols[0]));
        let rest = symbols.drop_first();
        let other_rest = other_symbols.drop_first();
        assert(productions_alike(rest, other_rest)) by {
            assert forall|i: int| 0 <= i < rest.len() implies alike(
                #[trigger] rest[i],
                other_rest[i],
            ) by {
                assert(alike(symbols[i + 1], other_symbols[i + 1]));
            }
        }
        match symbols[0] {
            SymbolView::Terminal(_) => {
                lemma_derives_alike(rest, trace, from, to, other_rest, other_trace);
            },
            SymbolView::NonTerminal(non_terminal) => {
                if from != to {
                    let mid = choose|mid: int|
                        #![trigger boundary(mid)]
                        boundary(mid) && from < mid <= to && derives(
                            trace[from].1,
                            trace,
                            from + 1,
                            mid,
                        ) && derives(symbols.drop_first(), trace, mid, to);
                    assert(trace[from].0 == other_trace[from].0);
                    assert(productions_alike(trace[from].1, other_trace[from].1));
                    lemma_derives_alike(
                        trace[from].1,
                        trace,
                        from + 1,
                        mid,
                        other_trace[from].1,
                        other_trace,
                    );
                    lemma_derives_alike(rest, trace, mid, to, other_rest, other_trace);
                    assert(boundary(mid));
                }
            },
        }
    }
}

/// The machine derives the symbols on top of its stack one after the other:
/// a parse that succeeds from a stack that holds `symbols` above `base`
/// passes through a state with the stack `base`, and the entries made until
/// then are the expansions of `symbols`. Returns the cursor and the trace of
/// that state and the steps that are left from there.
proof fn lemma_derives_segment(
    table: Seq<ParsingRuleView>,
    tokens: Seq<TokenView>,
    base: Seq<SymbolView>,
    symbols: Seq<SymbolView>,
    cursor: nat,
    trace: TraceView,
    fuel: nat,
) -> (r: (nat, TraceView, nat))
    requires
        run(
            table,
            tokens,
            ParserStateView { stack: base + pushed(symbols), cursor, trace },
            fuel,
        ) matches Some(Ok(_)),
    ensures
        r.2 <= fuel,
        run(table, tokens, ParserStateView { stack: base, cursor: r.0, trace: r.1 }, r.2) == run(
            table,
            tokens,
            ParserStateView { stack: base + pushed(symbols), cursor, trace },
            fuel,
        ),
        continues(trace, r.1),
        derives(symbols, r.1, trace.len() as int, r.1.len() as int),
    decreases fuel, symbols.len(),
{
    let state = ParserStateView { stack: base + pushed(symbols), cursor, trace };
    if symbols.len() == 0 {
        assert(base + pushed(symbols) =~= base);
        lemma_continues_reflexive(trace);
        (cursor, trace, fuel)
    } else {
        let rest = symbols.drop_first();
        if symbols[0] == epsilon() {
            lemma_derives_segment(table, tokens, base, rest, cursor, trace, fuel)
        } else {
            assert(state.stack =~= (base + pushed(rest)).push(symbols[0]));
            assert(state.stack.drop_last() =~= base + pushed(rest));
            let next = step(table, tokens, state)->Ok_0;
            lemma_step_continues(table, tokens, state);
            match symbols[0] {
                SymbolView::Terminal(_) => {
                    let r = lemma_derives_segment(
                        table,
                        tokens,
                        base,
                        rest,
                        next.cursor,
                        next.trace,
                        (fuel - 1) as nat,
                    );
                    lemma_continues_transitive(trace, next.trace, r.1);
                    if cursor < tokens.len() {
                        lemma_back_substitute_continues(
                            trace,
                            tokens[cursor as int],
                            symbols[0]->Terminal_0,
                        );
                    }
                    r
                },
                SymbolView::NonTerminal(non_terminal) => {
                    if cursor >= tokens.len() {
                        let r = lemma_derives_segment(
                            table,
                            tokens,
                            base,
                            rest,
                            cursor,
                            trace,
                            (fuel - 1) as nat,
                        );
                        let middle = ParserStateView { stack: base, cursor: r.0, trace: r.1 };
                        lemma_run_continues(table, tokens, middle, r.2);
                        lemma_exhausted_input(table, tokens, next, (fuel - 1) as nat);
                        r
                    } else {
                        let production = next.trace.last().1;
                        assert(next.stack =~= (base + pushed(rest)) + pushed(production));
                        let inner = lemma_derives_segment(
                            table,
                            tokens,
                            base + pushed(rest),
                            production,
                            cursor,
                            next.trace,
                            (fuel - 1) as nat,
                        );
                        let r = lemma_derives_segment(
                            table,
                            tokens,
                            base,
                            rest,
                            inner.0,
                            inner.1,
                            inner.2,
                        );
                        let at = trace.len() as int;
                        let mid = inner.1.len() as int;
                        lemma_continues_transitive(next.trace, inner.1, r.1);
                        lemma_continues_transitive(trace, next.trace, r.1);
                        assert(next.trace[at] == (non_terminal, production));
                        assert(r.1[at].0 == non_terminal);
                        assert(productions_alike(production, r.1[at].1));
                        lemma_derives_alike(production, inner.1, at + 1, mid, r.1[at].1, r.1);
                        assert(boundary(mid));
                        r
                    }
                },
            }
        }
    }
}

/// Trace ordering: the trace of a successful parse is a leftmost derivation
/// of the start symbol. The entry of a nonterminal stands before the entries
/// that expand its production, and the expansions of two nonterminals of one
/// production stand in the order of the production.
pub proof fn lemma_trace_is_leftmost_derivation(
    table: Seq<ParsingRuleView>,
    tokens: Seq<TokenView>,
    fuel: nat,
    trace: TraceView,
)
    requires
        run(table, tokens, initial_state(), fuel) == Some(
            Ok::<TraceView, SyntaxErrorView>(trace),
        ),
    ensures
        derives(
            seq![SymbolView::NonTerminal(NonTerminal::Program)],
            trace,
            0,
            trace.len() as int,
        ),
{
    let start = seq![SymbolView::NonTerminal(NonTerminal::Program)];
    assert(pushed(start) =~= start) by {
        assert(start.drop_first() =~= Seq::empty());
        assert(pushed(start.drop_first()) =~= Seq::empty());
    }
    assert(Seq::<SymbolView>::empty() + pushed(start) =~= initial_state().stack);
    let r = lemma_derives_segment(table, tokens, Seq::empty(), start, 0, Seq::empty(), fuel);
}

/// Within a leftmost derivation, every entry is followed at once by the
/// expansions of its own production.
proof fn lemma_entry_within(
    symbols: Seq<SymbolView>,
    trace: TraceView,
    from: int,
    to: int,
    at: int,
)
    requires
        derives(symbols, trace, from, to),
        from <= at < to,
    ensures
        exists|end: int|
            #![trigger boundary(end)]
            boundary(end) && at < end <= to && derives(trace[at].1, trace, at + 1, end),
    decreases to - from, symbols.len(),
{
    let rest = symbols.drop_first();
    match symbols[0] {
        SymbolView::Terminal(_) => {
            lemma_entry_within(rest, trace, from, to, at);
        },
        SymbolView::NonTerminal(_) => {
            let mid = choose|mid: int|
                #![trigger boundary(mid)]
                boundary(mid) && from < mid <= to && derives(trace[from].1, trace, from + 1, mid)
                    && derives(rest, trace, mid, to);
            if at == from {
                assert(boundary(mid));
            } else if at < mid {
                lemma_entry_within(trace[from].1, trace, from + 1, mid, at);
            } else {
                lemma_entry_within(rest, trace, mid, to, at);
            }
        },
    }
}

/// Trace ordering, entry by entry: in the trace of a successful parse every
/// entry is followed at once by the expansions of the nonterminals of its
/// own production, one nonterminal after the other in the order of the
/// production.
pub proof fn lemma_entries_precede_their_expansions(
    table: Seq<ParsingRuleView>,
    tokens: Seq<TokenView>,
    fuel: nat,
    trace: TraceView,
    at: int,
)
    requires
        run(table, tokens, initial_state(), fuel) == Some(
            Ok::<TraceView, SyntaxErrorView>(trace),
        ),
        0 <= at < trace.len(),
    ensures
        exists|end: int|
            #![trigger boundary(end)]
            boundary(end) && at < end <= trace.len() && derives(trace[at].1, trace, at + 1, end),
{
    lemma_trace_is_leftmost_derivation(table, tokens, fuel, trace);
    lemma_entry_within(
        seq![SymbolView::NonTerminal(NonTerminal::Program)],
        trace,
        0,
        trace.len() as int,
        at,
    );
}

/// A derivation of a production falls into the derivation of its first `n`
/// symbols and that of the rest. Returns where the one ends and the other
/// begins.
proof fn lemma_derives_split(
    symbols: Seq<SymbolView>,
    trace: TraceView,
    from: int,
    to: int,
    n: int,
) -> (mid: int)
    requires
        derives(symbols, trace, from, to),
        0 <= n <= symbols.len(),
        from <= to,
    ensures
        from <= mid <= to,
        derives(symbols.take(n), trace, from, mid),
        derives(symbols.skip(n), trace, mid, to),
    decreases n,
{
    if n == 0 {
        assert(symbols.skip(0) =~= symbols);
        lemma_derives_nothing(symbols.take(0), trace, from);
        from
    } else {
        let rest = symbols.drop_first();
        let head = symbols.take(n);
        assert(head.drop_first() =~= rest.take(n - 1));
        assert(symbols.skip(n) =~= rest.skip(n - 1));
        assert(head[0] == symbols[0]);
        match symbols[0] {
            SymbolView::Terminal(_) => lemma_derives_split(rest, trace, from, to, n - 1),
            SymbolView::NonTerminal(_) => {
                if from == to {
                    lemma_derives_nothing(head, trace, from);
                    lemma_derives_nothing(symbols.skip(n), trace, from);
                    from
                } else {
                    let first = choose|first: int|
                        #![trigger boundary(first)]
                        boundary(first) && from < first <= to && derives(
                            trace[from].1,
                            trace,
                            from + 1,
                            first,
                        ) && derives(rest, trace, first, to);
                    let mid = lemma_derives_split(rest, trace, first, to, n - 1);
                    assert(boundary(first));
                    mid
                }
            },
        }
    }
}

/// Where the nonterminal in the place `slot` of a production is expanded:
/// returns the position of its entry and the position behind the last entry
/// of its expansion. The two are one where the input ran out before the
/// nonterminal was reached.
proof fn lemma_slot_expansion(
    symbols: Seq<SymbolView>,
    trace: TraceView,
    from: int,
    to: int,
    slot: int,
) -> (r: (int, int))
    requires
        derives(symbols, trace, from, to),
        from <= to,
        0 <= slot < symbols.len(),
        symbols[slot] is NonTerminal,
    ensures
        from <= r.0 <= r.1 <= to,
        derives(symbols.take(slot), trace, from, r.0),
        r.0 < r.1 ==> SymbolView::NonTerminal(trace[r.0].0) == symbols[slot] && derives(
            trace[r.0].1,
            trace,
            r.0 + 1,
            r.1,
        ),
        r.0 == r.1 ==> r.0 == to,
        derives(symbols.skip(slot + 1), trace, r.1, to),
{
    let entry = lemma_derives_split(symbols, trace, from, to, slot);
    let rest = symbols.skip(slot);
    assert(rest[0] == symbols[slot]);
    assert(rest.drop_first() =~= symbols.skip(slot + 1));
    if entry == to {
        lemma_derives_nothing(symbols.skip(slot + 1), trace, to);
        (entry, entry)
    } else {
        let end = choose|end: int|
            #![trigger boundary(end)]
            boundary(end) && entry < end <= to && derives(trace[entry].1, trace, entry + 1, end)
                && derives(rest.drop_first(), trace, end, to);
        (entry, end)
    }
}

/// Trace ordering, by positions: in the trace of a successful parse, take
/// the entry at `at` and two nonterminals of its production, the one in an
/// earlier place than the other. Returns, for the earlier and then for the
/// later, the position of its entry and the position behind the last entry
/// of its expansion.
///
/// The entry of the earlier nonterminal stands after the entry at `at`; its
/// expansion fills the positions up to the returned end, which are the
/// expansions of its own production; the entry of the later nonterminal
/// stands behind all of these. Where the input ran out before a nonterminal
/// was reached, its two positions are one, and so are those of every
/// nonterminal after it.
pub proof fn lemma_siblings_in_order(
    table: Seq<ParsingRuleView>,
    tokens: Seq<TokenView>,
    fuel: nat,
    trace: TraceView,
    at: int,
    earlier: int,
    later: int,
) -> (r: (int, int, int, int))
    requires
        run(table, tokens, initial_state(), fuel) == Some(
            Ok::<TraceView, SyntaxErrorView>(trace),
        ),
        0 <= at < trace.len(),
        0 <= earlier < later < trace[at].1.len(),
        trace[at].1[earlier] is NonTerminal,
        trace[at].1[later] is NonTerminal,
    ensures
        at < r.0 <= r.1 <= r.2 <= r.3 <= trace.len(),
        r.0 < r.1 ==> SymbolView::NonTerminal(trace[r.0].0) == trace[at].1[earlier] && derives(
            trace[r.0].1,
            trace,
            r.0 + 1,
            r.1,
        ),
        r.2 < r.3 ==> SymbolView::NonTerminal(trace[r.2].0) == trace[at].1[later] && derives(
            trace[r.2].1,
            trace,
            r.2 + 1,
            r.3,
        ),
        r.0 == r.1 ==> r.2 == r.3,
{
    lemma_entries_precede_their_expansions(table, tokens, fuel, trace, at);
    let end = choose|end: int|
        #![trigger boundary(end)]
        boundary(end) && at < end <= trace.len() && derives(trace[at].1, trace, at + 1, end);
    let symbols = trace[at].1;
    let first = lemma_slot_expansion(symbols, trace, at + 1, end, earlier);
    let rest = symbols.skip(earlier + 1);
    assert(rest[later - earlier - 1] == symbols[later]);
    let second = lemma_slot_expansion(rest, trace, first.1, end, later - earlier - 1);
    (first.0, first.1, second.0, second.1)
}

} // verus!
