//! The parser engine: a pushdown machine that reads a token sequence by a
//! grammar table and records every expansion in a derivation trace.
//!
//! The machine is described twice. The spec functions [`step`] and [`run`]
//! say what it does on mathematical values; [`ParserState::step`] and
//! [`ParsingRule::parse_with_budget`] do it, and are proved to agree.

use crate::lexer::reserved::Separator;
use crate::lexer::tokens::{Token, TokenView};
use crate::parser::grammar::{
    accepts, find_rule, keyword_type, DataType, DataTypeView, NonTerminal, ParsingRule,
    ParsingRuleView, Symbol, SymbolView, Terminal, TerminalView,
};
use crate::parser::instances::{lemma_entries_are_rule_instances, trace_from_table};
use crate::parser::leftmost::{derives, lemma_trace_is_leftmost_derivation};
use vstd::prelude::*;

verus! {

/// The mathematical value of a derivation trace: one entry for each
/// expansion, the nonterminal with its production.
pub type TraceView = Seq<(NonTerminal, Seq<SymbolView>)>;

/// A derivation trace: the flat, ordered record of every expansion that a
/// parse made, each with its production as resolved against the input.
#[allow(clippy::upper_case_acronyms)]
#[derive(Debug, PartialEq)]
pub struct AST(pub Vec<(NonTerminal, Vec<Symbol>)>);

impl View for AST {
    type V = TraceView;

    open spec fn view(&self) -> TraceView {
        self.0.deep_view()
    }
}

impl DeepView for AST {
    type V = TraceView;

    open spec fn deep_view(&self) -> TraceView {
        self@
    }
}

/// Why a parse stopped.
#[derive(Debug, PartialEq)]
pub enum SyntaxError {
    /// The terminal class on the stack does not accept the token found at
    /// the position.
    UnexpectedToken(Terminal, Token, usize),
    /// No rule expands the nonterminal on the token found at the position.
    NoRule(NonTerminal, Token, usize),
    /// The machine stopped at a position beyond the end of the input.
    UnconsumedInput(usize),
}

/// The mathematical value of a [`SyntaxError`].
pub enum SyntaxErrorView {
    UnexpectedToken(TerminalView, TokenView, nat),
    NoRule(NonTerminal, TokenView, nat),
    UnconsumedInput(nat),
}

impl View for SyntaxError {
    type V = SyntaxErrorView;

    open spec fn view(&self) -> SyntaxErrorView {
        match *self {
            SyntaxError::UnexpectedToken(expected, found, position) => {
                SyntaxErrorView::UnexpectedToken(expected@, found@, position as nat)
            },
            SyntaxError::NoRule(non_terminal, found, position) => SyntaxErrorView::NoRule(
                non_terminal,
                found@,
                position as nat,
            ),
            SyntaxError::UnconsumedInput(position) => SyntaxErrorView::UnconsumedInput(
                position as nat,
            ),
        }
    }
}

impl DeepView for SyntaxError {
    type V = SyntaxErrorView;

    open spec fn deep_view(&self) -> SyntaxErrorView {
        self@
    }
}

/// The mathematical value of the outcome of a parse.
pub open spec fn outcome_view(outcome: Result<AST, SyntaxError>) -> Result<
    TraceView,
    SyntaxErrorView,
> {
    match outcome {
        Ok(trace) => Ok(trace@),
        Err(error) => Err(error@),
    }
}

/// What a slot of a production becomes when `token` is read while the
/// terminal class `expected` is on top of the stack.
///
/// An identifier fills the type slots when a type is expected and the
/// identifier slots otherwise; a literal fills the literal slots; a type
/// keyword fills the type slots; an operator fills the operator slots when
/// such an operator is expected. Every other slot stays as it is.
pub open spec fn resolve_slot(
    slot: SymbolView,
    token: TokenView,
    expected: TerminalView,
) -> SymbolView {
    match token {
        TokenView::Identifier(name) => if expected is DataType {
            if slot matches SymbolView::Terminal(TerminalView::DataType(_)) {
                SymbolView::Terminal(TerminalView::DataType(DataTypeView::Identifier(name)))
            } else {
                slot
            }
        } else {
            if slot matches SymbolView::Terminal(TerminalView::Token(TokenView::Identifier(_))) {
                SymbolView::Terminal(TerminalView::Token(token))
            } else {
                slot
            }
        },
        TokenView::Literal(_) => if slot matches SymbolView::Terminal(
            TerminalView::Token(TokenView::Literal(_)),
        ) {
            SymbolView::Terminal(TerminalView::Token(token))
        } else {
            slot
        },
        TokenView::ReservedWord(word) => match keyword_type(word) {
            Some(data_type) => if slot matches SymbolView::Terminal(TerminalView::DataType(_)) {
                SymbolView::Terminal(TerminalView::DataType(data_type))
            } else {
                slot
            },
            None => slot,
        },
        TokenView::Operator(operator) => if expected is UnaryOperator
            && slot matches SymbolView::Terminal(TerminalView::UnaryOperator(_)) {
            SymbolView::Terminal(TerminalView::UnaryOperator(operator))
        } else {
            slot
        },
        _ => slot,
    }
}

/// A production with every slot resolved against `token`.
pub open spec fn resolve_production(
    production: Seq<SymbolView>,
    token: TokenView,
    expected: TerminalView,
) -> Seq<SymbolView> {
    Seq::new(production.len(), |i: int| resolve_slot(production[i], token, expected))
}

/// Back-substitution: the trace with the production of its most recent
/// entry resolved against `token`. An empty trace stays empty.
pub open spec fn back_substitute(
    trace: TraceView,
    token: TokenView,
    expected: TerminalView,
) -> TraceView {
    if trace.len() == 0 {
        trace
    } else {
        trace.update(
            trace.len() - 1,
            (trace.last().0, resolve_production(trace.last().1, token, expected)),
        )
    }
}

/// The state of the machine between two steps.
pub struct ParserStateView {
    /// The symbols still to be derived, the next one last.
    pub stack: Seq<SymbolView>,
    /// The position of the lookahead in the input.
    pub cursor: nat,
    /// The expansions made so far.
    pub trace: TraceView,
}

/// The state in which every parse starts.
pub open spec fn initial_state() -> ParserStateView {
    ParserStateView {
        stack: seq![SymbolView::NonTerminal(NonTerminal::Program)],
        cursor: 0,
        trace: Seq::empty(),
    }
}

/// The token that stands for the end of the input.
pub open spec fn end_of_input() -> TokenView {
    TokenView::Separator(Separator::NewLine)
}

/// The lookahead: the token at `cursor`, or the end of the input.
pub open spec fn lookahead(tokens: Seq<TokenView>, cursor: nat) -> TokenView {
    if cursor < tokens.len() {
        tokens[cursor as int]
    } else {
        end_of_input()
    }
}

/// The bare mark of an empty production.
pub open spec fn epsilon() -> SymbolView {
    SymbolView::Terminal(TerminalView::Epsilon)
}

/// What an expansion leaves on the stack: the symbols of the production in
/// reverse, so that the first is derived first, without any bare empty mark.
pub open spec fn pushed(production: Seq<SymbolView>) -> Seq<SymbolView>
    decreases production.len(),
{
    if production.len() == 0 {
        Seq::empty()
    } else {
        let rest = pushed(production.drop_first());
        if production[0] == epsilon() {
            rest
        } else {
            rest.push(production[0])
        }
    }
}

/// One step of the machine from a state whose stack is not empty: the next
/// state, or the error that ends the parse.
///
/// A terminal class on top of the stack first resolves the most recent trace
/// entry against the token at the cursor, if there is one, and then must
/// accept the lookahead, which it consumes. A nonterminal is dropped when the
/// input is exhausted; otherwise the first rule that applies is recorded in
/// the trace and its production replaces the nonterminal on the stack.
pub open spec fn step(
    table: Seq<ParsingRuleView>,
    tokens: Seq<TokenView>,
    state: ParserStateView,
) -> Result<ParserStateView, SyntaxErrorView>
    recommends
        state.stack.len() > 0,
{
    let rest = state.stack.drop_last();
    match state.stack.last() {
        SymbolView::Terminal(expected) => {
            let trace = if state.cursor < tokens.len() {
                back_substitute(state.trace, tokens[state.cursor as int], expected)
            } else {
                state.trace
            };
            let found = lookahead(tokens, state.cursor);
            if accepts(expected, found) {
                Ok(
                    ParserStateView {
                        stack: rest,
                        cursor: if expected is Epsilon {
                            state.cursor
                        } else {
                            state.cursor + 1
                        },
                        trace,
                    },
                )
            } else {
                Err(SyntaxErrorView::UnexpectedToken(expected, found, state.cursor))
            }
        },
        SymbolView::NonTerminal(non_terminal) => {
            if state.cursor >= tokens.len() {
                Ok(ParserStateView { stack: rest, cursor: state.cursor, trace: state.trace })
            } else {
                let found = tokens[state.cursor as int];
                match find_rule(table, non_terminal, found) {
                    None => Err(SyntaxErrorView::NoRule(non_terminal, found, state.cursor)),
                    Some(rule) => Ok(
                        ParserStateView {
                            stack: rest + pushed(rule.production),
                            cursor: state.cursor,
                            trace: state.trace.push((non_terminal, rule.production)),
                        },
                    ),
                }
            }
        },
    }
}

/// What the machine reports when its stack is empty: the trace, unless the
/// cursor went beyond the end of the input. Input that was not consumed is
/// no error.
pub open spec fn verdict(tokens: Seq<TokenView>, state: ParserStateView) -> Result<
    TraceView,
    SyntaxErrorView,
> {
    if state.cursor <= tokens.len() {
        Ok(state.trace)
    } else {
        Err(SyntaxErrorView::UnconsumedInput(state.cursor))
    }
}

/// The outcome of running the machine from `state` for at most `fuel` steps;
/// `None` when it has not stopped by then.
pub open spec fn run(
    table: Seq<ParsingRuleView>,
    tokens: Seq<TokenView>,
    state: ParserStateView,
    fuel: nat,
) -> Option<Result<TraceView, SyntaxErrorView>>
    decreases fuel,
{
    if state.stack.len() == 0 {
        Some(verdict(tokens, state))
    } else if fuel == 0 {
        None
    } else {
        match step(table, tokens, state) {
            Err(error) => Some(Err(error)),
            Ok(next) => run(table, tokens, next, (fuel - 1) as nat),
        }
    }
}

/// Whether the machine stops on `tokens` within as many steps as the
/// hardware can count. A grammar that expands a nonterminal into itself
/// without consuming input never stops.
pub open spec fn derivation_halts(table: Seq<ParsingRuleView>, tokens: Seq<TokenView>) -> bool {
    exists|fuel: nat| fuel <= usize::MAX && (#[trigger] run(
        table,
        tokens,
        initial_state(),
        fuel,
    )) is Some
}

/// The outcome of parsing `tokens` by `table`, where the machine stops.
pub open spec fn parse(table: Seq<ParsingRuleView>, tokens: Seq<TokenView>) -> Result<
    TraceView,
    SyntaxErrorView,
>
    recommends
        derivation_halts(table, tokens),
{
    let fuel = choose|fuel: nat| fuel <= usize::MAX && (#[trigger] run(
        table,
        tokens,
        initial_state(),
        fuel,
    )) is Some;
    run(table, tokens, initial_state(), fuel).unwrap()
}

/// Once the machine has stopped, more fuel changes nothing.
pub proof fn lemma_run_stable(
    table: Seq<ParsingRuleView>,
    tokens: Seq<TokenView>,
    state: ParserStateView,
    fuel: nat,
    more: nat,
)
    requires
        run(table, tokens, state, fuel) is Some,
        fuel <= more,
    ensures
        run(table, tokens, state, more) == run(table, tokens, state, fuel),
    decreases fuel,
{
    if state.stack.len() > 0 {
        if let Ok(next) = step(table, tokens, state) {
            lemma_run_stable(table, tokens, next, (fuel - 1) as nat, (more - 1) as nat);
        }
    }
}

/// Determinism: what a parse ends with depends on the table and the tokens
/// alone. However many steps the machine is given, where it stops it stops
/// with the same trace or the same error.
pub proof fn lemma_parse_deterministic(
    table: Seq<ParsingRuleView>,
    tokens: Seq<TokenView>,
    fuel: nat,
    other_fuel: nat,
)
    requires
        run(table, tokens, initial_state(), fuel) is Some,
        run(table, tokens, initial_state(), other_fuel) is Some,
    ensures
        run(table, tokens, initial_state(), fuel) == run(
            table,
            tokens,
            initial_state(),
            other_fuel,
        ),
{
    if fuel <= other_fuel {
        lemma_run_stable(table, tokens, initial_state(), fuel, other_fuel);
    } else {
        lemma_run_stable(table, tokens, initial_state(), other_fuel, fuel);
    }
}

/// Determinism of the parser: whatever two parses of the same tokens by the
/// same table hand out is the same trace or the same error.
pub proof fn lemma_parses_agree(
    table: Seq<ParsingRuleView>,
    tokens: Seq<TokenView>,
    first: Result<AST, SyntaxError>,
    second: Result<AST, SyntaxError>,
)
    requires
        outcome_view(first) == parse(table, tokens),
        outcome_view(second) == parse(table, tokens),
    ensures
        outcome_view(first) == outcome_view(second),
        first is Ok <==> second is Ok,
{
}

/// Determinism, whatever the budgets: two parses of the same tokens by the
/// same table that both stop within their budgets hand out the same trace,
/// entry by entry, or the same error, and two parses with the same budget
/// hand out the same in every case. Nothing is asked of the table.
pub proof fn lemma_bounded_parses_agree(
    table: Seq<ParsingRuleView>,
    tokens: Seq<TokenView>,
    budget: nat,
    other_budget: nat,
    first: Option<Result<AST, SyntaxError>>,
    second: Option<Result<AST, SyntaxError>>,
)
    requires
        bounded_outcome_view(first) == run(table, tokens, initial_state(), budget),
        bounded_outcome_view(second) == run(table, tokens, initial_state(), other_budget),
    ensures
        budget == other_budget ==> bounded_outcome_view(first) == bounded_outcome_view(second),
        first is Some && second is Some ==> bounded_outcome_view(first) == bounded_outcome_view(
            second,
        ),
        first is Some && second is Some ==> (first->0 is Ok <==> second->0 is Ok),
        first is Some && second is Some && first->0 is Ok ==> first->0->Ok_0@.len()
            == second->0->Ok_0@.len() && forall|i: int|
            0 <= i < first->0->Ok_0@.len() ==> first->0->Ok_0@[i] == second->0->Ok_0@[i],
        first is Some && second is Some && first->0 is Err ==> first->0->Err_0@
            == second->0->Err_0@,
{
    if first is Some && second is Some {
        lemma_parse_deterministic(table, tokens, budget, other_budget);
    }
}

/// Where the machine stops within `fuel` steps, it stops with the outcome
/// that [`parse`] names.
pub proof fn lemma_parse_is_the_outcome(
    table: Seq<ParsingRuleView>,
    tokens: Seq<TokenView>,
    fuel: nat,
)
    requires
        fuel <= usize::MAX,
        run(table, tokens, initial_state(), fuel) is Some,
    ensures
        derivation_halts(table, tokens),
        run(table, tokens, initial_state(), fuel) == Some(parse(table, tokens)),
{
    let chosen = choose|chosen: nat|
        chosen <= usize::MAX && (#[trigger] run(table, tokens, initial_state(), chosen)) is Some;
    lemma_parse_deterministic(table, tokens, fuel, chosen);
}

/// The empty production: expanding a nonterminal by a rule whose production
/// is the empty mark alone records the expansion and does nothing else. The
/// cursor stays where it is and nothing is put on the stack.
pub proof fn lemma_epsilon_production(
    table: Seq<ParsingRuleView>,
    tokens: Seq<TokenView>,
    state: ParserStateView,
    non_terminal: NonTerminal,
)
    requires
        state.stack.len() > 0,
        state.stack.last() == SymbolView::NonTerminal(non_terminal),
        state.cursor < tokens.len(),
        find_rule(table, non_terminal, tokens[state.cursor as int]) matches Some(rule)
            && rule.production == seq![epsilon()],
    ensures
        step(table, tokens, state) == Ok::<ParserStateView, SyntaxErrorView>(
            ParserStateView {
                stack: state.stack.drop_last(),
                cursor: state.cursor,
                trace: state.trace.push((non_terminal, seq![epsilon()])),
            },
        ),
{
    let production = seq![epsilon()];
    assert(production.drop_first() =~= Seq::empty());
    assert(pushed(production.drop_first()) =~= Seq::empty());
    assert(pushed(production) =~= Seq::empty());
    assert(state.stack.drop_last() + pushed(production) =~= state.stack.drop_last());
}

/// No step moves the cursor back, and none moves it by more than one token.
pub proof fn lemma_step_cursor(
    table: Seq<ParsingRuleView>,
    tokens: Seq<TokenView>,
    state: ParserStateView,
)
    requires
        state.stack.len() > 0,
        step(table, tokens, state) is Ok,
    ensures
        state.cursor <= step(table, tokens, state)->Ok_0.cursor <= state.cursor + 1,
{
}

/// Whether a trace is a derivation by the table: its entries are instances
/// of rules of the table, and they stand in the order of a leftmost
/// derivation of the start symbol.
pub open spec fn is_derivation(table: Seq<ParsingRuleView>, trace: TraceView) -> bool {
    trace_from_table(table, trace) && derives(
        seq![SymbolView::NonTerminal(NonTerminal::Program)],
        trace,
        0,
        trace.len() as int,
    )
}

/// The trace of a successful parse is a derivation by the table.
pub proof fn lemma_trace_is_derivation(
    table: Seq<ParsingRuleView>,
    tokens: Seq<TokenView>,
    fuel: nat,
)
    ensures
        run(table, tokens, initial_state(), fuel) matches Some(Ok(trace)) ==> is_derivation(
            table,
            trace,
        ),
{
    if let Some(Ok(trace)) = run(table, tokens, initial_state(), fuel) {
        lemma_entries_are_rule_instances(table, tokens, fuel, trace);
        lemma_trace_is_leftmost_derivation(table, tokens, fuel, trace);
    }
}

/// The resolved form of one slot.
fn resolve_symbol(slot: &Symbol, token: &Token, expected: &Terminal) -> (r: Option<Symbol>)
    ensures
        match r {
            Some(symbol) => symbol@ == resolve_slot(slot@, token@, expected@),
            None => slot@ == resolve_slot(slot@, token@, expected@),
        },
{
    match token {
        Token::Identifier(name) => match expected {
            Terminal::DataType(_) => match slot {
                Symbol::Terminal(Terminal::DataType(_)) => Some(
                    Symbol::Terminal(Terminal::DataType(DataType::Identifier(name.clone()))),
                ),
                _ => None,
            },
            _ => match slot {
                Symbol::Terminal(Terminal::Token(Token::Identifier(_))) => Some(
                    Symbol::Terminal(Terminal::Token(Token::Identifier(name.clone()))),
                ),
                _ => None,
            },
        },
        Token::Literal(literal) => match slot {
            Symbol::Terminal(Terminal::Token(Token::Literal(_))) => Some(
                Symbol::Terminal(Terminal::Token(Token::Literal(literal.clone()))),
            ),
            _ => None,
        },
        Token::ReservedWord(word) => match DataType::try_from(*word) {
            Ok(data_type) => match slot {
                Symbol::Terminal(Terminal::DataType(_)) => Some(
                    Symbol::Terminal(Terminal::DataType(data_type)),
                ),
                _ => None,
            },
            Err(_) => None,
        },
        Token::Operator(operator) => match expected {
            Terminal::UnaryOperator(_) => match slot {
                Symbol::Terminal(Terminal::UnaryOperator(_)) => Some(
                    Symbol::Terminal(Terminal::UnaryOperator(*operator)),
                ),
                _ => None,
            },
            _ => None,
        },
        _ => None,
    }
}

/// Resolves every slot of `symbols` against `token`.
pub fn update_symbols_in_production(
    symbols: &mut Vec<Symbol>,
    token: &Token,
    expected: &Terminal,
)
    ensures
        final(symbols).deep_view() == resolve_production(
            old(symbols).deep_view(),
            token@,
            expected@,
        ),
{
    let ghost before = symbols.deep_view();
    let n = symbols.len();
    let mut i: usize = 0;
    while i < n
        invariant
            i <= n,
            n == symbols.len(),
            before.len() == n,
            forall|k: int| 0 <= k < i ==> (#[trigger] symbols[k])@ == resolve_slot(
                before[k],
                token@,
                expected@,
            ),
            forall|k: int| i <= k < n ==> (#[trigger] symbols[k])@ == before[k],
        decreases n - i,
    {
        if let Some(symbol) = resolve_symbol(&symbols[i], token, expected) {
            symbols[i] = symbol;
        }
        i += 1;
    }
    assert(symbols.deep_view() =~= resolve_production(before, token@, expected@));
}

/// Back-substitution: resolves the production of the most recent entry of
/// the trace against `token`, read while `expected` was on top of the stack.
pub fn update_production_with_token_value(
    token: &Token,
    expected: &Terminal,
    raw_productions: &mut Vec<(NonTerminal, Vec<Symbol>)>,
)
    ensures
        final(raw_productions).deep_view() == back_substitute(
            old(raw_productions).deep_view(),
            token@,
            expected@,
        ),
{
    let ghost before = raw_productions.deep_view();
    match raw_productions.pop() {
        Some((non_terminal, mut production)) => {
            let ghost rest = raw_productions.deep_view();
            assert(rest =~= before.drop_last());
            assert(before.last() == (non_terminal, production.deep_view()));
            update_symbols_in_production(&mut production, token, expected);
            raw_productions.push((non_terminal, production));
            assert(raw_productions.deep_view() =~= back_substitute(before, token@, expected@));
        },
        None => {
            assert(raw_productions.deep_view() =~= before);
        },
    }
}

/// The machine: the symbols still to be derived, the position in the input,
/// and the expansions made so far.
#[derive(Debug, PartialEq)]
pub struct ParserState {
    /// The symbols still to be derived, the next one last.
    pub stack: Vec<Symbol>,
    /// The position of the lookahead in the input.
    pub cursor: usize,
    /// The expansions made so far.
    pub trace: Vec<(NonTerminal, Vec<Symbol>)>,
}

impl View for ParserState {
    type V = ParserStateView;

    open spec fn view(&self) -> ParserStateView {
        ParserStateView {
            stack: self.stack.deep_view(),
            cursor: self.cursor as nat,
            trace: self.trace.deep_view(),
        }
    }
}

impl ParserState {
    /// The state in which every parse starts: the start symbol on the stack,
    /// the cursor on the first token, no expansion made.
    pub fn new() -> (state: ParserState)
        ensures
            state@ == initial_state(),
    {
        let mut stack = Vec::new();
        stack.push(Symbol::NonTerminal(NonTerminal::Program));
        let state = ParserState { stack, cursor: 0, trace: Vec::new() };
        assert(state@.stack =~= initial_state().stack);
        assert(state@.trace =~= initial_state().trace);
        state
    }

    /// Whether nothing is left to derive.
    pub fn is_done(&self) -> (done: bool)
        ensures
            done == (self@.stack.len() == 0),
    {
        self.stack.len() == 0
    }

    /// Puts the symbols of `production` on the stack, the first one on top.
    fn push_production(&mut self, production: &Vec<Symbol>)
        ensures
            final(self)@.stack == old(self)@.stack + pushed(production.deep_view()),
            final(self).cursor == old(self).cursor,
            final(self).trace == old(self).trace,
    {
        let ghost base = self@.stack;
        let ghost symbols = production.deep_view();
        let mut i: usize = production.len();
        assert(symbols.subrange(i as int, symbols.len() as int) =~= Seq::empty());
        assert(self@.stack =~= base + pushed(Seq::empty()));
        while i > 0
            invariant
                i <= production.len(),
                symbols == production.deep_view(),
                self@.stack == base + pushed(symbols.subrange(i as int, symbols.len() as int)),
                self.cursor == old(self).cursor,
                self.trace == old(self).trace,
            decreases i,
        {
            i -= 1;
            let ghost tail = symbols.subrange(i as int, symbols.len() as int);
            assert(tail.drop_first() =~= symbols.subrange(i as int + 1, symbols.len() as int));
            assert(tail[0] == symbols[i as int]);
            if !production[i].is_epsilon() {
                let ghost stack_before = self@.stack;
                self.stack.push(production[i].clone());
                assert(self@.stack =~= stack_before.push(symbols[i as int]));
                assert(self@.stack =~= base + pushed(tail));
            }
        }
        assert(symbols.subrange(0, symbols.len() as int) =~= symbols);
    }

    /// Makes one step: pops the top of the stack and matches or expands it.
    /// After an error the state is of no further use.
    pub fn step(&mut self, tokens: &[Token], table: &[ParsingRule]) -> (r: Result<(), SyntaxError>)
        requires
            old(self)@.stack.len() > 0,
            old(self).cursor < usize::MAX,
        ensures
            match step(table.deep_view(), tokens.deep_view(), old(self)@) {
                Ok(next) => r is Ok && final(self)@ == next,
                Err(error) => r matches Err(e) && e@ == error,
            },
    {
        let ghost before = self@;
        let top = self.stack.pop().unwrap();
        assert(self@.stack =~= before.stack.drop_last());
        assert(top@ == before.stack.last());
        match top {
            Symbol::Terminal(expected) => {
                if self.cursor < tokens.len() {
                    update_production_with_token_value(
                        &tokens[self.cursor],
                        &expected,
                        &mut self.trace,
                    );
                    if ParsingRule::matches_token(&expected, &tokens[self.cursor]) {
                        if let Terminal::Epsilon = expected {
                        } else {
                            self.cursor += 1;
                        }
                        Ok(())
                    } else {
                        Err(
                            SyntaxError::UnexpectedToken(
                                expected,
                                tokens[self.cursor].clone(),
                                self.cursor,
                            ),
                        )
                    }
                } else {
                    let end = Token::Separator(Separator::NewLine);
                    if ParsingRule::matches_token(&expected, &end) {
                        if let Terminal::Epsilon = expected {
                        } else {
                            self.cursor += 1;
                        }
                        Ok(())
                    } else {
                        Err(SyntaxError::UnexpectedToken(expected, end, self.cursor))
                    }
                }
            },
            Symbol::NonTerminal(non_terminal) => {
                if self.cursor >= tokens.len() {
                    return Ok(());
                }
                let found = &tokens[self.cursor];
                match ParsingRule::find_rule(table, &non_terminal, found) {
                    None => Err(SyntaxError::NoRule(non_terminal, found.clone(), self.cursor)),
                    Some(rule) => {
                        self.push_production(&rule.production);
                        let ghost trace_before = self@.trace;
                        self.trace.push((non_terminal, rule.production.clone()));
                        assert(self@.trace =~= trace_before.push(
                            (non_terminal, rule@.production),
                        ));
                        Ok(())
                    },
                }
            },
        }
    }

    /// Ends the parse: hands out the trace, or the error of a cursor that
    /// went beyond the end of the input.
    pub fn finish(self, tokens: &[Token]) -> (r: Result<AST, SyntaxError>)
        ensures
            outcome_view(r) == verdict(tokens.deep_view(), self@),
    {
        if self.cursor <= tokens.len() {
            Ok(AST(self.trace))
        } else {
            Err(SyntaxError::UnconsumedInput(self.cursor))
        }
    }
}

/// The mathematical value of what a bounded parse returns.
pub open spec fn bounded_outcome_view(outcome: Option<Result<AST, SyntaxError>>) -> Option<
    Result<TraceView, SyntaxErrorView>,
> {
    match outcome {
        Some(result) => Some(outcome_view(result)),
        None => None,
    }
}

impl ParsingRule {
    /// Parses `tokens` by `table`, making at most `budget` steps: the trace
    /// or the error with which the machine stopped, or `None` when it was
    /// still running after `budget` steps.
    pub fn parse_with_budget(tokens: &[Token], table: &[ParsingRule], budget: usize) -> (r: Option<
        Result<AST, SyntaxError>,
    >)
        ensures
            bounded_outcome_view(r) == run(
                table.deep_view(),
                tokens.deep_view(),
                initial_state(),
                budget as nat,
            ),
            r matches Some(Ok(trace)) ==> is_derivation(table.deep_view(), trace@),
    {
        proof {
            lemma_trace_is_derivation(table.deep_view(), tokens.deep_view(), budget as nat);
        }
        let mut state = ParserState::new();
        let mut steps: usize = 0;
        while !state.is_done()
            invariant
                steps <= budget,
                state.cursor <= steps,
                run(table.deep_view(), tokens.deep_view(), state@, (budget - steps) as nat) == run(
                    table.deep_view(),
                    tokens.deep_view(),
                    initial_state(),
                    budget as nat,
                ),
            decreases budget - steps,
        {
            if steps == budget {
                return None;
            }
            match state.step(tokens, table) {
                Err(error) => {
                    return Some(Err(error));
                },
                Ok(()) => {},
            }
            steps += 1;
        }
        Some(state.finish(tokens))
    }

    /// Parses `tokens` by `table`: the derivation trace, or the first error.
    ///
    /// The grammar must let the machine stop on this input; a table that
    /// expands a nonterminal into itself without consuming input does not.
    pub fn parse_with_table(tokens: &[Token], table: &[ParsingRule]) -> (r: Result<
        AST,
        SyntaxError,
    >)
        requires
            derivation_halts(table.deep_view(), tokens.deep_view()),
        ensures
            outcome_view(r) == parse(table.deep_view(), tokens.deep_view()),
            r matches Ok(trace) ==> is_derivation(table.deep_view(), trace@),
    {
        let outcome = ParsingRule::parse_with_budget(tokens, table, usize::MAX);
        proof {
            let fuel = choose|fuel: nat|
                fuel <= usize::MAX && (#[trigger] run(
                    table.deep_view(),
                    tokens.deep_view(),
                    initial_state(),
                    fuel,
                )) is Some;
            lemma_run_stable(
                table.deep_view(),
                tokens.deep_view(),
                initial_state(),
                fuel,
                usize::MAX as nat,
            );
        }
        outcome.unwrap()
    }
}

} // verus!
