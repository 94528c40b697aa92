//! Termination of the language's own grammar: by it the machine stops on
//! every input.

use crate::lexer::reserved::Separator;
use crate::lexer::tokens::{Token, TokenView};
use crate::parser::derivation::{
    derivation_halts, epsilon, initial_state, is_derivation, outcome_view, parse, pushed, run,
    SyntaxError, AST,
};
use crate::parser::grammar::{
    find_rule, lemma_find_rule_is_first, rule_applies, separator, NonTerminal, ParsingRule,
    SymbolView,
};
use crate::parser::halting::{
    depth, lemma_progressive_table_halts, progressive, ready, steps_per_token,
};
use crate::parser::{language_grammar, language_rules};
use vstd::prelude::*;

verus! {

/// The rank of a nonterminal of the language: one more than the highest
/// rank among the nonterminals that begin its productions.
pub open spec fn language_rank(non_terminal: NonTerminal) -> nat {
    match non_terminal {
        NonTerminal::FuncBody => 4,
        NonTerminal::StmntList | NonTerminal::ExprFuncCallArgs => 3,
        NonTerminal::Program
        | NonTerminal::Statement
        | NonTerminal::Expr
        | NonTerminal::ExprCall => 2,
        _ => 1,
    }
}

/// The ranks of the nonterminals of the language.
pub open spec fn language_ranks() -> spec_fn(NonTerminal) -> nat {
    |non_terminal: NonTerminal| language_rank(non_terminal)
}

/// Whether every rule of the nonterminal derives something.
pub open spec fn always_derives(non_terminal: NonTerminal) -> bool {
    match non_terminal {
        NonTerminal::Func
        | NonTerminal::Enum
        | NonTerminal::Struct
        | NonTerminal::Statement
        | NonTerminal::StmntDecl
        | NonTerminal::StmntAssign
        | NonTerminal::Expr
        | NonTerminal::ExprOperand
        | NonTerminal::ExprFieldAccess => true,
        _ => false,
    }
}

/// A production without the empty mark goes on the stack whole, its first
/// symbol on top.
pub proof fn lemma_pushed_whole(production: Seq<SymbolView>)
    requires
        !production.contains(epsilon()),
    ensures
        pushed(production).len() == production.len(),
        production.len() > 0 ==> pushed(production).last() == production[0],
    decreases production.len(),
{
    if production.len() > 0 {
        let rest = production.drop_first();
        assert(production[0] != epsilon()) by {
            assert(production.contains(production[0]));
        }
        assert(!rest.contains(epsilon())) by {
            if rest.contains(epsilon()) {
                let k = choose|k: int| 0 <= k < rest.len() && rest[k] == epsilon();
                assert(production[k + 1] == epsilon());
                assert(production.contains(epsilon()));
            }
        }
        lemma_pushed_whole(rest);
    }
}

/// What the rules of the language have in common: a production holds one
/// symbol at least and eleven at most; one that derives something begins
/// with a symbol of lower rank than its nonterminal, and with a nonterminal
/// only where that always derives something or where the token that chose
/// the rule keeps it from deriving nothing.
proof fn lemma_language_rule(i: int)
    requires
        0 <= i < language_rules().len(),
    ensures
        ({
            let rule = language_rules()[i];
            let first = rule.production[0];
            &&& 1 <= rule.production.len() <= 11
            &&& rule.production.contains(epsilon()) ==> rule.production == seq![epsilon()]
            &&& always_derives(rule.non_terminal) ==> rule.production != seq![epsilon()]
            &&& rule.production != seq![epsilon()] ==> depth(language_ranks(), first)
                < language_rank(rule.non_terminal)
            &&& rule.production != seq![epsilon()] ==> (first matches SymbolView::NonTerminal(
                inner,
            ) ==> {
                ||| always_derives(inner)
                ||| inner == NonTerminal::StmntList && rule.non_terminal == NonTerminal::FuncBody
                    && i == 9
                ||| inner == NonTerminal::ExprFuncCall && rule.token == separator(
                    Separator::OpenParenthesis,
                )
                ||| inner == NonTerminal::ExprArrayAccess && rule.token == separator(
                    Separator::OpenBrackets,
                )
            })
            &&& rule.production == seq![epsilon()] ==> {
                &&& rule.non_terminal == NonTerminal::StmntList ==> rule.token == separator(
                    Separator::CloseCurlyBraces,
                )
                &&& rule.non_terminal == NonTerminal::ExprFuncCall ==> rule.token == separator(
                    Separator::CloseParenthesis,
                )
                &&& rule.non_terminal == NonTerminal::ExprArrayAccess ==> i == 32
            }
        }),
{
}

/// A rule of the language that derives something goes on the stack whole.
proof fn lemma_language_rule_pushed(i: int)
    requires
        0 <= i < language_rules().len(),
    ensures
        language_rules()[i].production == seq![epsilon()] ==> pushed(
            language_rules()[i].production,
        ).len() == 0,
        language_rules()[i].production != seq![epsilon()] ==> pushed(
            language_rules()[i].production,
        ).len() == language_rules()[i].production.len() && pushed(
            language_rules()[i].production,
        ).last() == language_rules()[i].production[0],
{
    let production = language_rules()[i].production;
    lemma_language_rule(i);
    if production == seq![epsilon()] {
        assert(production.drop_first() =~= Seq::empty());
        assert(pushed(production.drop_first()) =~= Seq::empty());
    } else {
        lemma_pushed_whole(production);
    }
}

/// The symbol that begins a production of the language is ready for every
/// token that chooses the production's rule.
proof fn lemma_language_rule_ready(i: int, token: TokenView)
    requires
        0 <= i < language_rules().len(),
        language_rules()[i].production != seq![epsilon()],
        rule_applies(language_rules()[i], language_rules()[i].non_terminal, token),
        forall|j: int|
            0 <= j < i ==> !rule_applies(
                #[trigger] language_rules()[j],
                language_rules()[i].non_terminal,
                token,
            ),
    ensures
        ready(language_rules(), language_rules()[i].production[0], token),
{
    let table = language_rules();
    let rule = table[i];
    lemma_language_rule(i);
    if let SymbolView::NonTerminal(inner) = rule.production[0] {
        lemma_find_rule_is_first(table, inner, token);
        if let Some(found) = find_rule(table, inner, token) {
            let k = choose|k: int|
                0 <= k < table.len() && #[trigger] table[k] == found && rule_applies(
                    table[k],
                    inner,
                    token,
                ) && forall|j: int| 0 <= j < k ==> !rule_applies(#[trigger] table[j], inner, token);
            lemma_language_rule(k);
            lemma_language_rule_pushed(k);
            if found.production == seq![epsilon()] {
                if inner == NonTerminal::StmntList {
                    // The rule that derives nothing from a function body comes first.
                    lemma_language_rule(8);
                    assert(!rule_applies(table[8], NonTerminal::FuncBody, token));
                    assert(false);
                } else if inner == NonTerminal::ExprArrayAccess {
                    // The rule that opens an array access comes first.
                    lemma_language_rule(31);
                    assert(!rule_applies(table[31], inner, token));
                    assert(false);
                } else {
                    assert(false);
                }
            }
        }
    }
}

/// The grammar of the language is progressive.
pub proof fn lemma_language_progressive()
    ensures
        progressive(language_rules(), language_ranks()),
{
    let table = language_rules();
    assert forall|non_terminal: NonTerminal, token: TokenView|
        #![trigger find_rule(table, non_terminal, token)]
        language_ranks()(non_terminal) <= 4 && (find_rule(table, non_terminal, token) matches Some(
            rule,
        ) ==> {
            let symbols = pushed(rule.production);
            symbols.len() <= 11 && (symbols.len() > 0 ==> ready(table, symbols.last(), token)
                && depth(language_ranks(), symbols.last()) < language_ranks()(non_terminal))
        }) by {
        lemma_find_rule_is_first(table, non_terminal, token);
        if let Some(rule) = find_rule(table, non_terminal, token) {
            let i = choose|i: int|
                0 <= i < table.len() && #[trigger] table[i] == rule && rule_applies(
                    table[i],
                    non_terminal,
                    token,
                ) && forall|j: int|
                    0 <= j < i ==> !rule_applies(#[trigger] table[j], non_terminal, token);
            lemma_language_rule(i);
            lemma_language_rule_pushed(i);
            if rule.production != seq![epsilon()] {
                lemma_language_rule_ready(i, token);
            }
        }
    }
}

/// Termination: by the grammar of the language the machine stops on every
/// input, within forty-four steps for each token and one more.
pub proof fn lemma_language_halts(tokens: Seq<TokenView>)
    ensures
        run(
            language_rules(),
            tokens,
            initial_state(),
            steps_per_token() * tokens.len() + 1,
        ) is Some,
        steps_per_token() * tokens.len() + 1 <= usize::MAX ==> derivation_halts(
            language_rules(),
            tokens,
        ),
{
    lemma_language_progressive();
    lemma_progressive_table_halts(language_rules(), language_ranks(), tokens);
}

/// Whether the steps of a parse of `length` tokens by the grammar of the
/// language can be counted.
pub fn is_parsable_length(length: usize) -> (r: bool)
    ensures
        r == (steps_per_token() * length + 1 <= usize::MAX),
{
    length <= (usize::MAX - 1) / 44
}

/// Parses `tokens` by the grammar of the language: the derivation trace, or
/// the first error. The input must be short enough for the steps of its
/// parse to be counted.
pub fn parse_program(tokens: &[Token]) -> (r: Result<AST, SyntaxError>)
    requires
        steps_per_token() * tokens.len() + 1 <= usize::MAX,
    ensures
        derivation_halts(language_rules(), tokens.deep_view()),
        outcome_view(r) == parse(language_rules(), tokens.deep_view()),
        r matches Ok(trace) ==> is_derivation(language_rules(), trace@),
{
    let table = language_grammar();
    proof {
        lemma_language_halts(tokens.deep_view());
    }
    ParsingRule::parse_with_table(tokens, table.as_slice())
}

} // verus!
