//! The grammar model: terminal classes, nonterminals, symbols and parsing
//! rules, and the two questions asked of a grammar table: does a terminal
//! class accept a token, and which rule expands a nonterminal on a lookahead.

use crate::lexer::reserved::{Operator, ReservedWord, Separator};
use crate::lexer::tokens::{Literal, LiteralView, Token, TokenView};
use vstd::prelude::*;
use vstd::std_specs::cmp::PartialEqSpecImpl;
use vstd::std_specs::convert::{FromSpecImpl, TryFromSpecImpl};

verus! {

/// A grammar category.
#[derive(Clone, Copy, Debug, PartialEq, Eq, Hash, Structural)]
pub enum NonTerminal {
    Program,
    Struct,
    Enum,
    EnumBody,
    StructBody,
    Func,
    FuncArgument,
    FuncBody,
    Statement,
    StmntList,
    StmntAssign,
    StmntDecl,
    StmntElse,
    StmntCase,
    Expr,
    ExprOperand,
    ExprOperation,
    ExprCall,
    ExprFuncCall,
    ExprArrayAccess,
    ExprFieldAccess,
    ExprFuncCallArgs,
}

impl View for NonTerminal {
    type V = NonTerminal;

    open spec fn view(&self) -> NonTerminal {
        *self
    }
}

impl DeepView for NonTerminal {
    type V = NonTerminal;

    open spec fn deep_view(&self) -> NonTerminal {
        *self
    }
}

/// The kinds of statement of the language.
#[derive(Clone, Copy, Debug, PartialEq, Eq, Hash, Structural)]
pub enum Statement {
    Declaration,
    Assignment,
    FunctionCall,
    Return,
    If,
    While,
    For,
    Break,
    Continue,
    Block,
}

/// The type of a value: a primitive type, or a user type known by its name.
#[derive(Debug)]
pub enum DataType {
    Int,
    Long,
    Float,
    Double,
    Void,
    Str,
    Char,
    Bool,
    Identifier(String),
}

/// The mathematical value of a [`DataType`].
pub enum DataTypeView {
    Int,
    Long,
    Float,
    Double,
    Void,
    Str,
    Char,
    Bool,
    Identifier(Seq<char>),
}

impl View for DataType {
    type V = DataTypeView;

    open spec fn view(&self) -> DataTypeView {
        match *self {
            DataType::Int => DataTypeView::Int,
            DataType::Long => DataTypeView::Long,
            DataType::Float => DataTypeView::Float,
            DataType::Double => DataTypeView::Double,
            DataType::Void => DataTypeView::Void,
            DataType::Str => DataTypeView::Str,
            DataType::Char => DataTypeView::Char,
            DataType::Bool => DataTypeView::Bool,
            DataType::Identifier(name) => DataTypeView::Identifier(name@),
        }
    }
}

impl DeepView for DataType {
    type V = DataTypeView;

    open spec fn deep_view(&self) -> DataTypeView {
        self@
    }
}

impl Clone for DataType {
    fn clone(&self) -> (r: Self)
        ensures
            r == *self,
    {
        match self {
            DataType::Int => DataType::Int,
            DataType::Long => DataType::Long,
            DataType::Float => DataType::Float,
            DataType::Double => DataType::Double,
            DataType::Void => DataType::Void,
            DataType::Str => DataType::Str,
            DataType::Char => DataType::Char,
            DataType::Bool => DataType::Bool,
            DataType::Identifier(name) => DataType::Identifier(name.clone()),
        }
    }
}

impl PartialEq for DataType {
    fn eq(&self, other: &DataType) -> (r: bool) {
        match (self, other) {
            (DataType::Int, DataType::Int) => true,
            (DataType::Long, DataType::Long) => true,
            (DataType::Float, DataType::Float) => true,
            (DataType::Double, DataType::Double) => true,
            (DataType::Void, DataType::Void) => true,
            (DataType::Str, DataType::Str) => true,
            (DataType::Char, DataType::Char) => true,
            (DataType::Bool, DataType::Bool) => true,
            (DataType::Identifier(a), DataType::Identifier(b)) => *a == *b,
            _ => false,
        }
    }
}

impl PartialEqSpecImpl for DataType {
    open spec fn obeys_eq_spec() -> bool {
        true
    }

    /// Two types are equal when they are the same primitive type or user
    /// types of the same name.
    open spec fn eq_spec(&self, other: &DataType) -> bool {
        self@ == other@
    }
}

/// The primitive type that a type keyword names, if it names one.
pub open spec fn keyword_type(word: ReservedWord) -> Option<DataTypeView> {
    match word {
        ReservedWord::Int => Some(DataTypeView::Int),
        ReservedWord::Long => Some(DataTypeView::Long),
        ReservedWord::Float => Some(DataTypeView::Float),
        ReservedWord::Double => Some(DataTypeView::Double),
        ReservedWord::Void => Some(DataTypeView::Void),
        ReservedWord::Str => Some(DataTypeView::Str),
        ReservedWord::Char => Some(DataTypeView::Char),
        ReservedWord::Bool => Some(DataTypeView::Bool),
        _ => None,
    }
}

/// The type of a literal: the primitive type of its own kind.
pub open spec fn literal_type(literal: LiteralView) -> DataTypeView {
    match literal {
        LiteralView::Int(_) => DataTypeView::Int,
        LiteralView::Long(_) => DataTypeView::Long,
        LiteralView::Float(_) => DataTypeView::Float,
        LiteralView::Double(_) => DataTypeView::Double,
        LiteralView::Str(_) => DataTypeView::Str,
        LiteralView::Char(_) => DataTypeView::Char,
        LiteralView::Bool(_) => DataTypeView::Bool,
    }
}

impl DataType {
    /// The type of `literal`, without consuming it.
    pub fn of_literal(literal: &Literal) -> (r: DataType)
        ensures
            r@ == literal_type(literal@),
            !(r is Identifier),
    {
        match literal {
            Literal::Int(_) => DataType::Int,
            Literal::Long(_) => DataType::Long,
            Literal::Float(_) => DataType::Float,
            Literal::Double(_) => DataType::Double,
            Literal::Str(_) => DataType::Str,
            Literal::Char(_) => DataType::Char,
            Literal::Bool(_) => DataType::Bool,
        }
    }
}

impl TryFrom<ReservedWord> for DataType {
    type Error = ();

    fn try_from(value: ReservedWord) -> (r: Result<DataType, ()>) {
        match value {
            ReservedWord::Int => Ok(DataType::Int),
            ReservedWord::Long => Ok(DataType::Long),
            ReservedWord::Float => Ok(DataType::Float),
            ReservedWord::Void => Ok(DataType::Void),
            ReservedWord::Double => Ok(DataType::Double),
            ReservedWord::Str => Ok(DataType::Str),
            ReservedWord::Char => Ok(DataType::Char),
            ReservedWord::Bool => Ok(DataType::Bool),
            _ => Err(()),
        }
    }
}

impl TryFromSpecImpl<ReservedWord> for DataType {
    open spec fn obeys_try_from_spec() -> bool {
        true
    }

    open spec fn try_from_spec(value: ReservedWord) -> Result<DataType, ()> {
        match value {
            ReservedWord::Int => Ok(DataType::Int),
            ReservedWord::Long => Ok(DataType::Long),
            ReservedWord::Float => Ok(DataType::Float),
            ReservedWord::Void => Ok(DataType::Void),
            ReservedWord::Double => Ok(DataType::Double),
            ReservedWord::Str => Ok(DataType::Str),
            ReservedWord::Char => Ok(DataType::Char),
            ReservedWord::Bool => Ok(DataType::Bool),
            _ => Err(()),
        }
    }
}

impl From<Literal> for DataType {
    fn from(value: Literal) -> (r: DataType) {
        DataType::of_literal(&value)
    }
}

impl FromSpecImpl<Literal> for DataType {
    open spec fn obeys_from_spec() -> bool {
        true
    }

    open spec fn from_spec(value: Literal) -> DataType {
        match value {
            Literal::Int(_) => DataType::Int,
            Literal::Long(_) => DataType::Long,
            Literal::Float(_) => DataType::Float,
            Literal::Double(_) => DataType::Double,
            Literal::Str(_) => DataType::Str,
            Literal::Char(_) => DataType::Char,
            Literal::Bool(_) => DataType::Bool,
        }
    }
}

/// A terminal class: a matcher against a token. In a derivation trace a
/// wildcard slot holds the concrete value that the matched token carried.
#[derive(Debug, PartialEq)]
pub enum Terminal {
    /// A token by its tag; an identifier or a literal with any payload.
    Token(Token),
    /// A type keyword, or an identifier naming a user type.
    DataType(DataType),
    /// One of the operators that combine two operands.
    UnaryOperator(Operator),
    /// An assignment, increment or decrement operator.
    ReassignOp,
    /// Every token, the end of input too.
    Any,
    /// Nothing: the mark of an empty production.
    Epsilon,
}

/// The mathematical value of a [`Terminal`].
pub enum TerminalView {
    Token(TokenView),
    DataType(DataTypeView),
    UnaryOperator(Operator),
    ReassignOp,
    Any,
    Epsilon,
}

impl View for Terminal {
    type V = TerminalView;

    open spec fn view(&self) -> TerminalView {
        match *self {
            Terminal::Token(t) => TerminalView::Token(t@),
            Terminal::DataType(d) => TerminalView::DataType(d@),
            Terminal::UnaryOperator(o) => TerminalView::UnaryOperator(o),
            Terminal::ReassignOp => TerminalView::ReassignOp,
            Terminal::Any => TerminalView::Any,
            Terminal::Epsilon => TerminalView::Epsilon,
        }
    }
}

impl DeepView for Terminal {
    type V = TerminalView;

    open spec fn deep_view(&self) -> TerminalView {
        self@
    }
}

impl Clone for Terminal {
    fn clone(&self) -> (r: Self)
        ensures
            r == *self,
    {
        match self {
            Terminal::Token(t) => Terminal::Token(t.clone()),
            Terminal::DataType(d) => Terminal::DataType(d.clone()),
            Terminal::UnaryOperator(o) => Terminal::UnaryOperator(*o),
            Terminal::ReassignOp => Terminal::ReassignOp,
            Terminal::Any => Terminal::Any,
            Terminal::Epsilon => Terminal::Epsilon,
        }
    }
}

/// One symbol of a production.
#[derive(Debug, PartialEq)]
pub enum Symbol {
    NonTerminal(NonTerminal),
    Terminal(Terminal),
}

/// The mathematical value of a [`Symbol`].
pub enum SymbolView {
    NonTerminal(NonTerminal),
    Terminal(TerminalView),
}

impl View for Symbol {
    type V = SymbolView;

    open spec fn view(&self) -> SymbolView {
        match *self {
            Symbol::NonTerminal(n) => SymbolView::NonTerminal(n),
            Symbol::Terminal(t) => SymbolView::Terminal(t@),
        }
    }
}

impl DeepView for Symbol {
    type V = SymbolView;

    open spec fn deep_view(&self) -> SymbolView {
        self@
    }
}

impl Clone for Symbol {
    fn clone(&self) -> (r: Self)
        ensures
            r == *self,
    {
        match self {
            Symbol::NonTerminal(n) => Symbol::NonTerminal(*n),
            Symbol::Terminal(t) => Symbol::Terminal(t.clone()),
        }
    }
}

impl Symbol {
    /// Whether the symbol is the bare mark of an empty production.
    pub fn is_epsilon(&self) -> (r: bool)
        ensures
            r == (self@ == SymbolView::Terminal(TerminalView::Epsilon)),
    {
        match self {
            Symbol::Terminal(Terminal::Epsilon) => true,
            _ => false,
        }
    }
}

/// A rule of the grammar: on `token` as lookahead, `non_terminal` expands to
/// `production`.
#[derive(Debug, PartialEq)]
pub struct ParsingRule {
    pub non_terminal: NonTerminal,
    pub token: Terminal,
    pub production: Vec<Symbol>,
}

/// The mathematical value of a [`ParsingRule`].
#[verifier::ext_equal]
pub struct ParsingRuleView {
    pub non_terminal: NonTerminal,
    pub token: TerminalView,
    pub production: Seq<SymbolView>,
}

impl View for ParsingRule {
    type V = ParsingRuleView;

    open spec fn view(&self) -> ParsingRuleView {
        ParsingRuleView {
            non_terminal: self.non_terminal,
            token: self.token@,
            production: self.production.deep_view(),
        }
    }
}

impl DeepView for ParsingRule {
    type V = ParsingRuleView;

    open spec fn deep_view(&self) -> ParsingRuleView {
        self@
    }
}

impl Clone for ParsingRule {
    fn clone(&self) -> (r: Self)
        ensures
            r@ == self@,
    {
        let production = self.production.clone();
        assert(production.deep_view() =~= self.production.deep_view());
        ParsingRule {
            non_terminal: self.non_terminal,
            token: self.token.clone(),
            production,
        }
    }
}

/// The terminal class of one keyword.
pub open spec fn keyword(word: ReservedWord) -> TerminalView {
    TerminalView::Token(TokenView::ReservedWord(word))
}

/// The terminal class of one separator.
pub open spec fn separator(mark: Separator) -> TerminalView {
    TerminalView::Token(TokenView::Separator(mark))
}

/// The terminal class of one operator.
pub open spec fn operator(sign: Operator) -> TerminalView {
    TerminalView::Token(TokenView::Operator(sign))
}

/// The terminal class of identifiers, as a grammar table writes it: an
/// identifier slot not yet resolved.
pub open spec fn identifier_class() -> TerminalView {
    TerminalView::Token(TokenView::Identifier(Seq::empty()))
}

/// The terminal class of literals, as a grammar table writes it.
pub open spec fn literal_class() -> TerminalView {
    TerminalView::Token(TokenView::Literal(LiteralView::Int(0)))
}

/// The terminal class of types, as a grammar table writes it.
pub open spec fn type_class() -> TerminalView {
    TerminalView::DataType(DataTypeView::Int)
}

/// The terminal class of the operators that combine two operands, as a
/// grammar table writes it.
pub open spec fn operator_class() -> TerminalView {
    TerminalView::UnaryOperator(Operator::Increment)
}

/// A nonterminal as a symbol of a production.
pub open spec fn nonterminal(non_terminal: NonTerminal) -> SymbolView {
    SymbolView::NonTerminal(non_terminal)
}

/// A terminal class as a symbol of a production.
pub open spec fn terminal(class: TerminalView) -> SymbolView {
    SymbolView::Terminal(class)
}

/// A rule, written in one line.
pub open spec fn rule_view(
    non_terminal: NonTerminal,
    token: TerminalView,
    production: Seq<SymbolView>,
) -> ParsingRuleView {
    ParsingRuleView { non_terminal, token, production }
}

impl Terminal {
    /// The terminal class of one keyword.
    pub fn keyword(word: ReservedWord) -> (r: Terminal)
        ensures
            r@ == keyword(word),
    {
        Terminal::Token(Token::ReservedWord(word))
    }

    /// The terminal class of one separator.
    pub fn separator(mark: Separator) -> (r: Terminal)
        ensures
            r@ == separator(mark),
    {
        Terminal::Token(Token::Separator(mark))
    }

    /// The terminal class of one operator.
    pub fn operator(sign: Operator) -> (r: Terminal)
        ensures
            r@ == operator(sign),
    {
        Terminal::Token(Token::Operator(sign))
    }
}

/// The terminal class of identifiers.
pub fn id() -> (r: Terminal)
    ensures
        r@ == identifier_class(),
{
    Terminal::Token(Token::Identifier(String::new()))
}

/// The terminal class of literals.
pub fn literal() -> (r: Terminal)
    ensures
        r@ == literal_class(),
{
    Terminal::Token(Token::Literal(Literal::Int(0)))
}

/// The terminal class of types.
pub fn typed() -> (r: Terminal)
    ensures
        r@ == type_class(),
{
    Terminal::DataType(DataType::Int)
}

/// The terminal class of the operators that combine two operands.
pub fn unary_op() -> (r: Terminal)
    ensures
        r@ == operator_class(),
{
    Terminal::UnaryOperator(Operator::Increment)
}

impl ParsingRule {
    /// A rule that expands `non_terminal` on `token`, its production still
    /// empty.
    pub fn new(non_terminal: NonTerminal, token: Terminal) -> (r: ParsingRule)
        ensures
            r@ == rule_view(non_terminal, token@, Seq::empty()),
    {
        let r = ParsingRule { non_terminal, token, production: Vec::new() };
        assert(r@.production =~= Seq::empty());
        r
    }

    /// The rule with `symbol` added at the end of its production.
    pub fn with(self, symbol: Symbol) -> (r: ParsingRule)
        ensures
            r@ == rule_view(self@.non_terminal, self@.token, self@.production.push(symbol@)),
    {
        let mut rule = self;
        rule.production.push(symbol);
        assert(rule@.production =~= self@.production.push(symbol@));
        rule
    }
}

/// A grammar table: rules in the order in which they are tried.
pub type Grammar = Vec<ParsingRule>;

/// Adds the rules of `part` at the end of `table`.
pub fn extend(table: &mut Grammar, part: Grammar)
    ensures
        final(table).deep_view() == old(table).deep_view() + part.deep_view(),
{
    let mut part = part;
    let ghost rules = part.deep_view();
    table.append(&mut part);
    assert(table.deep_view() =~= old(table).deep_view() + rules);
}

/// A language construct that brings its own rules to the grammar table.
pub trait Parser {
    /// The rules of the construct, in table order.
    spec fn rules() -> Seq<ParsingRuleView>;

    /// Builds the rules of the construct. Every production is well formed.
    fn parsing_table() -> (table: Grammar)
        ensures
            table.deep_view() == Self::rules(),
            grammar_well_formed(table.deep_view()),
    ;
}

/// Whether `token` can stand where a type is expected: a type keyword, or an
/// identifier, which may name a user type.
pub open spec fn is_data_type(token: TokenView) -> bool {
    match token {
        TokenView::ReservedWord(word) => keyword_type(word) is Some,
        TokenView::Identifier(_) => true,
        _ => false,
    }
}

/// Whether `operator` combines two operands of an expression.
pub open spec fn is_unary_operator(operator: Operator) -> bool {
    match operator {
        Operator::GreaterThanOrEqual
        | Operator::LessThanOrEqual
        | Operator::Equality
        | Operator::Inequality
        | Operator::Negation
        | Operator::Sum
        | Operator::Subtraction
        | Operator::Multiplication
        | Operator::Division
        | Operator::GreaterThan
        | Operator::LessThan => true,
        _ => false,
    }
}

/// Whether `operator` stores into a variable.
pub open spec fn is_reassign_operator(operator: Operator) -> bool {
    match operator {
        Operator::Assignment | Operator::Increment | Operator::Decrement => true,
        _ => false,
    }
}

/// Whether the terminal class `expected` accepts the token `actual`.
///
/// An exact token matches by tag: keywords, separators and operators must be
/// the same one, identifiers and literals match whatever they carry, and a
/// comment matches nothing.
pub open spec fn accepts(expected: TerminalView, actual: TokenView) -> bool {
    match expected {
        TerminalView::Token(token) => match (token, actual) {
            (TokenView::ReservedWord(e), TokenView::ReservedWord(a)) => e == a,
            (TokenView::Literal(_), TokenView::Literal(_)) => true,
            (TokenView::Identifier(_), TokenView::Identifier(_)) => true,
            (TokenView::Separator(e), TokenView::Separator(a)) => e == a,
            (TokenView::Operator(e), TokenView::Operator(a)) => e == a,
            _ => false,
        },
        TerminalView::DataType(_) => is_data_type(actual),
        TerminalView::UnaryOperator(_) => actual matches TokenView::Operator(o)
            && is_unary_operator(o),
        TerminalView::ReassignOp => actual matches TokenView::Operator(o) && is_reassign_operator(
            o,
        ),
        TerminalView::Any => true,
        TerminalView::Epsilon => false,
    }
}

/// Whether `rule` expands `non_terminal` when `token` is the lookahead.
pub open spec fn rule_applies(
    rule: ParsingRuleView,
    non_terminal: NonTerminal,
    token: TokenView,
) -> bool {
    rule.non_terminal == non_terminal && accepts(rule.token, token)
}

/// The position at or after `from` of the first rule of `table` that expands
/// `non_terminal` on `token`; the length of the table when there is none.
pub open spec fn rule_position(
    table: Seq<ParsingRuleView>,
    non_terminal: NonTerminal,
    token: TokenView,
    from: int,
) -> int
    decreases table.len() - from,
{
    if from < 0 || from >= table.len() {
        table.len() as int
    } else if rule_applies(table[from], non_terminal, token) {
        from
    } else {
        rule_position(table, non_terminal, token, from + 1)
    }
}

/// The rule that expands `non_terminal` on `token`: the first one in table
/// order that applies.
pub open spec fn find_rule(
    table: Seq<ParsingRuleView>,
    non_terminal: NonTerminal,
    token: TokenView,
) -> Option<ParsingRuleView> {
    let position = rule_position(table, non_terminal, token, 0);
    if position < table.len() {
        Some(table[position])
    } else {
        None
    }
}

/// The rule that is found is the first that applies: none before it does.
pub proof fn lemma_find_rule_is_first(
    table: Seq<ParsingRuleView>,
    non_terminal: NonTerminal,
    token: TokenView,
)
    ensures
        match find_rule(table, non_terminal, token) {
            Some(rule) => exists|i: int|
                0 <= i < table.len() && #[trigger] table[i] == rule && rule_applies(
                    table[i],
                    non_terminal,
                    token,
                ) && forall|j: int| 0 <= j < i ==> !rule_applies(#[trigger] table[j], non_terminal, token),
            None => forall|j: int|
                0 <= j < table.len() ==> !rule_applies(#[trigger] table[j], non_terminal, token),
        },
{
    lemma_rule_position(table, non_terminal, token, 0);
    let position = rule_position(table, non_terminal, token, 0);
    if position < table.len() {
        assert(table[position] == find_rule(table, non_terminal, token).unwrap());
    }
}

/// From `from` up to the position of the first rule that applies, no rule
/// applies.
pub proof fn lemma_rule_position(
    table: Seq<ParsingRuleView>,
    non_terminal: NonTerminal,
    token: TokenView,
    from: int,
)
    requires
        0 <= from <= table.len(),
    ensures
        from <= rule_position(table, non_terminal, token, from) <= table.len(),
        rule_position(table, non_terminal, token, from) < table.len() ==> rule_applies(
            table[rule_position(table, non_terminal, token, from)],
            non_terminal,
            token,
        ),
        forall|j: int|
            from <= j < rule_position(table, non_terminal, token, from) ==> !rule_applies(
                #[trigger] table[j],
                non_terminal,
                token,
            ),
    decreases table.len() - from,
{
    if from < table.len() && !rule_applies(table[from], non_terminal, token) {
        lemma_rule_position(table, non_terminal, token, from + 1);
    }
}

/// A production that holds the empty mark holds nothing else.
pub open spec fn production_well_formed(production: Seq<SymbolView>) -> bool {
    production.contains(SymbolView::Terminal(TerminalView::Epsilon)) ==> production
        == seq![SymbolView::Terminal(TerminalView::Epsilon)]
}

/// Every rule of the table has a well-formed production.
pub open spec fn grammar_well_formed(table: Seq<ParsingRuleView>) -> bool {
    forall|i: int| 0 <= i < table.len() ==> production_well_formed(#[trigger] table[i].production)
}

impl ParsingRule {
    /// Whether `token` can stand where a type is expected.
    pub fn is_data_type(token: &Token) -> (r: bool)
        ensures
            r == is_data_type(token@),
    {
        match token {
            Token::ReservedWord(word) => match word {
                ReservedWord::Int
                | ReservedWord::Long
                | ReservedWord::Float
                | ReservedWord::Double
                | ReservedWord::Void
                | ReservedWord::Str
                | ReservedWord::Char
                | ReservedWord::Bool => true,
                _ => false,
            },
            Token::Identifier(_) => true,
            _ => false,
        }
    }

    /// Whether the terminal class `expected` accepts the token `actual`.
    pub fn matches_token(expected: &Terminal, actual: &Token) -> (r: bool)
        ensures
            r == accepts(expected@, actual@),
    {
        match expected {
            Terminal::Token(expected) => match (expected, actual) {
                (Token::ReservedWord(expected), Token::ReservedWord(actual)) => *expected
                    == *actual,
                (Token::Literal(_), Token::Literal(_)) => true,
                (Token::Identifier(_), Token::Identifier(_)) => true,
                (Token::Separator(expected), Token::Separator(actual)) => *expected == *actual,
                (Token::Operator(expected), Token::Operator(actual)) => *expected == *actual,
                _ => false,
            },
            Terminal::DataType(_) => ParsingRule::is_data_type(actual),
            Terminal::UnaryOperator(_) => match actual {
                Token::Operator(operator) => match operator {
                    Operator::GreaterThanOrEqual
                    | Operator::LessThanOrEqual
                    | Operator::Equality
                    | Operator::Inequality
                    | Operator::Negation
                    | Operator::Sum
                    | Operator::Subtraction
                    | Operator::Multiplication
                    | Operator::Division
                    | Operator::GreaterThan
                    | Operator::LessThan => true,
                    _ => false,
                },
                _ => false,
            },
            Terminal::ReassignOp => match actual {
                Token::Operator(operator) => match operator {
                    Operator::Assignment | Operator::Increment | Operator::Decrement => true,
                    _ => false,
                },
                _ => false,
            },
            Terminal::Any => true,
            Terminal::Epsilon => false,
        }
    }

    /// The first rule of `table`, in table order, that expands `non_terminal`
    /// when `token` is the lookahead.
    pub fn find_rule<'a>(
        table: &'a [ParsingRule],
        non_terminal: &NonTerminal,
        token: &Token,
    ) -> (r: Option<&'a ParsingRule>)
        ensures
            r.deep_view() == find_rule(table.deep_view(), *non_terminal, token@),
            r matches Some(rule) ==> {
                let position = rule_position(table.deep_view(), *non_terminal, token@, 0);
                0 <= position < table.len() && *rule == table[position]
            },
    {
        let mut i: usize = 0;
        while i < table.len()
            invariant
                i <= table.len(),
                rule_position(table.deep_view(), *non_terminal, token@, i as int) == rule_position(
                    table.deep_view(),
                    *non_terminal,
                    token@,
                    0,
                ),
            decreases table.len() - i,
        {
            let rule = &table[i];
            if rule.non_terminal == *non_terminal && ParsingRule::matches_token(
                &rule.token,
                token,
            ) {
                return Some(rule);
            }
            i += 1;
        }
        None
    }

    /// Whether the production holds the empty mark only where it is the
    /// whole production.
    pub fn is_well_formed(&self) -> (r: bool)
        ensures
            r == production_well_formed(self@.production),
    {
        let epsilon = SymbolView::Terminal(TerminalView::Epsilon);
        let n = self.production.len();
        if n == 1 {
            proof {
                let p = self@.production;
                if p.contains(epsilon) {
                    let k = choose|k: int| 0 <= k < p.len() && p[k] == epsilon;
                    assert(p =~= seq![epsilon]);
                }
            }
            return true;
        }
        let mut i: usize = 0;
        while i < n
            invariant
                i <= n,
                n != 1,
                n == self.production.len(),
                epsilon == SymbolView::Terminal(TerminalView::Epsilon),
                forall|k: int| 0 <= k < i ==> self@.production[k] != epsilon,
            decreases n - i,
        {
            if self.production[i].is_epsilon() {
                proof {
                    assert(self@.production[i as int] == epsilon);
                    assert(self@.production.contains(epsilon));
                    assert(seq![epsilon].len() == 1);
                    assert(self@.production.len() == n);
                }
                return false;
            }
            i += 1;
        }
        true
    }
}

} // verus!
