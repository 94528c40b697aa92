//! The semantic analyzer: it reads variable declarations and user types back
//! out of a derivation trace, by the adjacency of its entries alone, and
//! checks that every declaration uses types and initializers consistently.

use crate::lexer::reserved::ReservedWord;
use crate::lexer::tokens::{Token, TokenView};
use crate::parser::derivation::{epsilon, TraceView, AST};
use crate::parser::grammar::{
    DataType, DataTypeView, NonTerminal, Symbol, SymbolView, Terminal, TerminalView,
};
use crate::semantics::semantic_errors::SemanticError;
use vstd::prelude::*;

verus! {

/// The declared variables, in the order of their declarations.
pub type TypeTable = Vec<TypeCell>;

/// The declared user types, in the order of their declarations.
pub type IdentifierTypeTable = Vec<IdentifierTypeCell>;

/// A declared variable or field: its name, its type and whether it may be
/// assigned again.
#[derive(Debug, PartialEq)]
pub struct TypeCell {
    pub identifier: String,
    pub data_type: DataType,
    pub mutable: bool,
}

/// The mathematical value of a [`TypeCell`].
pub struct TypeCellView {
    pub identifier: Seq<char>,
    pub data_type: DataTypeView,
    pub mutable: bool,
}

impl View for TypeCell {
    type V = TypeCellView;

    open spec fn view(&self) -> TypeCellView {
        TypeCellView {
            identifier: self.identifier@,
            data_type: self.data_type@,
            mutable: self.mutable,
        }
    }
}

impl DeepView for TypeCell {
    type V = TypeCellView;

    open spec fn deep_view(&self) -> TypeCellView {
        self@
    }
}

impl Clone for TypeCell {
    fn clone(&self) -> (r: Self)
        ensures
            r == *self,
    {
        TypeCell {
            identifier: self.identifier.clone(),
            data_type: self.data_type.clone(),
            mutable: self.mutable,
        }
    }
}

/// A user type: a struct with its fields, or an enumeration with its
/// variants.
#[derive(Debug, PartialEq)]
pub enum IdentifierTypeCell {
    StructType { identifier: String, fields: TypeTable },
    EnumType { identifier: String, variants: Vec<String> },
}

/// The mathematical value of an [`IdentifierTypeCell`].
pub enum IdentifierTypeCellView {
    StructType { identifier: Seq<char>, fields: Seq<TypeCellView> },
    EnumType { identifier: Seq<char>, variants: Seq<Seq<char>> },
}

impl View for IdentifierTypeCell {
    type V = IdentifierTypeCellView;

    open spec fn view(&self) -> IdentifierTypeCellView {
        match *self {
            IdentifierTypeCell::StructType { identifier, fields } => {
                IdentifierTypeCellView::StructType {
                    identifier: identifier@,
                    fields: fields.deep_view(),
                }
            },
            IdentifierTypeCell::EnumType { identifier, variants } => {
                IdentifierTypeCellView::EnumType {
                    identifier: identifier@,
                    variants: variants.deep_view(),
                }
            },
        }
    }
}

impl DeepView for IdentifierTypeCell {
    type V = IdentifierTypeCellView;

    open spec fn deep_view(&self) -> IdentifierTypeCellView {
        self@
    }
}

impl Clone for IdentifierTypeCell {
    fn clone(&self) -> (r: Self)
        ensures
            r@ == self@,
    {
        match self {
            IdentifierTypeCell::StructType { identifier, fields } => {
                let copy = fields.clone();
                assert(copy.deep_view() =~= fields.deep_view());
                IdentifierTypeCell::StructType { identifier: identifier.clone(), fields: copy }
            },
            IdentifierTypeCell::EnumType { identifier, variants } => {
                let copy = variants.clone();
                assert(copy.deep_view() =~= variants.deep_view());
                IdentifierTypeCell::EnumType { identifier: identifier.clone(), variants: copy }
            },
        }
    }
}

/// Whether a production derives something: it has a first symbol, and that
/// is not the empty mark.
pub open spec fn not_epsilon(production: Seq<SymbolView>) -> bool {
    production.len() > 0 && production[0] != epsilon()
}

/// The name in a slot that holds an identifier.
pub open spec fn slot_identifier(slot: SymbolView) -> Option<Seq<char>> {
    match slot {
        SymbolView::Terminal(TerminalView::Token(TokenView::Identifier(name))) => Some(name),
        _ => None,
    }
}

/// The type in a slot that holds a type.
pub open spec fn slot_data_type(slot: SymbolView) -> Option<DataTypeView> {
    match slot {
        SymbolView::Terminal(TerminalView::DataType(data_type)) => Some(data_type),
        _ => None,
    }
}

/// What a slot that holds a declaration keyword says of mutability: `let`
/// declares a variable, `const` a constant.
pub open spec fn slot_mutability(slot: SymbolView) -> Option<bool> {
    match slot {
        SymbolView::Terminal(
            TerminalView::Token(TokenView::ReservedWord(ReservedWord::Let)),
        ) => Some(true),
        SymbolView::Terminal(
            TerminalView::Token(TokenView::ReservedWord(ReservedWord::Constant)),
        ) => Some(false),
        _ => None,
    }
}

/// The name in the first identifier slot at or after `from`.
pub open spec fn identifier_from(production: Seq<SymbolView>, from: int) -> Option<Seq<char>>
    decreases production.len() - from,
{
    if from < 0 || from >= production.len() {
        None
    } else if slot_identifier(production[from]) is Some {
        slot_identifier(production[from])
    } else {
        identifier_from(production, from + 1)
    }
}

/// The type in the first type slot at or after `from`.
pub open spec fn data_type_from(production: Seq<SymbolView>, from: int) -> Option<DataTypeView>
    decreases production.len() - from,
{
    if from < 0 || from >= production.len() {
        None
    } else if slot_data_type(production[from]) is Some {
        slot_data_type(production[from])
    } else {
        data_type_from(production, from + 1)
    }
}

/// The mutability that the first declaration keyword at or after `from`
/// gives.
pub open spec fn mutability_from(production: Seq<SymbolView>, from: int) -> Option<bool>
    decreases production.len() - from,
{
    if from < 0 || from >= production.len() {
        None
    } else if slot_mutability(production[from]) is Some {
        slot_mutability(production[from])
    } else {
        mutability_from(production, from + 1)
    }
}

/// The first identifier that a production resolved to.
pub open spec fn first_identifier(production: Seq<SymbolView>) -> Option<Seq<char>> {
    identifier_from(production, 0)
}

/// The first type that a production resolved to.
pub open spec fn first_data_type(production: Seq<SymbolView>) -> Option<DataTypeView> {
    data_type_from(production, 0)
}

/// Whether a production declares a variable (`let`) or a constant
/// (`const`), by the first of the two keywords in it.
pub open spec fn first_mutability(production: Seq<SymbolView>) -> Option<bool> {
    mutability_from(production, 0)
}

/// What one trace entry declares.
///
/// `Some(Some(cell))` for a declaration statement that names a variable and
/// a type; `Some(None)` for any other entry and for a declaration statement
/// that lacks one of the two; `None` for a declaration statement with a name
/// and a type but no declaration keyword, which no grammar should produce.
pub open spec fn declaration(entry: (NonTerminal, Seq<SymbolView>)) -> Option<
    Option<TypeCellView>,
> {
    if entry.0 != NonTerminal::StmntDecl {
        Some(None)
    } else {
        match (first_identifier(entry.1), first_data_type(entry.1)) {
            (Some(identifier), Some(data_type)) => match first_mutability(entry.1) {
                Some(mutable) => Some(Some(TypeCellView { identifier, data_type, mutable })),
                None => None,
            },
            _ => Some(None),
        }
    }
}

/// The type table of a trace: what its entries declare, in trace order. A
/// name declared twice stands twice. `None` when some declaration statement
/// has no declaration keyword.
pub open spec fn type_table(trace: TraceView) -> Option<Seq<TypeCellView>>
    decreases trace.len(),
{
    if trace.len() == 0 {
        Some(Seq::empty())
    } else {
        match (type_table(trace.drop_last()), declaration(trace.last())) {
            (Some(cells), Some(Some(cell))) => Some(cells.push(cell)),
            (Some(cells), Some(None)) => Some(cells),
            _ => None,
        }
    }
}

impl AST {
    /// The trace that holds the entries of `raw_ast`.
    pub fn new(raw_ast: Vec<(NonTerminal, Vec<Symbol>)>) -> (r: Self)
        ensures
            r.0 == raw_ast,
    {
        AST(raw_ast)
    }

    /// The entries of the trace.
    pub fn as_vec(&self) -> (r: &Vec<(NonTerminal, Vec<Symbol>)>)
        ensures
            *r == self.0,
    {
        &self.0
    }

    /// Whether a production derives something.
    pub fn not_epsilon(prod: &[Symbol]) -> (r: bool)
        ensures
            r == not_epsilon(prod.deep_view()),
    {
        if prod.len() == 0 {
            false
        } else {
            !prod[0].is_epsilon()
        }
    }

    /// The first identifier that a production resolved to.
    pub fn get_identifier_in_production(production: &[Symbol]) -> (r: Option<String>)
        ensures
            r.deep_view() == first_identifier(production.deep_view()),
    {
        let mut i: usize = 0;
        while i < production.len()
            invariant
                i <= production.len(),
                identifier_from(production.deep_view(), i as int) == first_identifier(
                    production.deep_view(),
                ),
            decreases production.len() - i,
        {
            if let Symbol::Terminal(Terminal::Token(Token::Identifier(identifier))) =
                &production[i] {
                return Some(identifier.clone());
            }
            i += 1;
        }
        None
    }

    /// The first type that a production resolved to.
    pub fn get_data_type_in_production(production: &[Symbol]) -> (r: Option<DataType>)
        ensures
            r.deep_view() == first_data_type(production.deep_view()),
    {
        let mut i: usize = 0;
        while i < production.len()
            invariant
                i <= production.len(),
                data_type_from(production.deep_view(), i as int) == first_data_type(
                    production.deep_view(),
                ),
            decreases production.len() - i,
        {
            if let Symbol::Terminal(Terminal::DataType(data_type)) = &production[i] {
                return Some(data_type.clone());
            }
            i += 1;
        }
        None
    }

    /// Whether a production declares a variable or a constant.
    pub fn get_mutability_in_production(production: &[Symbol]) -> (r: Option<bool>)
        ensures
            r == first_mutability(production.deep_view()),
    {
        let mut i: usize = 0;
        while i < production.len()
            invariant
                i <= production.len(),
                mutability_from(production.deep_view(), i as int) == first_mutability(
                    production.deep_view(),
                ),
            decreases production.len() - i,
        {
            match &production[i] {
                Symbol::Terminal(Terminal::Token(Token::ReservedWord(ReservedWord::Let))) => {
                    return Some(true);
                },
                Symbol::Terminal(Terminal::Token(Token::ReservedWord(ReservedWord::Constant))) => {
                    return Some(false);
                },
                _ => {},
            }
            i += 1;
        }
        None
    }

    /// What one trace entry declares.
    fn read_declaration(non_terminal: &NonTerminal, production: &[Symbol]) -> (r: Option<
        Option<TypeCell>,
    >)
        ensures
            r.deep_view() == declaration((*non_terminal, production.deep_view())),
    {
        match non_terminal {
            NonTerminal::StmntDecl => {
                let identifier = match Self::get_identifier_in_production(production) {
                    Some(name) => name,
                    None => {
                        return Some(None);
                    },
                };
                let data_type = match Self::get_data_type_in_production(production) {
                    Some(data_type) => data_type,
                    None => {
                        return Some(None);
                    },
                };
                match Self::get_mutability_in_production(production) {
                    Some(mutable) => Some(Some(TypeCell { identifier, data_type, mutable })),
                    None => None,
                }
            },
            _ => Some(None),
        }
    }

    /// The type table of the trace, or `None` when some declaration
    /// statement in it has no declaration keyword.
    pub fn try_build_type_table(&self) -> (r: Option<TypeTable>)
        ensures
            r.deep_view() == type_table(self@),
    {
        let mut table: TypeTable = Vec::new();
        let mut i: usize = 0;
        assert(self@.take(0) =~= Seq::empty());
        assert(table.deep_view() =~= Seq::empty());
        while i < self.0.len()
            invariant
                i <= self.0.len(),
                type_table(self@.take(i as int)) == Some(table.deep_view()),
            decreases self.0.len() - i,
        {
            let ghost prefix = self@.take(i as int + 1);
            assert(prefix.drop_last() =~= self@.take(i as int));
            assert(prefix.last() == self@[i as int]);
            let ghost cells = table.deep_view();
            match Self::read_declaration(&self.0[i].0, self.0[i].1.as_slice()) {
                Some(Some(cell)) => {
                    table.push(cell);
                    assert(table.deep_view() =~= cells.push(cell@));
                },
                Some(None) => {},
                None => {
                    proof {
                        lemma_type_table_prefix(self@, i as int + 1);
                    }
                    return None;
                },
            }
            i += 1;
        }
        assert(self@.take(i as int) =~= self@);
        Some(table)
    }

    /// The type table of the trace: every declared variable with its type
    /// and mutability, in trace order.
    pub fn build_type_table(&self) -> (r: Result<TypeTable, Box<SemanticError>>)
        requires
            type_table(self@) is Some,
        ensures
            r matches Ok(table) && Some(table.deep_view()) == type_table(self@),
    {
        Ok(self.try_build_type_table().unwrap())
    }
}

/// Where the body of a user type ends: the position at or after `from` of
/// the first entry that is not tagged `tag` or whose production derives
/// nothing; the length of the trace when there is none.
pub open spec fn body_end(trace: TraceView, tag: NonTerminal, from: int) -> int
    decreases trace.len() - from,
{
    if 0 <= from < trace.len() && trace[from].0 == tag && not_epsilon(trace[from].1) {
        body_end(trace, tag, from + 1)
    } else {
        from
    }
}

/// The variants that the body entries at `from` up to `to` name: the entries
/// that begin with an identifier, in trace order. Entries that begin with
/// anything else, a comma for one, name nothing.
pub open spec fn enum_variants(trace: TraceView, from: int, to: int) -> Seq<Seq<char>>
    decreases to - from,
{
    if to <= from {
        Seq::empty()
    } else {
        let before = enum_variants(trace, from, to - 1);
        match slot_identifier(trace[to - 1].1[0]) {
            Some(name) => before.push(name),
            None => before,
        }
    }
}

/// The field that one body entry of a struct declares: an entry that begins
/// with a type declares a field of that type, which may be assigned. The
/// field bears its own name, the first identifier of the entry, and not the
/// name of the struct. `None` when there is no such identifier, which no
/// grammar should produce.
pub open spec fn struct_field(production: Seq<SymbolView>) -> Option<Option<TypeCellView>> {
    match slot_data_type(production[0]) {
        Some(data_type) => match first_identifier(production) {
            Some(identifier) => Some(Some(TypeCellView { identifier, data_type, mutable: true })),
            None => None,
        },
        None => Some(None),
    }
}

/// The fields that the body entries at `from` up to `to` declare, in trace
/// order.
pub open spec fn struct_fields(trace: TraceView, from: int, to: int) -> Option<Seq<TypeCellView>>
    decreases to - from,
{
    if to <= from {
        Some(Seq::empty())
    } else {
        match (struct_fields(trace, from, to - 1), struct_field(trace[to - 1].1)) {
            (Some(before), Some(Some(field))) => Some(before.push(field)),
            (Some(before), Some(None)) => Some(before),
            _ => None,
        }
    }
}

/// The user types that the trace declares at or after `from`, in trace
/// order.
///
/// An enumeration entry is followed by its body: the run of entries tagged
/// `EnumBody` that derive something. A struct entry is followed by the run of
/// entries tagged `StructBody` that derive something. Reading goes on at the
/// entry that ends the run, so that a user type that stands there is read in
/// its turn. `None` when a declaration or a field lacks its name.
pub open spec fn registry_from(trace: TraceView, from: int) -> Option<Seq<IdentifierTypeCellView>>
    decreases trace.len() - from,
{
    if from < 0 || from >= trace.len() {
        Some(Seq::empty())
    } else {
        match trace[from].0 {
            NonTerminal::Enum => {
                let end = body_end(trace, NonTerminal::EnumBody, from + 1);
                proof {
                    lemma_body_end_bounds(trace, NonTerminal::EnumBody, from + 1);
                }
                match (first_identifier(trace[from].1), registry_from(trace, end)) {
                    (Some(identifier), Some(rest)) => Some(
                        seq![
                            IdentifierTypeCellView::EnumType {
                                identifier,
                                variants: enum_variants(trace, from + 1, end),
                            },
                        ] + rest,
                    ),
                    _ => None,
                }
            },
            NonTerminal::Struct => {
                let end = body_end(trace, NonTerminal::StructBody, from + 1);
                proof {
                    lemma_body_end_bounds(trace, NonTerminal::StructBody, from + 1);
                }
                match (
                    first_identifier(trace[from].1),
                    struct_fields(trace, from + 1, end),
                    registry_from(trace, end),
                ) {
                    (Some(identifier), Some(fields), Some(rest)) => Some(
                        seq![IdentifierTypeCellView::StructType { identifier, fields }] + rest,
                    ),
                    _ => None,
                }
            },
            _ => registry_from(trace, from + 1),
        }
    }
}

/// The registry of user types of a trace.
pub open spec fn registry(trace: TraceView) -> Option<Seq<IdentifierTypeCellView>> {
    registry_from(trace, 0)
}

/// The end of a body lies between its start and the end of the trace.
pub proof fn lemma_body_end_bounds(trace: TraceView, tag: NonTerminal, from: int)
    requires
        0 <= from <= trace.len(),
    ensures
        from <= body_end(trace, tag, from) <= trace.len(),
    decreases trace.len() - from,
{
    if from < trace.len() && trace[from].0 == tag && not_epsilon(trace[from].1) {
        lemma_body_end_bounds(trace, tag, from + 1);
    }
}

impl AST {
    /// The position at or after `from` where the run of entries tagged `tag`
    /// that derive something ends.
    fn find_body_end(&self, tag: NonTerminal, from: usize) -> (end: usize)
        requires
            from <= self.0.len(),
        ensures
            end == body_end(self@, tag, from as int),
            from <= end <= self.0.len(),
    {
        let mut end = from;
        while end < self.0.len() && self.0[end].0 == tag && Self::not_epsilon(
            self.0[end].1.as_slice(),
        )
            invariant
                from <= end <= self.0.len(),
                body_end(self@, tag, end as int) == body_end(self@, tag, from as int),
            decreases self.0.len() - end,
        {
            end += 1;
        }
        end
    }

    /// The variants that the body entries at `from` up to `to` name.
    fn read_enum_variants(&self, from: usize, to: usize) -> (variants: Vec<String>)
        requires
            from <= to <= self.0.len(),
            to == body_end(self@, NonTerminal::EnumBody, from as int),
        ensures
            variants.deep_view() == enum_variants(self@, from as int, to as int),
    {
        let mut variants: Vec<String> = Vec::new();
        let mut i = from;
        assert(variants.deep_view() =~= Seq::empty());
        proof {
            lemma_body_entries(self@, NonTerminal::EnumBody, from as int);
        }
        while i < to
            invariant
                from <= i <= to <= self.0.len(),
                variants.deep_view() == enum_variants(self@, from as int, i as int),
                forall|k: int| from <= k < to ==> not_epsilon(#[trigger] self@[k].1),
            decreases to - i,
        {
            let ghost before = variants.deep_view();
            assert(not_epsilon(self@[i as int].1));
            if let Symbol::Terminal(Terminal::Token(Token::Identifier(variant))) = &self.0[i].1[0] {
                variants.push(variant.clone());
                assert(variants.deep_view() =~= before.push(variant@));
            }
            i += 1;
        }
        variants
    }

    /// The fields that the body entries at `from` up to `to` declare.
    fn read_struct_fields(&self, from: usize, to: usize) -> (fields: Option<TypeTable>)
        requires
            from <= to <= self.0.len(),
            to == body_end(self@, NonTerminal::StructBody, from as int),
        ensures
            fields.deep_view() == struct_fields(self@, from as int, to as int),
    {
        let mut fields: TypeTable = Vec::new();
        let mut i = from;
        assert(fields.deep_view() =~= Seq::empty());
        proof {
            lemma_body_entries(self@, NonTerminal::StructBody, from as int);
        }
        while i < to
            invariant
                from <= i <= to <= self.0.len(),
                Some(fields.deep_view()) == struct_fields(self@, from as int, i as int),
                forall|k: int| from <= k < to ==> not_epsilon(#[trigger] self@[k].1),
            decreases to - i,
        {
            let ghost before = fields.deep_view();
            assert(not_epsilon(self@[i as int].1));
            if let Symbol::Terminal(Terminal::DataType(data_type)) = &self.0[i].1[0] {
                match Self::get_identifier_in_production(self.0[i].1.as_slice()) {
                    Some(identifier) => {
                        let field = TypeCell {
                            identifier,
                            data_type: data_type.clone(),
                            mutable: true,
                        };
                        fields.push(field);
                        assert(fields.deep_view() =~= before.push(field@));
                    },
                    None => {
                        proof {
                            lemma_struct_fields_prefix(self@, from as int, i as int + 1, to as int);
                        }
                        return None;
                    },
                }
            }
            i += 1;
        }
        Some(fields)
    }

    /// The registry of user types of the trace, or `None` when a struct, an
    /// enumeration or a field in it has no name.
    pub fn try_get_valid_identifiers_as_types(&self) -> (r: Option<IdentifierTypeTable>)
        ensures
            r.deep_view() == registry(self@),
    {
        let mut valid_types: IdentifierTypeTable = Vec::new();
        let mut i: usize = 0;
        assert(valid_types.deep_view() =~= Seq::empty());
        while i < self.0.len()
            invariant
                i <= self.0.len(),
                match registry_from(self@, i as int) {
                    Some(rest) => registry(self@) == Some(valid_types.deep_view() + rest),
                    None => registry(self@) is None,
                },
            decreases self.0.len() - i,
        {
            let ghost found = valid_types.deep_view();
            match self.0[i].0 {
                NonTerminal::Enum => {
                    let end = self.find_body_end(NonTerminal::EnumBody, i + 1);
                    let variants = self.read_enum_variants(i + 1, end);
                    let identifier = match Self::get_identifier_in_production(
                        self.0[i].1.as_slice(),
                    ) {
                        Some(identifier) => identifier,
                        None => {
                            return None;
                        },
                    };
                    let cell = IdentifierTypeCell::EnumType { identifier, variants };
                    valid_types.push(cell);
                    proof {
                        let rest = registry_from(self@, end as int);
                        assert(valid_types.deep_view() =~= found.push(cell@));
                        if rest is Some {
                            assert(found.push(cell@) + rest.unwrap() =~= found + (seq![cell@]
                                + rest.unwrap()));
                        }
                    }
                    i = end;
                },
                NonTerminal::Struct => {
                    let identifier = match Self::get_identifier_in_production(
                        self.0[i].1.as_slice(),
                    ) {
                        Some(identifier) => identifier,
                        None => {
                            return None;
                        },
                    };
                    let end = self.find_body_end(NonTerminal::StructBody, i + 1);
                    let fields = match self.read_struct_fields(i + 1, end) {
                        Some(fields) => fields,
                        None => {
                            return None;
                        },
                    };
                    let cell = IdentifierTypeCell::StructType { identifier, fields };
                    valid_types.push(cell);
                    proof {
                        let rest = registry_from(self@, end as int);
                        assert(valid_types.deep_view() =~= found.push(cell@));
                        if rest is Some {
                            assert(found.push(cell@) + rest.unwrap() =~= found + (seq![cell@]
                                + rest.unwrap()));
                        }
                    }
                    i = end;
                },
                _ => {
                    i += 1;
                },
            }
        }
        assert(valid_types.deep_view() + Seq::empty() =~= valid_types.deep_view());
        Some(valid_types)
    }

    /// The registry of user types of the trace: every struct with its fields
    /// and every enumeration with its variants, in trace order.
    pub fn get_valid_identifiers_as_types(&self) -> (r: Result<
        IdentifierTypeTable,
        Box<SemanticError>,
    >)
        requires
            registry(self@) is Some,
        ensures
            r matches Ok(types) && Some(types.deep_view()) == registry(self@),
    {
        Ok(self.try_get_valid_identifiers_as_types().unwrap())
    }
}

/// The entries of a body all derive something.
pub proof fn lemma_body_entries(trace: TraceView, tag: NonTerminal, from: int)
    requires
        0 <= from <= trace.len(),
    ensures
        forall|k: int|
            from <= k < body_end(trace, tag, from) ==> (#[trigger] trace[k]).0 == tag
                && not_epsilon(trace[k].1),
    decreases trace.len() - from,
{
    if from < trace.len() && trace[from].0 == tag && not_epsilon(trace[from].1) {
        lemma_body_entries(trace, tag, from + 1);
    }
}

/// A body has fields only if each of its prefixes has.
pub proof fn lemma_struct_fields_prefix(trace: TraceView, from: int, mid: int, to: int)
    requires
        from <= mid <= to,
        struct_fields(trace, from, mid) is None,
    ensures
        struct_fields(trace, from, to) is None,
    decreases to - mid,
{
    if mid < to {
        lemma_struct_fields_prefix(trace, from, mid, to - 1);
    }
}

/// The tables are functions of the trace: whatever two runs of the builders
/// hand out for one trace holds the same declarations and the same user
/// types.
pub proof fn lemma_rebuilt_tables_agree(
    trace: AST,
    first: (Option<TypeTable>, Option<IdentifierTypeTable>),
    second: (Option<TypeTable>, Option<IdentifierTypeTable>),
)
    requires
        first.0.deep_view() == type_table(trace@),
        second.0.deep_view() == type_table(trace@),
        first.1.deep_view() == registry(trace@),
        second.1.deep_view() == registry(trace@),
    ensures
        first.0.deep_view() == second.0.deep_view(),
        first.1.deep_view() == second.1.deep_view(),
{
}

/// A trace has a type table only if each of its prefixes has one.
pub proof fn lemma_type_table_prefix(trace: TraceView, n: int)
    requires
        0 <= n <= trace.len(),
        type_table(trace.take(n)) is None,
    ensures
        type_table(trace) is None,
    decreases trace.len(),
{
    if n < trace.len() {
        assert(trace.drop_last().take(n) =~= trace.take(n));
        lemma_type_table_prefix(trace.drop_last(), n);
    } else {
        assert(trace.take(n) =~= trace);
    }
}

} // verus!
