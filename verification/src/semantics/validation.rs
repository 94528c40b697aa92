//! The usage validator: two passes over what the analyzer read from a trace.
//! The first checks that every user type named by a declaration is declared;
//! the second checks each declaration against the first operand of its
//! initializer. Each pass stops at the first violation.

use crate::lexer::tokens::{Token, TokenView};
use crate::parser::derivation::{TraceView, AST};
use crate::parser::grammar::{
    literal_type, DataType, DataTypeView, NonTerminal, Symbol, SymbolView, Terminal, TerminalView,
};
use crate::semantics::semantic_errors::{SemanticError, SemanticErrorView};
use crate::semantics::types::{
    first_identifier, not_epsilon, registry, type_table, IdentifierTypeCell,
    IdentifierTypeCellView, IdentifierTypeTable, TypeCell, TypeCellView, TypeTable,
};
use vstd::prelude::*;

verus! {

/// The name by which a type is reported: a primitive type by the name of its
/// kind, a user type by its own name.
pub open spec fn reported_name(data_type: DataTypeView) -> Seq<char> {
    match data_type {
        DataTypeView::Int => "Int"@,
        DataTypeView::Long => "Long"@,
        DataTypeView::Float => "Float"@,
        DataTypeView::Double => "Double"@,
        DataTypeView::Void => "Void"@,
        DataTypeView::Str => "Str"@,
        DataTypeView::Char => "Char"@,
        DataTypeView::Bool => "Bool"@,
        DataTypeView::Identifier(name) => name,
    }
}

impl DataType {
    /// The name by which the type is reported.
    pub fn to_string(&self) -> (r: String)
        ensures
            r@ == reported_name(self@),
    {
        match self {
            DataType::Int => "Int".to_owned(),
            DataType::Long => "Long".to_owned(),
            DataType::Float => "Float".to_owned(),
            DataType::Double => "Double".to_owned(),
            DataType::Void => "Void".to_owned(),
            DataType::Str => "Str".to_owned(),
            DataType::Char => "Char".to_owned(),
            DataType::Bool => "Bool".to_owned(),
            DataType::Identifier(name) => name.clone(),
        }
    }
}

/// The name of a user type.
pub open spec fn registered_name(user_type: IdentifierTypeCellView) -> Seq<char> {
    match user_type {
        IdentifierTypeCellView::StructType { identifier, .. } => identifier,
        IdentifierTypeCellView::EnumType { identifier, .. } => identifier,
    }
}

/// Whether the registry holds a user type, of either kind, named `name`.
pub open spec fn is_registered(registry: Seq<IdentifierTypeCellView>, name: Seq<char>) -> bool {
    exists|i: int| 0 <= i < registry.len() && registered_name(#[trigger] registry[i]) == name
}

/// The first name, in table order at or after `from`, that a declaration
/// uses as a user type while the registry holds no type of that name.
pub open spec fn undeclared_type_from(
    type_table: Seq<TypeCellView>,
    registry: Seq<IdentifierTypeCellView>,
    from: int,
) -> Option<Seq<char>>
    decreases type_table.len() - from,
{
    if from < 0 || from >= type_table.len() {
        None
    } else {
        match type_table[from].data_type {
            DataTypeView::Identifier(name) if !is_registered(registry, name) => Some(name),
            _ => undeclared_type_from(type_table, registry, from + 1),
        }
    }
}

/// What the type-usage pass reports: the first user type that is used and
/// not declared.
pub open spec fn type_usage_check(
    type_table: Seq<TypeCellView>,
    registry: Seq<IdentifierTypeCellView>,
) -> Result<(), SemanticErrorView> {
    match undeclared_type_from(type_table, registry, 0) {
        Some(name) => Err(SemanticErrorView::UndeclaredType(name)),
        None => Ok(()),
    }
}

/// The first cell of the table, at or after `from`, that declares
/// `identifier`.
pub open spec fn find_var(type_table: Seq<TypeCellView>, identifier: Seq<char>, from: int) -> Option<
    TypeCellView,
>
    decreases type_table.len() - from,
{
    if from < 0 || from >= type_table.len() {
        None
    } else if type_table[from].identifier == identifier {
        Some(type_table[from])
    } else {
        find_var(type_table, identifier, from + 1)
    }
}

/// Whether one of the fields is named `name`.
pub open spec fn has_field(fields: Seq<TypeCellView>, name: Seq<char>) -> bool {
    exists|i: int| 0 <= i < fields.len() && (#[trigger] fields[i]).identifier == name
}

/// The check of a variable of a user type that is initialized with the name
/// `operand`, against the user types at or after `from`.
///
/// The first user type that bears the name of the variable's type decides,
/// and no other. An enumeration asks that the operand be one of its
/// variants. A struct rejects an operand that bears the struct's own name,
/// and one that bears the name of one of its fields, and lets every other
/// pass. Where no user type bears the name, the type is undeclared.
pub open spec fn user_type_check(
    registry: Seq<IdentifierTypeCellView>,
    var: TypeCellView,
    operand: Seq<char>,
    from: int,
) -> Result<(), SemanticErrorView>
    decreases registry.len() - from,
{
    if from < 0 || from >= registry.len() {
        Err(SemanticErrorView::UndeclaredType(reported_name(var.data_type)))
    } else if var.data_type != DataTypeView::Identifier(registered_name(registry[from])) {
        user_type_check(registry, var, operand, from + 1)
    } else {
        match registry[from] {
            IdentifierTypeCellView::EnumType { identifier, variants } => {
                if variants.contains(operand) {
                    Ok(())
                } else {
                    Err(SemanticErrorView::VariantNotDeclared(var, operand, registry[from]))
                }
            },
            IdentifierTypeCellView::StructType { identifier, fields } => {
                if operand == identifier {
                    Err(SemanticErrorView::RedeclaredIdentifier(identifier, operand))
                } else if has_field(fields, operand) {
                    Err(SemanticErrorView::InvalidStructUsage(registry[from], var))
                } else {
                    Ok(())
                }
            },
        }
    }
}

/// The check of a declared variable against the first symbol of the operand
/// that initializes it; `None` when that symbol is neither an identifier nor
/// a literal, which no grammar should produce.
///
/// An identifier that initializes a variable of a user type is checked
/// against the registry. Any other identifier must be a declared variable of
/// the same type. A literal must be of the declared type, which is then a
/// primitive type; what is reported in its place is a nameless constant of
/// the literal's type.
pub open spec fn operand_check(
    type_table: Seq<TypeCellView>,
    registry: Seq<IdentifierTypeCellView>,
    var: TypeCellView,
    operand: SymbolView,
) -> Option<Result<(), SemanticErrorView>> {
    match operand {
        SymbolView::Terminal(TerminalView::Token(TokenView::Identifier(name))) => {
            if var.data_type is Identifier {
                Some(user_type_check(registry, var, name, 0))
            } else {
                match find_var(type_table, name, 0) {
                    Some(found) => if found.data_type != var.data_type {
                        Some(Err(SemanticErrorView::IncompatibleTypes(var, found)))
                    } else {
                        Some(Ok(()))
                    },
                    None => Some(Err(SemanticErrorView::UndeclaredIdentifier(name))),
                }
            }
        },
        SymbolView::Terminal(TerminalView::Token(TokenView::Literal(literal))) => {
            if var.data_type != literal_type(literal) {
                Some(
                    Err(
                        SemanticErrorView::IncompatibleTypes(
                            var,
                            TypeCellView {
                                identifier: Seq::empty(),
                                data_type: literal_type(literal),
                                mutable: false,
                            },
                        ),
                    ),
                )
            } else {
                Some(Ok(()))
            }
        },
        _ => None,
    }
}

/// Whether an entry with this tag may stand in the initializer of a
/// declaration, as far as the validator follows it.
pub open spec fn is_initializer_tag(tag: NonTerminal) -> bool {
    match tag {
        NonTerminal::ExprOperand
        | NonTerminal::ExprOperation
        | NonTerminal::Expr
        | NonTerminal::StmntList
        | NonTerminal::ExprCall => true,
        _ => false,
    }
}

/// Where the initializer of a declaration ends: the position at or after
/// `from` of the first entry whose production derives nothing; the length of
/// the trace when there is none.
pub open spec fn initializer_end(trace: TraceView, from: int) -> int
    decreases trace.len() - from,
{
    if 0 <= from < trace.len() && not_epsilon(trace[from].1) {
        initializer_end(trace, from + 1)
    } else {
        from
    }
}

/// The check of one declaration against the entries of its initializer, at
/// `from` up to `to`; `inspected` says whether an operand was met before.
///
/// Only the first operand entry is inspected. `None` when an entry bears a
/// tag that no initializer holds, or when the first operand begins with
/// neither an identifier nor a literal.
pub open spec fn initializer_check(
    trace: TraceView,
    type_table: Seq<TypeCellView>,
    registry: Seq<IdentifierTypeCellView>,
    var: TypeCellView,
    from: int,
    to: int,
    inspected: bool,
) -> Option<Result<(), SemanticErrorView>>
    decreases to - from,
{
    if from >= to {
        Some(Ok(()))
    } else if !is_initializer_tag(trace[from].0) {
        None
    } else if trace[from].0 == NonTerminal::ExprOperand && !inspected {
        match operand_check(type_table, registry, var, trace[from].1[0]) {
            Some(Ok(())) => initializer_check(trace, type_table, registry, var, from + 1, to, true),
            verdict => verdict,
        }
    } else {
        initializer_check(trace, type_table, registry, var, from + 1, to, inspected)
    }
}

/// The end of an initializer lies between its start and the end of the
/// trace, and every entry before it derives something.
pub proof fn lemma_initializer_end(trace: TraceView, from: int)
    requires
        0 <= from <= trace.len(),
    ensures
        from <= initializer_end(trace, from) <= trace.len(),
        forall|k: int|
            from <= k < initializer_end(trace, from) ==> not_epsilon((#[trigger] trace[k]).1),
    decreases trace.len() - from,
{
    if from < trace.len() && not_epsilon(trace[from].1) {
        lemma_initializer_end(trace, from + 1);
    }
}

/// What the declaration pass reports on the entries at or after `from`: the
/// first violation, in trace order.
///
/// Each declaration statement is looked up in the type table by the
/// identifier it declares and checked against its initializer: the entries
/// that follow it up to the first whose production derives nothing. Reading
/// goes on at that entry. `None` when the trace is of a shape that the
/// validator does not know: a declaration without a name or missing from
/// the table, or an initializer that holds more than operands and operators.
pub open spec fn declaration_check_from(
    trace: TraceView,
    type_table: Seq<TypeCellView>,
    registry: Seq<IdentifierTypeCellView>,
    from: int,
) -> Option<Result<(), SemanticErrorView>>
    decreases trace.len() - from,
{
    if from < 0 || from >= trace.len() {
        Some(Ok(()))
    } else if trace[from].0 != NonTerminal::StmntDecl {
        declaration_check_from(trace, type_table, registry, from + 1)
    } else {
        match first_identifier(trace[from].1) {
            None => None,
            Some(name) => match find_var(type_table, name, 0) {
                None => None,
                Some(var) => {
                    let end = initializer_end(trace, from + 1);
                    proof {
                        lemma_initializer_end(trace, from + 1);
                    }
                    match initializer_check(trace, type_table, registry, var, from + 1, end, false) {
                        Some(Ok(())) => declaration_check_from(trace, type_table, registry, end),
                        verdict => verdict,
                    }
                },
            },
        }
    }
}

/// What the declaration pass reports on a trace.
pub open spec fn declaration_check(
    trace: TraceView,
    type_table: Seq<TypeCellView>,
    registry: Seq<IdentifierTypeCellView>,
) -> Option<Result<(), SemanticErrorView>> {
    declaration_check_from(trace, type_table, registry, 0)
}

/// What type checking reports on a trace: the tables are built, then the
/// type-usage pass runs, then the declaration pass if the first found
/// nothing. `None` when the trace is of a shape that the analyzer does not
/// know.
pub open spec fn type_check(trace: TraceView) -> Option<Result<(), SemanticErrorView>> {
    match (type_table(trace), registry(trace)) {
        (Some(table), Some(types)) => match type_usage_check(table, types) {
            Err(error) => Some(Err(error)),
            Ok(()) => declaration_check(trace, table, types),
        },
        _ => None,
    }
}

/// The mathematical value of the outcome of a validation pass.
pub open spec fn validation_view(outcome: Result<(), Box<SemanticError>>) -> Result<
    (),
    SemanticErrorView,
> {
    match outcome {
        Ok(()) => Ok(()),
        Err(error) => Err(error@),
    }
}

/// The mathematical value of the outcome of a validation pass that may find
/// the trace of an unknown shape.
pub open spec fn checked_view(outcome: Option<Result<(), Box<SemanticError>>>) -> Option<
    Result<(), SemanticErrorView>,
> {
    match outcome {
        Some(verdict) => Some(validation_view(verdict)),
        None => None,
    }
}

/// Whether the registry holds a user type named `name`.
fn is_registered_type(valid_id_types: &IdentifierTypeTable, name: &String) -> (r: bool)
    ensures
        r == is_registered(valid_id_types.deep_view(), name@),
{
    let mut i: usize = 0;
    while i < valid_id_types.len()
        invariant
            i <= valid_id_types.len(),
            forall|k: int|
                0 <= k < i ==> registered_name(#[trigger] valid_id_types.deep_view()[k]) != name@,
        decreases valid_id_types.len() - i,
    {
        let found = match &valid_id_types[i] {
            IdentifierTypeCell::StructType { identifier, .. } => *identifier == *name,
            IdentifierTypeCell::EnumType { identifier, .. } => *identifier == *name,
        };
        if found {
            assert(registered_name(valid_id_types.deep_view()[i as int]) == name@);
            return true;
        }
        i += 1;
    }
    false
}

/// Whether one of the fields is named `name`.
fn has_field_named(fields: &TypeTable, name: &String) -> (r: bool)
    ensures
        r == has_field(fields.deep_view(), name@),
{
    let mut i: usize = 0;
    while i < fields.len()
        invariant
            i <= fields.len(),
            forall|k: int| 0 <= k < i ==> (#[trigger] fields.deep_view()[k]).identifier != name@,
        decreases fields.len() - i,
    {
        if fields[i].identifier == *name {
            assert(fields.deep_view()[i as int].identifier == name@);
            return true;
        }
        i += 1;
    }
    false
}

/// Whether one of the variants is `name`.
fn has_variant(variants: &Vec<String>, name: &String) -> (r: bool)
    ensures
        r == variants.deep_view().contains(name@),
{
    let mut i: usize = 0;
    while i < variants.len()
        invariant
            i <= variants.len(),
            forall|k: int| 0 <= k < i ==> variants.deep_view()[k] != name@,
        decreases variants.len() - i,
    {
        if variants[i] == *name {
            assert(variants.deep_view()[i as int] == name@);
            return true;
        }
        i += 1;
    }
    false
}

impl AST {
    /// Whether `data_type` is the user type named `name`.
    fn is_type_named(data_type: &DataType, name: &String) -> (r: bool)
        ensures
            r == (data_type@ == DataTypeView::Identifier(name@)),
    {
        match data_type {
            DataType::Identifier(identifier) => *identifier == *name,
            _ => false,
        }
    }

    /// The first cell of the table that declares `identifier`.
    pub fn find_var_in_table<'a>(type_table: &'a [TypeCell], identifier: &String) -> (r: Option<
        &'a TypeCell,
    >)
        ensures
            r.deep_view() == find_var(type_table.deep_view(), identifier@, 0),
    {
        let mut i: usize = 0;
        while i < type_table.len()
            invariant
                i <= type_table.len(),
                find_var(type_table.deep_view(), identifier@, i as int) == find_var(
                    type_table.deep_view(),
                    identifier@,
                    0,
                ),
            decreases type_table.len() - i,
        {
            if type_table[i].identifier == *identifier {
                return Some(&type_table[i]);
            }
            i += 1;
        }
        None
    }

    /// The type-usage pass: every user type that a declaration names must be
    /// in the registry. Reports the first that is not.
    pub fn validate_identifiers_as_types_usage(
        &self,
        type_table: &TypeTable,
        valid_id_types: &IdentifierTypeTable,
    ) -> (r: Result<(), Box<SemanticError>>)
        ensures
            validation_view(r) == type_usage_check(
                type_table.deep_view(),
                valid_id_types.deep_view(),
            ),
    {
        let mut i: usize = 0;
        while i < type_table.len()
            invariant
                i <= type_table.len(),
                undeclared_type_from(
                    type_table.deep_view(),
                    valid_id_types.deep_view(),
                    i as int,
                ) == undeclared_type_from(type_table.deep_view(), valid_id_types.deep_view(), 0),
            decreases type_table.len() - i,
        {
            if let DataType::Identifier(identifier) = &type_table[i].data_type {
                if !is_registered_type(valid_id_types, identifier) {
                    return Err(Box::new(SemanticError::UndeclaredType(identifier.clone())));
                }
            }
            i += 1;
        }
        Ok(())
    }

    /// The check of a variable of a user type that is initialized with the
    /// name `expr_id`.
    pub fn validate_id_type_expr(
        valid_id_types: &IdentifierTypeTable,
        var: &TypeCell,
        expr_id: &String,
    ) -> (r: Result<(), Box<SemanticError>>)
        ensures
            validation_view(r) == user_type_check(valid_id_types.deep_view(), var@, expr_id@, 0),
    {
        let mut i: usize = 0;
        while i < valid_id_types.len()
            invariant
                i <= valid_id_types.len(),
                user_type_check(valid_id_types.deep_view(), var@, expr_id@, i as int)
                    == user_type_check(valid_id_types.deep_view(), var@, expr_id@, 0),
            decreases valid_id_types.len() - i,
        {
            match &valid_id_types[i] {
                IdentifierTypeCell::EnumType { identifier, variants } => {
                    if Self::is_type_named(&var.data_type, identifier) {
                        if has_variant(variants, expr_id) {
                            return Ok(());
                        }
                        return Err(
                            Box::new(
                                SemanticError::VariantNotDeclared(
                                    var.clone(),
                                    expr_id.clone(),
                                    valid_id_types[i].clone(),
                                ),
                            ),
                        );
                    }
                },
                IdentifierTypeCell::StructType { identifier, fields } => {
                    if Self::is_type_named(&var.data_type, identifier) {
                        if *expr_id == *identifier {
                            return Err(
                                Box::new(
                                    SemanticError::RedeclaredIdentifier(
                                        identifier.clone(),
                                        expr_id.clone(),
                                    ),
                                ),
                            );
                        }
                        if has_field_named(fields, expr_id) {
                            return Err(
                                Box::new(
                                    SemanticError::InvalidStructUsage(
                                        valid_id_types[i].clone(),
                                        var.clone(),
                                    ),
                                ),
                            );
                        }
                        return Ok(());
                    }
                },
            }
            i += 1;
        }
        Err(Box::new(SemanticError::UndeclaredType(var.data_type.to_string())))
    }

    /// The check of a declared variable against the first symbol of the
    /// operand that initializes it.
    fn check_operand(
        type_table: &TypeTable,
        valid_id_types: &IdentifierTypeTable,
        var: &TypeCell,
        operand: &Symbol,
    ) -> (r: Option<Result<(), Box<SemanticError>>>)
        ensures
            checked_view(r) == operand_check(
                type_table.deep_view(),
                valid_id_types.deep_view(),
                var@,
                operand@,
            ),
    {
        match operand {
            Symbol::Terminal(Terminal::Token(Token::Identifier(expr_id))) => {
                if let DataType::Identifier(_) = var.data_type {
                    return Some(Self::validate_id_type_expr(valid_id_types, var, expr_id));
                }
                match Self::find_var_in_table(type_table.as_slice(), expr_id) {
                    Some(expr_var) => {
                        if !(expr_var.data_type == var.data_type) {
                            Some(
                                Err(
                                    Box::new(
                                        SemanticError::IncompatibleTypes(
                                            var.clone(),
                                            expr_var.clone(),
                                        ),
                                    ),
                                ),
                            )
                        } else {
                            Some(Ok(()))
                        }
                    },
                    None => Some(
                        Err(Box::new(SemanticError::UndeclaredIdentifier(expr_id.clone()))),
                    ),
                }
            },
            Symbol::Terminal(Terminal::Token(Token::Literal(expr_literal))) => {
                let literal_type = DataType::of_literal(expr_literal);
                if !(var.data_type == literal_type) {
                    Some(
                        Err(
                            Box::new(
                                SemanticError::IncompatibleTypes(
                                    var.clone(),
                                    TypeCell {
                                        identifier: String::new(),
                                        data_type: literal_type,
                                        mutable: false,
                                    },
                                ),
                            ),
                        ),
                    )
                } else {
                    Some(Ok(()))
                }
            },
            _ => None,
        }
    }

    /// The position at or after `from` of the first entry whose production
    /// derives nothing.
    fn find_initializer_end(&self, from: usize) -> (end: usize)
        requires
            from <= self.0.len(),
        ensures
            end == initializer_end(self@, from as int),
            from <= end <= self.0.len(),
    {
        let mut end = from;
        while end < self.0.len() && Self::not_epsilon(self.0[end].1.as_slice())
            invariant
                from <= end <= self.0.len(),
                initializer_end(self@, end as int) == initializer_end(self@, from as int),
            decreases self.0.len() - end,
        {
            end += 1;
        }
        end
    }

    /// The check of one declaration against the entries of its initializer.
    fn check_initializer(
        &self,
        type_table: &TypeTable,
        valid_id_types: &IdentifierTypeTable,
        var: &TypeCell,
        from: usize,
        to: usize,
    ) -> (r: Option<Result<(), Box<SemanticError>>>)
        requires
            from <= to <= self.0.len(),
            forall|k: int| from <= k < to ==> not_epsilon((#[trigger] self@[k]).1),
        ensures
            checked_view(r) == initializer_check(
                self@,
                type_table.deep_view(),
                valid_id_types.deep_view(),
                var@,
                from as int,
                to as int,
                false,
            ),
    {
        let mut inspected = false;
        let mut k = from;
        while k < to
            invariant
                from <= k <= to <= self.0.len(),
                forall|j: int| from <= j < to ==> not_epsilon((#[trigger] self@[j]).1),
                initializer_check(
                    self@,
                    type_table.deep_view(),
                    valid_id_types.deep_view(),
                    var@,
                    k as int,
                    to as int,
                    inspected,
                ) == initializer_check(
                    self@,
                    type_table.deep_view(),
                    valid_id_types.deep_view(),
                    var@,
                    from as int,
                    to as int,
                    false,
                ),
            decreases to - k,
        {
            assert(not_epsilon(self@[k as int].1));
            match self.0[k].0 {
                NonTerminal::ExprOperand => {
                    if !inspected {
                        match Self::check_operand(
                            type_table,
                            valid_id_types,
                            var,
                            &self.0[k].1[0],
                        ) {
                            Some(Ok(())) => {
                                inspected = true;
                            },
                            verdict => {
                                return verdict;
                            },
                        }
                    }
                },
                NonTerminal::ExprOperation
                | NonTerminal::Expr
                | NonTerminal::StmntList
                | NonTerminal::ExprCall => {},
                _ => {
                    return None;
                },
            }
            k += 1;
        }
        Some(Ok(()))
    }

    /// The declaration pass, for a trace of any shape: the first violation,
    /// or `None` when the trace is of a shape that the validator does not
    /// know.
    pub fn try_validate_declaration_expression(
        &self,
        type_table: &TypeTable,
        valid_id_types: &IdentifierTypeTable,
    ) -> (r: Option<Result<(), Box<SemanticError>>>)
        ensures
            checked_view(r) == declaration_check(
                self@,
                type_table.deep_view(),
                valid_id_types.deep_view(),
            ),
    {
        let mut i: usize = 0;
        while i < self.0.len()
            invariant
                i <= self.0.len(),
                declaration_check_from(
                    self@,
                    type_table.deep_view(),
                    valid_id_types.deep_view(),
                    i as int,
                ) == declaration_check(self@, type_table.deep_view(), valid_id_types.deep_view()),
            decreases self.0.len() - i,
        {
            match self.0[i].0 {
                NonTerminal::StmntDecl => {
                    let name = match Self::get_identifier_in_production(self.0[i].1.as_slice()) {
                        Some(name) => name,
                        None => {
                            return None;
                        },
                    };
                    let var = match Self::find_var_in_table(type_table.as_slice(), &name) {
                        Some(var) => var,
                        None => {
                            return None;
                        },
                    };
                    let end = self.find_initializer_end(i + 1);
                    proof {
                        lemma_initializer_end(self@, i as int + 1);
                    }
                    match self.check_initializer(type_table, valid_id_types, var, i + 1, end) {
                        Some(Ok(())) => {},
                        verdict => {
                            return verdict;
                        },
                    }
                    i = end;
                },
                _ => {
                    i += 1;
                },
            }
        }
        Some(Ok(()))
    }

    /// The declaration pass: every declaration must agree with the first
    /// operand of its initializer. Reports the first that does not.
    pub fn validate_declaration_expression(
        &self,
        type_table: &TypeTable,
        valid_id_types: &IdentifierTypeTable,
    ) -> (r: Result<(), Box<SemanticError>>)
        requires
            declaration_check(self@, type_table.deep_view(), valid_id_types.deep_view()) is Some,
        ensures
            Some(validation_view(r)) == declaration_check(
                self@,
                type_table.deep_view(),
                valid_id_types.deep_view(),
            ),
    {
        self.try_validate_declaration_expression(type_table, valid_id_types).unwrap()
    }

    /// Type checking, for a trace of any shape: the first violation, or
    /// `None` when the trace is of a shape that the analyzer does not know.
    pub fn try_type_check(&self) -> (r: Option<Result<(), Box<SemanticError>>>)
        ensures
            checked_view(r) == type_check(self@),
    {
        let table = match self.try_build_type_table() {
            Some(table) => table,
            None => {
                return None;
            },
        };
        let identifiers_as_types = match self.try_get_valid_identifiers_as_types() {
            Some(types) => types,
            None => {
                return None;
            },
        };
        match self.validate_identifiers_as_types_usage(&table, &identifiers_as_types) {
            Err(error) => Some(Err(error)),
            Ok(()) => self.try_validate_declaration_expression(&table, &identifiers_as_types),
        }
    }

    /// Type checking: builds the type table and the registry of user types,
    /// then runs the type-usage pass and, if that finds nothing, the
    /// declaration pass. Reports the first violation.
    pub fn type_check(self) -> (r: Result<(), Box<SemanticError>>)
        requires
            type_check(self@) is Some,
        ensures
            Some(validation_view(r)) == type_check(self@),
    {
        self.try_type_check().unwrap()
    }
}

} // verus!
