//! The errors of semantic analysis.

use crate::semantics::types::{
    IdentifierTypeCell, IdentifierTypeCellView, TypeCell, TypeCellView,
};
use vstd::prelude::*;

verus! {

/// A violation found by semantic analysis. Each pass reports the first one
/// it meets.
#[derive(Debug, PartialEq)]
pub enum SemanticError {
    InvalidType,
    TypeMismatch,
    MissingIdentifier,
    MissingDataType,
    /// A declaration names a user type that the program does not declare.
    UndeclaredType(String),
    /// An initializer names a variable that the program does not declare.
    UndeclaredIdentifier(String),
    /// The declared variable and what initializes it differ in type.
    IncompatibleTypes(TypeCell, TypeCell),
    InvalidExpressionWithVariant(String, TypeCell),
    /// A variable of a struct type is initialized with the name of one of
    /// the struct's fields.
    InvalidStructUsage(IdentifierTypeCell, TypeCell),
    UnexpectedSymbolInExpression(String),
    InvalidEnumVariant(String, TypeCell),
    /// A variable of a struct type is initialized with the struct's own
    /// name: the struct's name, then the operand's.
    RedeclaredIdentifier(String, String),
    /// A variable of an enumeration type is initialized with a name that is
    /// none of the enumeration's variants.
    VariantNotDeclared(TypeCell, String, IdentifierTypeCell),
}

/// The mathematical value of a [`SemanticError`].
pub enum SemanticErrorView {
    InvalidType,
    TypeMismatch,
    MissingIdentifier,
    MissingDataType,
    UndeclaredType(Seq<char>),
    UndeclaredIdentifier(Seq<char>),
    IncompatibleTypes(TypeCellView, TypeCellView),
    InvalidExpressionWithVariant(Seq<char>, TypeCellView),
    InvalidStructUsage(IdentifierTypeCellView, TypeCellView),
    UnexpectedSymbolInExpression(Seq<char>),
    InvalidEnumVariant(Seq<char>, TypeCellView),
    RedeclaredIdentifier(Seq<char>, Seq<char>),
    VariantNotDeclared(TypeCellView, Seq<char>, IdentifierTypeCellView),
}

impl View for SemanticError {
    type V = SemanticErrorView;

    open spec fn view(&self) -> SemanticErrorView {
        match *self {
            SemanticError::InvalidType => SemanticErrorView::InvalidType,
            SemanticError::TypeMismatch => SemanticErrorView::TypeMismatch,
            SemanticError::MissingIdentifier => SemanticErrorView::MissingIdentifier,
            SemanticError::MissingDataType => SemanticErrorView::MissingDataType,
            SemanticError::UndeclaredType(name) => SemanticErrorView::UndeclaredType(name@),
            SemanticError::UndeclaredIdentifier(name) => SemanticErrorView::UndeclaredIdentifier(
                name@,
            ),
            SemanticError::IncompatibleTypes(declared, found) => {
                SemanticErrorView::IncompatibleTypes(declared@, found@)
            },
            SemanticError::InvalidExpressionWithVariant(name, cell) => {
                SemanticErrorView::InvalidExpressionWithVariant(name@, cell@)
            },
            SemanticError::InvalidStructUsage(user_type, cell) => {
                SemanticErrorView::InvalidStructUsage(user_type@, cell@)
            },
            SemanticError::UnexpectedSymbolInExpression(text) => {
                SemanticErrorView::UnexpectedSymbolInExpression(text@)
            },
            SemanticError::InvalidEnumVariant(name, cell) => SemanticErrorView::InvalidEnumVariant(
                name@,
                cell@,
            ),
            SemanticError::RedeclaredIdentifier(first, second) => {
                SemanticErrorView::RedeclaredIdentifier(first@, second@)
            },
            SemanticError::VariantNotDeclared(cell, name, user_type) => {
                SemanticErrorView::VariantNotDeclared(cell@, name@, user_type@)
            },
        }
    }
}

impl DeepView for SemanticError {
    type V = SemanticErrorView;

    open spec fn deep_view(&self) -> SemanticErrorView {
        self@
    }
}

} // verus!
