use glim::lexer::reserved::{Operator, ReservedWord, Separator};
use glim::lexer::tokens::{Bool, Literal, Token};
use glim::parser::derivation::AST;
use glim::parser::grammar::{DataType, NonTerminal, Symbol, Terminal};
use glim::semantics::semantic_errors::SemanticError;
use glim::semantics::types::{IdentifierTypeCell, TypeCell};

fn word(word: ReservedWord) -> Symbol {
    Symbol::Terminal(Terminal::Token(Token::ReservedWord(word)))
}

fn mark(mark: Separator) -> Symbol {
    Symbol::Terminal(Terminal::Token(Token::Separator(mark)))
}

fn name(name: &str) -> Symbol {
    Symbol::Terminal(Terminal::Token(Token::Identifier(name.to_string())))
}

fn value(literal: Literal) -> Symbol {
    Symbol::Terminal(Terminal::Token(Token::Literal(literal)))
}

fn of_type(data_type: DataType) -> Symbol {
    Symbol::Terminal(Terminal::DataType(data_type))
}

fn user_type(name: &str) -> DataType {
    DataType::Identifier(name.to_string())
}

fn nt(non_terminal: NonTerminal) -> Symbol {
    Symbol::NonTerminal(non_terminal)
}

fn epsilon() -> Symbol {
    Symbol::Terminal(Terminal::Epsilon)
}

fn cell(identifier: &str, data_type: DataType, mutable: bool) -> TypeCell {
    TypeCell { identifier: identifier.to_string(), data_type, mutable }
}

type Entry = (NonTerminal, Vec<Symbol>);

/// `let <type> <name> = <operand>`, as a parse leaves it.
fn declaration(keyword: ReservedWord, data_type: DataType, var: &str, operand: Symbol) -> Vec<Entry> {
    let call = matches!(operand, Symbol::Terminal(Terminal::Token(Token::Identifier(_))));
    let mut entries = vec![
        (
            NonTerminal::StmntDecl,
            vec![
                word(keyword),
                of_type(data_type),
                name(var),
                Symbol::Terminal(Terminal::Token(Token::Operator(Operator::Assignment))),
                nt(NonTerminal::Expr),
            ],
        ),
        (NonTerminal::Expr, vec![nt(NonTerminal::ExprOperand), nt(NonTerminal::ExprOperation)]),
    ];
    if call {
        entries.push((NonTerminal::ExprOperand, vec![operand, nt(NonTerminal::ExprCall)]));
        entries.push((NonTerminal::ExprCall, vec![epsilon()]));
    } else {
        entries.push((NonTerminal::ExprOperand, vec![operand]));
    }
    entries.push((NonTerminal::ExprOperation, vec![epsilon()]));
    entries
}

fn enumeration(identifier: &str, variants: &[&str]) -> Vec<Entry> {
    let mut entries = vec![(
        NonTerminal::Enum,
        vec![
            word(ReservedWord::Enum),
            name(identifier),
            mark(Separator::OpenCurlyBraces),
            nt(NonTerminal::EnumBody),
            mark(Separator::CloseCurlyBraces),
            nt(NonTerminal::Program),
        ],
    )];
    for (i, variant) in variants.iter().enumerate() {
        if i > 0 {
            entries.push((
                NonTerminal::EnumBody,
                vec![mark(Separator::Comma), nt(NonTerminal::EnumBody)],
            ));
        }
        entries.push((NonTerminal::EnumBody, vec![name(variant), nt(NonTerminal::EnumBody)]));
    }
    entries.push((NonTerminal::EnumBody, vec![epsilon()]));
    entries
}

fn structure(identifier: &str, fields: &[(DataType, &str)]) -> Vec<Entry> {
    let mut entries = vec![(
        NonTerminal::Struct,
        vec![
            word(ReservedWord::Struct),
            name(identifier),
            mark(Separator::OpenCurlyBraces),
            nt(NonTerminal::StructBody),
            mark(Separator::CloseCurlyBraces),
            nt(NonTerminal::Program),
        ],
    )];
    for (i, (data_type, field)) in fields.iter().enumerate() {
        if i > 0 {
            entries.push((
                NonTerminal::StructBody,
                vec![mark(Separator::Comma), nt(NonTerminal::StructBody)],
            ));
        }
        entries.push((
            NonTerminal::StructBody,
            vec![of_type(data_type.clone()), name(field), nt(NonTerminal::StructBody)],
        ));
    }
    entries.push((NonTerminal::StructBody, vec![epsilon()]));
    entries
}

fn trace(parts: Vec<Vec<Entry>>) -> AST {
    AST::new(parts.into_iter().flatten().collect())
}

#[test]
fn the_type_table_lists_the_declarations_in_order() {
    let ast = trace(vec![
        declaration(ReservedWord::Let, DataType::Int, "x", value(Literal::Int(1))),
        declaration(ReservedWord::Constant, user_type("Color"), "c", name("Red")),
        declaration(ReservedWord::Let, DataType::Str, "x", name("x")),
    ]);
    assert_eq!(
        ast.build_type_table().unwrap(),
        vec![
            cell("x", DataType::Int, true),
            cell("c", user_type("Color"), false),
            cell("x", DataType::Str, true),
        ]
    );
    assert_eq!(ast.try_build_type_table(), Some(ast.build_type_table().unwrap()));
    assert_eq!(AST::new(vec![]).build_type_table().unwrap(), vec![]);
}

#[test]
fn a_declaration_without_a_name_or_a_type_declares_nothing() {
    let ast = AST::new(vec![
        (NonTerminal::StmntDecl, vec![word(ReservedWord::Let), of_type(DataType::Int)]),
        (NonTerminal::StmntDecl, vec![word(ReservedWord::Let), name("x")]),
        (NonTerminal::StmntDecl, vec![of_type(DataType::Int)]),
        (NonTerminal::StmntDecl, vec![]),
        (NonTerminal::StmntAssign, vec![word(ReservedWord::Let), of_type(DataType::Int), name("y")]),
        (
            NonTerminal::StmntDecl,
            vec![name("z"), word(ReservedWord::Constant), word(ReservedWord::Let), of_type(DataType::Bool)],
        ),
    ]);
    assert_eq!(ast.build_type_table().unwrap(), vec![cell("z", DataType::Bool, false)]);
}

#[test]
fn a_declaration_without_its_keyword_has_no_type_table() {
    let ast = AST::new(vec![(NonTerminal::StmntDecl, vec![of_type(DataType::Int), name("x")])]);
    assert_eq!(ast.try_build_type_table(), None);
    assert_eq!(ast.try_type_check(), None);
}

#[test]
fn the_first_of_each_kind_in_a_production_is_read() {
    let production = vec![
        mark(Separator::Comma),
        word(ReservedWord::Constant),
        name("first"),
        of_type(DataType::Char),
        name("second"),
        of_type(DataType::Int),
        word(ReservedWord::Let),
    ];
    assert_eq!(AST::get_identifier_in_production(&production), Some("first".to_string()));
    assert_eq!(AST::get_data_type_in_production(&production), Some(DataType::Char));
    assert_eq!(AST::get_mutability_in_production(&production), Some(false));
    assert_eq!(AST::get_identifier_in_production(&[]), None);
    assert_eq!(AST::get_data_type_in_production(&[name("x")]), None);
    assert_eq!(AST::get_mutability_in_production(&[name("x")]), None);
    assert!(AST::not_epsilon(&production));
    assert!(!AST::not_epsilon(&[epsilon(), name("x")]));
    assert!(!AST::not_epsilon(&[]));
}

#[test]
fn the_registry_lists_enumerations_and_structs_in_order() {
    let ast = trace(vec![
        enumeration("Color", &["Red", "Green"]),
        structure("Point", &[(DataType::Int, "x"), (user_type("Color"), "tint")]),
        enumeration("Empty", &[]),
    ]);
    assert_eq!(
        ast.get_valid_identifiers_as_types().unwrap(),
        vec![
            IdentifierTypeCell::EnumType {
                identifier: "Color".to_string(),
                variants: vec!["Red".to_string(), "Green".to_string()],
            },
            IdentifierTypeCell::StructType {
                identifier: "Point".to_string(),
                fields: vec![cell("x", DataType::Int, true), cell("tint", user_type("Color"), true)],
            },
            IdentifierTypeCell::EnumType { identifier: "Empty".to_string(), variants: vec![] },
        ]
    );
}

#[test]
fn a_field_bears_its_own_name() {
    let ast = trace(vec![structure("Pair", &[(DataType::Long, "left"), (DataType::Long, "right")])]);
    let registry = ast.get_valid_identifiers_as_types().unwrap();
    assert_eq!(
        registry,
        vec![IdentifierTypeCell::StructType {
            identifier: "Pair".to_string(),
            fields: vec![cell("left", DataType::Long, true), cell("right", DataType::Long, true)],
        }]
    );
}

#[test]
fn a_user_type_that_ends_a_body_is_read_in_its_turn() {
    let mut entries = enumeration("A", &["X"]);
    entries.pop();
    entries.extend(enumeration("B", &["Y"]));
    entries.extend(enumeration("C", &[]));
    let ast = AST::new(entries);
    assert_eq!(
        ast.get_valid_identifiers_as_types().unwrap(),
        vec![
            IdentifierTypeCell::EnumType {
                identifier: "A".to_string(),
                variants: vec!["X".to_string()],
            },
            IdentifierTypeCell::EnumType {
                identifier: "B".to_string(),
                variants: vec!["Y".to_string()],
            },
            IdentifierTypeCell::EnumType { identifier: "C".to_string(), variants: vec![] },
        ]
    );
}

#[test]
fn two_enumerations_side_by_side_are_both_registered() {
    let mut entries = enumeration("A", &[]);
    entries.pop();
    entries.extend(enumeration("B", &["X"]));
    assert_eq!(entries.len(), 4);
    let ast = AST::new(entries);
    assert_eq!(
        ast.get_valid_identifiers_as_types().unwrap(),
        vec![
            IdentifierTypeCell::EnumType { identifier: "A".to_string(), variants: vec![] },
            IdentifierTypeCell::EnumType {
                identifier: "B".to_string(),
                variants: vec!["X".to_string()],
            },
        ]
    );
}

#[test]
fn a_struct_that_ends_the_body_of_a_struct_is_registered() {
    let mut entries = structure("S", &[(DataType::Int, "a")]);
    entries.pop();
    entries.extend(structure("T", &[(DataType::Bool, "b")]));
    entries.pop();
    entries.extend(enumeration("E", &["V"]));
    let ast = AST::new(entries);
    assert_eq!(
        ast.get_valid_identifiers_as_types().unwrap(),
        vec![
            IdentifierTypeCell::StructType {
                identifier: "S".to_string(),
                fields: vec![cell("a", DataType::Int, true)],
            },
            IdentifierTypeCell::StructType {
                identifier: "T".to_string(),
                fields: vec![cell("b", DataType::Bool, true)],
            },
            IdentifierTypeCell::EnumType {
                identifier: "E".to_string(),
                variants: vec!["V".to_string()],
            },
        ]
    );
}

#[test]
fn a_body_entry_that_begins_with_anything_else_names_nothing() {
    let ast = AST::new(vec![
        (NonTerminal::Enum, vec![name("E")]),
        (NonTerminal::EnumBody, vec![value(Literal::Int(1)), name("hidden")]),
        (NonTerminal::EnumBody, vec![name("V")]),
        (NonTerminal::EnumBody, vec![]),
        (NonTerminal::Struct, vec![name("S")]),
        (NonTerminal::StructBody, vec![name("no_type"), of_type(DataType::Int)]),
        (NonTerminal::StructBody, vec![of_type(DataType::Int), name("f")]),
        (NonTerminal::EnumBody, vec![name("W")]),
    ]);
    assert_eq!(
        ast.get_valid_identifiers_as_types().unwrap(),
        vec![
            IdentifierTypeCell::EnumType {
                identifier: "E".to_string(),
                variants: vec!["V".to_string()],
            },
            IdentifierTypeCell::StructType {
                identifier: "S".to_string(),
                fields: vec![cell("f", DataType::Int, true)],
            },
        ]
    );
}

#[test]
fn a_user_type_without_a_name_has_no_registry() {
    let nameless = AST::new(vec![(NonTerminal::Enum, vec![word(ReservedWord::Enum)])]);
    assert_eq!(nameless.try_get_valid_identifiers_as_types(), None);
    let nameless = AST::new(vec![(NonTerminal::Struct, vec![])]);
    assert_eq!(nameless.try_get_valid_identifiers_as_types(), None);
    let field = AST::new(vec![
        (NonTerminal::Struct, vec![name("S")]),
        (NonTerminal::StructBody, vec![of_type(DataType::Int)]),
    ]);
    assert_eq!(field.try_get_valid_identifiers_as_types(), None);
    assert_eq!(field.try_type_check(), None);
}

#[test]
fn building_the_tables_again_gives_the_same_tables() {
    let ast = trace(vec![
        enumeration("Color", &["Red"]),
        structure("P", &[(DataType::Int, "x")]),
        declaration(ReservedWord::Let, user_type("Color"), "c", name("Red")),
    ]);
    assert_eq!(ast.build_type_table(), ast.build_type_table());
    assert_eq!(ast.get_valid_identifiers_as_types(), ast.get_valid_identifiers_as_types());
    assert_eq!(ast.try_type_check(), Some(Ok(())));
}

#[test]
fn every_user_type_of_a_declaration_must_be_registered() {
    let ast = AST::new(vec![]);
    let registry = vec![
        IdentifierTypeCell::EnumType { identifier: "Color".to_string(), variants: vec![] },
        IdentifierTypeCell::StructType { identifier: "Point".to_string(), fields: vec![] },
    ];
    let table = vec![
        cell("a", DataType::Int, true),
        cell("b", user_type("Point"), true),
        cell("c", user_type("Color"), false),
    ];
    assert_eq!(ast.validate_identifiers_as_types_usage(&table, &registry), Ok(()));
    let table = vec![
        cell("b", user_type("Point"), true),
        cell("d", user_type("Foo"), true),
        cell("e", user_type("Bar"), true),
    ];
    assert_eq!(
        ast.validate_identifiers_as_types_usage(&table, &registry),
        Err(Box::new(SemanticError::UndeclaredType("Foo".to_string())))
    );
    assert_eq!(
        ast.validate_identifiers_as_types_usage(&table, &vec![]),
        Err(Box::new(SemanticError::UndeclaredType("Point".to_string())))
    );
    assert_eq!(ast.validate_identifiers_as_types_usage(&vec![], &vec![]), Ok(()));
}

fn check(ast: &AST) -> Result<(), Box<SemanticError>> {
    let table = ast.build_type_table().unwrap();
    let registry = ast.get_valid_identifiers_as_types().unwrap();
    ast.validate_declaration_expression(&table, &registry)
}

#[test]
fn a_variable_initializes_a_variable_of_its_type() {
    let ast = trace(vec![
        declaration(ReservedWord::Let, DataType::Int, "x", value(Literal::Int(1))),
        declaration(ReservedWord::Let, DataType::Int, "y", name("x")),
    ]);
    assert_eq!(check(&ast), Ok(()));
    let ast = trace(vec![
        declaration(ReservedWord::Let, DataType::Int, "x", value(Literal::Int(1))),
        declaration(ReservedWord::Constant, DataType::Bool, "b", name("x")),
    ]);
    assert_eq!(
        check(&ast),
        Err(Box::new(SemanticError::IncompatibleTypes(
            cell("b", DataType::Bool, false),
            cell("x", DataType::Int, true),
        )))
    );
    let ast = trace(vec![declaration(ReservedWord::Let, DataType::Int, "y", name("nowhere"))]);
    assert_eq!(
        check(&ast),
        Err(Box::new(SemanticError::UndeclaredIdentifier("nowhere".to_string())))
    );
}

#[test]
fn every_declaration_is_checked_and_the_first_violation_reported() {
    let ast = trace(vec![
        declaration(ReservedWord::Let, DataType::Int, "x", value(Literal::Int(1))),
        declaration(ReservedWord::Let, DataType::Bool, "b", value(Literal::Bool(Bool::True))),
        declaration(ReservedWord::Let, DataType::Long, "l", value(Literal::Int(1))),
        declaration(ReservedWord::Let, DataType::Char, "c", value(Literal::Int(1))),
    ]);
    assert_eq!(
        check(&ast),
        Err(Box::new(SemanticError::IncompatibleTypes(
            cell("l", DataType::Long, true),
            cell("", DataType::Int, false),
        )))
    );
}

#[test]
fn a_literal_never_initializes_a_user_type() {
    let ast = trace(vec![
        enumeration("Color", &["Red"]),
        declaration(ReservedWord::Let, user_type("Color"), "c", value(Literal::Int(1))),
    ]);
    assert_eq!(
        check(&ast),
        Err(Box::new(SemanticError::IncompatibleTypes(
            cell("c", user_type("Color"), true),
            cell("", DataType::Int, false),
        )))
    );
}

#[test]
fn only_the_first_operand_of_an_initializer_is_inspected() {
    let mut entries = declaration(ReservedWord::Let, DataType::Int, "x", value(Literal::Int(1)));
    entries.pop();
    entries.push((
        NonTerminal::ExprOperation,
        vec![
            Symbol::Terminal(Terminal::UnaryOperator(Operator::Sum)),
            nt(NonTerminal::Expr),
            nt(NonTerminal::ExprOperation),
        ],
    ));
    entries.push((NonTerminal::Expr, vec![nt(NonTerminal::ExprOperand), nt(NonTerminal::ExprOperation)]));
    entries.push((NonTerminal::ExprOperand, vec![value(Literal::Bool(Bool::True))]));
    entries.push((NonTerminal::ExprOperation, vec![epsilon()]));
    entries.push((NonTerminal::ExprOperation, vec![epsilon()]));
    let ast = AST::new(entries);
    assert_eq!(check(&ast), Ok(()));
}

#[test]
fn a_declaration_of_the_redeclared_name_is_checked_against_the_first() {
    let ast = trace(vec![
        declaration(ReservedWord::Let, DataType::Int, "x", value(Literal::Int(1))),
        declaration(ReservedWord::Let, DataType::Str, "x", value(Literal::Int(2))),
    ]);
    assert_eq!(check(&ast), Ok(()));
}

#[test]
fn the_user_type_of_the_declared_name_decides() {
    let color = IdentifierTypeCell::EnumType {
        identifier: "Color".to_string(),
        variants: vec!["Red".to_string(), "Green".to_string(), "Point".to_string()],
    };
    let point = IdentifierTypeCell::StructType {
        identifier: "Point".to_string(),
        fields: vec![cell("x", DataType::Int, true), cell("c", DataType::Int, true)],
    };
    let registry = vec![point.clone(), color.clone()];
    let var = cell("c", user_type("Color"), true);
    assert_eq!(AST::validate_id_type_expr(&registry, &var, &"Green".to_string()), Ok(()));
    assert_eq!(AST::validate_id_type_expr(&registry, &var, &"Point".to_string()), Ok(()));
    assert_eq!(
        AST::validate_id_type_expr(&registry, &var, &"Blue".to_string()),
        Err(Box::new(SemanticError::VariantNotDeclared(
            var.clone(),
            "Blue".to_string(),
            color.clone()
        )))
    );
    assert_eq!(
        AST::validate_id_type_expr(&registry, &var, &"x".to_string()),
        Err(Box::new(SemanticError::VariantNotDeclared(
            var.clone(),
            "x".to_string(),
            color.clone()
        )))
    );
    let var = cell("Point", user_type("Color"), true);
    assert_eq!(AST::validate_id_type_expr(&registry, &var, &"Red".to_string()), Ok(()));
    assert_eq!(
        AST::validate_id_type_expr(&vec![color.clone(), point.clone()], &var, &"Red".to_string()),
        Ok(())
    );
}

#[test]
fn a_struct_rejects_its_own_name_and_the_names_of_its_fields() {
    let color = IdentifierTypeCell::EnumType {
        identifier: "Color".to_string(),
        variants: vec!["q".to_string()],
    };
    let point = IdentifierTypeCell::StructType {
        identifier: "Point".to_string(),
        fields: vec![cell("x", DataType::Int, true), cell("y", DataType::Int, true)],
    };
    let registry = vec![color.clone(), point.clone()];
    let var = cell("p", user_type("Point"), true);
    assert_eq!(AST::validate_id_type_expr(&registry, &var, &"q".to_string()), Ok(()));
    assert_eq!(AST::validate_id_type_expr(&registry, &var, &"p".to_string()), Ok(()));
    assert_eq!(AST::validate_id_type_expr(&registry, &var, &"Color".to_string()), Ok(()));
    assert_eq!(
        AST::validate_id_type_expr(&registry, &var, &"Point".to_string()),
        Err(Box::new(SemanticError::RedeclaredIdentifier(
            "Point".to_string(),
            "Point".to_string()
        )))
    );
    assert_eq!(
        AST::validate_id_type_expr(&registry, &var, &"y".to_string()),
        Err(Box::new(SemanticError::InvalidStructUsage(point.clone(), var.clone())))
    );
    let var = cell("x", user_type("Point"), false);
    assert_eq!(AST::validate_id_type_expr(&registry, &var, &"q".to_string()), Ok(()));
    assert_eq!(
        AST::validate_id_type_expr(&registry, &var, &"x".to_string()),
        Err(Box::new(SemanticError::InvalidStructUsage(point.clone(), var.clone())))
    );
}

#[test]
fn a_type_that_no_user_type_bears_is_undeclared() {
    let color = IdentifierTypeCell::EnumType {
        identifier: "Color".to_string(),
        variants: vec!["Red".to_string()],
    };
    let var = cell("s", user_type("Shape"), true);
    assert_eq!(
        AST::validate_id_type_expr(&vec![color.clone()], &var, &"Red".to_string()),
        Err(Box::new(SemanticError::UndeclaredType("Shape".to_string())))
    );
    assert_eq!(
        AST::validate_id_type_expr(&vec![], &var, &"Red".to_string()),
        Err(Box::new(SemanticError::UndeclaredType("Shape".to_string())))
    );
    let var = cell("n", DataType::Int, true);
    assert_eq!(
        AST::validate_id_type_expr(&vec![color.clone()], &var, &"q".to_string()),
        Err(Box::new(SemanticError::UndeclaredType("Int".to_string())))
    );
}

#[test]
fn of_two_user_types_of_one_name_the_first_decides() {
    let as_struct = IdentifierTypeCell::StructType {
        identifier: "T".to_string(),
        fields: vec![cell("f", DataType::Int, true)],
    };
    let as_enum = IdentifierTypeCell::EnumType {
        identifier: "T".to_string(),
        variants: vec!["f".to_string()],
    };
    let var = cell("v", user_type("T"), true);
    assert_eq!(
        AST::validate_id_type_expr(
            &vec![as_struct.clone(), as_enum.clone()],
            &var,
            &"f".to_string()
        ),
        Err(Box::new(SemanticError::InvalidStructUsage(as_struct.clone(), var.clone())))
    );
    assert_eq!(
        AST::validate_id_type_expr(&vec![as_enum.clone(), as_struct.clone()], &var, &"f".to_string()),
        Ok(())
    );
}

#[test]
fn a_variable_of_a_struct_type_passes_the_declaration_pass() {
    let ast = trace(vec![
        structure("Point", &[(DataType::Int, "x")]),
        declaration(ReservedWord::Let, DataType::Int, "seed", value(Literal::Int(1))),
        declaration(ReservedWord::Let, user_type("Point"), "p", name("seed")),
    ]);
    assert_eq!(ast.try_type_check(), Some(Ok(())));
    let ast = trace(vec![
        structure("Point", &[(DataType::Int, "x")]),
        declaration(ReservedWord::Let, user_type("Point"), "p", name("x")),
    ]);
    assert_eq!(
        ast.try_type_check(),
        Some(Err(Box::new(SemanticError::InvalidStructUsage(
            IdentifierTypeCell::StructType {
                identifier: "Point".to_string(),
                fields: vec![cell("x", DataType::Int, true)],
            },
            cell("p", user_type("Point"), true),
        ))))
    );
}

#[test]
fn a_declaration_that_ends_an_initializer_is_examined() {
    let table = vec![cell("x", DataType::Int, true), cell("y", DataType::Bool, true)];
    let first = || {
        vec![
            (
                NonTerminal::StmntDecl,
                vec![word(ReservedWord::Let), of_type(DataType::Int), name("x")],
            ),
            (NonTerminal::ExprOperand, vec![value(Literal::Int(1))]),
        ]
    };
    let mut entries = first();
    entries.push((NonTerminal::StmntDecl, vec![epsilon(), name("y")]));
    entries.push((NonTerminal::ExprOperand, vec![value(Literal::Int(2))]));
    let ast = AST::new(entries);
    assert_eq!(
        ast.try_validate_declaration_expression(&table, &vec![]),
        Some(Err(Box::new(SemanticError::IncompatibleTypes(
            cell("y", DataType::Bool, true),
            cell("", DataType::Int, false),
        ))))
    );
    let mut entries = first();
    entries.push((NonTerminal::StmntDecl, vec![]));
    let ast = AST::new(entries);
    assert_eq!(ast.try_validate_declaration_expression(&table, &vec![]), None);
}

#[test]
fn a_variable_is_looked_up_by_its_first_declaration() {
    let table = vec![cell("x", DataType::Int, true), cell("x", DataType::Str, false)];
    assert_eq!(AST::find_var_in_table(&table, &"x".to_string()), Some(&table[0]));
    assert_eq!(AST::find_var_in_table(&table, &"y".to_string()), None);
    assert_eq!(AST::find_var_in_table(&[], &"x".to_string()), None);
}

#[test]
fn an_initializer_of_an_unknown_shape_is_not_checked() {
    let table = vec![cell("x", DataType::Int, true)];
    let decl = || (NonTerminal::StmntDecl, vec![word(ReservedWord::Let), of_type(DataType::Int), name("x")]);
    let unknown_tag = AST::new(vec![decl(), (NonTerminal::Func, vec![name("f")])]);
    assert_eq!(unknown_tag.try_validate_declaration_expression(&table, &vec![]), None);
    let unknown_operand =
        AST::new(vec![decl(), (NonTerminal::ExprOperand, vec![mark(Separator::Comma)])]);
    assert_eq!(unknown_operand.try_validate_declaration_expression(&table, &vec![]), None);
    let not_in_table = AST::new(vec![decl()]);
    assert_eq!(not_in_table.try_validate_declaration_expression(&vec![], &vec![]), None);
    let nameless = AST::new(vec![(NonTerminal::StmntDecl, vec![word(ReservedWord::Let)])]);
    assert_eq!(nameless.try_validate_declaration_expression(&table, &vec![]), None);
    let after_the_error = AST::new(vec![
        decl(),
        (NonTerminal::ExprOperand, vec![value(Literal::Bool(Bool::True))]),
        (NonTerminal::Func, vec![name("f")]),
    ]);
    assert_eq!(
        after_the_error.try_validate_declaration_expression(&table, &vec![]),
        Some(Err(Box::new(SemanticError::IncompatibleTypes(
            cell("x", DataType::Int, true),
            cell("", DataType::Bool, false),
        ))))
    );
    let known = AST::new(vec![decl(), (NonTerminal::Expr, vec![epsilon()]), (NonTerminal::Func, vec![])]);
    assert_eq!(known.try_validate_declaration_expression(&table, &vec![]), Some(Ok(())));
}

#[test]
fn the_usage_pass_runs_before_the_declaration_pass() {
    let ast = trace(vec![
        declaration(ReservedWord::Let, DataType::Int, "x", value(Literal::Bool(Bool::True))),
        declaration(ReservedWord::Let, user_type("Foo"), "f", name("x")),
    ]);
    assert_eq!(
        ast.try_type_check(),
        Some(Err(Box::new(SemanticError::UndeclaredType("Foo".to_string()))))
    );
    assert_eq!(
        ast.type_check(),
        Err(Box::new(SemanticError::UndeclaredType("Foo".to_string())))
    );
}
