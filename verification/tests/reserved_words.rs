use glim::lexer::reserved::{Operator, ReservedWord, Separator};

#[test]
fn keywords_read_back_from_their_spelling() {
    assert_eq!(ReservedWord::try_from("func"), Ok(ReservedWord::Function));
    assert_eq!(ReservedWord::try_from("enumeration"), Ok(ReservedWord::Enum));
    assert_eq!(ReservedWord::Constant.as_str(), "const");
    assert_eq!(ReservedWord::try_from("funk"), Err("funk".to_string()));
}

#[test]
fn operators_and_separators_read_back_from_their_spelling() {
    assert_eq!(Operator::try_from("+="), Ok(Operator::Increment));
    assert_eq!(Operator::try_from("-="), Ok(Operator::Decrement));
    assert_eq!(Operator::try_from("="), Ok(Operator::Assignment));
    assert_eq!(Separator::try_from("\n"), Ok(Separator::NewLine));
    assert_eq!(Separator::try_from("/*"), Ok(Separator::CommentBlockOpen));
    assert_eq!(Separator::Dot.as_str(), ".");
}
