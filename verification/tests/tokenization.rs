use glim::lexer::tokenization::{check_for_2_chars, tokenize_comment, tokenize_comment_block};

#[test]
fn the_first_two_characters_are_handed_out() {
    assert_eq!(check_for_2_chars("//x"), Ok("//".to_string()));
    assert_eq!(check_for_2_chars("ab"), Ok("ab".to_string()));
    assert_eq!(check_for_2_chars("a"), Err(()));
    assert_eq!(check_for_2_chars(""), Err(()));
    assert_eq!(check_for_2_chars("äöü"), Ok("äö".to_string()));
}

#[test]
fn an_inline_comment_loses_its_opening() {
    assert_eq!(tokenize_comment((1, "// note")), Ok(" note".to_string()));
    assert_eq!(tokenize_comment((1, "//")), Ok(String::new()));
    assert_eq!(tokenize_comment((1, "/ note")), Err(()));
    assert_eq!(tokenize_comment((1, "/")), Err(()));
    assert_eq!(tokenize_comment((7, "x // y")), Err(()));
}

#[test]
fn a_comment_block_loses_its_delimiters() {
    assert_eq!(tokenize_comment_block((1, "/* a\nb */")), Ok(" a\nb ".to_string()));
    assert_eq!(tokenize_comment_block((1, "/**/")), Ok(String::new()));
    assert_eq!(tokenize_comment_block((1, "/* open")), Err(()));
    assert_eq!(tokenize_comment_block((1, "closed */")), Err(()));
    assert_eq!(tokenize_comment_block((1, "*")), Err(()));
    assert_eq!(tokenize_comment_block((1, "/* é */")), Ok(" é ".to_string()));
}
