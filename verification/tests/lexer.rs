use glim::lexer::reserved::{Operator, ReservedWord, Separator};
use glim::lexer::tokenization::{
    build_splitter_pattern, drop_trivia, number_lines, tokenize, tokenize_identifier,
    tokenize_raw, Splitter,
};
use glim::lexer::tokens::{Bool, Char, Literal, Str, Token};

#[test]
fn the_pattern_escapes_the_vocabulary() {
    let expected = concat_pattern();
    assert_eq!(build_splitter_pattern(), expected);
}

fn concat_pattern() -> String {
    let head = r#"\/\*[\S\s]*\*\/|//.*|(?:(?:[0-9])[.](?:[0-9]*)|"[\S\s]*"|'[\S\s]'|"#;
    let words = [
        "//", r"/\*", r"\*/", ";", r"\(", r"\)", "\"", "'", r"\{", r"\}", r"\[", r"\]", ",",
        r"\.", "\n", " ", r"\+=", r"\-=", ">=", "<=", "==", "!=", "!", "=", r"\+", r"\-",
        r"\*", "/", ">", "<",
    ];
    format!("{}{})", head, words.join("|"))
}

#[test]
fn source_text_is_cut_at_separators_and_operators() {
    let raws = "let x=1;\ny ".split_code().unwrap();
    assert_eq!(
        raws,
        vec![
            Some((1, "let")),
            Some((1, " ")),
            Some((1, "x")),
            Some((1, "=")),
            Some((1, "1")),
            Some((1, ";")),
            None,
            Some((2, "\n")),
            Some((2, "y")),
            Some((2, " ")),
        ]
    );
}

#[test]
fn text_after_the_last_separator_is_left_out() {
    assert_eq!("a b".split_code().unwrap(), vec![Some((1, "a")), Some((1, " "))]);
    assert_eq!("ab".split_code().unwrap(), vec![]);
}

#[test]
fn comments_strings_and_numbers_stay_in_one_piece() {
    let raws = "x = 1.5 + \"a b\"; // rest\n".split_code().unwrap();
    let pieces: Vec<&str> = raws.iter().flatten().map(|raw| raw.1).collect();
    assert_eq!(
        pieces,
        vec!["x", " ", "=", " ", "1.5", " ", "+", " ", "\"a b\"", ";", " ", "// rest", "\n"]
    );
    let block = "/* a\nb */;".split_code().unwrap();
    assert_eq!(block, vec![None, Some((1, "/* a\nb */")), None, Some((1, ";"))]);
}

#[test]
fn lines_are_numbered_from_one_and_a_line_feed_begins_the_next() {
    let pieces = vec!["a", "", "b", "tail"];
    let found = vec!["\n", "\n", ";"];
    assert_eq!(
        number_lines(&pieces, &found),
        vec![
            Some((1, "a")),
            Some((2, "\n")),
            None,
            Some((3, "\n")),
            Some((3, "b")),
            Some((3, ";")),
        ]
    );
    assert_eq!(number_lines(&vec!["a"], &vec![]), vec![]);
    assert_eq!(number_lines(&vec![], &vec![";"]), vec![]);
}

#[test]
fn integers_are_read_in_ascii_and_in_full_width_digits() {
    assert_eq!("42".split_and_parse_jp_numerals(), Ok(42));
    assert_eq!("-7".split_and_parse_jp_numerals(), Ok(-7));
    assert_eq!("+7".split_and_parse_jp_numerals(), Ok(7));
    assert_eq!("４２".split_and_parse_jp_numerals(), Ok(42));
    assert_eq!("9223372036854775807".split_and_parse_jp_numerals(), Ok(i64::MAX));
    assert_eq!("-9223372036854775808".split_and_parse_jp_numerals(), Ok(i64::MIN));
    assert_eq!("9223372036854775808".split_and_parse_jp_numerals(), Err("9223372036854775808"));
    assert_eq!("4２".split_and_parse_jp_numerals(), Err("4２"));
    assert_eq!("".split_and_parse_jp_numerals(), Err(""));
    assert_eq!("+".split_and_parse_jp_numerals(), Err("+"));
    assert_eq!("1.5".split_and_parse_jp_numerals(), Err("1.5"));
    assert_eq!("x".split_and_parse_jp_numerals(), Err("x"));
}

#[test]
fn quotation_marks_are_doubled_in_a_csv_field() {
    assert_eq!("say \"hi\"".csv_formatter(), "say \"\"hi\"\"");
    assert_eq!("plain".csv_formatter(), "plain");
    assert_eq!("".csv_formatter(), "");
}

#[test]
fn literals_are_read_by_their_kind() {
    assert_eq!(Literal::try_from("5".to_string()), Ok(Literal::Int(5)));
    assert_eq!(Literal::try_from("-2147483648".to_string()), Ok(Literal::Int(i32::MIN)));
    assert_eq!(Literal::try_from("2147483648".to_string()), Ok(Literal::Long(2147483648)));
    assert_eq!(Literal::try_from("５".to_string()), Ok(Literal::Int(5)));
    assert_eq!(Literal::try_from("1.5".to_string()), Ok(Literal::Float("1.5".to_string())));
    assert_eq!(Literal::try_from("１。５".to_string()), Ok(Literal::Float("1.5".to_string())));
    assert_eq!(Literal::try_from(".5e-3".to_string()), Ok(Literal::Float(".5e-3".to_string())));
    assert_eq!(Literal::try_from("1.".to_string()), Ok(Literal::Float("1.".to_string())));
    assert_eq!(Literal::try_from("1E5".to_string()), Ok(Literal::Float("1E5".to_string())));
    assert_eq!(Literal::try_from("-inf".to_string()), Ok(Literal::Float("-inf".to_string())));
    assert_eq!(Literal::try_from("NaN".to_string()), Ok(Literal::Float("NaN".to_string())));
    assert_eq!(
        Literal::try_from("99999999999999999999".to_string()),
        Ok(Literal::Float("99999999999999999999".to_string()))
    );
    assert_eq!(Literal::try_from("true".to_string()), Ok(Literal::Bool(Bool::True)));
    assert_eq!(Literal::try_from("false".to_string()), Ok(Literal::Bool(Bool::False)));
    assert_eq!(
        Literal::try_from("\"a\"".to_string()),
        Ok(Literal::Char(Char {
            open_quote: Separator::StringQuotation,
            content: 'a',
            close_quote: Separator::StringQuotation,
        }))
    );
    assert_eq!(
        Literal::try_from("\"any\"".to_string()),
        Ok(Literal::Str(Str {
            open_quote: Separator::StringQuotation,
            content: "any".to_string(),
            close_quote: Separator::StringQuotation,
        }))
    );
    assert_eq!(
        Literal::try_from("\"\"".to_string()),
        Ok(Literal::Str(Str {
            open_quote: Separator::StringQuotation,
            content: String::new(),
            close_quote: Separator::StringQuotation,
        }))
    );
    assert_eq!(
        Literal::try_from("\"".to_string()),
        Ok(Literal::Str(Str {
            open_quote: Separator::StringQuotation,
            content: String::new(),
            close_quote: Separator::StringQuotation,
        }))
    );
}

#[test]
fn text_that_writes_no_literal_is_handed_back() {
    for text in ["x", "", ".", "e5", "1e", "1.5.2", "tru", "'a'", "\"open", "1_000", "+", "in"] {
        assert_eq!(Literal::try_from(text.to_string()), Err(text.to_string()));
    }
}

#[test]
fn a_raw_token_is_classified_in_a_fixed_order() {
    assert_eq!(Token::try_from((1, "let")), Ok(Token::ReservedWord(ReservedWord::Let)));
    assert_eq!(Token::try_from((1, "7")), Ok(Token::Literal(Literal::Int(7))));
    assert_eq!(Token::try_from((1, "true")), Ok(Token::Literal(Literal::Bool(Bool::True))));
    assert_eq!(
        Token::try_from((1, "nan")),
        Ok(Token::Literal(Literal::Float("nan".to_string())))
    );
    assert_eq!(Token::try_from((1, ";")), Ok(Token::Separator(Separator::Terminator)));
    assert_eq!(Token::try_from((1, "//")), Ok(Token::Separator(Separator::InlineComment)));
    assert_eq!(Token::try_from((1, "+=")), Ok(Token::Operator(Operator::Increment)));
    assert_eq!(Token::try_from((1, "// note")), Ok(Token::Comment(" note".to_string())));
    assert_eq!(Token::try_from((1, "/* b */")), Ok(Token::Comment(" b ".to_string())));
    assert_eq!(Token::try_from((1, "name_1")), Ok(Token::Identifier("name_1".to_string())));
    assert_eq!(
        Token::try_from((12, "/*/")),
        Err("Lexical error with: \"/*/\" at line 12".to_string())
    );
}

#[test]
fn an_identifier_begins_with_a_letter_or_an_underscore() {
    assert_eq!(tokenize_identifier((1, "a")), Ok("a".to_string()));
    assert_eq!(tokenize_identifier((1, "_a-b_9")), Ok("_a-b_9".to_string()));
    assert_eq!(tokenize_identifier((1, "Zz")), Ok("Zz".to_string()));
    assert_eq!(
        tokenize_identifier((3, "9a")),
        Err("Lexical error with: \"9a\" at line 3".to_string())
    );
    assert_eq!(
        tokenize_identifier((4294967295, "-a")),
        Err("Lexical error with: \"-a\" at line 4294967295".to_string())
    );
    assert_eq!(
        tokenize_identifier((0, "")),
        Err("Lexical error with: \"\" at line 0".to_string())
    );
    assert_eq!(
        tokenize_identifier((10, "a b")),
        Err("Lexical error with: \"a b\" at line 10".to_string())
    );
    assert_eq!(
        tokenize_identifier((100, "é")),
        Err("Lexical error with: \"é\" at line 100".to_string())
    );
    assert_eq!(
        tokenize_identifier((7, "a\n")),
        Err("Lexical error with: \"a\n\" at line 7".to_string())
    );
}

#[test]
fn the_first_piece_that_is_no_token_ends_the_lexing() {
    let raws = vec![Some((1, "let")), None, Some((1, "9x")), Some((2, "8y"))];
    assert_eq!(tokenize_raw(&raws), Err("Lexical error with: \"9x\" at line 1".to_string()));
    let raws = vec![None, Some((1, "x")), Some((1, " "))];
    assert_eq!(
        tokenize_raw(&raws),
        Ok(vec![Token::Identifier("x".to_string()), Token::Separator(Separator::WhiteSpace)])
    );
}

#[test]
fn a_source_text_becomes_tokens() {
    let tokens = tokenize("let int x = 5; // five\n").unwrap().unwrap();
    assert_eq!(
        tokens,
        vec![
            Token::ReservedWord(ReservedWord::Let),
            Token::Separator(Separator::WhiteSpace),
            Token::ReservedWord(ReservedWord::Int),
            Token::Separator(Separator::WhiteSpace),
            Token::Identifier("x".to_string()),
            Token::Separator(Separator::WhiteSpace),
            Token::Operator(Operator::Assignment),
            Token::Separator(Separator::WhiteSpace),
            Token::Literal(Literal::Int(5)),
            Token::Separator(Separator::Terminator),
            Token::Separator(Separator::WhiteSpace),
            Token::Comment(" five".to_string()),
            Token::Separator(Separator::NewLine),
        ]
    );
    assert_eq!(
        drop_trivia(tokens),
        vec![
            Token::ReservedWord(ReservedWord::Let),
            Token::ReservedWord(ReservedWord::Int),
            Token::Identifier("x".to_string()),
            Token::Operator(Operator::Assignment),
            Token::Literal(Literal::Int(5)),
            Token::Separator(Separator::Terminator),
        ]
    );
    assert_eq!(
        tokenize("let 9x ;"),
        Some(Err("Lexical error with: \"9x\" at line 1".to_string()))
    );
}

#[test]
fn every_spelling_reads_back() {
    for word in Separator::all() {
        assert_eq!(Separator::try_from(word.as_str()), Ok(word));
    }
    for word in Operator::all() {
        assert_eq!(Operator::try_from(word.as_str()), Ok(word));
    }
    assert_eq!(Separator::all().len(), 16);
    assert_eq!(Operator::all().len(), 14);
    assert_eq!(Operator::try_from("=>"), Err("=>".to_string()));
    assert_eq!(Separator::try_from(""), Err(String::new()));
    assert_eq!(ReservedWord::try_from("elif"), Ok(ReservedWord::Elif));
    assert_eq!(ReservedWord::Enum.as_str(), "enumeration");
}
