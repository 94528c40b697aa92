use glim::lexer::numerals::{has_float_shape, read_integer};
use glim::lexer::tokenization::tokenize_identifier;
use glim::lexer::tokens::Literal;

/// Every text of up to `length` characters over `alphabet`.
fn texts(alphabet: &[char], length: usize) -> Vec<String> {
    let mut all = vec![String::new()];
    let mut last = vec![String::new()];
    for _ in 0..length {
        let mut next = Vec::new();
        for text in &last {
            for c in alphabet {
                let mut longer = text.clone();
                longer.push(*c);
                next.push(longer);
            }
        }
        all.extend(next.iter().cloned());
        last = next;
    }
    all
}

#[test]
fn integers_are_read_as_the_standard_library_reads_them() {
    let mut candidates = texts(&['+', '-', '0', '1', '9', ' ', 'a', '_', '.'], 4);
    for text in [
        "9223372036854775807",
        "9223372036854775808",
        "-9223372036854775808",
        "-9223372036854775809",
        "+9223372036854775807",
        "00000000000000000000000000000042",
        "18446744073709551616",
        "99999999999999999999999999999999999999999",
        "-0",
        "１２",
    ] {
        candidates.push(text.to_string());
    }
    for text in candidates {
        let chars: Vec<char> = text.chars().collect();
        assert_eq!(read_integer(&chars), text.parse::<i64>().ok(), "{text:?}");
    }
}

#[test]
fn the_shape_of_a_float_is_the_one_that_the_standard_library_reads() {
    let mut candidates = texts(&['+', '-', '0', '7', '.', 'e', 'E', 'x'], 5);
    candidates.extend(texts(&['i', 'n', 'f', 'a', 'N', 'I', '+', '-'], 4));
    for text in [
        "infinity", "Infinity", "INFINITY", "-infinity", "+infinity", "infinit", "infinityy",
        "inf ", " inf", "nan1", "1e+5", "1e-5", "1e+", "1.5e10", ".e5", "1_0", "0x10", "1f32",
        "1e5.5", "１.５", "",
    ] {
        candidates.push(text.to_string());
    }
    for text in candidates {
        let chars: Vec<char> = text.chars().collect();
        assert_eq!(has_float_shape(&chars), text.parse::<f32>().is_ok(), "{text:?}");
        assert_eq!(has_float_shape(&chars), text.parse::<f64>().is_ok(), "{text:?}");
    }
}

#[test]
fn a_numeral_is_a_literal_as_the_standard_library_reads_it() {
    for text in texts(&['-', '0', '3', '.', 'e', 'n', 'a'], 4) {
        let expected = if let Ok(value) = text.parse::<i32>() {
            Ok(Literal::Int(value))
        } else if let Ok(value) = text.parse::<i64>() {
            Ok(Literal::Long(value))
        } else if text.parse::<f32>().is_ok() {
            Ok(Literal::Float(text.clone()))
        } else {
            Err(text.clone())
        };
        assert_eq!(Literal::try_from(text.clone()), expected, "{text:?}");
    }
}

#[test]
fn an_identifier_is_what_the_pattern_of_identifiers_matches() {
    let pattern = regex::bytes::Regex::new(r"^[a-zA-Z_][a-zA-Z0-9\-_]*$").unwrap();
    let mut candidates = texts(&['a', 'Z', '_', '-', '0', '9', ' ', '\n', 'é', '.'], 4);
    candidates.push("z{".to_string());
    candidates.push("A[".to_string());
    candidates.push("`a".to_string());
    candidates.push("a@".to_string());
    candidates.push("a/".to_string());
    candidates.push("a:".to_string());
    for text in candidates {
        assert_eq!(
            tokenize_identifier((1, &text)).is_ok(),
            pattern.is_match(text.as_bytes()),
            "{text:?}"
        );
    }
}
