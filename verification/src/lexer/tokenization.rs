//! The lexer: it cuts source text into raw pieces at the separators and
//! operators of the language, numbers their lines, and classifies each piece
//! as a token.

use crate::lexer::numerals::{
    decimal_digits, numeral_text, parsed_i64, push_decimal, read_integer, read_numeral,
};
use crate::lexer::strings::chars_of;
use crate::lexer::reserved::{Operator, Separator};
use crate::lexer::tokens::{is_trivia, token_of, Token, TokenView};
use vstd::prelude::*;
use vstd::string::{StrSliceExecFns, StringExecFns};

verus! {

broadcast use vstd::string::group_string_axioms;

/// What the lexer reports when a piece of text is no token.
pub type LexicalError = String;

/// A piece of source text with the number of the line it stands on.
pub type RawToken<'a> = (u32, &'a str);

/// The tokens of a source text.
pub type Tokens = Vec<Token>;

/// Whether a character has a meaning of its own in a regular expression.
pub open spec fn is_meta_character(c: char) -> bool {
    c == '\\' || c == '.' || c == '+' || c == '*' || c == '?' || c == '(' || c == ')' || c == '|'
        || c == '[' || c == ']' || c == '{' || c == '}' || c == '^' || c == '$' || c == '#' || c
        == '&' || c == '-' || c == '~'
}

/// `text` as a literal of a regular expression: a backslash stands before
/// every character that has a meaning of its own.
pub open spec fn escaped(text: Seq<char>) -> Seq<char>
    decreases text.len(),
{
    if text.len() == 0 {
        Seq::empty()
    } else if is_meta_character(text.last()) {
        escaped(text.drop_last()).push('\\').push(text.last())
    } else {
        escaped(text.drop_last()).push(text.last())
    }
}

/// The pieces of `text` that lie between the matches of the regular
/// expression `pattern`, in text order; `None` when `pattern` is no regular
/// expression.
pub uninterp spec fn split_by(pattern: Seq<char>, text: Seq<char>) -> Option<Seq<Seq<char>>>;

/// The matches of the regular expression `pattern` in `text`, in text order;
/// `None` when `pattern` is no regular expression.
pub uninterp spec fn found_by(pattern: Seq<char>, text: Seq<char>) -> Option<Seq<Seq<char>>>;

/// `regex::escape`: puts a backslash before every meta character of `text`
/// and leaves every other character as it is.
#[verifier::external_body]
fn regex_escape(text: &str) -> (r: String)
    ensures
        r@ == escaped(text@),
{
    regex::escape(text)
}

/// `regex::bytes::Regex::new`, `regex::bytes::Regex::split` and
/// `regex::bytes::Regex::find_iter`: compiles `pattern` once and hands out
/// what `split` gives, the parts of `text` that no match covers, and what
/// `find_iter` gives, the successive matches. Each of the two depends on the
/// pattern and the text alone; there is neither where the pattern does not
/// compile.
#[verifier::external_body]
fn regex_cut<'a>(pattern: &str, text: &'a str) -> (cut: Option<(Vec<&'a str>, Vec<&'a str>)>)
    ensures
        match cut {
            Some(parts) => split_by(pattern@, text@) == Some(parts.0.deep_view()) && found_by(
                pattern@,
                text@,
            ) == Some(parts.1.deep_view()),
            None => split_by(pattern@, text@) is None && found_by(pattern@, text@) is None,
        },
{
    let re = regex::bytes::Regex::new(pattern).ok()?;
    let pieces = re.split(text.as_bytes()).map(
        |piece| std::str::from_utf8(piece).unwrap_or_default(),
    ).collect();
    let found = re.find_iter(text.as_bytes()).map(
        |found| std::str::from_utf8(found.as_bytes()).unwrap_or_default(),
    ).collect();
    Some((pieces, found))
}

/// The first `n` of `words`, each as a literal of a regular expression, with
/// a bar between two neighbours.
pub open spec fn alternatives(words: Seq<Seq<char>>, n: int) -> Seq<char>
    decreases n,
{
    if n <= 0 {
        Seq::empty()
    } else if n == 1 {
        escaped(words[0])
    } else {
        alternatives(words, n - 1).push('|') + escaped(words[n - 1])
    }
}

/// The spellings at which source text is cut: those of the separators, then
/// those of the operators.
pub open spec fn vocabulary() -> Seq<Seq<char>> {
    Separator::every().map_values(|mark: Separator| mark.word()) + Operator::every().map_values(
        |sign: Operator| sign.word(),
    )
}

/// The beginning of the splitter's pattern: a comment block, an inline
/// comment, a number with a point, a string and a character, each of which
/// is cut out in one piece.
pub open spec fn pattern_head() -> Seq<char> {
    r#"\/\*[\S\s]*\*\/|//.*|(?:(?:[0-9])[.](?:[0-9]*)|"[\S\s]*"|'[\S\s]'|"#@
}

/// The regular expression at whose matches source text is cut.
pub open spec fn splitter_pattern() -> Seq<char> {
    (pattern_head() + alternatives(vocabulary(), vocabulary().len() as int)).push(')')
}

/// The spellings at which source text is cut.
fn vocabulary_words() -> (words: Vec<&'static str>)
    ensures
        words.deep_view() == vocabulary(),
{
    let mut words: Vec<&'static str> = Vec::new();
    let separators = Separator::all();
    let operators = Operator::all();
    let ghost marks = Separator::every().map_values(|mark: Separator| mark.word());
    let ghost signs = Operator::every().map_values(|sign: Operator| sign.word());
    let mut i: usize = 0;
    while i < separators.len()
        invariant
            i <= separators.len(),
            separators@ == Separator::every(),
            marks == Separator::every().map_values(|mark: Separator| mark.word()),
            words.deep_view() == marks.take(i as int),
        decreases separators.len() - i,
    {
        let ghost before = words.deep_view();
        let word = separators[i].as_str();
        words.push(word);
        assert(words.deep_view() =~= before.push(word@));
        assert(marks[i as int] == Separator::every()[i as int].word());
        i += 1;
        assert(words.deep_view() =~= marks.take(i as int));
    }
    assert(marks.take(i as int) =~= marks);
    let mut j: usize = 0;
    while j < operators.len()
        invariant
            j <= operators.len(),
            operators@ == Operator::every(),
            signs == Operator::every().map_values(|sign: Operator| sign.word()),
            words.deep_view() == marks + signs.take(j as int),
        decreases operators.len() - j,
    {
        let ghost before = words.deep_view();
        let word = operators[j].as_str();
        words.push(word);
        assert(words.deep_view() =~= before.push(word@));
        assert(signs[j as int] == Operator::every()[j as int].word());
        j += 1;
        assert(words.deep_view() =~= marks + signs.take(j as int));
    }
    assert(signs.take(j as int) =~= signs);
    words
}

/// Builds the regular expression at whose matches source text is cut.
pub fn build_splitter_pattern() -> (pattern: String)
    ensures
        pattern@ == splitter_pattern(),
{
    let words = vocabulary_words();
    let mut pattern = r#"\/\*[\S\s]*\*\/|//.*|(?:(?:[0-9])[.](?:[0-9]*)|"[\S\s]*"|'[\S\s]'|"#
        .to_owned();
    let mut i: usize = 0;
    while i < words.len()
        invariant
            i <= words.len(),
            words.deep_view() == vocabulary(),
            pattern@ == pattern_head() + alternatives(vocabulary(), i as int),
        decreases words.len() - i,
    {
        let ghost before = pattern@;
        if i > 0 {
            pattern.push('|');
        }
        let word = regex_escape(words[i]);
        pattern.append(word.as_str());
        i += 1;
        assert(pattern@ =~= pattern_head() + alternatives(vocabulary(), i as int));
    }
    pattern.push(')');
    pattern
}

/// The line on which the text after `separator` stands, when `separator`
/// stands on `line`: a line feed begins the next line. Line numbers wrap
/// around at the largest.
pub open spec fn line_after(line: u32, separator: Seq<char>) -> u32 {
    if separator == seq!['\n'] {
        if line == u32::MAX {
            0
        } else {
            (line + 1) as u32
        }
    } else {
        line
    }
}

/// The line on which the piece before the separator at `n` stands: the
/// first line is line 1.
pub open spec fn line_before(found: Seq<Seq<char>>, n: int) -> u32
    decreases n,
{
    if n <= 0 {
        1
    } else {
        line_after(line_before(found, n - 1), found[n - 1])
    }
}

/// A piece of text as a raw token on `line`; an empty piece is none.
pub open spec fn raw_token(line: u32, text: Seq<char>) -> Option<(u32, Seq<char>)> {
    if text.len() == 0 {
        None
    } else {
        Some((line, text))
    }
}

/// The first `n` pieces, each followed by the separator after it, with
/// their line numbers. A line feed counts to the line that it begins.
pub open spec fn numbered(pieces: Seq<Seq<char>>, found: Seq<Seq<char>>, n: int) -> Seq<
    Option<(u32, Seq<char>)>,
>
    decreases n,
{
    if n <= 0 {
        Seq::empty()
    } else {
        numbered(pieces, found, n - 1).push(
            raw_token(line_before(found, n - 1), pieces[n - 1]),
        ).push(raw_token(line_before(found, n), found[n - 1]))
    }
}

/// The raw tokens of a text that was cut into `pieces` at the separators
/// `found`: every piece that a separator follows, and that separator. A
/// piece after the last separator is left out.
pub open spec fn raw_tokens(pieces: Seq<Seq<char>>, found: Seq<Seq<char>>) -> Seq<
    Option<(u32, Seq<char>)>,
> {
    if pieces.len() <= found.len() {
        numbered(pieces, found, pieces.len() as int)
    } else {
        numbered(pieces, found, found.len() as int)
    }
}

/// Pairs every piece with the separator after it and numbers the lines.
pub fn number_lines<'a>(pieces: &Vec<&'a str>, found: &Vec<&'a str>) -> (raws: Vec<
    Option<RawToken<'a>>,
>)
    ensures
        raws.deep_view() == raw_tokens(pieces.deep_view(), found.deep_view()),
{
    let n = if pieces.len() <= found.len() {
        pieces.len()
    } else {
        found.len()
    };
    let mut raws: Vec<Option<RawToken<'a>>> = Vec::new();
    let mut line_num: u32 = 1;
    let mut i: usize = 0;
    assert(raws.deep_view() =~= Seq::empty());
    proof {
        reveal_strlit("\n");
        assert("\n"@ =~= seq!['\n']);
    }
    while i < n
        invariant
            i <= n,
            n <= pieces.len(),
            n <= found.len(),
            "\n"@ == seq!['\n'],
            line_num == line_before(found.deep_view(), i as int),
            raws.deep_view() == numbered(pieces.deep_view(), found.deep_view(), i as int),
        decreases n - i,
    {
        let ghost before = raws.deep_view();
        let token = pieces[i];
        let separator = found[i];
        let piece: Option<RawToken<'a>> = if token.is_empty() {
            None
        } else {
            Some((line_num, token))
        };
        raws.push(piece);
        if separator.eq("\n") {
            line_num = line_num.wrapping_add(1);
        }
        let mark: Option<RawToken<'a>> = if separator.is_empty() {
            None
        } else {
            Some((line_num, separator))
        };
        raws.push(mark);
        i += 1;
        assert(raws.deep_view() =~= before.push(piece.deep_view()).push(mark.deep_view()));
    }
    raws
}

/// The raw tokens of a source text; `None` when the splitter's pattern is
/// no regular expression.
pub open spec fn split_code(text: Seq<char>) -> Option<Seq<Option<(u32, Seq<char>)>>> {
    match (split_by(splitter_pattern(), text), found_by(splitter_pattern(), text)) {
        (Some(pieces), Some(found)) => Some(raw_tokens(pieces, found)),
        _ => None,
    }
}

/// `text` as a field of a CSV record: every quotation mark is doubled.
pub open spec fn csv_formatted(text: Seq<char>) -> Seq<char>
    decreases text.len(),
{
    if text.len() == 0 {
        Seq::empty()
    } else if text.last() == '"' {
        csv_formatted(text.drop_last()).push('"').push('"')
    } else {
        csv_formatted(text.drop_last()).push(text.last())
    }
}

/// What the lexer asks of source text.
pub trait Splitter {
    /// The characters of the text.
    spec fn characters(&self) -> Seq<char>;

    /// Cuts the text at every separator, operator, comment, string and
    /// character and numbers the lines; `None` when the splitter's pattern is
    /// no regular expression.
    fn split_code(&self) -> (raws: Option<Vec<Option<RawToken>>>)
        ensures
            raws.deep_view() == split_code(self.characters()),
    ;

    /// Reads the text as an integer, written in ASCII digits or in
    /// full-width digits throughout; text that writes none is handed back.
    fn split_and_parse_jp_numerals(&self) -> (r: Result<i64, &Self>)
        ensures
            match r {
                Ok(value) => parsed_i64(numeral_text(self.characters())) == Some(value),
                Err(text) => parsed_i64(numeral_text(self.characters())) is None && text
                    == self,
            },
    ;

    /// The text as a field of a CSV record.
    fn csv_formatter(&self) -> (r: String)
        ensures
            r@ == csv_formatted(self.characters()),
    ;
}

impl Splitter for str {
    open spec fn characters(&self) -> Seq<char> {
        self@
    }

    fn split_code(&self) -> (raws: Option<Vec<Option<RawToken>>>) {
        let pattern = build_splitter_pattern();
        match regex_cut(pattern.as_str(), self) {
            Some((pieces, found)) => Some(number_lines(&pieces, &found)),
            None => None,
        }
    }

    fn split_and_parse_jp_numerals(&self) -> (r: Result<i64, &str>) {
        let numeral = read_numeral(self);
        match read_integer(&numeral) {
            Some(value) => Ok(value),
            None => Err(self),
        }
    }

    fn csv_formatter(&self) -> (r: String) {
        let mut out = String::new();
        assert(self@.take(0) =~= Seq::empty());
        for c in iter: self.chars()
            invariant
                iter.seq() == self@,
                out@ == csv_formatted(self@.take(iter.index())),
        {
            assert(self@.take(iter.index() + 1).drop_last() =~= self@.take(iter.index()));
            assert(self@.take(iter.index() + 1).last() == c);
            if c == '"' {
                out.push('"');
                out.push('"');
            } else {
                out.push(c);
            }
        }
        assert(self@.take(self@.len() as int) =~= self@);
        out
    }
}

/// Whether `text` begins with the two characters `first` and `second`.
pub open spec fn starts_with_pair(text: Seq<char>, first: char, second: char) -> bool {
    text.len() >= 2 && text[0] == first && text[1] == second
}

/// Whether `text` ends with the two characters `first` and `second`.
pub open spec fn ends_with_pair(text: Seq<char>, first: char, second: char) -> bool {
    text.len() >= 2 && text[text.len() - 2] == first && text[text.len() - 1] == second
}

/// Whether `text` is an inline comment: it begins with `//`.
pub open spec fn is_inline_comment(text: Seq<char>) -> bool {
    starts_with_pair(text, '/', '/')
}

/// Whether `text` is a comment block: it begins with `/*` and ends with a
/// `*/` of its own, so that the two enclose something or nothing.
pub open spec fn is_comment_block(text: Seq<char>) -> bool {
    text.len() >= 4 && starts_with_pair(text, '/', '*') && ends_with_pair(text, '*', '/')
}

/// Whether `c` may begin an identifier: a letter or an underscore.
pub open spec fn is_identifier_start(c: char) -> bool {
    'a' <= c <= 'z' || 'A' <= c <= 'Z' || c == '_'
}

/// Whether `c` may stand in an identifier: a letter, a digit, a hyphen or an
/// underscore.
pub open spec fn is_identifier_part(c: char) -> bool {
    is_identifier_start(c) || '0' <= c <= '9' || c == '-'
}

/// Whether `text` is an identifier.
pub open spec fn is_identifier(text: Seq<char>) -> bool {
    text.len() > 0 && is_identifier_start(text[0]) && forall|i: int|
        1 <= i < text.len() ==> is_identifier_part(#[trigger] text[i])
}

/// What is reported of a piece of text that is no token.
pub open spec fn lexical_error(identifier: Seq<char>, line_number: u32) -> Seq<char> {
    "Lexical error with: \""@ + identifier + "\" at line "@ + decimal_digits(line_number as nat)
}

/// The identifier that `raw_identifier` is; an error that names the text and
/// its line when it is none.
pub fn tokenize_identifier(raw_identifier: RawToken) -> (r: Result<String, LexicalError>)
    ensures
        match r {
            Ok(identifier) => is_identifier(raw_identifier.1@) && identifier@
                == raw_identifier.1@,
            Err(error) => !is_identifier(raw_identifier.1@) && error@ == lexical_error(
                raw_identifier.1@,
                raw_identifier.0,
            ),
        },
{
    let (line_number, identifier) = raw_identifier;
    let chars = chars_of(identifier);
    let mut valid = chars.len() > 0;
    let mut i: usize = 0;
    while valid && i < chars.len()
        invariant
            i <= chars.len(),
            chars@ == identifier@,
            valid ==> chars.len() > 0,
            valid ==> (i > 0 ==> is_identifier_start(chars@[0])),
            valid ==> forall|k: int| 1 <= k < i ==> is_identifier_part(#[trigger] chars@[k]),
            !valid ==> !is_identifier(chars@),
        decreases chars.len() - i + if valid { 1nat } else { 0nat },
    {
        let c = chars[i];
        let letter = ('a' <= c && c <= 'z') || ('A' <= c && c <= 'Z') || c == '_';
        let part = letter || ('0' <= c && c <= '9') || c == '-';
        if (i == 0 && !letter) || !part {
            valid = false;
        } else {
            i += 1;
        }
    }
    if valid {
        Ok(identifier.to_owned())
    } else {
        let mut error = "Lexical error with: \"".to_owned();
        error.append(identifier);
        error.append("\" at line ");
        push_decimal(&mut error, line_number);
        Err(error)
    }
}

/// The first two characters of `text`; an error when it has fewer.
pub fn check_for_2_chars(text: &str) -> (r: Result<String, ()>)
    ensures
        match r {
            Ok(pair) => text@.len() >= 2 && pair@ == text@.take(2),
            Err(_) => text@.len() < 2,
        },
{
    let n = text.unicode_len();
    if n < 2 {
        Err(())
    } else {
        let pair = text.substring_char(0, 2);
        assert(text@.subrange(0, 2) =~= text@.take(2));
        Ok(pair.to_owned())
    }
}

/// The text of an inline comment, without the `//` that opens it; an error
/// when `raw_token` is no inline comment.
pub fn tokenize_comment(raw_token: RawToken) -> (r: Result<String, ()>)
    ensures
        match r {
            Ok(comment) => is_inline_comment(raw_token.1@) && comment@ == raw_token.1@.skip(2),
            Err(_) => !is_inline_comment(raw_token.1@),
        },
{
    let text = raw_token.1;
    let n = text.unicode_len();
    if n >= 2 && text.get_char(0) == '/' && text.get_char(1) == '/' {
        let comment = text.substring_char(2, n);
        assert(text@.subrange(2, n as int) =~= text@.skip(2));
        Ok(comment.to_owned())
    } else {
        Err(())
    }
}

/// The text of a comment block, without the `/*` and `*/` that enclose it;
/// an error when `raw_token` is no comment block.
pub fn tokenize_comment_block(raw_token: RawToken) -> (r: Result<String, ()>)
    ensures
        match r {
            Ok(comment) => is_comment_block(raw_token.1@) && comment@ == raw_token.1@.subrange(
                2,
                raw_token.1@.len() - 2,
            ),
            Err(_) => !is_comment_block(raw_token.1@),
        },
{
    let text = raw_token.1;
    let n = text.unicode_len();
    if n >= 4 && text.get_char(0) == '/' && text.get_char(1) == '*' && text.get_char(n - 2) == '*'
        && text.get_char(n - 1) == '/' {
        Ok(text.substring_char(2, n - 2).to_owned())
    } else {
        Err(())
    }
}

/// The tokens of the first `n` raw tokens, in their order, or what is
/// reported of the first that is no token. A place without a raw token
/// gives no token.
pub open spec fn tokens_of(raws: Seq<Option<(u32, Seq<char>)>>, n: int) -> Result<
    Seq<TokenView>,
    Seq<char>,
>
    decreases n,
{
    if n <= 0 {
        Ok(Seq::empty())
    } else {
        match tokens_of(raws, n - 1) {
            Err(error) => Err(error),
            Ok(tokens) => match raws[n - 1] {
                None => Ok(tokens),
                Some(raw) => match token_of(raw) {
                    Ok(token) => Ok(tokens.push(token)),
                    Err(error) => Err(error),
                },
            },
        }
    }
}

/// The tokens of a source text, or what is reported of its first piece that
/// is no token; `None` when the splitter's pattern is no regular expression.
pub open spec fn tokenization(source: Seq<char>) -> Option<Result<Seq<TokenView>, Seq<char>>> {
    match split_code(source) {
        Some(raws) => Some(tokens_of(raws, raws.len() as int)),
        None => None,
    }
}

/// The mathematical value of what the lexer hands out.
pub open spec fn lexed_view(outcome: Result<Tokens, LexicalError>) -> Result<
    Seq<TokenView>,
    Seq<char>,
> {
    match outcome {
        Ok(tokens) => Ok(tokens.deep_view()),
        Err(error) => Err(error@),
    }
}

/// Classifies every raw token, in order, up to the first that is no token.
pub fn tokenize_raw(raws: &Vec<Option<RawToken>>) -> (r: Result<Tokens, LexicalError>)
    ensures
        lexed_view(r) == tokens_of(raws.deep_view(), raws.len() as int),
{
    let mut tokens: Tokens = Vec::new();
    let mut i: usize = 0;
    assert(tokens.deep_view() =~= Seq::empty());
    while i < raws.len()
        invariant
            i <= raws.len(),
            tokens_of(raws.deep_view(), i as int) == Ok::<Seq<TokenView>, Seq<char>>(
                tokens.deep_view(),
            ),
        decreases raws.len() - i,
    {
        let ghost before = tokens.deep_view();
        if let Some(raw) = raws[i] {
            match Token::try_from(raw) {
                Ok(token) => {
                    tokens.push(token);
                    assert(tokens.deep_view() =~= before.push(token@));
                },
                Err(error) => {
                    proof {
                        lemma_first_error(raws.deep_view(), i as int + 1, raws.len() as int);
                    }
                    return Err(error);
                },
            }
        }
        i += 1;
    }
    Ok(tokens)
}

/// An error among the first raw tokens is the error of all of them.
pub proof fn lemma_first_error(raws: Seq<Option<(u32, Seq<char>)>>, n: int, m: int)
    requires
        n <= m,
        tokens_of(raws, n) is Err,
    ensures
        tokens_of(raws, m) == tokens_of(raws, n),
    decreases m - n,
{
    if n < m {
        lemma_first_error(raws, n, m - 1);
    }
}

/// The tokens of a source text, or what is reported of its first piece that
/// is no token; `None` when the splitter's pattern is no regular expression.
pub fn tokenize(source_code_contents: &str) -> (r: Option<Result<Tokens, LexicalError>>)
    ensures
        match r {
            Some(outcome) => tokenization(source_code_contents@) == Some(lexed_view(outcome)),
            None => tokenization(source_code_contents@) is None,
        },
{
    match source_code_contents.split_code() {
        Some(raws) => Some(tokenize_raw(&raws)),
        None => None,
    }
}

/// The tokens that the parser reads: all but white space, line feeds and
/// comments, in their order.
pub open spec fn significant(tokens: Seq<TokenView>) -> Seq<TokenView>
    decreases tokens.len(),
{
    if tokens.len() == 0 {
        Seq::empty()
    } else if is_trivia(tokens.last()) {
        significant(tokens.drop_last())
    } else {
        significant(tokens.drop_last()).push(tokens.last())
    }
}

/// Leaves out white space, line feeds and comments.
pub fn drop_trivia(tokens: Tokens) -> (kept: Tokens)
    ensures
        kept.deep_view() == significant(tokens.deep_view()),
{
    let ghost all = tokens.deep_view();
    let mut kept: Tokens = Vec::new();
    let mut i: usize = 0;
    assert(all.take(0) =~= Seq::empty());
    assert(kept.deep_view() =~= Seq::empty());
    while i < tokens.len()
        invariant
            i <= tokens.len(),
            all == tokens.deep_view(),
            kept.deep_view() == significant(all.take(i as int)),
        decreases tokens.len() - i,
    {
        let ghost before = kept.deep_view();
        assert(all.take(i as int + 1).drop_last() =~= all.take(i as int));
        assert(all.take(i as int + 1).last() == tokens[i as int]@);
        if !tokens[i].is_trivia() {
            kept.push(tokens[i].clone());
            assert(kept.deep_view() =~= before.push(tokens[i as int]@));
        }
        i += 1;
    }
    assert(all.take(i as int) =~= all);
    kept
}

} // verus!
