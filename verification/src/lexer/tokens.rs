//! Tokens: the classified pieces of source text that the parser consumes.

use crate::lexer::numerals::{
    has_float_shape, is_float_numeral, numeral_text, parsed_i64, read_integer, read_numeral,
};
use crate::lexer::strings::{chars_of, text_of};
use crate::lexer::reserved::{Operator, ReservedWord, Separator};
use crate::lexer::tokenization::{
    is_comment_block, is_identifier, is_inline_comment, lexical_error, tokenize_comment,
    tokenize_comment_block, tokenize_identifier, LexicalError, RawToken,
};
use vstd::prelude::*;

verus! {

/// A string literal with the quotation marks that enclose it.
#[derive(Debug, PartialEq)]
pub struct Str {
    pub open_quote: Separator,
    pub content: String,
    pub close_quote: Separator,
}

/// The mathematical value of a [`Str`].
pub struct StrView {
    pub open_quote: Separator,
    pub content: Seq<char>,
    pub close_quote: Separator,
}

impl View for Str {
    type V = StrView;

    open spec fn view(&self) -> StrView {
        StrView {
            open_quote: self.open_quote,
            content: self.content@,
            close_quote: self.close_quote,
        }
    }
}

impl DeepView for Str {
    type V = StrView;

    open spec fn deep_view(&self) -> StrView {
        self@
    }
}

impl Clone for Str {
    fn clone(&self) -> (r: Self)
        ensures
            r == *self,
    {
        Str {
            open_quote: self.open_quote,
            content: self.content.clone(),
            close_quote: self.close_quote,
        }
    }
}

/// A character literal with the quotation marks that enclose it.
#[derive(Clone, Copy, Debug, PartialEq, Eq, Structural)]
pub struct Char {
    pub open_quote: Separator,
    pub content: char,
    pub close_quote: Separator,
}

/// A boolean literal.
#[derive(Clone, Copy, Debug, PartialEq, Eq, Structural)]
pub enum Bool {
    False,
    True,
}

/// A literal value, carried as the lexer read it.
///
/// The two floating-point kinds hold the numeral as it is written: the front
/// end never computes with it.
#[derive(Debug, PartialEq)]
pub enum Literal {
    Int(i32),
    Long(i64),
    Float(String),
    Double(String),
    Str(Str),
    Char(Char),
    Bool(Bool),
}

/// The mathematical value of a [`Literal`].
pub enum LiteralView {
    Int(i32),
    Long(i64),
    Float(Seq<char>),
    Double(Seq<char>),
    Str(StrView),
    Char(Char),
    Bool(Bool),
}

impl View for Literal {
    type V = LiteralView;

    open spec fn view(&self) -> LiteralView {
        match *self {
            Literal::Int(n) => LiteralView::Int(n),
            Literal::Long(n) => LiteralView::Long(n),
            Literal::Float(numeral) => LiteralView::Float(numeral@),
            Literal::Double(numeral) => LiteralView::Double(numeral@),
            Literal::Str(s) => LiteralView::Str(s@),
            Literal::Char(c) => LiteralView::Char(c),
            Literal::Bool(b) => LiteralView::Bool(b),
        }
    }
}

impl DeepView for Literal {
    type V = LiteralView;

    open spec fn deep_view(&self) -> LiteralView {
        self@
    }
}

impl Clone for Literal {
    fn clone(&self) -> (r: Self)
        ensures
            r == *self,
    {
        match self {
            Literal::Int(n) => Literal::Int(*n),
            Literal::Long(n) => Literal::Long(*n),
            Literal::Float(numeral) => Literal::Float(numeral.clone()),
            Literal::Double(numeral) => Literal::Double(numeral.clone()),
            Literal::Str(s) => Literal::Str(s.clone()),
            Literal::Char(c) => Literal::Char(*c),
            Literal::Bool(b) => Literal::Bool(*b),
        }
    }
}

/// One token of source text.
#[derive(Debug, PartialEq)]
pub enum Token {
    ReservedWord(ReservedWord),
    Literal(Literal),
    Identifier(String),
    Comment(String),
    Separator(Separator),
    Operator(Operator),
}

/// The mathematical value of a [`Token`].
pub enum TokenView {
    ReservedWord(ReservedWord),
    Literal(LiteralView),
    Identifier(Seq<char>),
    Comment(Seq<char>),
    Separator(Separator),
    Operator(Operator),
}

impl View for Token {
    type V = TokenView;

    open spec fn view(&self) -> TokenView {
        match *self {
            Token::ReservedWord(w) => TokenView::ReservedWord(w),
            Token::Literal(l) => TokenView::Literal(l@),
            Token::Identifier(name) => TokenView::Identifier(name@),
            Token::Comment(text) => TokenView::Comment(text@),
            Token::Separator(s) => TokenView::Separator(s),
            Token::Operator(o) => TokenView::Operator(o),
        }
    }
}

impl DeepView for Token {
    type V = TokenView;

    open spec fn deep_view(&self) -> TokenView {
        self@
    }
}

impl Clone for Token {
    fn clone(&self) -> (r: Self)
        ensures
            r == *self,
    {
        match self {
            Token::ReservedWord(w) => Token::ReservedWord(*w),
            Token::Literal(l) => Token::Literal(l.clone()),
            Token::Identifier(name) => Token::Identifier(name.clone()),
            Token::Comment(text) => Token::Comment(text.clone()),
            Token::Separator(s) => Token::Separator(*s),
            Token::Operator(o) => Token::Operator(*o),
        }
    }
}

/// The literal that `text` writes, if it writes one.
///
/// A numeral is read in ASCII digits or in full-width digits throughout. An
/// integer is an `Int` where 32 bits hold it and a `Long` where 64 bits do;
/// any other numeral of the shape of a floating-point number is a `Float`.
/// `true` and `false` are the boolean literals. Text between two quotation
/// marks is a `Char` where it is one character and a `Str` otherwise.
pub open spec fn literal_of(text: Seq<char>) -> Option<LiteralView> {
    let numeral = numeral_text(text);
    match parsed_i64(numeral) {
        Some(value) => if i32::MIN <= value <= i32::MAX {
            Some(LiteralView::Int(value as i32))
        } else {
            Some(LiteralView::Long(value))
        },
        None => if is_float_numeral(numeral) {
            Some(LiteralView::Float(numeral))
        } else if text == "false"@ {
            Some(LiteralView::Bool(Bool::False))
        } else if text == "true"@ {
            Some(LiteralView::Bool(Bool::True))
        } else if text.len() > 0 && text[0] == '"' && text.last() == '"' {
            if text.len() == 3 {
                Some(
                    LiteralView::Char(
                        Char {
                            open_quote: Separator::StringQuotation,
                            content: text[1],
                            close_quote: Separator::StringQuotation,
                        },
                    ),
                )
            } else {
                Some(
                    LiteralView::Str(
                        StrView {
                            open_quote: Separator::StringQuotation,
                            content: if text.len() >= 2 {
                                text.subrange(1, text.len() - 1)
                            } else {
                                Seq::empty()
                            },
                            close_quote: Separator::StringQuotation,
                        },
                    ),
                )
            }
        } else {
            None
        },
    }
}

impl Literal {
    /// The literal that `assignment` writes; text that writes none is handed
    /// back.
    pub fn try_from(assignment: String) -> (r: Result<Literal, String>)
        ensures
            match r {
                Ok(literal) => literal_of(assignment@) == Some(literal@),
                Err(text) => literal_of(assignment@) is None && text == assignment,
            },
    {
        let numeral = read_numeral(assignment.as_str());
        match read_integer(&numeral) {
            Some(value) => {
                if -2147483648 <= value && value <= 2147483647 {
                    return Ok(Literal::Int(value as i32));
                }
                return Ok(Literal::Long(value));
            },
            None => {},
        }
        if has_float_shape(&numeral) {
            assert(numeral@.subrange(0, numeral@.len() as int) =~= numeral@);
            return Ok(Literal::Float(text_of(&numeral, 0, numeral.len())));
        }
        if assignment.as_str().eq("false") {
            return Ok(Literal::Bool(Bool::False));
        }
        if assignment.as_str().eq("true") {
            return Ok(Literal::Bool(Bool::True));
        }
        let chars = chars_of(assignment.as_str());
        let n = chars.len();
        if n > 0 && chars[0] == '"' && chars[n - 1] == '"' {
            if n == 3 {
                return Ok(
                    Literal::Char(
                        Char {
                            open_quote: Separator::StringQuotation,
                            content: chars[1],
                            close_quote: Separator::StringQuotation,
                        },
                    ),
                );
            }
            let content = if n >= 2 {
                text_of(&chars, 1, n - 1)
            } else {
                String::new()
            };
            return Ok(
                Literal::Str(
                    Str {
                        open_quote: Separator::StringQuotation,
                        content,
                        close_quote: Separator::StringQuotation,
                    },
                ),
            );
        }
        Err(assignment)
    }
}

/// The token that a raw token is, or what is reported when it is none.
///
/// What the text reads as is tried in this order: a keyword, a literal, a
/// separator, an operator, an inline comment, a comment block, an
/// identifier.
pub open spec fn token_of(raw_token: (u32, Seq<char>)) -> Result<TokenView, Seq<char>> {
    let text = raw_token.1;
    if ReservedWord::spelled(text) is Some {
        Ok(TokenView::ReservedWord(ReservedWord::spelled(text).unwrap()))
    } else if literal_of(text) is Some {
        Ok(TokenView::Literal(literal_of(text).unwrap()))
    } else if Separator::spelled(text) is Some {
        Ok(TokenView::Separator(Separator::spelled(text).unwrap()))
    } else if Operator::spelled(text) is Some {
        Ok(TokenView::Operator(Operator::spelled(text).unwrap()))
    } else if is_inline_comment(text) {
        Ok(TokenView::Comment(text.skip(2)))
    } else if is_comment_block(text) {
        Ok(TokenView::Comment(text.subrange(2, text.len() - 2)))
    } else if is_identifier(text) {
        Ok(TokenView::Identifier(text))
    } else {
        Err(lexical_error(text, raw_token.0))
    }
}

impl Token {
    /// The token that `raw_token` is; an error that names the text and its
    /// line when it is none.
    pub fn try_from(raw_token: RawToken) -> (r: Result<Token, LexicalError>)
        ensures
            match r {
                Ok(token) => token_of((raw_token.0, raw_token.1@)) == Ok::<TokenView, Seq<char>>(
                    token@,
                ),
                Err(error) => token_of((raw_token.0, raw_token.1@)) == Err::<
                    TokenView,
                    Seq<char>,
                >(error@),
            },
    {
        if let Ok(token) = ReservedWord::try_from(raw_token.1) {
            Ok(Token::ReservedWord(token))
        } else if let Ok(token) = Literal::try_from(raw_token.1.to_owned()) {
            Ok(Token::Literal(token))
        } else if let Ok(token) = Separator::try_from(raw_token.1) {
            Ok(Token::Separator(token))
        } else if let Ok(token) = Operator::try_from(raw_token.1) {
            Ok(Token::Operator(token))
        } else if let Ok(token) = tokenize_comment(raw_token) {
            Ok(Token::Comment(token))
        } else if let Ok(token) = tokenize_comment_block(raw_token) {
            Ok(Token::Comment(token))
        } else {
            match tokenize_identifier(raw_token) {
                Ok(token) => Ok(Token::Identifier(token)),
                Err(e) => Err(e),
            }
        }
    }

    /// Whether the parser passes over the token: white space, a line feed or
    /// a comment.
    pub fn is_trivia(&self) -> (r: bool)
        ensures
            r == is_trivia(self@),
    {
        match self {
            Token::Separator(Separator::WhiteSpace) => true,
            Token::Separator(Separator::NewLine) => true,
            Token::Comment(_) => true,
            _ => false,
        }
    }
}

/// Whether the parser passes over a token: white space, a line feed or a
/// comment.
pub open spec fn is_trivia(token: TokenView) -> bool {
    match token {
        TokenView::Separator(Separator::WhiteSpace) => true,
        TokenView::Separator(Separator::NewLine) => true,
        TokenView::Comment(_) => true,
        _ => false,
    }
}

} // verus!
