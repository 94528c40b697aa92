//! The fixed vocabulary of the language: keywords, operators and separators,
//! each with the one spelling it has in source text.

use vstd::prelude::*;

verus! {


/// A keyword of the language.
#[derive(Clone, Copy, Debug, PartialEq, Eq, Hash, Structural)]
pub enum ReservedWord {
    Function,
    Return,
    If,
    Elif,
    Else,
    Match,
    Case,
    Default,
    For,
    While,
    Let,
    Constant,
    Int,
    Long,
    Float,
    Double,
    Str,
    Char,
    Bool,
    Void,
    Struct,
    Enum,
}

impl ReservedWord {
    /// The spelling of the keyword.
    pub open spec fn word(self) -> Seq<char> {
        match self {
            ReservedWord::Function => "func"@,
            ReservedWord::Return => "return"@,
            ReservedWord::If => "if"@,
            ReservedWord::Elif => "elif"@,
            ReservedWord::Else => "else"@,
            ReservedWord::Match => "match"@,
            ReservedWord::Case => "case"@,
            ReservedWord::Default => "default"@,
            ReservedWord::For => "for"@,
            ReservedWord::While => "while"@,
            ReservedWord::Let => "let"@,
            ReservedWord::Constant => "const"@,
            ReservedWord::Int => "int"@,
            ReservedWord::Long => "long"@,
            ReservedWord::Float => "float"@,
            ReservedWord::Double => "double"@,
            ReservedWord::Str => "string"@,
            ReservedWord::Char => "character"@,
            ReservedWord::Bool => "boolean"@,
            ReservedWord::Void => "void"@,
            ReservedWord::Struct => "struct"@,
            ReservedWord::Enum => "enumeration"@,
        }
    }

    /// The keyword that `text` spells, if it spells one.
    pub open spec fn spelled(text: Seq<char>) -> Option<Self> {
        if text == "func"@ {
            Some(ReservedWord::Function)
        } else if text == "return"@ {
            Some(ReservedWord::Return)
        } else if text == "if"@ {
            Some(ReservedWord::If)
        } else if text == "elif"@ {
            Some(ReservedWord::Elif)
        } else if text == "else"@ {
            Some(ReservedWord::Else)
        } else if text == "match"@ {
            Some(ReservedWord::Match)
        } else if text == "case"@ {
            Some(ReservedWord::Case)
        } else if text == "default"@ {
            Some(ReservedWord::Default)
        } else if text == "for"@ {
            Some(ReservedWord::For)
        } else if text == "while"@ {
            Some(ReservedWord::While)
        } else if text == "let"@ {
            Some(ReservedWord::Let)
        } else if text == "const"@ {
            Some(ReservedWord::Constant)
        } else if text == "int"@ {
            Some(ReservedWord::Int)
        } else if text == "long"@ {
            Some(ReservedWord::Long)
        } else if text == "float"@ {
            Some(ReservedWord::Float)
        } else if text == "double"@ {
            Some(ReservedWord::Double)
        } else if text == "string"@ {
            Some(ReservedWord::Str)
        } else if text == "character"@ {
            Some(ReservedWord::Char)
        } else if text == "boolean"@ {
            Some(ReservedWord::Bool)
        } else if text == "void"@ {
            Some(ReservedWord::Void)
        } else if text == "struct"@ {
            Some(ReservedWord::Struct)
        } else if text == "enumeration"@ {
            Some(ReservedWord::Enum)
        } else {
            None
        }
    }

    /// The spelling of the keyword, as source text has it.
    pub fn as_str(&self) -> (s: &'static str)
        ensures
            s@ == self.word(),
    {
        match self {
            ReservedWord::Function => "func",
            ReservedWord::Return => "return",
            ReservedWord::If => "if",
            ReservedWord::Elif => "elif",
            ReservedWord::Else => "else",
            ReservedWord::Match => "match",
            ReservedWord::Case => "case",
            ReservedWord::Default => "default",
            ReservedWord::For => "for",
            ReservedWord::While => "while",
            ReservedWord::Let => "let",
            ReservedWord::Constant => "const",
            ReservedWord::Int => "int",
            ReservedWord::Long => "long",
            ReservedWord::Float => "float",
            ReservedWord::Double => "double",
            ReservedWord::Str => "string",
            ReservedWord::Char => "character",
            ReservedWord::Bool => "boolean",
            ReservedWord::Void => "void",
            ReservedWord::Struct => "struct",
            ReservedWord::Enum => "enumeration",
        }
    }

    /// The keyword spelled `word`; a word that spells none is handed back.
    pub fn try_from(word: &str) -> (r: Result<ReservedWord, String>)
        ensures
            match r {
                Ok(w) => Self::spelled(word@) == Some(w) && w.word() == word@,
                Err(e) => Self::spelled(word@) is None && e@ == word@,
            },
    {
        if word.eq("func") {
            Ok(ReservedWord::Function)
        } else if word.eq("return") {
            Ok(ReservedWord::Return)
        } else if word.eq("if") {
            Ok(ReservedWord::If)
        } else if word.eq("elif") {
            Ok(ReservedWord::Elif)
        } else if word.eq("else") {
            Ok(ReservedWord::Else)
        } else if word.eq("match") {
            Ok(ReservedWord::Match)
        } else if word.eq("case") {
            Ok(ReservedWord::Case)
        } else if word.eq("default") {
            Ok(ReservedWord::Default)
        } else if word.eq("for") {
            Ok(ReservedWord::For)
        } else if word.eq("while") {
            Ok(ReservedWord::While)
        } else if word.eq("let") {
            Ok(ReservedWord::Let)
        } else if word.eq("const") {
            Ok(ReservedWord::Constant)
        } else if word.eq("int") {
            Ok(ReservedWord::Int)
        } else if word.eq("long") {
            Ok(ReservedWord::Long)
        } else if word.eq("float") {
            Ok(ReservedWord::Float)
        } else if word.eq("double") {
            Ok(ReservedWord::Double)
        } else if word.eq("string") {
            Ok(ReservedWord::Str)
        } else if word.eq("character") {
            Ok(ReservedWord::Char)
        } else if word.eq("boolean") {
            Ok(ReservedWord::Bool)
        } else if word.eq("void") {
            Ok(ReservedWord::Void)
        } else if word.eq("struct") {
            Ok(ReservedWord::Struct)
        } else if word.eq("enumeration") {
            Ok(ReservedWord::Enum)
        } else {
            Err(word.to_owned())
        }
    }

    /// The length, the first and the last character of the spelling: the
    /// three together tell every keyword from every other.
    pub open spec fn marks(self) -> (nat, char, char) {
        match self {
            ReservedWord::Function => (4, 'f', 'c'),
            ReservedWord::Return => (6, 'r', 'n'),
            ReservedWord::If => (2, 'i', 'f'),
            ReservedWord::Elif => (4, 'e', 'f'),
            ReservedWord::Else => (4, 'e', 'e'),
            ReservedWord::Match => (5, 'm', 'h'),
            ReservedWord::Case => (4, 'c', 'e'),
            ReservedWord::Default => (7, 'd', 't'),
            ReservedWord::For => (3, 'f', 'r'),
            ReservedWord::While => (5, 'w', 'e'),
            ReservedWord::Let => (3, 'l', 't'),
            ReservedWord::Constant => (5, 'c', 't'),
            ReservedWord::Int => (3, 'i', 't'),
            ReservedWord::Long => (4, 'l', 'g'),
            ReservedWord::Float => (5, 'f', 't'),
            ReservedWord::Double => (6, 'd', 'e'),
            ReservedWord::Str => (6, 's', 'g'),
            ReservedWord::Char => (9, 'c', 'r'),
            ReservedWord::Bool => (7, 'b', 'n'),
            ReservedWord::Void => (4, 'v', 'd'),
            ReservedWord::Struct => (6, 's', 't'),
            ReservedWord::Enum => (11, 'e', 'n'),
        }
    }

    /// The marks are those of the spelling.
    pub proof fn lemma_word_marks(self)
        ensures
            self.word().len() == self.marks().0,
            self.word()[0] == self.marks().1,
            self.word().last() == self.marks().2,
    {
        match self {
            ReservedWord::Function => {
                reveal_strlit("func");
            },
            ReservedWord::Return => {
                reveal_strlit("return");
            },
            ReservedWord::If => {
                reveal_strlit("if");
            },
            ReservedWord::Elif => {
                reveal_strlit("elif");
            },
            ReservedWord::Else => {
                reveal_strlit("else");
            },
            ReservedWord::Match => {
                reveal_strlit("match");
            },
            ReservedWord::Case => {
                reveal_strlit("case");
            },
            ReservedWord::Default => {
                reveal_strlit("default");
            },
            ReservedWord::For => {
                reveal_strlit("for");
            },
            ReservedWord::While => {
                reveal_strlit("while");
            },
            ReservedWord::Let => {
                reveal_strlit("let");
            },
            ReservedWord::Constant => {
                reveal_strlit("const");
            },
            ReservedWord::Int => {
                reveal_strlit("int");
            },
            ReservedWord::Long => {
                reveal_strlit("long");
            },
            ReservedWord::Float => {
                reveal_strlit("float");
            },
            ReservedWord::Double => {
                reveal_strlit("double");
            },
            ReservedWord::Str => {
                reveal_strlit("string");
            },
            ReservedWord::Char => {
                reveal_strlit("character");
            },
            ReservedWord::Bool => {
                reveal_strlit("boolean");
            },
            ReservedWord::Void => {
                reveal_strlit("void");
            },
            ReservedWord::Struct => {
                reveal_strlit("struct");
            },
            ReservedWord::Enum => {
                reveal_strlit("enumeration");
            },
        }
    }

    /// No two keywords share a spelling.
    pub proof fn lemma_word_injective(a: ReservedWord, b: ReservedWord)
        requires
            a.word() == b.word(),
        ensures
            a == b,
    {
        Self::lemma_word_marks(a);
        Self::lemma_word_marks(b);
    }

    /// Spelling a keyword and reading the spelling back gives the keyword, and
    /// nothing but its spelling reads as a keyword.
    pub proof fn lemma_spelled(w: ReservedWord, text: Seq<char>)
        ensures
            Self::spelled(w.word()) == Some(w),
            Self::spelled(text) == Some(w) <==> text == w.word(),
    {
        let read = Self::spelled(w.word());
        assert(read is Some);
        Self::lemma_word_injective(read.unwrap(), w);
    }
}

/// An operator of the language.
#[derive(Clone, Copy, Debug, PartialEq, Eq, Hash, Structural)]
pub enum Operator {
    Increment,
    Decrement,
    GreaterThanOrEqual,
    LessThanOrEqual,
    Equality,
    Inequality,
    Negation,
    Assignment,
    Sum,
    Subtraction,
    Multiplication,
    Division,
    GreaterThan,
    LessThan,
}

impl Operator {
    /// The spelling of the operator.
    pub open spec fn word(self) -> Seq<char> {
        match self {
            Operator::Increment => "+="@,
            Operator::Decrement => "-="@,
            Operator::GreaterThanOrEqual => ">="@,
            Operator::LessThanOrEqual => "<="@,
            Operator::Equality => "=="@,
            Operator::Inequality => "!="@,
            Operator::Negation => "!"@,
            Operator::Assignment => "="@,
            Operator::Sum => "+"@,
            Operator::Subtraction => "-"@,
            Operator::Multiplication => "*"@,
            Operator::Division => "/"@,
            Operator::GreaterThan => ">"@,
            Operator::LessThan => "<"@,
        }
    }

    /// The operator that `text` spells, if it spells one.
    pub open spec fn spelled(text: Seq<char>) -> Option<Self> {
        if text == "+="@ {
            Some(Operator::Increment)
        } else if text == "-="@ {
            Some(Operator::Decrement)
        } else if text == ">="@ {
            Some(Operator::GreaterThanOrEqual)
        } else if text == "<="@ {
            Some(Operator::LessThanOrEqual)
        } else if text == "=="@ {
            Some(Operator::Equality)
        } else if text == "!="@ {
            Some(Operator::Inequality)
        } else if text == "!"@ {
            Some(Operator::Negation)
        } else if text == "="@ {
            Some(Operator::Assignment)
        } else if text == "+"@ {
            Some(Operator::Sum)
        } else if text == "-"@ {
            Some(Operator::Subtraction)
        } else if text == "*"@ {
            Some(Operator::Multiplication)
        } else if text == "/"@ {
            Some(Operator::Division)
        } else if text == ">"@ {
            Some(Operator::GreaterThan)
        } else if text == "<"@ {
            Some(Operator::LessThan)
        } else {
            None
        }
    }

    /// The spelling of the operator, as source text has it.
    pub fn as_str(&self) -> (s: &'static str)
        ensures
            s@ == self.word(),
    {
        match self {
            Operator::Increment => "+=",
            Operator::Decrement => "-=",
            Operator::GreaterThanOrEqual => ">=",
            Operator::LessThanOrEqual => "<=",
            Operator::Equality => "==",
            Operator::Inequality => "!=",
            Operator::Negation => "!",
            Operator::Assignment => "=",
            Operator::Sum => "+",
            Operator::Subtraction => "-",
            Operator::Multiplication => "*",
            Operator::Division => "/",
            Operator::GreaterThan => ">",
            Operator::LessThan => "<",
        }
    }

    /// The operator spelled `word`; a word that spells none is handed back.
    pub fn try_from(word: &str) -> (r: Result<Operator, String>)
        ensures
            match r {
                Ok(w) => Self::spelled(word@) == Some(w) && w.word() == word@,
                Err(e) => Self::spelled(word@) is None && e@ == word@,
            },
    {
        if word.eq("+=") {
            Ok(Operator::Increment)
        } else if word.eq("-=") {
            Ok(Operator::Decrement)
        } else if word.eq(">=") {
            Ok(Operator::GreaterThanOrEqual)
        } else if word.eq("<=") {
            Ok(Operator::LessThanOrEqual)
        } else if word.eq("==") {
            Ok(Operator::Equality)
        } else if word.eq("!=") {
            Ok(Operator::Inequality)
        } else if word.eq("!") {
            Ok(Operator::Negation)
        } else if word.eq("=") {
            Ok(Operator::Assignment)
        } else if word.eq("+") {
            Ok(Operator::Sum)
        } else if word.eq("-") {
            Ok(Operator::Subtraction)
        } else if word.eq("*") {
            Ok(Operator::Multiplication)
        } else if word.eq("/") {
            Ok(Operator::Division)
        } else if word.eq(">") {
            Ok(Operator::GreaterThan)
        } else if word.eq("<") {
            Ok(Operator::LessThan)
        } else {
            Err(word.to_owned())
        }
    }

    /// Every operator, in the order in which the splitter tries their
    /// spellings: a longer spelling comes before the shorter one that
    /// begins it.
    pub open spec fn every() -> Seq<Operator> {
        seq![
            Operator::Increment,
            Operator::Decrement,
            Operator::GreaterThanOrEqual,
            Operator::LessThanOrEqual,
            Operator::Equality,
            Operator::Inequality,
            Operator::Negation,
            Operator::Assignment,
            Operator::Sum,
            Operator::Subtraction,
            Operator::Multiplication,
            Operator::Division,
            Operator::GreaterThan,
            Operator::LessThan,
        ]
    }

    /// Every operator, in the order in which the splitter tries them.
    pub fn all() -> (r: Vec<Operator>)
        ensures
            r@ == Self::every(),
    {
        let r = vec![
            Operator::Increment,
            Operator::Decrement,
            Operator::GreaterThanOrEqual,
            Operator::LessThanOrEqual,
            Operator::Equality,
            Operator::Inequality,
            Operator::Negation,
            Operator::Assignment,
            Operator::Sum,
            Operator::Subtraction,
            Operator::Multiplication,
            Operator::Division,
            Operator::GreaterThan,
            Operator::LessThan,
        ];
        assert(r@ =~= Self::every());
        r
    }

    /// The length, the first and the last character of the spelling: the
    /// three together tell every operator from every other.
    pub open spec fn marks(self) -> (nat, char, char) {
        match self {
            Operator::Increment => (2, '+', '='),
            Operator::Decrement => (2, '-', '='),
            Operator::GreaterThanOrEqual => (2, '>', '='),
            Operator::LessThanOrEqual => (2, '<', '='),
            Operator::Equality => (2, '=', '='),
            Operator::Inequality => (2, '!', '='),
            Operator::Negation => (1, '!', '!'),
            Operator::Assignment => (1, '=', '='),
            Operator::Sum => (1, '+', '+'),
            Operator::Subtraction => (1, '-', '-'),
            Operator::Multiplication => (1, '*', '*'),
            Operator::Division => (1, '/', '/'),
            Operator::GreaterThan => (1, '>', '>'),
            Operator::LessThan => (1, '<', '<'),
        }
    }

    /// The marks are those of the spelling.
    pub proof fn lemma_word_marks(self)
        ensures
            self.word().len() == self.marks().0,
            self.word()[0] == self.marks().1,
            self.word().last() == self.marks().2,
    {
        match self {
            Operator::Increment => {
                reveal_strlit("+=");
            },
            Operator::Decrement => {
                reveal_strlit("-=");
            },
            Operator::GreaterThanOrEqual => {
                reveal_strlit(">=");
            },
            Operator::LessThanOrEqual => {
                reveal_strlit("<=");
            },
            Operator::Equality => {
                reveal_strlit("==");
            },
            Operator::Inequality => {
                reveal_strlit("!=");
            },
            Operator::Negation => {
                reveal_strlit("!");
            },
            Operator::Assignment => {
                reveal_strlit("=");
            },
            Operator::Sum => {
                reveal_strlit("+");
            },
            Operator::Subtraction => {
                reveal_strlit("-");
            },
            Operator::Multiplication => {
                reveal_strlit("*");
            },
            Operator::Division => {
                reveal_strlit("/");
            },
            Operator::GreaterThan => {
                reveal_strlit(">");
            },
            Operator::LessThan => {
                reveal_strlit("<");
            },
        }
    }

    /// No two operators share a spelling.
    pub proof fn lemma_word_injective(a: Operator, b: Operator)
        requires
            a.word() == b.word(),
        ensures
            a == b,
    {
        Self::lemma_word_marks(a);
        Self::lemma_word_marks(b);
    }

    /// Spelling a operator and reading the spelling back gives the operator, and
    /// nothing but its spelling reads as a operator.
    pub proof fn lemma_spelled(w: Operator, text: Seq<char>)
        ensures
            Self::spelled(w.word()) == Some(w),
            Self::spelled(text) == Some(w) <==> text == w.word(),
    {
        let read = Self::spelled(w.word());
        assert(read is Some);
        Self::lemma_word_injective(read.unwrap(), w);
    }
}

/// A punctuation mark, a comment delimiter or a piece of white space.
#[derive(Clone, Copy, Debug, PartialEq, Eq, Hash, Structural)]
pub enum Separator {
    InlineComment,
    CommentBlockOpen,
    CommentBlockClose,
    Terminator,
    OpenParenthesis,
    CloseParenthesis,
    StringQuotation,
    CharQuotation,
    OpenCurlyBraces,
    CloseCurlyBraces,
    OpenBrackets,
    CloseBrackets,
    Comma,
    Dot,
    NewLine,
    WhiteSpace,
}

impl Separator {
    /// The spelling of the separator.
    pub open spec fn word(self) -> Seq<char> {
        match self {
            Separator::InlineComment => "//"@,
            Separator::CommentBlockOpen => "/*"@,
            Separator::CommentBlockClose => "*/"@,
            Separator::Terminator => ";"@,
            Separator::OpenParenthesis => "("@,
            Separator::CloseParenthesis => ")"@,
            Separator::StringQuotation => "\""@,
            Separator::CharQuotation => "'"@,
            Separator::OpenCurlyBraces => "{"@,
            Separator::CloseCurlyBraces => "}"@,
            Separator::OpenBrackets => "["@,
            Separator::CloseBrackets => "]"@,
            Separator::Comma => ","@,
            Separator::Dot => "."@,
            Separator::NewLine => "\n"@,
            Separator::WhiteSpace => " "@,
        }
    }

    /// The separator that `text` spells, if it spells one.
    pub open spec fn spelled(text: Seq<char>) -> Option<Self> {
        if text == "//"@ {
            Some(Separator::InlineComment)
        } else if text == "/*"@ {
            Some(Separator::CommentBlockOpen)
        } else if text == "*/"@ {
            Some(Separator::CommentBlockClose)
        } else if text == ";"@ {
            Some(Separator::Terminator)
        } else if text == "("@ {
            Some(Separator::OpenParenthesis)
        } else if text == ")"@ {
            Some(Separator::CloseParenthesis)
        } else if text == "\""@ {
            Some(Separator::StringQuotation)
        } else if text == "'"@ {
            Some(Separator::CharQuotation)
        } else if text == "{"@ {
            Some(Separator::OpenCurlyBraces)
        } else if text == "}"@ {
            Some(Separator::CloseCurlyBraces)
        } else if text == "["@ {
            Some(Separator::OpenBrackets)
        } else if text == "]"@ {
            Some(Separator::CloseBrackets)
        } else if text == ","@ {
            Some(Separator::Comma)
        } else if text == "."@ {
            Some(Separator::Dot)
        } else if text == "\n"@ {
            Some(Separator::NewLine)
        } else if text == " "@ {
            Some(Separator::WhiteSpace)
        } else {
            None
        }
    }

    /// The spelling of the separator, as source text has it.
    pub fn as_str(&self) -> (s: &'static str)
        ensures
            s@ == self.word(),
    {
        match self {
            Separator::InlineComment => "//",
            Separator::CommentBlockOpen => "/*",
            Separator::CommentBlockClose => "*/",
            Separator::Terminator => ";",
            Separator::OpenParenthesis => "(",
            Separator::CloseParenthesis => ")",
            Separator::StringQuotation => "\"",
            Separator::CharQuotation => "'",
            Separator::OpenCurlyBraces => "{",
            Separator::CloseCurlyBraces => "}",
            Separator::OpenBrackets => "[",
            Separator::CloseBrackets => "]",
            Separator::Comma => ",",
            Separator::Dot => ".",
            Separator::NewLine => "\n",
            Separator::WhiteSpace => " ",
        }
    }

    /// The separator spelled `word`; a word that spells none is handed back.
    pub fn try_from(word: &str) -> (r: Result<Separator, String>)
        ensures
            match r {
                Ok(w) => Self::spelled(word@) == Some(w) && w.word() == word@,
                Err(e) => Self::spelled(word@) is None && e@ == word@,
            },
    {
        if word.eq("//") {
            Ok(Separator::InlineComment)
        } else if word.eq("/*") {
            Ok(Separator::CommentBlockOpen)
        } else if word.eq("*/") {
            Ok(Separator::CommentBlockClose)
        } else if word.eq(";") {
            Ok(Separator::Terminator)
        } else if word.eq("(") {
            Ok(Separator::OpenParenthesis)
        } else if word.eq(")") {
            Ok(Separator::CloseParenthesis)
        } else if word.eq("\"") {
            Ok(Separator::StringQuotation)
        } else if word.eq("'") {
            Ok(Separator::CharQuotation)
        } else if word.eq("{") {
            Ok(Separator::OpenCurlyBraces)
        } else if word.eq("}") {
            Ok(Separator::CloseCurlyBraces)
        } else if word.eq("[") {
            Ok(Separator::OpenBrackets)
        } else if word.eq("]") {
            Ok(Separator::CloseBrackets)
        } else if word.eq(",") {
            Ok(Separator::Comma)
        } else if word.eq(".") {
            Ok(Separator::Dot)
        } else if word.eq("\n") {
            Ok(Separator::NewLine)
        } else if word.eq(" ") {
            Ok(Separator::WhiteSpace)
        } else {
            Err(word.to_owned())
        }
    }

    /// Every separator, in the order in which the splitter tries their
    /// spellings: a longer spelling comes before the shorter one that
    /// begins it.
    pub open spec fn every() -> Seq<Separator> {
        seq![
            Separator::InlineComment,
            Separator::CommentBlockOpen,
            Separator::CommentBlockClose,
            Separator::Terminator,
            Separator::OpenParenthesis,
            Separator::CloseParenthesis,
            Separator::StringQuotation,
            Separator::CharQuotation,
            Separator::OpenCurlyBraces,
            Separator::CloseCurlyBraces,
            Separator::OpenBrackets,
            Separator::CloseBrackets,
            Separator::Comma,
            Separator::Dot,
            Separator::NewLine,
            Separator::WhiteSpace,
        ]
    }

    /// Every separator, in the order in which the splitter tries them.
    pub fn all() -> (r: Vec<Separator>)
        ensures
            r@ == Self::every(),
    {
        let r = vec![
            Separator::InlineComment,
            Separator::CommentBlockOpen,
            Separator::CommentBlockClose,
            Separator::Terminator,
            Separator::OpenParenthesis,
            Separator::CloseParenthesis,
            Separator::StringQuotation,
            Separator::CharQuotation,
            Separator::OpenCurlyBraces,
            Separator::CloseCurlyBraces,
            Separator::OpenBrackets,
            Separator::CloseBrackets,
            Separator::Comma,
            Separator::Dot,
            Separator::NewLine,
            Separator::WhiteSpace,
        ];
        assert(r@ =~= Self::every());
        r
    }

    /// The length, the first and the last character of the spelling: the
    /// three together tell every separator from every other.
    pub open spec fn marks(self) -> (nat, char, char) {
        match self {
            Separator::InlineComment => (2, '/', '/'),
            Separator::CommentBlockOpen => (2, '/', '*'),
            Separator::CommentBlockClose => (2, '*', '/'),
            Separator::Terminator => (1, ';', ';'),
            Separator::OpenParenthesis => (1, '(', '('),
            Separator::CloseParenthesis => (1, ')', ')'),
            Separator::StringQuotation => (1, '"', '"'),
            Separator::CharQuotation => (1, '\'', '\''),
            Separator::OpenCurlyBraces => (1, '{', '{'),
            Separator::CloseCurlyBraces => (1, '}', '}'),
            Separator::OpenBrackets => (1, '[', '['),
            Separator::CloseBrackets => (1, ']', ']'),
            Separator::Comma => (1, ',', ','),
            Separator::Dot => (1, '.', '.'),
            Separator::NewLine => (1, '\n', '\n'),
            Separator::WhiteSpace => (1, ' ', ' '),
        }
    }

    /// The marks are those of the spelling.
    pub proof fn lemma_word_marks(self)
        ensures
            self.word().len() == self.marks().0,
            self.word()[0] == self.marks().1,
            self.word().last() == self.marks().2,
    {
        match self {
            Separator::InlineComment => {
                reveal_strlit("//");
            },
            Separator::CommentBlockOpen => {
                reveal_strlit("/*");
            },
            Separator::CommentBlockClose => {
                reveal_strlit("*/");
            },
            Separator::Terminator => {
                reveal_strlit(";");
            },
            Separator::OpenParenthesis => {
                reveal_strlit("(");
            },
            Separator::CloseParenthesis => {
                reveal_strlit(")");
            },
            Separator::StringQuotation => {
                reveal_strlit("\"");
            },
            Separator::CharQuotation => {
                reveal_strlit("'");
            },
            Separator::OpenCurlyBraces => {
                reveal_strlit("{");
            },
            Separator::CloseCurlyBraces => {
                reveal_strlit("}");
            },
            Separator::OpenBrackets => {
                reveal_strlit("[");
            },
            Separator::CloseBrackets => {
                reveal_strlit("]");
            },
            Separator::Comma => {
                reveal_strlit(",");
            },
            Separator::Dot => {
                reveal_strlit(".");
            },
            Separator::NewLine => {
                reveal_strlit("\n");
            },
            Separator::WhiteSpace => {
                reveal_strlit(" ");
            },
        }
    }

    /// No two separators share a spelling.
    pub proof fn lemma_word_injective(a: Separator, b: Separator)
        requires
            a.word() == b.word(),
        ensures
            a == b,
    {
        Self::lemma_word_marks(a);
        Self::lemma_word_marks(b);
    }

    /// Spelling a separator and reading the spelling back gives the separator, and
    /// nothing but its spelling reads as a separator.
    pub proof fn lemma_spelled(w: Separator, text: Seq<char>)
        ensures
            Self::spelled(w.word()) == Some(w),
            Self::spelled(text) == Some(w) <==> text == w.word(),
    {
        let read = Self::spelled(w.word());
        assert(read is Some);
        Self::lemma_word_injective(read.unwrap(), w);
    }
}

} // verus!
