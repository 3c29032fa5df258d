//! Lexical units: the closed set of token kinds and the token itself.
use rand::Rng;
use vstd::prelude::*;

verus! {

/// The kind of a lexical unit.
#[allow(non_camel_case_types)]
#[derive(Clone, Copy, Debug, Hash, PartialEq, Eq, Structural)]
pub enum TokenType {
    // Single-character tokens.
    LEFT_PAREN,
    RIGHT_PAREN,
    LEFT_BRACE,
    RIGHT_BRACE,
    LEFT_BRACKET,
    RIGHT_BRACKET,
    COMMA,
    DOT,
    /// Statement separator: `;` and the end of a line.
    STMT_SEP,
    SLASH,
    SLASH_EQUAL,
    STAR,
    STAR_EQUAL,
    PERCENT,
    // One or two character tokens.
    PLUS,
    PLUS_EQUAL,
    MINUS,
    MINUS_EQUAL,
    BANG,
    BANG_EQUAL,
    EQUAL,
    EQUAL_EQUAL,
    GREATER,
    GREATER_EQUAL,
    LESS,
    LESS_EQUAL,
    // Literals.
    IDENTIFIER,
    STRING,
    NUMBER,
    // Keywords.
    AND,
    CLASS,
    ELSE,
    FALSE,
    FN,
    FOR,
    IF,
    NIL,
    OR,
    PRINT,
    RETURN,
    SUPER,
    THIS,
    TRUE,
    VAR,
    WHILE,
    EOF,
    /// The kind of a synthesized token that stands for no source text.
    DUMMY,
}

/// How many kinds `token_type_at` enumerates.
pub const TOKEN_TYPE_COUNT: usize = 46;

/// The kind at position `n` of the enumeration that random tokens are drawn from.
/// It lists every kind but `AND`, in declaration order.
pub open spec fn spec_token_type_at(n: int) -> TokenType {
    if n == 0 {
        TokenType::LEFT_PAREN
    } else if n == 1 {
        TokenType::RIGHT_PAREN
    } else if n == 2 {
        TokenType::LEFT_BRACE
    } else if n == 3 {
        TokenType::RIGHT_BRACE
    } else if n == 4 {
        TokenType::LEFT_BRACKET
    } else if n == 5 {
        TokenType::RIGHT_BRACKET
    } else if n == 6 {
        TokenType::COMMA
    } else if n == 7 {
        TokenType::DOT
    } else if n == 8 {
        TokenType::STMT_SEP
    } else if n == 9 {
        TokenType::SLASH
    } else if n == 10 {
        TokenType::SLASH_EQUAL
    } else if n == 11 {
        TokenType::STAR
    } else if n == 12 {
        TokenType::STAR_EQUAL
    } else if n == 13 {
        TokenType::PERCENT
    } else if n == 14 {
        TokenType::PLUS
    } else if n == 15 {
        TokenType::PLUS_EQUAL
    } else if n == 16 {
        TokenType::MINUS
    } else if n == 17 {
        TokenType::MINUS_EQUAL
    } else if n == 18 {
        TokenType::BANG
    } else if n == 19 {
        TokenType::BANG_EQUAL
    } else if n == 20 {
        TokenType::EQUAL
    } else if n == 21 {
        TokenType::EQUAL_EQUAL
    } else if n == 22 {
        TokenType::GREATER
    } else if n == 23 {
        TokenType::GREATER_EQUAL
    } else if n == 24 {
        TokenType::LESS
    } else if n == 25 {
        TokenType::LESS_EQUAL
    } else if n == 26 {
        TokenType::IDENTIFIER
    } else if n == 27 {
        TokenType::STRING
    } else if n == 28 {
        TokenType::NUMBER
    } else if n == 29 {
        TokenType::CLASS
    } else if n == 30 {
        TokenType::ELSE
    } else if n == 31 {
        TokenType::FALSE
    } else if n == 32 {
        TokenType::FN
    } else if n == 33 {
        TokenType::FOR
    } else if n == 34 {
        TokenType::IF
    } else if n == 35 {
        TokenType::NIL
    } else if n == 36 {
        TokenType::OR
    } else if n == 37 {
        TokenType::PRINT
    } else if n == 38 {
        TokenType::RETURN
    } else if n == 39 {
        TokenType::SUPER
    } else if n == 40 {
        TokenType::THIS
    } else if n == 41 {
        TokenType::TRUE
    } else if n == 42 {
        TokenType::VAR
    } else if n == 43 {
        TokenType::WHILE
    } else if n == 44 {
        TokenType::EOF
    } else {
        TokenType::DUMMY
    }
}

/// The keyword that a lexeme spells, if it spells one.
pub open spec fn spec_keyword(lexeme: Seq<char>) -> Option<TokenType> {
    if lexeme == "and"@ {
        Some(TokenType::AND)
    } else if lexeme == "class"@ {
        Some(TokenType::CLASS)
    } else if lexeme == "else"@ {
        Some(TokenType::ELSE)
    } else if lexeme == "false"@ {
        Some(TokenType::FALSE)
    } else if lexeme == "fn"@ {
        Some(TokenType::FN)
    } else if lexeme == "for"@ {
        Some(TokenType::FOR)
    } else if lexeme == "if"@ {
        Some(TokenType::IF)
    } else if lexeme == "nil"@ {
        Some(TokenType::NIL)
    } else if lexeme == "or"@ {
        Some(TokenType::OR)
    } else if lexeme == "print"@ {
        Some(TokenType::PRINT)
    } else if lexeme == "return"@ {
        Some(TokenType::RETURN)
    } else if lexeme == "super"@ {
        Some(TokenType::SUPER)
    } else if lexeme == "this"@ {
        Some(TokenType::THIS)
    } else if lexeme == "true"@ {
        Some(TokenType::TRUE)
    } else if lexeme == "var"@ {
        Some(TokenType::VAR)
    } else if lexeme == "while"@ {
        Some(TokenType::WHILE)
    } else if lexeme == "EOF"@ {
        Some(TokenType::EOF)
    } else {
        None
    }
}

/// Draws an integer from `low..high` with `rand::Rng::gen_range` on the
/// thread-local generator. Trusted: the draw lies in the range; nothing else
/// is claimed of it. An empty range makes `gen_range` panic and is excluded.
#[verifier::external_body]
pub(crate) fn random_in_range(low: usize, high: usize) -> (r: usize)
    requires
        low < high,
    ensures
        low <= r < high,
{
    rand::thread_rng().gen_range(low..high)
}

impl TokenType {
    /// The kind at position `n` of the enumeration of kinds.
    pub fn token_type_at(n: usize) -> (r: TokenType)
        ensures
            r == spec_token_type_at(n as int),
    {
        match n {
            0 => TokenType::LEFT_PAREN,
            1 => TokenType::RIGHT_PAREN,
            2 => TokenType::LEFT_BRACE,
            3 => TokenType::RIGHT_BRACE,
            4 => TokenType::LEFT_BRACKET,
            5 => TokenType::RIGHT_BRACKET,
            6 => TokenType::COMMA,
            7 => TokenType::DOT,
            8 => TokenType::STMT_SEP,
            9 => TokenType::SLASH,
            10 => TokenType::SLASH_EQUAL,
            11 => TokenType::STAR,
            12 => TokenType::STAR_EQUAL,
            13 => TokenType::PERCENT,
            14 => TokenType::PLUS,
            15 => TokenType::PLUS_EQUAL,
            16 => TokenType::MINUS,
            17 => TokenType::MINUS_EQUAL,
            18 => TokenType::BANG,
            19 => TokenType::BANG_EQUAL,
            20 => TokenType::EQUAL,
            21 => TokenType::EQUAL_EQUAL,
            22 => TokenType::GREATER,
            23 => TokenType::GREATER_EQUAL,
            24 => TokenType::LESS,
            25 => TokenType::LESS_EQUAL,
            26 => TokenType::IDENTIFIER,
            27 => TokenType::STRING,
            28 => TokenType::NUMBER,
            29 => TokenType::CLASS,
            30 => TokenType::ELSE,
            31 => TokenType::FALSE,
            32 => TokenType::FN,
            33 => TokenType::FOR,
            34 => TokenType::IF,
            35 => TokenType::NIL,
            36 => TokenType::OR,
            37 => TokenType::PRINT,
            38 => TokenType::RETURN,
            39 => TokenType::SUPER,
            40 => TokenType::THIS,
            41 => TokenType::TRUE,
            42 => TokenType::VAR,
            43 => TokenType::WHILE,
            44 => TokenType::EOF,
            _ => TokenType::DUMMY,
        }
    }

    /// A kind drawn at random from the enumeration.
    pub fn random() -> (r: TokenType)
        ensures
            exists|n: int| 0 <= n < TOKEN_TYPE_COUNT && r == spec_token_type_at(n),
    {
        let n: usize = random_in_range(0, TOKEN_TYPE_COUNT);
        TokenType::token_type_at(n)
    }

    /// The keyword that `lexeme` spells, if it spells one.
    pub fn keyword(lexeme: &String) -> (r: Option<TokenType>)
        ensures
            r == spec_keyword(lexeme@),
    {
        if *lexeme == String::from_str("and") {
            Some(TokenType::AND)
        } else if *lexeme == String::from_str("class") {
            Some(TokenType::CLASS)
        } else if *lexeme == String::from_str("else") {
            Some(TokenType::ELSE)
        } else if *lexeme == String::from_str("false") {
            Some(TokenType::FALSE)
        } else if *lexeme == String::from_str("fn") {
            Some(TokenType::FN)
        } else if *lexeme == String::from_str("for") {
            Some(TokenType::FOR)
        } else if *lexeme == String::from_str("if") {
            Some(TokenType::IF)
        } else if *lexeme == String::from_str("nil") {
            Some(TokenType::NIL)
        } else if *lexeme == String::from_str("or") {
            Some(TokenType::OR)
        } else if *lexeme == String::from_str("print") {
            Some(TokenType::PRINT)
        } else if *lexeme == String::from_str("return") {
            Some(TokenType::RETURN)
        } else if *lexeme == String::from_str("super") {
            Some(TokenType::SUPER)
        } else if *lexeme == String::from_str("this") {
            Some(TokenType::THIS)
        } else if *lexeme == String::from_str("true") {
            Some(TokenType::TRUE)
        } else if *lexeme == String::from_str("var") {
            Some(TokenType::VAR)
        } else if *lexeme == String::from_str("while") {
            Some(TokenType::WHILE)
        } else if *lexeme == String::from_str("EOF") {
            Some(TokenType::EOF)
        } else {
            None
        }
    }
}

/// A lexical unit: its kind, its text and where it stands.
#[derive(Debug)]
pub struct Token {
    pub token_type: TokenType,
    pub lexeme: String,
    /// Line of the token, counted from 1.
    pub line: usize,
    /// Column of the token, counted from 1.
    pub column: usize,
    /// Name of the text the token was read from.
    pub source_file: String,
}

/// The mathematical value of a token.
pub struct TokenView {
    pub token_type: TokenType,
    pub lexeme: Seq<char>,
    pub line: usize,
    pub column: usize,
    pub source_file: Seq<char>,
}

impl View for Token {
    type V = TokenView;

    open spec fn view(&self) -> TokenView {
        TokenView {
            token_type: self.token_type,
            lexeme: self.lexeme@,
            line: self.line,
            column: self.column,
            source_file: self.source_file@,
        }
    }
}

/// The token that stands for no source text.
pub open spec fn spec_dummy_token() -> TokenView {
    TokenView {
        token_type: TokenType::DUMMY,
        lexeme: Seq::empty(),
        line: 0,
        column: 0,
        source_file: Seq::empty(),
    }
}

impl Token {
    pub fn new(
        token_type: TokenType,
        lexeme: String,
        line: usize,
        column: usize,
        source_file: &str,
    ) -> (r: Token)
        ensures
            r@ == (TokenView {
                token_type,
                lexeme: lexeme@,
                line,
                column,
                source_file: source_file@,
            }),
    {
        Token { token_type, lexeme, line, column, source_file: String::from_str(source_file) }
    }

    /// A placeholder token for synthesized nodes.
    pub fn dummy() -> (r: Token)
        ensures
            r@ == spec_dummy_token(),
    {
        Token {
            token_type: TokenType::DUMMY,
            lexeme: String::new(),
            line: 0,
            column: 0,
            source_file: String::new(),
        }
    }

    /// A token of a random kind, at no position, whose text is `DUMMY`.
    pub fn random() -> (r: Token)
        ensures
            exists|n: int| 0 <= n < TOKEN_TYPE_COUNT && r@.token_type == spec_token_type_at(n),
            r@.lexeme == "DUMMY"@,
            r@.line == 0,
            r@.column == 0,
            r@.source_file == Seq::<char>::empty(),
    {
        Token {
            token_type: TokenType::random(),
            lexeme: String::from_str("DUMMY"),
            line: 0,
            column: 0,
            source_file: String::new(),
        }
    }

    pub fn get_token_type(&self) -> (r: TokenType)
        ensures
            r == self@.token_type,
    {
        self.token_type
    }

    pub fn get_lexeme(&self) -> (r: &String)
        ensures
            r@ == self@.lexeme,
    {
        &self.lexeme
    }

    /// An independent copy of the token.
    pub fn duplicate(&self) -> (r: Token)
        ensures
            r@ == self@,
    {
        Token {
            token_type: self.token_type,
            lexeme: self.lexeme.clone(),
            line: self.line,
            column: self.column,
            source_file: self.source_file.clone(),
        }
    }
}

} // verus!
