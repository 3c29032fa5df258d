//! The scanner: one pass over the characters of a chunk of source text
//! that cuts it into tokens.
use crate::err_lox::{spec_error_at, ErrorLox, ErrorView};
use crate::token::{spec_keyword, Token, TokenType, TokenView};
use vstd::prelude::*;

verus! {

/// Whether `char::is_alphanumeric` holds of a character.
pub uninterp spec fn spec_is_alphanumeric(c: char) -> bool;

/// Calls `char::is_alphanumeric`. Trusted: the answer is a function of the
/// character alone, named `spec_is_alphanumeric`.
#[verifier::external_body]
fn is_alphanumeric(c: char) -> (r: bool)
    ensures
        r == spec_is_alphanumeric(c),
{
    c.is_alphanumeric()
}

/// Calls `String::push`. Trusted: the character is appended.
#[verifier::external_body]
pub(crate) fn push_char(s: &mut String, c: char)
    ensures
        final(s)@ == old(s)@.push(c),
{
    s.push(c)
}

/// The kinds of runs of characters that a token is made of.
#[derive(Clone, Copy, Debug, PartialEq, Eq, Structural)]
pub enum CharClass {
    /// Decimal digits.
    Digit,
    /// The characters of a name behind its first: alphanumerics and `_`.
    Word,
    /// Everything up to the end of the line.
    Comment,
    /// Everything up to the closing quote.
    Text,
}

pub open spec fn spec_is_digit(c: char) -> bool {
    '0' <= c <= '9'
}

pub open spec fn spec_is_letter(c: char) -> bool {
    ('a' <= c <= 'z') || ('A' <= c <= 'Z')
}

pub open spec fn spec_in_class(c: char, class: CharClass) -> bool {
    match class {
        CharClass::Digit => spec_is_digit(c),
        CharClass::Word => spec_is_alphanumeric(c) || c == '_',
        CharClass::Comment => c != '\n',
        CharClass::Text => c != '"',
    }
}

/// The end of the run of characters of `class` that starts at `from`: the
/// first position at or behind `from` whose character is not of the class,
/// or the length of the text.
pub open spec fn spec_run_end(chars: Seq<char>, from: int, class: CharClass) -> int
    decreases chars.len() - from,
{
    if 0 <= from < chars.len() && spec_in_class(chars[from], class) {
        spec_run_end(chars, from + 1, class)
    } else {
        from
    }
}

fn in_class(c: char, class: CharClass) -> (r: bool)
    ensures
        r == spec_in_class(c, class),
{
    match class {
        CharClass::Digit => c >= '0' && c <= '9',
        CharClass::Word => is_alphanumeric(c) || c == '_',
        CharClass::Comment => c != '\n',
        CharClass::Text => c != '"',
    }
}

fn run_end(chars: &Vec<char>, from: usize, class: CharClass) -> (r: usize)
    requires
        from <= chars@.len(),
    ensures
        r == spec_run_end(chars@, from as int, class),
        from <= r <= chars@.len(),
{
    let mut at: usize = from;
    while at < chars.len() && in_class(chars[at], class)
        invariant
            from <= at <= chars@.len(),
            spec_run_end(chars@, at as int, class) == spec_run_end(chars@, from as int, class),
        decreases chars@.len() - at,
    {
        at += 1;
    }
    proof {
        if at < chars@.len() {
            assert(!spec_in_class(chars@[at as int], class));
        }
    }
    at
}

/// The kind of the token that a character makes on its own.
pub open spec fn spec_single_kind(c: char) -> Option<TokenType> {
    if c == '(' {
        Some(TokenType::LEFT_PAREN)
    } else if c == ')' {
        Some(TokenType::RIGHT_PAREN)
    } else if c == '[' {
        Some(TokenType::LEFT_BRACKET)
    } else if c == ']' {
        Some(TokenType::RIGHT_BRACKET)
    } else if c == '{' {
        Some(TokenType::LEFT_BRACE)
    } else if c == '}' {
        Some(TokenType::RIGHT_BRACE)
    } else if c == ',' {
        Some(TokenType::COMMA)
    } else if c == '.' {
        Some(TokenType::DOT)
    } else if c == ';' {
        Some(TokenType::STMT_SEP)
    } else if c == '%' {
        Some(TokenType::PERCENT)
    } else {
        None
    }
}

/// For a character that makes one token alone and another with `=` behind
/// it: the two kinds.
pub open spec fn spec_double_kind(c: char) -> Option<(TokenType, TokenType)> {
    if c == '-' {
        Some((TokenType::MINUS, TokenType::MINUS_EQUAL))
    } else if c == '+' {
        Some((TokenType::PLUS, TokenType::PLUS_EQUAL))
    } else if c == '!' {
        Some((TokenType::BANG, TokenType::BANG_EQUAL))
    } else if c == '=' {
        Some((TokenType::EQUAL, TokenType::EQUAL_EQUAL))
    } else if c == '>' {
        Some((TokenType::GREATER, TokenType::GREATER_EQUAL))
    } else if c == '<' {
        Some((TokenType::LESS, TokenType::LESS_EQUAL))
    } else if c == '*' {
        Some((TokenType::STAR, TokenType::STAR_EQUAL))
    } else {
        None
    }
}

fn single_kind(c: char) -> (r: Option<TokenType>)
    ensures
        r == spec_single_kind(c),
{
    if c == '(' {
        Some(TokenType::LEFT_PAREN)
    } else if c == ')' {
        Some(TokenType::RIGHT_PAREN)
    } else if c == '[' {
        Some(TokenType::LEFT_BRACKET)
    } else if c == ']' {
        Some(TokenType::RIGHT_BRACKET)
    } else if c == '{' {
        Some(TokenType::LEFT_BRACE)
    } else if c == '}' {
        Some(TokenType::RIGHT_BRACE)
    } else if c == ',' {
        Some(TokenType::COMMA)
    } else if c == '.' {
        Some(TokenType::DOT)
    } else if c == ';' {
        Some(TokenType::STMT_SEP)
    } else if c == '%' {
        Some(TokenType::PERCENT)
    } else {
        None
    }
}

fn double_kind(c: char) -> (r: Option<(TokenType, TokenType)>)
    ensures
        r == spec_double_kind(c),
{
    if c == '-' {
        Some((TokenType::MINUS, TokenType::MINUS_EQUAL))
    } else if c == '+' {
        Some((TokenType::PLUS, TokenType::PLUS_EQUAL))
    } else if c == '!' {
        Some((TokenType::BANG, TokenType::BANG_EQUAL))
    } else if c == '=' {
        Some((TokenType::EQUAL, TokenType::EQUAL_EQUAL))
    } else if c == '>' {
        Some((TokenType::GREATER, TokenType::GREATER_EQUAL))
    } else if c == '<' {
        Some((TokenType::LESS, TokenType::LESS_EQUAL))
    } else if c == '*' {
        Some((TokenType::STAR, TokenType::STAR_EQUAL))
    } else {
        None
    }
}

/// What one step of the scanner finds: the kind of the token, where its
/// text starts and ends, and where the scan goes on. A step that finds no
/// token (blank space) has no kind.
pub struct Lexeme {
    pub kind: Option<TokenType>,
    pub text_start: int,
    pub text_end: int,
    pub next: int,
}

/// The step of the scanner at position `start`, or nothing where the text
/// is malformed there: a string without closing quote, or a character that
/// starts no token.
pub open spec fn spec_lexeme(chars: Seq<char>, start: int) -> Option<Lexeme> {
    let c = chars[start];
    if spec_single_kind(c) is Some {
        Some(
            Lexeme {
                kind: spec_single_kind(c),
                text_start: start,
                text_end: start + 1,
                next: start + 1,
            },
        )
    } else if spec_double_kind(c) is Some {
        if start + 1 < chars.len() && chars[start + 1] == '=' {
            Some(
                Lexeme {
                    kind: Some(spec_double_kind(c)->Some_0.1),
                    text_start: start,
                    text_end: start + 2,
                    next: start + 2,
                },
            )
        } else {
            Some(
                Lexeme {
                    kind: Some(spec_double_kind(c)->Some_0.0),
                    text_start: start,
                    text_end: start + 1,
                    next: start + 1,
                },
            )
        }
    } else if c == '"' {
        let quote = spec_run_end(chars, start + 1, CharClass::Text);
        if quote >= chars.len() {
            None
        } else {
            Some(
                Lexeme {
                    kind: Some(TokenType::STRING),
                    text_start: start + 1,
                    text_end: quote,
                    next: quote + 1,
                },
            )
        }
    } else if spec_is_digit(c) {
        let whole = spec_run_end(chars, start + 1, CharClass::Digit);
        if whole < chars.len() && chars[whole] == '.' {
            let fraction = spec_run_end(chars, whole + 1, CharClass::Digit);
            Some(
                Lexeme {
                    kind: Some(TokenType::NUMBER),
                    text_start: start,
                    text_end: if fraction == whole + 1 {
                        whole
                    } else {
                        fraction
                    },
                    next: fraction,
                },
            )
        } else {
            Some(
                Lexeme {
                    kind: Some(TokenType::NUMBER),
                    text_start: start,
                    text_end: whole,
                    next: whole,
                },
            )
        }
    } else if spec_is_letter(c) {
        let end = spec_run_end(chars, start + 1, CharClass::Word);
        Some(
            Lexeme {
                kind: Some(
                    match spec_keyword(chars.subrange(start, end)) {
                        Some(keyword) => keyword,
                        None => TokenType::IDENTIFIER,
                    },
                ),
                text_start: start,
                text_end: end,
                next: end,
            },
        )
    } else if c == ' ' || c == '\t' {
        Some(Lexeme { kind: None, text_start: start, text_end: start, next: start + 1 })
    } else if c == '\n' {
        Some(
            Lexeme {
                kind: Some(TokenType::STMT_SEP),
                text_start: start,
                text_end: start + 1,
                next: start + 1,
            },
        )
    } else if c == '/' {
        if start + 1 < chars.len() && chars[start + 1] == '=' {
            Some(
                Lexeme {
                    kind: Some(TokenType::SLASH_EQUAL),
                    text_start: start,
                    text_end: start + 2,
                    next: start + 2,
                },
            )
        } else {
            Some(
                Lexeme {
                    kind: Some(TokenType::SLASH),
                    text_start: start,
                    text_end: start + 1,
                    next: if start + 1 < chars.len() && chars[start + 1] == '/' {
                        spec_run_end(chars, start + 1, CharClass::Comment)
                    } else {
                        start + 1
                    },
                },
            )
        }
    } else {
        None
    }
}

/// The diagnostic for text that is malformed at `start`.
pub open spec fn spec_scan_error(
    chars: Seq<char>,
    start: int,
    line: usize,
    column: usize,
    source: Seq<char>,
) -> ErrorView {
    if chars[start] == '"' {
        spec_error_at("Unmatched \" !"@, line, column, source)
    } else {
        spec_error_at(
            "'"@.push(chars[start]) + "' is an invalid token"@,
            line,
            column,
            source,
        )
    }
}

/// The state of the scanner after one step.
pub struct ScanStep {
    pub token: Option<TokenView>,
    pub current: usize,
    pub line: usize,
    pub column: usize,
}

/// One step of the scanner at position `start`, line `line` and column
/// `column`. The end of a line makes a statement separator that stands at
/// column 0 of the next line.
pub open spec fn spec_scan_iteration(
    chars: Seq<char>,
    start: int,
    line: usize,
    column: usize,
    source: Seq<char>,
) -> Result<ScanStep, ErrorView> {
    match spec_lexeme(chars, start) {
        None => Err(spec_scan_error(chars, start, line, column, source)),
        Some(found) => {
            let newline = chars[start] == '\n';
            let token_line = if newline {
                (line + 1) as usize
            } else {
                line
            };
            let token_column = if newline {
                0
            } else {
                column
            };
            Ok(
                ScanStep {
                    token: match found.kind {
                        None => None,
                        Some(kind) => Some(
                            TokenView {
                                token_type: kind,
                                lexeme: chars.subrange(found.text_start, found.text_end),
                                line: token_line,
                                column: token_column,
                                source_file: source,
                            },
                        ),
                    },
                    current: found.next as usize,
                    line: token_line,
                    column: (token_column + found.next - start) as usize,
                },
            )
        },
    }
}

/// The characters from `start` up to, not including, `end`, as a string;
/// the empty string where `start` is not before `end`.
pub fn get_string(start: usize, end: usize, char_vec: &Vec<char>) -> (r: String)
    requires
        start < end ==> end <= char_vec@.len(),
    ensures
        r@ == if start < end {
            char_vec@.subrange(start as int, end as int)
        } else {
            Seq::<char>::empty()
        },
{
    let mut tmp = String::new();
    let mut i: usize = start;
    while i < end
        invariant
            start <= i,
            start < end ==> i <= end <= char_vec@.len(),
            start < end ==> tmp@ == char_vec@.subrange(start as int, i as int),
            !(start < end) ==> tmp@ == Seq::<char>::empty(),
        decreases end - i,
    {
        push_char(&mut tmp, char_vec[i]);
        assert(char_vec@.subrange(start as int, i + 1) =~= char_vec@.subrange(
            start as int,
            i as int,
        ).push(char_vec@[i as int]));
        i += 1;
    }
    tmp
}

/// Scans the token that starts at `start`. On success `current` is where
/// the scan goes on, and `line` and `column` are the position there.
#[verifier::rlimit(40)]
pub fn scan_iteration(
    source_vec: &Vec<char>,
    start: usize,
    current: &mut usize,
    line: &mut usize,
    column: &mut usize,
    source_file: &str,
) -> (r: Result<Option<Token>, ErrorLox>)
    requires
        start < source_vec@.len(),
        *old(line) < usize::MAX,
        *old(column) + (source_vec@.len() - start) <= usize::MAX,
    ensures
        match spec_scan_iteration(
            source_vec@,
            start as int,
            *old(line),
            *old(column),
            source_file@,
        ) {
            Err(e) => r is Err && r->Err_0@ == e,
            Ok(step) => {
                &&& r is Ok
                &&& match r->Ok_0 {
                    Some(token) => step.token == Some(token@),
                    None => step.token is None,
                }
                &&& *final(current) == step.current
                &&& *final(line) == step.line
                &&& *final(column) == step.column
                &&& start < *final(current) <= source_vec@.len()
                &&& *final(column) <= *old(column) + (*final(current) - start)
            },
        },
{
    let c = source_vec[start];
    let len = source_vec.len();
    let text_start: usize;
    let text_end: usize;
    let poke: usize;
    let kind: Option<TokenType>;
    if let Some(single) = single_kind(c) {
        kind = Some(single);
        text_start = start;
        text_end = start + 1;
        poke = start + 1;
    } else if let Some((alone, combined)) = double_kind(c) {
        text_start = start;
        if start + 1 < len && source_vec[start + 1] == '=' {
            kind = Some(combined);
            text_end = start + 2;
            poke = start + 2;
        } else {
            kind = Some(alone);
            text_end = start + 1;
            poke = start + 1;
        }
    } else if c == '"' {
        let quote = run_end(source_vec, start + 1, CharClass::Text);
        if quote >= len {
            return Err(ErrorLox::from_filename("Unmatched \" !", *line, *column, source_file));
        }
        kind = Some(TokenType::STRING);
        text_start = start + 1;
        text_end = quote;
        poke = quote + 1;
    } else if c >= '0' && c <= '9' {
        let whole = run_end(source_vec, start + 1, CharClass::Digit);
        kind = Some(TokenType::NUMBER);
        text_start = start;
        if whole < len && source_vec[whole] == '.' {
            let fraction = run_end(source_vec, whole + 1, CharClass::Digit);
            text_end = if fraction == whole + 1 {
                whole
            } else {
                fraction
            };
            poke = fraction;
        } else {
            text_end = whole;
            poke = whole;
        }
    } else if (c >= 'a' && c <= 'z') || (c >= 'A' && c <= 'Z') {
        let end = run_end(source_vec, start + 1, CharClass::Word);
        let word = get_string(start, end, source_vec);
        kind = Some(
            match TokenType::keyword(&word) {
                Some(keyword) => keyword,
                None => TokenType::IDENTIFIER,
            },
        );
        text_start = start;
        text_end = end;
        poke = end;
    } else if c == ' ' || c == '\t' {
        kind = None;
        text_start = start;
        text_end = start;
        poke = start + 1;
    } else if c == '\n' {
        kind = Some(TokenType::STMT_SEP);
        text_start = start;
        text_end = start + 1;
        poke = start + 1;
        *line = *line + 1;
        *column = 0;
    } else if c == '/' {
        text_start = start;
        if start + 1 < len && source_vec[start + 1] == '=' {
            kind = Some(TokenType::SLASH_EQUAL);
            text_end = start + 2;
            poke = start + 2;
        } else {
            kind = Some(TokenType::SLASH);
            text_end = start + 1;
            if start + 1 < len && source_vec[start + 1] == '/' {
                poke = run_end(source_vec, start + 1, CharClass::Comment);
            } else {
                poke = start + 1;
            }
        }
    } else {
        let mut description = String::from_str("'");
        push_char(&mut description, c);
        description.append("' is an invalid token");
        return Err(
            ErrorLox::from_filename(description.as_str(), *line, *column, source_file),
        );
    }
    assert(spec_lexeme(source_vec@, start as int) == Some(
        Lexeme {
            kind,
            text_start: text_start as int,
            text_end: text_end as int,
            next: poke as int,
        },
    ));
    assert(text_start <= text_end <= len);
    assert(source_vec@.subrange(text_start as int, text_end as int) =~= if text_start < text_end {
        source_vec@.subrange(text_start as int, text_end as int)
    } else {
        Seq::<char>::empty()
    });
    let token = match kind {
        None => None,
        Some(token_type) => Some(
            Token::new(
                token_type,
                get_string(text_start, text_end, source_vec),
                *line,
                *column,
                source_file,
            ),
        ),
    };
    *current = poke;
    *column = *column + (poke - start);
    Ok(token)
}

/// The characters of a string.
fn chars_of(s: &str) -> (r: Vec<char>)
    ensures
        r@ == s@,
{
    let mut v: Vec<char> = Vec::new();
    for c in it: s.chars()
        invariant
            v@ == it.seq().subrange(0, it.index() as int),
            it.seq() == s@,
    {
        v.push(c);
    }
    v
}

/// The tokens found so far and the position that the scan has reached.
pub struct ScanState {
    pub tokens: Seq<TokenView>,
    pub line: usize,
    pub column: usize,
}

/// The scan of the text from position `current` on.
pub open spec fn spec_scan_from(
    chars: Seq<char>,
    current: int,
    state: ScanState,
    source: Seq<char>,
) -> Result<ScanState, ErrorView>
    decreases chars.len() - current,
{
    if current < 0 || current >= chars.len() {
        Ok(state)
    } else {
        match spec_scan_iteration(chars, current, state.line, state.column, source) {
            Err(e) => Err(e),
            Ok(step) => if current < step.current <= chars.len() {
                spec_scan_from(
                    chars,
                    step.current as int,
                    ScanState {
                        tokens: match step.token {
                            Some(token) => state.tokens.push(token),
                            None => state.tokens,
                        },
                        line: step.line,
                        column: step.column,
                    },
                    source,
                )
            } else {
                Ok(state)
            },
        }
    }
}

/// The statement separator that ends every chunk of text.
pub open spec fn spec_sentinel(line: usize, column: usize, source: Seq<char>) -> TokenView {
    TokenView {
        token_type: TokenType::STMT_SEP,
        lexeme: "\\xa"@,
        line,
        column,
        source_file: source,
    }
}

/// The tokens of a chunk of text that starts on line `line`, with the
/// sentinel behind them, and the line on which the chunk ends.
pub open spec fn spec_scan_tokens(chars: Seq<char>, line: usize, source: Seq<char>) -> Result<
    (Seq<TokenView>, usize),
    ErrorView,
> {
    match spec_scan_from(
        chars,
        0,
        ScanState { tokens: Seq::empty(), line, column: 1 },
        source,
    ) {
        Err(e) => Err(e),
        Ok(end) => Ok((end.tokens.push(spec_sentinel(end.line, end.column, source)), end.line)),
    }
}

/// Cuts a chunk of source text into tokens, in source order, and puts one
/// statement separator behind them. `line` counts the lines: it goes in as
/// the line on which the chunk starts and comes out as the line on which
/// it ends.
pub fn scan_tokens(string: &str, line: &mut usize, source_file: &str) -> (r: Result<
    Vec<Token>,
    ErrorLox,
>)
    requires
        *old(line) + string@.len() < usize::MAX,
    ensures
        match spec_scan_tokens(string@, *old(line), source_file@) {
            Err(e) => r is Err && r->Err_0@ == e,
            Ok((tokens, last_line)) => {
                &&& r is Ok
                &&& crate::parse_tree_unfinished::token_views(r->Ok_0@) == tokens
                &&& *final(line) == last_line
            },
        },
{
    let mut token_vec: Vec<Token> = Vec::new();
    let mut current: usize = 0;
    let mut column: usize = 1;
    let source_vec = chars_of(string);
    let num_of_chars = source_vec.len();
    let ghost views: Seq<TokenView> = Seq::empty();
    proof {
        assert(crate::parse_tree_unfinished::token_views(token_vec@) =~= views);
    }
    while current < num_of_chars
        invariant
            source_vec@ == string@,
            num_of_chars == source_vec@.len(),
            current <= num_of_chars,
            *line <= *old(line) + current,
            *old(line) + num_of_chars < usize::MAX,
            column <= current + 1,
            crate::parse_tree_unfinished::token_views(token_vec@) == views,
            spec_scan_from(
                source_vec@,
                current as int,
                ScanState { tokens: views, line: *line, column },
                source_file@,
            ) == spec_scan_from(
                source_vec@,
                0,
                ScanState { tokens: Seq::empty(), line: *old(line), column: 1 },
                source_file@,
            ),
        decreases num_of_chars - current,
    {
        let start = current;
        match scan_iteration(&source_vec, start, &mut current, line, &mut column, source_file) {
            Err(e) => {
                return Err(e);
            },
            Ok(found) => {
                match found {
                    Some(token) => {
                        proof {
                            views = views.push(token@);
                        }
                        token_vec.push(token);
                        assert(crate::parse_tree_unfinished::token_views(token_vec@) =~= views);
                    },
                    None => {},
                }
            },
        }
    }
    let sentinel = Token::new(
        TokenType::STMT_SEP,
        String::from_str("\\xa"),
        *line,
        column,
        source_file,
    );
    proof {
        views = views.push(sentinel@);
    }
    token_vec.push(sentinel);
    assert(crate::parse_tree_unfinished::token_views(token_vec@) =~= views);
    Ok(token_vec)
}

} // verus!
