//! Tokens of expression source text.
//!
//! The spans of tokens and failures count bytes from the start of the text. While a text is
//! read, places in it count characters.
use crate::text::characters;
use vstd::prelude::*;
use vstd::string::StrSliceExecFns;

verus! {

#[derive(Clone, Copy, Debug, PartialEq, Eq, Structural)]
pub struct Span {
    pub start: usize,
    pub end: usize,
}

#[derive(Clone, Copy, Debug, PartialEq, Eq, Structural)]
pub enum TokenKind {
    Identifier,
    Lifetime,
    Integer,
    Character,
    OpenParen,
    CloseParen,
    OpenBrace,
    CloseBrace,
    OpenBracket,
    CloseBracket,
    Comma,
    Semicolon,
    Colon,
    PathSeparator,
    Dot,
    Arrow,
    FatArrow,
    Operator,
}

#[derive(Clone, Copy, Debug, PartialEq, Eq)]
pub struct Token<'source> {
    pub kind: TokenKind,
    pub text: &'source str,
    pub span: Span,
}

#[derive(Clone, Copy, Debug, PartialEq, Eq, Structural)]
pub enum LexErrorKind {
    UnexpectedCharacter,
    UnterminatedCharacter,
    UnterminatedComment,
}

#[derive(Clone, Copy, Debug, PartialEq, Eq, Structural)]
pub struct LexError {
    pub kind: LexErrorKind,
    pub span: Span,
}

/// A token's kind and the half-open range of characters it covers.
#[verifier::ext_equal]
pub struct Lexeme {
    pub kind: TokenKind,
    pub start: int,
    pub end: int,
}

pub open spec fn is_blank(c: char) -> bool {
    c == ' ' || c == '\t' || c == '\n' || c == '\r'
}

pub open spec fn is_digit(c: char) -> bool {
    '0' <= c && c <= '9'
}

pub open spec fn starts_name(c: char) -> bool {
    ('a' <= c && c <= 'z') || ('A' <= c && c <= 'Z') || c == '_'
}

pub open spec fn continues_name(c: char) -> bool {
    starts_name(c) || is_digit(c)
}

/// The character at `i`, or a NUL past the end.
pub open spec fn char_at(c: Seq<char>, i: int) -> char {
    if 0 <= i < c.len() {
        c[i]
    } else {
        '\0'
    }
}

/// The end of the longest run of name characters that starts at `i`.
pub open spec fn name_end(c: Seq<char>, i: int) -> int
    decreases c.len() - i,
{
    if 0 <= i < c.len() && continues_name(c[i]) {
        name_end(c, i + 1)
    } else {
        i
    }
}

/// The first line break at or after `i`, or the end of the text.
pub open spec fn line_end(c: Seq<char>, i: int) -> int
    decreases c.len() - i,
{
    if 0 <= i < c.len() && c[i] != '\n' {
        line_end(c, i + 1)
    } else {
        i
    }
}

/// Where the block comment whose text starts at `i` has its closing mark
/// behind it.
pub open spec fn comment_end(c: Seq<char>, i: int) -> Option<int>
    decreases c.len() - i,
{
    if !(0 <= i && i + 1 < c.len()) {
        None
    } else if c[i] == '*' && c[i + 1] == '/' {
        Some(i + 2)
    } else {
        comment_end(c, i + 1)
    }
}

/// The first closing quote at or after `i` that no backslash escapes.
pub open spec fn quote_end(c: Seq<char>, i: int) -> Option<int>
    decreases c.len() - i,
{
    if !(0 <= i < c.len()) {
        None
    } else if c[i] == '\'' {
        Some(i)
    } else if c[i] == '\\' && i + 1 < c.len() {
        quote_end(c, i + 2)
    } else {
        quote_end(c, i + 1)
    }
}

pub open spec fn lex_failure(kind: LexErrorKind, start: int, end: int) -> LexError {
    LexError { kind, span: Span { start: start as usize, end: end as usize } }
}

/// The first position at or after `i` that is neither blank nor in a comment.
pub open spec fn blank_end(c: Seq<char>, i: int) -> Result<int, LexError>
    decreases c.len() - i,
{
    if !(0 <= i < c.len()) {
        Ok(i)
    } else if is_blank(c[i]) {
        blank_end(c, i + 1)
    } else if c[i] == '/' && char_at(c, i + 1) == '/' {
        if i < line_end(c, i + 2) <= c.len() {
            blank_end(c, line_end(c, i + 2))
        } else {
            Ok(i)
        }
    } else if c[i] == '/' && char_at(c, i + 1) == '*' {
        match comment_end(c, i + 2) {
            Some(end) => if i < end <= c.len() {
                blank_end(c, end)
            } else {
                Ok(i)
            },
            None => Err(lex_failure(LexErrorKind::UnterminatedComment, i, c.len() as int)),
        }
    } else {
        Ok(i)
    }
}

/// How many characters the operator at `i` has; zero where there is none.
pub open spec fn operator_length(c: Seq<char>, i: int) -> int {
    let first = char_at(c, i);
    let second = char_at(c, i + 1);
    let third = char_at(c, i + 2);
    if (first == '<' || first == '>') && second == first {
        if third == '=' {
            3
        } else {
            2
        }
    } else if (first == '&' || first == '|') && second == first {
        2
    } else if first == '<' || first == '>' || first == '=' || first == '!' || first == '+' || first
        == '-' || first == '*' || first == '/' || first == '%' || first == '&' || first == '|'
        || first == '^' {
        if second == '=' {
            2
        } else {
            1
        }
    } else if first == '@' || first == '#' || first == '?' || first == '~' {
        1
    } else {
        0
    }
}

/// The token that starts at `i`, which is neither blank nor in a comment.
pub open spec fn lexeme_at(c: Seq<char>, i: int) -> Result<Lexeme, LexError> {
    let first = char_at(c, i);
    let second = char_at(c, i + 1);
    if starts_name(first) {
        Ok(Lexeme { kind: TokenKind::Identifier, start: i, end: name_end(c, i + 1) })
    } else if is_digit(first) {
        Ok(Lexeme { kind: TokenKind::Integer, start: i, end: name_end(c, i + 1) })
    } else if first == '\'' {
        if starts_name(second) && char_at(c, i + 2) != '\'' {
            Ok(Lexeme { kind: TokenKind::Lifetime, start: i, end: name_end(c, i + 1) })
        } else {
            match quote_end(c, i + 1) {
                Some(quote) => Ok(Lexeme { kind: TokenKind::Character, start: i, end: quote + 1 }),
                None => Err(
                    lex_failure(LexErrorKind::UnterminatedCharacter, i, c.len() as int),
                ),
            }
        }
    } else if first == '(' {
        Ok(Lexeme { kind: TokenKind::OpenParen, start: i, end: i + 1 })
    } else if first == ')' {
        Ok(Lexeme { kind: TokenKind::CloseParen, start: i, end: i + 1 })
    } else if first == '{' {
        Ok(Lexeme { kind: TokenKind::OpenBrace, start: i, end: i + 1 })
    } else if first == '}' {
        Ok(Lexeme { kind: TokenKind::CloseBrace, start: i, end: i + 1 })
    } else if first == '[' {
        Ok(Lexeme { kind: TokenKind::OpenBracket, start: i, end: i + 1 })
    } else if first == ']' {
        Ok(Lexeme { kind: TokenKind::CloseBracket, start: i, end: i + 1 })
    } else if first == ',' {
        Ok(Lexeme { kind: TokenKind::Comma, start: i, end: i + 1 })
    } else if first == ';' {
        Ok(Lexeme { kind: TokenKind::Semicolon, start: i, end: i + 1 })
    } else if first == '.' {
        Ok(Lexeme { kind: TokenKind::Dot, start: i, end: i + 1 })
    } else if first == ':' {
        if second == ':' {
            Ok(Lexeme { kind: TokenKind::PathSeparator, start: i, end: i + 2 })
        } else {
            Ok(Lexeme { kind: TokenKind::Colon, start: i, end: i + 1 })
        }
    } else if first == '=' && second == '>' {
        Ok(Lexeme { kind: TokenKind::FatArrow, start: i, end: i + 2 })
    } else if first == '-' && second == '>' {
        Ok(Lexeme { kind: TokenKind::Arrow, start: i, end: i + 2 })
    } else if operator_length(c, i) > 0 {
        Ok(Lexeme { kind: TokenKind::Operator, start: i, end: i + operator_length(c, i) })
    } else {
        Err(lex_failure(LexErrorKind::UnexpectedCharacter, i, i + 1))
    }
}

/// The tokens of `c` from position `i` on, up to the first place where no
/// token can be read, and the failure there.
#[verifier::ext_equal]
pub struct Lexing {
    pub lexemes: Seq<Lexeme>,
    pub failure: Option<LexError>,
}

pub open spec fn lexing_from(c: Seq<char>, i: int) -> Lexing
    decreases c.len() - i,
{
    match blank_end(c, i) {
        Err(error) => Lexing { lexemes: seq![], failure: Some(error) },
        Ok(start) => if start >= c.len() {
            Lexing { lexemes: seq![], failure: None }
        } else {
            match lexeme_at(c, start) {
                Err(error) => Lexing { lexemes: seq![], failure: Some(error) },
                Ok(lexeme) => if i < lexeme.end <= c.len() {
                    let rest = lexing_from(c, lexeme.end);
                    Lexing { lexemes: seq![lexeme] + rest.lexemes, failure: rest.failure }
                } else {
                    Lexing { lexemes: seq![], failure: None }
                },
            }
        },
    }
}

/// The tokens of a text.
pub open spec fn lexing(c: Seq<char>) -> Lexing {
    lexing_from(c, 0)
}

/// How many bytes a character takes in a text.
pub open spec fn char_bytes(c: char) -> int {
    if c as u32 <= 0x7f {
        1
    } else if c as u32 <= 0x7ff {
        2
    } else if c as u32 <= 0xffff {
        3
    } else {
        4
    }
}

/// How many bytes the first `count` characters of a text take.
pub open spec fn bytes_before(c: Seq<char>, count: int) -> int
    decreases count,
{
    if count <= 0 {
        0
    } else {
        bytes_before(c, count - 1) + char_bytes(c[count - 1])
    }
}

/// A span that counts bytes in place of characters.
pub open spec fn span_in_bytes(c: Seq<char>, span: Span) -> Span {
    Span {
        start: bytes_before(c, span.start as int) as usize,
        end: bytes_before(c, span.end as int) as usize,
    }
}

/// The failure of a text, with its place in bytes.
pub open spec fn failure_in_bytes(c: Seq<char>, failure: Option<LexError>) -> Option<LexError> {
    match failure {
        Some(error) => Some(LexError { kind: error.kind, span: span_in_bytes(c, error.span) }),
        None => None,
    }
}

pub proof fn bytes_from_the_front(c: Seq<char>, count: int)
    requires
        0 < count <= c.len(),
    ensures
        bytes_before(c, count) == char_bytes(c[0]) + bytes_before(c.skip(1), count - 1),
    decreases count,
{
    if count > 1 {
        bytes_from_the_front(c, count - 1);
        assert(c.skip(1)[count - 2] == c[count - 1]);
    } else {
        assert(bytes_before(c, 0) == 0);
    }
}

proof fn bytes_are_the_encoding(c: Seq<char>)
    ensures
        vstd::utf8::encode_utf8(c).len() == bytes_before(c, c.len() as int),
    decreases c.len(),
{
    if c.len() > 0 {
        vstd::utf8::char_is_scalar(c[0]);
        bytes_are_the_encoding(c.skip(1));
        bytes_from_the_front(c, c.len() as int);
        assert(c.drop_first() =~= c.skip(1));
    }
}

pub proof fn bytes_grow(c: Seq<char>, first: int, second: int)
    requires
        0 <= first <= second,
    ensures
        0 <= bytes_before(c, first) <= bytes_before(c, second),
    decreases second,
{
    if second > 0 {
        if first < second {
            bytes_grow(c, first, second - 1);
        } else {
            bytes_grow(c, first - 1, second - 1);
        }
    }
}

/// Where each character of a text begins, and where the text ends.
fn byte_offsets(source: &str, c: &Vec<char>) -> (offsets: Vec<usize>)
    requires
        c@ == source@,
    ensures
        offsets@.len() == c@.len() + 1,
        forall|k: int| 0 <= k <= c@.len() ==> #[trigger] offsets@[k] == bytes_before(c@, k),
{
    let bytes = source.as_bytes();
    let ghost total = bytes.len();
    proof {
        bytes_are_the_encoding(c@);
        assert(total == bytes@.len());
    }
    let mut offsets: Vec<usize> = Vec::new();
    offsets.push(0);
    let mut index: usize = 0;
    while index < c.len()
        invariant
            index <= c.len(),
            total == bytes_before(c@, c@.len() as int),
            total <= usize::MAX,
            offsets@.len() == index + 1,
            forall|k: int| 0 <= k <= index ==> #[trigger] offsets@[k] == bytes_before(c@, k),
        decreases c.len() - index,
    {
        let code: u32 = c[index] as u32;
        let length: usize = if code <= 0x7f {
            1
        } else if code <= 0x7ff {
            2
        } else if code <= 0xffff {
            3
        } else {
            4
        };
        proof {
            bytes_grow(c@, index + 1, c@.len() as int);
            assert(bytes_before(c@, index + 1) == bytes_before(c@, index as int) + length);
        }
        let before: usize = offsets[index];
        offsets.push(before + length);
        index += 1;
    }
    offsets
}

/// Whether `token` is the lexeme `lexeme` of the text `c`. Its span counts bytes.
pub open spec fn token_shows(token: Token, lexeme: Lexeme, c: Seq<char>) -> bool {
    &&& token.kind == lexeme.kind
    &&& token.span.start == bytes_before(c, lexeme.start)
    &&& token.span.end == bytes_before(c, lexeme.end)
    &&& 0 <= lexeme.start <= lexeme.end <= c.len()
    &&& token.text@ == c.subrange(lexeme.start, lexeme.end)
}

/// Whether `tokens` are the lexemes of the text `c`, one for one.
pub open spec fn tokens_show(tokens: Seq<Token>, lexemes: Seq<Lexeme>, c: Seq<char>) -> bool {
    &&& tokens.len() == lexemes.len()
    &&& forall|k: int| 0 <= k < tokens.len() ==> token_shows(#[trigger] tokens[k], lexemes[k], c)
}

fn char_or_nul(c: &Vec<char>, i: usize) -> (result: char)
    ensures
        result == char_at(c@, i as int),
{
    if i < c.len() {
        c[i]
    } else {
        '\0'
    }
}

fn continues_identifier(c: char) -> (result: bool)
    ensures
        result == continues_name(c),
{
    starts_identifier(c) || ('0' <= c && c <= '9')
}

fn starts_identifier(c: char) -> (result: bool)
    ensures
        result == starts_name(c),
{
    ('a' <= c && c <= 'z') || ('A' <= c && c <= 'Z') || c == '_'
}

fn skip_name(c: &Vec<char>, from: usize) -> (end: usize)
    requires
        from <= c.len(),
    ensures
        end == name_end(c@, from as int),
        from <= end <= c.len(),
{
    let mut end: usize = from;
    while end < c.len() && continues_identifier(c[end])
        invariant
            from <= end <= c.len(),
            name_end(c@, from as int) == name_end(c@, end as int),
        decreases c.len() - end,
    {
        end += 1;
    }
    end
}

fn skip_line(c: &Vec<char>, from: usize) -> (end: usize)
    requires
        from <= c.len(),
    ensures
        end == line_end(c@, from as int),
        from <= end <= c.len(),
{
    let mut end: usize = from;
    while end < c.len() && c[end] != '\n'
        invariant
            from <= end <= c.len(),
            line_end(c@, from as int) == line_end(c@, end as int),
        decreases c.len() - end,
    {
        end += 1;
    }
    end
}

fn skip_comment(c: &Vec<char>, from: usize) -> (end: Option<usize>)
    requires
        from <= c.len(),
    ensures
        match end {
            Some(end) => comment_end(c@, from as int) == Some(end as int) && from < end <= c.len(),
            None => comment_end(c@, from as int) is None,
        },
{
    let mut position: usize = from;
    while position < c.len() && c.len() - position > 1
        invariant
            from <= position <= c.len(),
            comment_end(c@, from as int) == comment_end(c@, position as int),
        decreases c.len() - position,
    {
        if c[position] == '*' && c[position + 1] == '/' {
            return Some(position + 2);
        }
        position += 1;
    }
    None
}

fn skip_quoted(c: &Vec<char>, from: usize) -> (quote: Option<usize>)
    requires
        from <= c.len(),
    ensures
        match quote {
            Some(quote) => quote_end(c@, from as int) == Some(quote as int) && from <= quote
                < c.len(),
            None => quote_end(c@, from as int) is None,
        },
{
    let mut position: usize = from;
    while position < c.len()
        invariant
            from <= position <= c.len(),
            quote_end(c@, from as int) == quote_end(c@, position as int),
        decreases c.len() - position,
    {
        if c[position] == '\'' {
            return Some(position);
        }
        if c[position] == '\\' && c.len() - position > 1 {
            position += 2;
        } else {
            position += 1;
        }
    }
    None
}

fn skip_blank(c: &Vec<char>, from: usize) -> (end: Result<usize, LexError>)
    requires
        from <= c.len(),
    ensures
        match end {
            Ok(end) => blank_end(c@, from as int) == Ok::<int, LexError>(end as int) && from <= end
                <= c.len(),
            Err(error) => blank_end(c@, from as int) == Err::<int, LexError>(error)
                && error.span.start <= c.len() && error.span.end <= c.len(),
        },
{
    let mut end: usize = from;
    while end < c.len()
        invariant
            from <= end <= c.len(),
            blank_end(c@, from as int) == blank_end(c@, end as int),
        decreases c.len() - end,
    {
        let here: char = c[end];
        if here == ' ' || here == '\t' || here == '\n' || here == '\r' {
            end += 1;
        } else if here == '/' && char_or_nul(c, end + 1) == '/' {
            end = skip_line(c, end + 2);
        } else if here == '/' && char_or_nul(c, end + 1) == '*' {
            match skip_comment(c, end + 2) {
                Some(next) => {
                    end = next;
                },
                None => {
                    return Err(
                        LexError {
                            kind: LexErrorKind::UnterminatedComment,
                            span: Span { start: end, end: c.len() },
                        },
                    );
                },
            }
        } else {
            return Ok(end);
        }
    }
    Ok(end)
}

fn operator_extent(c: &Vec<char>, i: usize) -> (length: usize)
    requires
        i < c.len(),
    ensures
        length == operator_length(c@, i as int),
        i + length <= c.len(),
{
    let first: char = c[i];
    let second: char = char_or_nul(c, i + 1);
    if (first == '<' || first == '>') && second == first {
        if char_or_nul(c, i + 2) == '=' {
            3
        } else {
            2
        }
    } else if (first == '&' || first == '|') && second == first {
        2
    } else if first == '<' || first == '>' || first == '=' || first == '!' || first == '+' || first
        == '-' || first == '*' || first == '/' || first == '%' || first == '&' || first == '|'
        || first == '^' {
        if second == '=' {
            2
        } else {
            1
        }
    } else if first == '@' || first == '#' || first == '?' || first == '~' {
        1
    } else {
        0
    }
}

/// The kind and the end of the token at `i`.
fn scan_token(c: &Vec<char>, i: usize) -> (result: Result<(TokenKind, usize), LexError>)
    requires
        i < c.len(),
    ensures
        match result {
            Ok((kind, end)) => lexeme_at(c@, i as int) == Ok::<Lexeme, LexError>(
                Lexeme { kind, start: i as int, end: end as int },
            ) && i < end <= c.len(),
            Err(error) => lexeme_at(c@, i as int) == Err::<Lexeme, LexError>(error)
                && error.span.start <= c.len() && error.span.end <= c.len(),
        },
{
    let first: char = c[i];
    let second: char = char_or_nul(c, i + 1);
    if starts_identifier(first) {
        return Ok((TokenKind::Identifier, skip_name(c, i + 1)));
    }
    if '0' <= first && first <= '9' {
        return Ok((TokenKind::Integer, skip_name(c, i + 1)));
    }
    if first == '\'' {
        if starts_identifier(second) && char_or_nul(c, i + 2) != '\'' {
            return Ok((TokenKind::Lifetime, skip_name(c, i + 1)));
        }
        return match skip_quoted(c, i + 1) {
            Some(quote) => Ok((TokenKind::Character, quote + 1)),
            None => Err(
                LexError {
                    kind: LexErrorKind::UnterminatedCharacter,
                    span: Span { start: i, end: c.len() },
                },
            ),
        };
    }
    if first == '(' {
        Ok((TokenKind::OpenParen, i + 1))
    } else if first == ')' {
        Ok((TokenKind::CloseParen, i + 1))
    } else if first == '{' {
        Ok((TokenKind::OpenBrace, i + 1))
    } else if first == '}' {
        Ok((TokenKind::CloseBrace, i + 1))
    } else if first == '[' {
        Ok((TokenKind::OpenBracket, i + 1))
    } else if first == ']' {
        Ok((TokenKind::CloseBracket, i + 1))
    } else if first == ',' {
        Ok((TokenKind::Comma, i + 1))
    } else if first == ';' {
        Ok((TokenKind::Semicolon, i + 1))
    } else if first == '.' {
        Ok((TokenKind::Dot, i + 1))
    } else if first == ':' {
        if second == ':' {
            Ok((TokenKind::PathSeparator, i + 2))
        } else {
            Ok((TokenKind::Colon, i + 1))
        }
    } else if first == '=' && second == '>' {
        Ok((TokenKind::FatArrow, i + 2))
    } else if first == '-' && second == '>' {
        Ok((TokenKind::Arrow, i + 2))
    } else {
        let length: usize = operator_extent(c, i);
        if length > 0 {
            Ok((TokenKind::Operator, i + length))
        } else {
            Err(
                LexError {
                    kind: LexErrorKind::UnexpectedCharacter,
                    span: Span { start: i, end: i + 1 },
                },
            )
        }
    }
}

fn error_in_bytes(offsets: &Vec<usize>, error: LexError) -> (result: LexError)
    requires
        error.span.start < offsets@.len(),
        error.span.end < offsets@.len(),
    ensures
        result == (LexError {
            kind: error.kind,
            span: Span {
                start: offsets@[error.span.start as int],
                end: offsets@[error.span.end as int],
            },
        }),
{
    LexError {
        kind: error.kind,
        span: Span { start: offsets[error.span.start], end: offsets[error.span.end] },
    }
}

/// How many bytes a text takes.
pub fn byte_length(source: &str) -> (length: usize)
    ensures
        length == bytes_before(source@, source@.len() as int),
{
    let bytes = source.as_bytes();
    proof {
        bytes_are_the_encoding(source@);
    }
    bytes.len()
}

/// Reads all tokens of `source` up to the first place where none can be read.
pub fn tokenize<'source>(source: &'source str) -> (result: (Vec<Token<'source>>, Option<LexError>))
    ensures
        tokens_show(result.0@, lexing(source@).lexemes, source@),
        result.1 == failure_in_bytes(source@, lexing(source@).failure),
{
    let c: Vec<char> = characters(source);
    let offsets: Vec<usize> = byte_offsets(source, &c);
    let mut tokens: Vec<Token<'source>> = Vec::new();
    let mut position: usize = 0;
    let ghost mut read: Seq<Lexeme> = seq![];
    proof {
        assert(read + lexing(c@).lexemes =~= lexing(c@).lexemes);
    }
    while position < c.len()
        invariant
            c@ == source@,
            position <= c.len(),
            offsets@.len() == c@.len() + 1,
            forall|k: int| 0 <= k <= c@.len() ==> #[trigger] offsets@[k] == bytes_before(c@, k),
            tokens_show(tokens@, read, c@),
            lexing(c@).lexemes == read + lexing_from(c@, position as int).lexemes,
            lexing(c@).failure == lexing_from(c@, position as int).failure,
        decreases c.len() - position,
    {
        let start: usize = match skip_blank(&c, position) {
            Ok(start) => start,
            Err(error) => {
                proof {
                    assert(read + Seq::<Lexeme>::empty() =~= read);
                }
                return (tokens, Some(error_in_bytes(&offsets, error)));
            },
        };
        if start == c.len() {
            proof {
                assert(read + Seq::<Lexeme>::empty() =~= read);
            }
            return (tokens, None);
        }
        match scan_token(&c, start) {
            Ok((kind, end)) => {
                let text: &'source str = source.substring_char(start, end);
                let token = Token {
                    kind,
                    text,
                    span: Span { start: offsets[start], end: offsets[end] },
                };
                proof {
                    let lexeme = Lexeme { kind, start: start as int, end: end as int };
                    assert(token_shows(token, lexeme, c@));
                    let rest = lexing_from(c@, end as int).lexemes;
                    assert(read + (seq![lexeme] + rest) =~= read.push(lexeme) + rest);
                    read = read.push(lexeme);
                }
                tokens.push(token);
                position = end;
            },
            Err(error) => {
                proof {
                    assert(read + Seq::<Lexeme>::empty() =~= read);
                }
                return (tokens, Some(error_in_bytes(&offsets, error)));
            },
        }
    }
    proof {
        assert(read + Seq::<Lexeme>::empty() =~= read);
    }
    (tokens, None)
}

} // verus!
