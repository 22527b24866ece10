//! Tokens of the build engine's statement syntax.
//!
//! Every token made here is synthetic: it has no place in any source file,
//! so it carries a fixed sentinel location, which the engine accepts.

use vstd::prelude::*;

verus! {

/// Line stamped on every synthetic token.
pub const SENTINEL_LINE: i32 = 42;

/// Column stamped on every synthetic token.
pub const SENTINEL_COLUMN: i32 = 42;

/// The token classes that synthetic statements are made of.
#[derive(Clone, Copy, Debug, PartialEq, Eq)]
pub enum TokenKind {
    Identifier,
    StringLiteral,
    Equal,
    TrueToken,
    FalseToken,
    LeftBrace,
    RightBrace,
}

/// One token: its class, its text as the engine reads it, and its location stamp.
#[derive(Clone, Debug, PartialEq, Eq)]
pub struct Token {
    pub kind: TokenKind,
    pub text: String,
    pub line: i32,
    pub column: i32,
}

/// The mathematical value of a [`Token`].
pub struct TokenModel {
    pub kind: TokenKind,
    pub text: Seq<char>,
    pub line: int,
    pub column: int,
}

impl View for Token {
    type V = TokenModel;

    open spec fn view(&self) -> TokenModel {
        TokenModel {
            kind: self.kind,
            text: self.text@,
            line: self.line as int,
            column: self.column as int,
        }
    }
}

/// The quote character that delimits a string literal.
pub open spec fn quote_mark() -> char {
    '"'
}

/// A string's content between two quote marks, with nothing escaped:
/// a quote mark inside the content stays as it is.
pub open spec fn quoted(content: Seq<char>) -> Seq<char> {
    seq![quote_mark()] + content + seq![quote_mark()]
}

/// A token of the given class and text at the sentinel location.
pub open spec fn synthetic_token(kind: TokenKind, text: Seq<char>) -> TokenModel {
    TokenModel { kind, text, line: SENTINEL_LINE as int, column: SENTINEL_COLUMN as int }
}

/// The identifier token that spells `name`.
pub open spec fn identifier_token(name: Seq<char>) -> TokenModel {
    synthetic_token(TokenKind::Identifier, name)
}

/// The string-literal token whose text is `content` re-quoted.
pub open spec fn string_token(content: Seq<char>) -> TokenModel {
    synthetic_token(TokenKind::StringLiteral, quoted(content))
}

/// The literal token for a boolean.
pub open spec fn boolean_token(value: bool) -> TokenModel {
    if value {
        synthetic_token(TokenKind::TrueToken, "true"@)
    } else {
        synthetic_token(TokenKind::FalseToken, "false"@)
    }
}

/// The assignment operator.
pub open spec fn equal_token() -> TokenModel {
    synthetic_token(TokenKind::Equal, "="@)
}

/// The token that opens a block.
pub open spec fn left_brace_token() -> TokenModel {
    synthetic_token(TokenKind::LeftBrace, "{"@)
}

/// The token that closes a block.
pub open spec fn right_brace_token() -> TokenModel {
    synthetic_token(TokenKind::RightBrace, "}"@)
}

/// Re-quotes `content` exactly: a quote mark, the content unchanged, a quote mark.
pub fn quote(content: &str) -> (out: String)
    ensures
        out@ == quoted(content@),
{
    let mut out = String::from_str("\"");
    proof {
        reveal_strlit("\"");
    }
    out.append(content);
    out.append("\"");
    out
}

impl Token {
    /// Makes a token of the given class and text at the sentinel location.
    pub fn synthetic(kind: TokenKind, text: String) -> (token: Token)
        ensures
            token@ == synthetic_token(kind, text@),
    {
        Token { kind, text, line: SENTINEL_LINE, column: SENTINEL_COLUMN }
    }

    /// Makes the identifier token that spells `name`.
    pub fn identifier(name: &str) -> (token: Token)
        ensures
            token@ == identifier_token(name@),
    {
        Token::synthetic(TokenKind::Identifier, String::from_str(name))
    }

    /// Makes the string-literal token for `content`, re-quoted.
    pub fn string_literal(content: &str) -> (token: Token)
        ensures
            token@ == string_token(content@),
    {
        Token::synthetic(TokenKind::StringLiteral, quote(content))
    }

    /// Makes the literal token for a boolean.
    pub fn boolean(value: bool) -> (token: Token)
        ensures
            token@ == boolean_token(value),
    {
        if value {
            Token::synthetic(TokenKind::TrueToken, String::from_str("true"))
        } else {
            Token::synthetic(TokenKind::FalseToken, String::from_str("false"))
        }
    }

    /// Makes the assignment operator.
    pub fn equal() -> (token: Token)
        ensures
            token@ == equal_token(),
    {
        Token::synthetic(TokenKind::Equal, String::from_str("="))
    }

    /// Makes the token that opens a block.
    pub fn left_brace() -> (token: Token)
        ensures
            token@ == left_brace_token(),
    {
        Token::synthetic(TokenKind::LeftBrace, String::from_str("{"))
    }

    /// Makes the token that closes a block.
    pub fn right_brace() -> (token: Token)
        ensures
            token@ == right_brace_token(),
    {
        Token::synthetic(TokenKind::RightBrace, String::from_str("}"))
    }
}

} // verus!
