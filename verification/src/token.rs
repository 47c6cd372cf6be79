use vstd::prelude::*;

verus! {

/// A lexical token.
#[derive(Clone, Debug, PartialEq, Eq)]
pub enum Token {
    Ident(String),
    Int(i32),
    Str(String),
    NoneLit,
    True,
    False,
    If,
    Else,
    While,
    For,
    In,
    Break,
    Continue,
    Def,
    Return,
    Assert,
    Class,
    Plus,
    Eq,
    EqEq,
    Lt,
    LParen,
    RParen,
    LBracket,
    RBracket,
    LBrace,
    RBrace,
    Colon,
    Comma,
    Dot,
    NewLine,
    Indent,
    Dedent,
    EOF,
}

/// A number that tells the variants of [`Token`] apart.
pub open spec fn spec_tag(t: Token) -> int {
    match t {
        Token::Ident(_) => 0,
        Token::Int(_) => 1,
        Token::Str(_) => 2,
        Token::NoneLit => 3,
        Token::True => 4,
        Token::False => 5,
        Token::If => 6,
        Token::Else => 7,
        Token::While => 8,
        Token::For => 9,
        Token::In => 10,
        Token::Break => 11,
        Token::Continue => 12,
        Token::Def => 13,
        Token::Return => 14,
        Token::Assert => 15,
        Token::Class => 16,
        Token::Plus => 17,
        Token::Eq => 18,
        Token::EqEq => 19,
        Token::Lt => 20,
        Token::LParen => 21,
        Token::RParen => 22,
        Token::LBracket => 23,
        Token::RBracket => 24,
        Token::LBrace => 25,
        Token::RBrace => 26,
        Token::Colon => 27,
        Token::Comma => 28,
        Token::Dot => 29,
        Token::NewLine => 30,
        Token::Indent => 31,
        Token::Dedent => 32,
        Token::EOF => 33,
    }
}

/// The number of the variant of the token `t`.
pub fn tag(t: &Token) -> (n: u8)
    ensures
        n == spec_tag(*t),
{
    match t {
        Token::Ident(_) => 0,
        Token::Int(_) => 1,
        Token::Str(_) => 2,
        Token::NoneLit => 3,
        Token::True => 4,
        Token::False => 5,
        Token::If => 6,
        Token::Else => 7,
        Token::While => 8,
        Token::For => 9,
        Token::In => 10,
        Token::Break => 11,
        Token::Continue => 12,
        Token::Def => 13,
        Token::Return => 14,
        Token::Assert => 15,
        Token::Class => 16,
        Token::Plus => 17,
        Token::Eq => 18,
        Token::EqEq => 19,
        Token::Lt => 20,
        Token::LParen => 21,
        Token::RParen => 22,
        Token::LBracket => 23,
        Token::RBracket => 24,
        Token::LBrace => 25,
        Token::RBrace => 26,
        Token::Colon => 27,
        Token::Comma => 28,
        Token::Dot => 29,
        Token::NewLine => 30,
        Token::Indent => 31,
        Token::Dedent => 32,
        Token::EOF => 33,
    }
}

/// A token as plain values: the number of its variant, the text of an
/// identifier or a string literal, and the value of an integer literal.
pub struct TokView {
    pub tag: int,
    pub text: Seq<char>,
    pub num: int,
}

/// The token `t` as plain values.
pub open spec fn tok_view(t: Token) -> TokView {
    TokView {
        tag: spec_tag(t),
        text: match t {
            Token::Ident(s) => s@,
            Token::Str(s) => s@,
            _ => Seq::empty(),
        },
        num: match t {
            Token::Int(i) => i as int,
            _ => 0,
        },
    }
}

/// The tokens `ts` as plain values.
pub open spec fn toks_view(ts: Seq<Token>) -> Seq<TokView> {
    Seq::new(ts.len(), |i: int| tok_view(ts[i]))
}

/// A token without text or value.
pub open spec fn plain_tok(tag: int) -> TokView {
    TokView { tag: tag, text: Seq::empty(), num: 0 }
}

} // verus!
