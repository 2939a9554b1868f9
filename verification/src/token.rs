use vstd::prelude::*;

verus! {

/// One lexical token.  Identifier names are kept as the bytes of the source;
/// a number token carries its already-decoded value.
#[derive(Debug, PartialEq)]
pub enum Token {
    Identifier(Vec<u8>),
    Number(i64),

    If,
    Fn,
    Return,
    Let,

    OpeningParen,
    ClosingParen,
    OpeningCurly,
    ClosingCurly,

    Colon,
    SemiColon,
    Comma,

    Plus,
    Minus,
    Star,
    Slash,
    Equals,
    ExclamationMark,
    QuestionMark,
}

/// The mathematical shape of a token: identifier bytes as a sequence.
pub enum TokenModel {
    Identifier(Seq<u8>),
    Number(i64),
    If,
    Fn,
    Return,
    Let,
    OpeningParen,
    ClosingParen,
    OpeningCurly,
    ClosingCurly,
    Colon,
    SemiColon,
    Comma,
    Plus,
    Minus,
    Star,
    Slash,
    Equals,
    ExclamationMark,
    QuestionMark,
}

impl View for Token {
    type V = TokenModel;

    open spec fn view(&self) -> TokenModel {
        match *self {
            Token::Identifier(ref name) => TokenModel::Identifier(name@),
            Token::Number(n) => TokenModel::Number(n),
            Token::If => TokenModel::If,
            Token::Fn => TokenModel::Fn,
            Token::Return => TokenModel::Return,
            Token::Let => TokenModel::Let,
            Token::OpeningParen => TokenModel::OpeningParen,
            Token::ClosingParen => TokenModel::ClosingParen,
            Token::OpeningCurly => TokenModel::OpeningCurly,
            Token::ClosingCurly => TokenModel::ClosingCurly,
            Token::Colon => TokenModel::Colon,
            Token::SemiColon => TokenModel::SemiColon,
            Token::Comma => TokenModel::Comma,
            Token::Plus => TokenModel::Plus,
            Token::Minus => TokenModel::Minus,
            Token::Star => TokenModel::Star,
            Token::Slash => TokenModel::Slash,
            Token::Equals => TokenModel::Equals,
            Token::ExclamationMark => TokenModel::ExclamationMark,
            Token::QuestionMark => TokenModel::QuestionMark,
        }
    }
}

impl Token {
    /// True of the five tokens that may begin a binary operator.
    pub open spec fn is_operator_token(self) -> bool {
        self is Plus || self is Minus || self is Star || self is Slash || self is Equals
    }

    /// The binding strength the tokenizer would give an operator token.
    /// Note the lowering path goes by `Operator::precedence` instead, which
    /// rates comparison above assignment; this table has no tier for it.
    pub open spec fn precedence_spec(self) -> u8 {
        match self {
            Token::Plus => 2,
            Token::Minus => 2,
            Token::Star => 3,
            Token::Slash => 3,
            _ => 1,
        }
    }

    pub fn precedence(&self) -> (r: u8)
        requires self.is_operator_token(),
        ensures r == self.precedence_spec(),
    {
        match *self {
            Token::Plus => 2,
            Token::Minus => 2,
            Token::Star => 3,
            Token::Slash => 3,
            _ => 1,
        }
    }
}

} // verus!
