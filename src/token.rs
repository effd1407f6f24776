use vstd::prelude::*;

verus! {

/// The lexical categories of the language.
#[derive(Debug, Clone, Copy, PartialEq, Eq, Structural, Default)]
pub enum TokenKind {
    #[default]
    Illegal,
    EOF,
    // identifiers and literals
    Ident,
    Int,
    // operators
    Assign,
    Plus,
    Minus,
    Bang,
    Asterisk,
    Slash,
    // comparison
    Lt,
    Gt,
    Eq,
    NotEq,
    // delimiters
    Comma,
    Semicolon,
    LParen,
    RParen,
    LBrace,
    RBrace,
    // keywords
    Function,
    Let,
    True,
    False,
    If,
    Else,
    Return,
}

impl TokenKind {
    /// The canonical display form of a kind: its own spelling for operators,
    /// delimiters and keywords, its name for the other four.
    pub open spec fn spec_spelling(self) -> Seq<char> {
        match self {
            TokenKind::Illegal => "Illegal"@,
            TokenKind::EOF => "EOF"@,
            TokenKind::Ident => "Ident"@,
            TokenKind::Int => "Int"@,
            TokenKind::Assign => "="@,
            TokenKind::Plus => "+"@,
            TokenKind::Minus => "-"@,
            TokenKind::Bang => "!"@,
            TokenKind::Asterisk => "*"@,
            TokenKind::Slash => "/"@,
            TokenKind::Lt => "<"@,
            TokenKind::Gt => ">"@,
            TokenKind::Eq => "=="@,
            TokenKind::NotEq => "!="@,
            TokenKind::Comma => ","@,
            TokenKind::Semicolon => ";"@,
            TokenKind::LParen => "("@,
            TokenKind::RParen => ")"@,
            TokenKind::LBrace => "{"@,
            TokenKind::RBrace => "}"@,
            TokenKind::Function => "fn"@,
            TokenKind::Let => "let"@,
            TokenKind::True => "true"@,
            TokenKind::False => "false"@,
            TokenKind::If => "if"@,
            TokenKind::Else => "else"@,
            TokenKind::Return => "return"@,
        }
    }

    /// The display form of this kind, as used in diagnostics.
    pub fn spelling(&self) -> (r: String)
        ensures
            r@ == self.spec_spelling(),
    {
        match self {
            TokenKind::Illegal => String::from_str("Illegal"),
            TokenKind::EOF => String::from_str("EOF"),
            TokenKind::Ident => String::from_str("Ident"),
            TokenKind::Int => String::from_str("Int"),
            TokenKind::Assign => String::from_str("="),
            TokenKind::Plus => String::from_str("+"),
            TokenKind::Minus => String::from_str("-"),
            TokenKind::Bang => String::from_str("!"),
            TokenKind::Asterisk => String::from_str("*"),
            TokenKind::Slash => String::from_str("/"),
            TokenKind::Lt => String::from_str("<"),
            TokenKind::Gt => String::from_str(">"),
            TokenKind::Eq => String::from_str("=="),
            TokenKind::NotEq => String::from_str("!="),
            TokenKind::Comma => String::from_str(","),
            TokenKind::Semicolon => String::from_str(";"),
            TokenKind::LParen => String::from_str("("),
            TokenKind::RParen => String::from_str(")"),
            TokenKind::LBrace => String::from_str("{"),
            TokenKind::RBrace => String::from_str("}"),
            TokenKind::Function => String::from_str("fn"),
            TokenKind::Let => String::from_str("let"),
            TokenKind::True => String::from_str("true"),
            TokenKind::False => String::from_str("false"),
            TokenKind::If => String::from_str("if"),
            TokenKind::Else => String::from_str("else"),
            TokenKind::Return => String::from_str("return"),
        }
    }
}

/// The mathematical model of a token: its kind and the source text it
/// was read from.
pub struct Lexeme {
    pub kind: TokenKind,
    pub text: Seq<char>,
}

/// The token that marks the end of the input.
pub open spec fn eof_lexeme() -> Lexeme {
    Lexeme { kind: TokenKind::EOF, text: Seq::empty() }
}

/// The `k`-th token of a token sequence, read as going on with `EOF` forever.
pub open spec fn tok_at(ts: Seq<Lexeme>, k: int) -> Lexeme {
    if 0 <= k < ts.len() {
        ts[k]
    } else {
        eof_lexeme()
    }
}

/// A token: a lexical category and the exact source substring it covers.
#[derive(Debug, PartialEq, Default)]
pub struct Token {
    pub kind: TokenKind,
    pub literal: String,
}

impl View for Token {
    type V = Lexeme;

    open spec fn view(&self) -> Lexeme {
        Lexeme { kind: self.kind, text: self.literal@ }
    }
}

impl Clone for Token {
    fn clone(&self) -> (r: Token)
        ensures
            r@ == self@,
    {
        Token { kind: self.kind, literal: self.literal.clone() }
    }
}

/// The kind of an identifier-shaped word: its keyword kind when it is one of
/// the reserved words, `Ident` otherwise.
pub open spec fn keyword_kind(w: Seq<char>) -> TokenKind {
    if w == "fn"@ {
        TokenKind::Function
    } else if w == "let"@ {
        TokenKind::Let
    } else if w == "true"@ {
        TokenKind::True
    } else if w == "false"@ {
        TokenKind::False
    } else if w == "if"@ {
        TokenKind::If
    } else if w == "else"@ {
        TokenKind::Else
    } else if w == "return"@ {
        TokenKind::Return
    } else {
        TokenKind::Ident
    }
}

/// Whether two strings hold the same characters.
fn same_text(a: &str, b: &str) -> (r: bool)
    ensures
        r == (a@ == b@),
{
    let n = a.unicode_len();
    if n != b.unicode_len() {
        return false;
    }
    let mut i: usize = 0;
    while i < n
        invariant
            n == a@.len(),
            n == b@.len(),
            i <= n,
            a@.subrange(0, i as int) == b@.subrange(0, i as int),
        decreases n - i,
    {
        if a.get_char(i) != b.get_char(i) {
            assert(a@[i as int] != b@[i as int]);
            return false;
        }
        assert(a@.subrange(0, i + 1) == a@.subrange(0, i as int).push(a@[i as int]));
        assert(b@.subrange(0, i + 1) == b@.subrange(0, i as int).push(b@[i as int]));
        i = i + 1;
    }
    assert(a@ == a@.subrange(0, n as int));
    assert(b@ == b@.subrange(0, n as int));
    true
}

/// Classifies an identifier-shaped word as a keyword or a plain identifier.
pub fn lookup_ident(ident: &str) -> (r: TokenKind)
    ensures
        r == keyword_kind(ident@),
{
    if same_text(ident, "fn") {
        TokenKind::Function
    } else if same_text(ident, "let") {
        TokenKind::Let
    } else if same_text(ident, "true") {
        TokenKind::True
    } else if same_text(ident, "false") {
        TokenKind::False
    } else if same_text(ident, "if") {
        TokenKind::If
    } else if same_text(ident, "else") {
        TokenKind::Else
    } else if same_text(ident, "return") {
        TokenKind::Return
    } else {
        TokenKind::Ident
    }
}

} // verus!
