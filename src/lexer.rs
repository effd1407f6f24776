use crate::token::{eof_lexeme, keyword_kind, lookup_ident, tok_at, Lexeme, Token, TokenKind};
use vstd::prelude::*;

verus! {

broadcast use vstd::string::group_string_axioms;

/// The characters skipped between tokens: space, tab, newline and carriage return.
pub open spec fn is_space(c: char) -> bool {
    c == ' ' || c == '\t' || c == '\n' || c == '\r'
}

/// The characters that make up an identifier: ASCII letters and underscore.
pub open spec fn is_letter_char(c: char) -> bool {
    ('a' <= c && c <= 'z') || ('A' <= c && c <= 'Z') || c == '_'
}

/// The characters that make up an integer literal: ASCII digits.
pub open spec fn is_digit_char(c: char) -> bool {
    '0' <= c && c <= '9'
}

/// The character at `i`, or NUL past either end of the text.
pub open spec fn char_at(s: Seq<char>, i: int) -> char {
    if 0 <= i < s.len() {
        s[i]
    } else {
        '\0'
    }
}

/// The first position at or after `i` that holds no whitespace.
pub open spec fn skip_spaces(s: Seq<char>, i: int) -> int
    decreases s.len() - i,
{
    if 0 <= i < s.len() && is_space(s[i]) {
        skip_spaces(s, i + 1)
    } else {
        i
    }
}

/// The end of the run of identifier characters that starts at `i`.
pub open spec fn letters_end(s: Seq<char>, i: int) -> int
    decreases s.len() - i,
{
    if 0 <= i < s.len() && is_letter_char(s[i]) {
        letters_end(s, i + 1)
    } else {
        i
    }
}

/// The end of the run of digits that starts at `i`.
pub open spec fn digits_end(s: Seq<char>, i: int) -> int
    decreases s.len() - i,
{
    if 0 <= i < s.len() && is_digit_char(s[i]) {
        digits_end(s, i + 1)
    } else {
        i
    }
}

/// The kind of a token made of the single character `c`.
pub open spec fn char_kind(c: char) -> TokenKind {
    if c == '=' {
        TokenKind::Assign
    } else if c == '!' {
        TokenKind::Bang
    } else if c == ';' {
        TokenKind::Semicolon
    } else if c == '(' {
        TokenKind::LParen
    } else if c == ')' {
        TokenKind::RParen
    } else if c == ',' {
        TokenKind::Comma
    } else if c == '+' {
        TokenKind::Plus
    } else if c == '{' {
        TokenKind::LBrace
    } else if c == '}' {
        TokenKind::RBrace
    } else if c == '-' {
        TokenKind::Minus
    } else if c == '/' {
        TokenKind::Slash
    } else if c == '*' {
        TokenKind::Asterisk
    } else if c == '<' {
        TokenKind::Lt
    } else if c == '>' {
        TokenKind::Gt
    } else {
        TokenKind::Illegal
    }
}

/// One step of lexing from position `i`: the kind of the next token, where
/// its text starts and where it ends. The text is `s[start..end]`, and
/// lexing goes on at `end`. At the end of the text the token is `EOF`,
/// empty, and the position stays where it is.
pub open spec fn scan(s: Seq<char>, i: int) -> (TokenKind, int, int) {
    let j = skip_spaces(s, i);
    if j >= s.len() {
        (TokenKind::EOF, j, j)
    } else if s[j] == '=' && char_at(s, j + 1) == '=' {
        (TokenKind::Eq, j, j + 2)
    } else if s[j] == '!' && char_at(s, j + 1) == '=' {
        (TokenKind::NotEq, j, j + 2)
    } else if is_letter_char(s[j]) {
        let e = letters_end(s, j);
        (keyword_kind(s.subrange(j, e)), j, e)
    } else if is_digit_char(s[j]) {
        (TokenKind::Int, j, digits_end(s, j))
    } else {
        (char_kind(s[j]), j, j + 1)
    }
}

/// The token that lexing from position `i` yields.
pub open spec fn lexeme_at(s: Seq<char>, i: int) -> Lexeme {
    let (kind, start, end) = scan(s, i);
    Lexeme { kind, text: s.subrange(start, end) }
}

/// The position at which lexing goes on after the token at `i`.
pub open spec fn next_pos(s: Seq<char>, i: int) -> int {
    scan(s, i).2
}

/// Every token that lexing from position `i` yields, up to and including
/// the first `EOF`.
pub open spec fn tokens_from(s: Seq<char>, i: int) -> Seq<Lexeme>
    decreases s.len() - i,
    when 0 <= i <= s.len()
{
    proof {
        lemma_scan_bounds(s, i);
    }
    let t = lexeme_at(s, i);
    if t.kind == TokenKind::EOF {
        seq![t]
    } else {
        seq![t] + tokens_from(s, next_pos(s, i))
    }
}

/// The token stream from `i` starts with the token at `i`, and the stream
/// from the position after it is the rest, `EOF` included.
pub proof fn lemma_tokens_step(s: Seq<char>, i: int)
    requires
        0 <= i <= s.len(),
    ensures
        tokens_from(s, i).len() > 0,
        tokens_from(s, i)[0] == lexeme_at(s, i),
        0 <= next_pos(s, i) <= s.len(),
        forall|m: int|
            0 <= m ==> #[trigger] tok_at(tokens_from(s, next_pos(s, i)), m) == tok_at(
                tokens_from(s, i),
                m + 1,
            ),
{
    lemma_scan_bounds(s, i);
    let j = next_pos(s, i);
    let t = lexeme_at(s, i);
    if t.kind == TokenKind::EOF {
        lemma_eof_is_final(s, i);
        assert(tokens_from(s, j) == seq![t]);
        assert(t == eof_lexeme());
        assert forall|m: int| 0 <= m implies #[trigger] tok_at(tokens_from(s, j), m) == tok_at(
            tokens_from(s, i),
            m + 1,
        ) by {
            if m == 0 {
                assert(tok_at(tokens_from(s, j), m) == t);
            }
        }
    } else {
        assert(tokens_from(s, i) == seq![t] + tokens_from(s, j));
    }
}

/// The token stream ends with its only `EOF`.
pub proof fn lemma_tokens_shape(s: Seq<char>, i: int)
    requires
        0 <= i <= s.len(),
    ensures
        tokens_from(s, i).len() > 0,
        tokens_from(s, i).last().kind == TokenKind::EOF,
        forall|j: int|
            0 <= j < tokens_from(s, i).len() - 1 ==> #[trigger] tokens_from(s, i)[j].kind
                != TokenKind::EOF,
    decreases s.len() - i,
{
    lemma_scan_bounds(s, i);
    let t = lexeme_at(s, i);
    if t.kind != TokenKind::EOF {
        let j = next_pos(s, i);
        lemma_tokens_shape(s, j);
        let ts = tokens_from(s, i);
        assert(ts == seq![t] + tokens_from(s, j));
        assert forall|k: int| 0 <= k < ts.len() - 1 implies #[trigger] ts[k].kind
            != TokenKind::EOF by {
            if k > 0 {
                assert(ts[k] == tokens_from(s, j)[k - 1]);
            }
        }
    }
}

/// A keyword token's literal is the keyword itself.
pub proof fn lemma_keyword_text(s: Seq<char>, i: int)
    requires
        0 <= i <= s.len(),
    ensures
        lexeme_at(s, i).kind == TokenKind::Let ==> lexeme_at(s, i).text == "let"@,
        lexeme_at(s, i).kind == TokenKind::Return ==> lexeme_at(s, i).text == "return"@,
{
}

/// Once lexing yields `EOF`, it stays at the end of the text and yields
/// `EOF`, with an empty literal, on every later step.
pub proof fn lemma_eof_is_final(s: Seq<char>, i: int)
    requires
        0 <= i <= s.len(),
        lexeme_at(s, i).kind == TokenKind::EOF,
    ensures
        lexeme_at(s, i) == eof_lexeme(),
        next_pos(s, i) == s.len(),
        lexeme_at(s, next_pos(s, i)) == eof_lexeme(),
        next_pos(s, next_pos(s, i)) == next_pos(s, i),
{
    lemma_scan_bounds(s, i);
    lemma_scan_bounds(s, s.len() as int);
    assert(lexeme_at(s, i).text =~= Seq::<char>::empty());
    assert(lexeme_at(s, s.len() as int).text =~= Seq::<char>::empty());
}

/// `==` and `!=` each come out as one token of two characters; a `=` or `!`
/// that no `=` follows comes out alone, and lexing goes on at the very next
/// character.
pub proof fn lemma_two_char_operators(s: Seq<char>, i: int)
    requires
        0 <= i <= s.len(),
    ensures
        ({
            let j = skip_spaces(s, i);
            let t = lexeme_at(s, i);
            &&& j < s.len() && s[j] == '=' && char_at(s, j + 1) == '=' ==> t == (Lexeme {
                kind: TokenKind::Eq,
                text: seq!['=', '='],
            }) && next_pos(s, i) == j + 2
            &&& j < s.len() && s[j] == '!' && char_at(s, j + 1) == '=' ==> t == (Lexeme {
                kind: TokenKind::NotEq,
                text: seq!['!', '='],
            }) && next_pos(s, i) == j + 2
            &&& j < s.len() && s[j] == '=' && char_at(s, j + 1) != '=' ==> t == (Lexeme {
                kind: TokenKind::Assign,
                text: seq!['='],
            }) && next_pos(s, i) == j + 1
            &&& j < s.len() && s[j] == '!' && char_at(s, j + 1) != '=' ==> t == (Lexeme {
                kind: TokenKind::Bang,
                text: seq!['!'],
            }) && next_pos(s, i) == j + 1
        }),
{
    let j = skip_spaces(s, i);
    lemma_scan_bounds(s, i);
    if j < s.len() && (s[j] == '=' || s[j] == '!') {
        if char_at(s, j + 1) == '=' {
            assert(lexeme_at(s, i).text =~= seq![s[j], '=']);
        } else {
            assert(lexeme_at(s, i).text =~= seq![s[j]]);
        }
    }
}

proof fn lemma_skip_spaces_bounds(s: Seq<char>, i: int)
    requires
        0 <= i <= s.len(),
    ensures
        i <= skip_spaces(s, i) <= s.len(),
    decreases s.len() - i,
{
    if i < s.len() && is_space(s[i]) {
        lemma_skip_spaces_bounds(s, i + 1);
    }
}

proof fn lemma_letters_end_bounds(s: Seq<char>, i: int)
    requires
        0 <= i <= s.len(),
    ensures
        i <= letters_end(s, i) <= s.len(),
    decreases s.len() - i,
{
    if i < s.len() && is_letter_char(s[i]) {
        lemma_letters_end_bounds(s, i + 1);
    }
}

proof fn lemma_digits_end_bounds(s: Seq<char>, i: int)
    requires
        0 <= i <= s.len(),
    ensures
        i <= digits_end(s, i) <= s.len(),
    decreases s.len() - i,
{
    if i < s.len() && is_digit_char(s[i]) {
        lemma_digits_end_bounds(s, i + 1);
    }
}

/// Lexing never moves backwards nor past the end of the text; a token other
/// than `EOF` covers at least one character, and `EOF` comes exactly when
/// only whitespace is left.
pub proof fn lemma_scan_bounds(s: Seq<char>, i: int)
    requires
        0 <= i <= s.len(),
    ensures
        i <= scan(s, i).1 <= scan(s, i).2 <= s.len(),
        scan(s, i).0 == TokenKind::EOF <==> scan(s, i).1 == s.len(),
        scan(s, i).0 == TokenKind::EOF ==> scan(s, i).2 == s.len(),
        scan(s, i).0 != TokenKind::EOF ==> scan(s, i).1 < scan(s, i).2,
{
    let j = skip_spaces(s, i);
    lemma_skip_spaces_bounds(s, i);
    if j < s.len() {
        lemma_letters_end_bounds(s, j);
        lemma_digits_end_bounds(s, j);
        if is_letter_char(s[j]) {
            assert(letters_end(s, j) == letters_end(s, j + 1));
            lemma_letters_end_bounds(s, j + 1);
            let w = s.subrange(j, letters_end(s, j));
            assert(keyword_kind(w) != TokenKind::EOF);
        } else if is_digit_char(s[j]) {
            lemma_digits_end_bounds(s, j + 1);
        }
    }
}

/// Relies on `String::push`: appends the character to the end of the string.
#[verifier::external_body]
fn push_char(s: &mut String, c: char)
    ensures
        final(s)@ == old(s)@.push(c),
{
    s.push(c);
}

/// A cursor over the characters of a source text. `ch` is the character at
/// `position`, or NUL once the cursor has passed the last character; the end
/// of the text is told by the position, so a NUL inside the text is read as
/// an ordinary (illegal) character.
pub struct Lexer {
    input: Vec<char>,
    position: usize,
    ch: char,
}

impl Lexer {
    /// The text being lexed.
    pub closed spec fn text(&self) -> Seq<char> {
        self.input@
    }

    /// The position of the character under examination.
    pub closed spec fn pos(&self) -> int {
        self.position as int
    }

    /// The tokens that this lexer will yield, up to and including `EOF`.
    pub open spec fn pending(&self) -> Seq<Lexeme> {
        tokens_from(self.text(), self.pos())
    }

    /// The cursor lies within the text, and `ch` is the character under it.
    pub closed spec fn wf(&self) -> bool {
        &&& self.position <= self.input.len()
        &&& self.ch == char_at(self.input@, self.position as int)
    }

    /// A lexer positioned at the first character of `input`.
    pub fn new(input: &str) -> (r: Lexer)
        ensures
            r.wf(),
            r.text() == input@,
            r.pos() == 0,
            r.pending() == tokens_from(input@, 0),
    {
        let mut chars: Vec<char> = Vec::new();
        for c in it: input.chars()
            invariant
                chars@ == it.seq().take(it.index()),
        {
            chars.push(c);
        }
        assert(chars@ == input@);
        let ch = if chars.len() == 0 { '\0' } else { chars[0] };
        Lexer { input: chars, position: 0, ch }
    }

    /// Reads the next token and moves past it. Whitespace before it is
    /// skipped; at the end of the text the token is `EOF` and the lexer stays
    /// where it is, so every later call yields `EOF` again.
    #[verifier::rlimit(30)]
    pub fn next_token(&mut self) -> (r: Token)
        requires
            old(self).wf(),
        ensures
            final(self).wf(),
            final(self).text() == old(self).text(),
            r@ == lexeme_at(old(self).text(), old(self).pos()),
            final(self).pos() == next_pos(old(self).text(), old(self).pos()),
            r@ == tok_at(old(self).pending(), 0),
            forall|m: int|
                0 <= m ==> #[trigger] tok_at(final(self).pending(), m) == tok_at(
                    old(self).pending(),
                    m + 1,
                ),
    {
        let ghost s = self.text();
        proof {
            lemma_scan_bounds(s, self.pos());
            lemma_tokens_step(s, self.pos());
        }
        self.skip_whitespace();
        let ghost j = self.pos();
        if self.position >= self.input.len() {
            let literal = String::new();
            assert(literal@ =~= s.subrange(j, j));
            return Token { kind: TokenKind::EOF, literal };
        }
        assert(self.ch == s[j]);
        let token = match self.ch {
            '=' => {
                if self.peek_char() == '=' {
                    self.read_char();
                    let literal = String::from_str("==");
                    proof {
                        reveal_strlit("==");
                        assert(literal@ =~= s.subrange(j, j + 2));
                    }
                    Token { kind: TokenKind::Eq, literal }
                } else {
                    Lexer::new_token(TokenKind::Assign, self.ch)
                }
            },
            '!' => {
                if self.peek_char() == '=' {
                    self.read_char();
                    let literal = String::from_str("!=");
                    proof {
                        reveal_strlit("!=");
                        assert(literal@ =~= s.subrange(j, j + 2));
                    }
                    Token { kind: TokenKind::NotEq, literal }
                } else {
                    Lexer::new_token(TokenKind::Bang, self.ch)
                }
            },
            ';' => Lexer::new_token(TokenKind::Semicolon, self.ch),
            '(' => Lexer::new_token(TokenKind::LParen, self.ch),
            ')' => Lexer::new_token(TokenKind::RParen, self.ch),
            ',' => Lexer::new_token(TokenKind::Comma, self.ch),
            '+' => Lexer::new_token(TokenKind::Plus, self.ch),
            '{' => Lexer::new_token(TokenKind::LBrace, self.ch),
            '}' => Lexer::new_token(TokenKind::RBrace, self.ch),
            '-' => Lexer::new_token(TokenKind::Minus, self.ch),
            '/' => Lexer::new_token(TokenKind::Slash, self.ch),
            '*' => Lexer::new_token(TokenKind::Asterisk, self.ch),
            '<' => Lexer::new_token(TokenKind::Lt, self.ch),
            '>' => Lexer::new_token(TokenKind::Gt, self.ch),
            _ => {
                if Lexer::is_letter(self.ch) {
                    let literal = self.read_identifier();
                    let kind = lookup_ident(literal.as_str());
                    return Token { kind, literal };
                } else if Lexer::is_digit(self.ch) {
                    let literal = self.read_number();
                    return Token { kind: TokenKind::Int, literal };
                } else {
                    Lexer::new_token(TokenKind::Illegal, self.ch)
                }
            },
        };
        assert(token@.text =~= s.subrange(j, self.pos() + 1));
        self.read_char();
        token
    }

    /// Moves the cursor to the next character.
    fn read_char(&mut self)
        requires
            old(self).wf(),
            old(self).pos() < old(self).text().len(),
        ensures
            final(self).wf(),
            final(self).text() == old(self).text(),
            final(self).pos() == old(self).pos() + 1,
    {
        self.position = self.position + 1;
        if self.position >= self.input.len() {
            self.ch = '\0';
        } else {
            self.ch = self.input[self.position];
        }
    }

    /// The character after the current one, or NUL at the end of the text.
    fn peek_char(&self) -> (r: char)
        requires
            self.wf(),
            self.pos() < self.text().len(),
        ensures
            r == char_at(self.text(), self.pos() + 1),
    {
        if self.position + 1 >= self.input.len() {
            '\0'
        } else {
            self.input[self.position + 1]
        }
    }

    /// Moves past the whitespace under the cursor.
    fn skip_whitespace(&mut self)
        requires
            old(self).wf(),
        ensures
            final(self).wf(),
            final(self).text() == old(self).text(),
            final(self).pos() == skip_spaces(old(self).text(), old(self).pos()),
    {
        while Lexer::is_whitespace(self.ch)
            invariant
                self.wf(),
                self.text() == old(self).text(),
                skip_spaces(self.text(), self.pos()) == skip_spaces(
                    self.text(),
                    old(self).pos(),
                ),
            decreases self.text().len() - self.pos(),
        {
            self.read_char();
        }
    }

    /// Reads the run of identifier characters under the cursor.
    fn read_identifier(&mut self) -> (r: String)
        requires
            old(self).wf(),
        ensures
            final(self).wf(),
            final(self).text() == old(self).text(),
            final(self).pos() == letters_end(old(self).text(), old(self).pos()),
            r@ == old(self).text().subrange(old(self).pos(), final(self).pos()),
    {
        let ghost start = self.pos();
        let mut identifier = String::new();
        while Lexer::is_letter(self.ch)
            invariant
                self.wf(),
                self.text() == old(self).text(),
                0 <= start <= self.pos(),
                letters_end(self.text(), self.pos()) == letters_end(self.text(), start),
                identifier@ == self.text().subrange(start, self.pos()),
            decreases self.text().len() - self.pos(),
        {
            push_char(&mut identifier, self.ch);
            self.read_char();
            assert(identifier@ =~= self.text().subrange(start, self.pos()));
        }
        identifier
    }

    /// Reads the run of digits under the cursor.
    fn read_number(&mut self) -> (r: String)
        requires
            old(self).wf(),
        ensures
            final(self).wf(),
            final(self).text() == old(self).text(),
            final(self).pos() == digits_end(old(self).text(), old(self).pos()),
            r@ == old(self).text().subrange(old(self).pos(), final(self).pos()),
    {
        let ghost start = self.pos();
        let mut number = String::new();
        while Lexer::is_digit(self.ch)
            invariant
                self.wf(),
                self.text() == old(self).text(),
                0 <= start <= self.pos(),
                digits_end(self.text(), self.pos()) == digits_end(self.text(), start),
                number@ == self.text().subrange(start, self.pos()),
            decreases self.text().len() - self.pos(),
        {
            push_char(&mut number, self.ch);
            self.read_char();
            assert(number@ =~= self.text().subrange(start, self.pos()));
        }
        number
    }

    fn is_whitespace(ch: char) -> (r: bool)
        ensures
            r == is_space(ch),
    {
        ch == ' ' || ch == '\t' || ch == '\n' || ch == '\r'
    }

    fn is_digit(ch: char) -> (r: bool)
        ensures
            r == is_digit_char(ch),
    {
        '0' <= ch && ch <= '9'
    }

    fn is_letter(ch: char) -> (r: bool)
        ensures
            r == is_letter_char(ch),
    {
        Lexer::is_alphabetic(ch) || ch == '_'
    }

    fn is_alphabetic(ch: char) -> (r: bool)
        ensures
            r == (('a' <= ch && ch <= 'z') || ('A' <= ch && ch <= 'Z')),
    {
        'a' <= ch && ch <= 'z' || 'A' <= ch && ch <= 'Z'
    }

    /// A token of one character.
    fn new_token(kind: TokenKind, ch: char) -> (r: Token)
        ensures
            r@ == (Lexeme { kind, text: seq![ch] }),
    {
        let mut literal = String::new();
        push_char(&mut literal, ch);
        assert(literal@ == seq![ch]);
        Token { kind, literal }
    }
}

} // verus!
