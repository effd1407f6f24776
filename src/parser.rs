use crate::ast::{
    Identifier, IdentifierModel, LetModel, LetStatement, Program, ReturnModel, ReturnStatement,
    StatementModel, StatementNode,
};
use crate::lexer::{lemma_keyword_text, lemma_tokens_shape, lemma_tokens_step, tokens_from, Lexer};
use crate::token::{tok_at, Lexeme, Token, TokenKind};
use vstd::prelude::*;

verus! {

/// The diagnostic recorded when the token after the current one is not of
/// the kind that the grammar requires there.
pub open spec fn peek_error_text(expected: TokenKind, found: TokenKind) -> Seq<char> {
    "expected next token to be "@ + expected.spec_spelling() + ", got "@ + found.spec_spelling()
        + " instead"@
}

/// The first index at or after `k` that holds `;` or `EOF`.
pub open spec fn skip_to_semicolon(ts: Seq<Lexeme>, k: int) -> int
    decreases ts.len() - k,
{
    if 0 <= k < ts.len() && ts[k].kind != TokenKind::Semicolon && ts[k].kind
        != TokenKind::EOF {
        skip_to_semicolon(ts, k + 1)
    } else {
        k
    }
}

/// One statement parsed from index `k` of a token stream: the node, if one
/// is made, the diagnostics recorded, and the index of the token that the
/// parser stands on afterwards.
pub open spec fn parse_statement_at(ts: Seq<Lexeme>, k: int) -> (
    Option<StatementModel>,
    Seq<Seq<char>>,
    int,
) {
    let cur = tok_at(ts, k);
    if cur.kind == TokenKind::Let {
        let name = tok_at(ts, k + 1);
        if name.kind != TokenKind::Ident {
            (None, seq![peek_error_text(TokenKind::Ident, name.kind)], k)
        } else if tok_at(ts, k + 2).kind != TokenKind::Assign {
            (None, seq![peek_error_text(TokenKind::Assign, tok_at(ts, k + 2).kind)], k + 1)
        } else {
            let stmt = LetModel {
                token: cur,
                name: IdentifierModel { token: name, value: name.text },
                value: None,
            };
            (Some(StatementModel::Let(stmt)), seq![], skip_to_semicolon(ts, k + 3))
        }
    } else if cur.kind == TokenKind::Return {
        let stmt = ReturnModel { token: cur, value: None };
        (Some(StatementModel::Return(stmt)), seq![], skip_to_semicolon(ts, k + 1))
    } else {
        (None, seq![], k)
    }
}

/// A whole program parsed from index `k` of a token stream, up to `EOF`:
/// the statements made, in order, and the diagnostics recorded.
pub open spec fn parse_all(ts: Seq<Lexeme>, k: int) -> (Seq<StatementModel>, Seq<Seq<char>>)
    decreases ts.len() - k,
{
    if k < 0 || k >= ts.len() || ts[k].kind == TokenKind::EOF {
        (seq![], seq![])
    } else {
        let (stmt, diags, e) = parse_statement_at(ts, k);
        let (rest, more) = if k <= e && e + 1 <= ts.len() {
            parse_all(ts, e + 1)
        } else {
            (seq![], seq![])
        };
        let stmts = match stmt {
            Some(st) => seq![st] + rest,
            None => rest,
        };
        (stmts, diags + more)
    }
}

/// The model of an optional statement node.
pub open spec fn stmt_option_view(o: Option<StatementNode>) -> Option<StatementModel> {
    match o {
        Some(s) => Some(s@),
        None => None,
    }
}

proof fn lemma_skip_bounds(ts: Seq<Lexeme>, k: int)
    ensures
        k <= skip_to_semicolon(ts, k),
        k <= ts.len() ==> skip_to_semicolon(ts, k) <= ts.len(),
        k > ts.len() ==> skip_to_semicolon(ts, k) == k,
    decreases ts.len() - k,
{
    if 0 <= k < ts.len() && ts[k].kind != TokenKind::Semicolon && ts[k].kind
        != TokenKind::EOF {
        lemma_skip_bounds(ts, k + 1);
    }
}

/// A statement never moves the parser backwards, nor more than three
/// tokens past the end of the stream.
proof fn lemma_statement_bounds(ts: Seq<Lexeme>, k: int)
    requires
        0 <= k < ts.len(),
    ensures
        k <= parse_statement_at(ts, k).2 <= ts.len() + 2,
{
    lemma_skip_bounds(ts, k + 1);
    lemma_skip_bounds(ts, k + 3);
}

/// Parsing from `k` is one statement followed by parsing from the token
/// after it.
proof fn lemma_parse_all_unfold(ts: Seq<Lexeme>, k: int)
    requires
        0 <= k,
        tok_at(ts, k).kind != TokenKind::EOF,
    ensures
        ({
            let (stmt, diags, e) = parse_statement_at(ts, k);
            &&& parse_all(ts, k).0 == match stmt {
                Some(st) => seq![st] + parse_all(ts, e + 1).0,
                None => parse_all(ts, e + 1).0,
            }
            &&& parse_all(ts, k).1 == diags + parse_all(ts, e + 1).1
        }),
{
    lemma_statement_bounds(ts, k);
}

proof fn lemma_skip_lands(ts: Seq<Lexeme>, m: int, e: int)
    requires
        0 <= m <= e < ts.len(),
        ts[e].kind == TokenKind::Semicolon,
        forall|i: int|
            m <= i < e ==> #[trigger] ts[i].kind != TokenKind::Semicolon && ts[i].kind
                != TokenKind::EOF,
    ensures
        skip_to_semicolon(ts, m) == e,
    decreases e - m,
{
    if m < e {
        lemma_skip_lands(ts, m + 1, e);
    }
}

/// A `let` statement with no identifier after `let` yields no node and
/// exactly one diagnostic, which names the identifier kind as expected.
pub proof fn lemma_let_without_name(ts: Seq<Lexeme>, k: int)
    requires
        tok_at(ts, k).kind == TokenKind::Let,
        tok_at(ts, k + 1).kind != TokenKind::Ident,
    ensures
        parse_statement_at(ts, k).0 is None,
        parse_statement_at(ts, k).1 == seq![
            peek_error_text(TokenKind::Ident, tok_at(ts, k + 1).kind),
        ],
{
}

/// A `let` statement with no `=` after its identifier yields no node and
/// exactly one diagnostic, which names the assignment kind as expected.
pub proof fn lemma_let_without_assign(ts: Seq<Lexeme>, k: int)
    requires
        tok_at(ts, k).kind == TokenKind::Let,
        tok_at(ts, k + 1).kind == TokenKind::Ident,
        tok_at(ts, k + 2).kind != TokenKind::Assign,
    ensures
        parse_statement_at(ts, k).0 is None,
        parse_statement_at(ts, k).1 == seq![
            peek_error_text(TokenKind::Assign, tok_at(ts, k + 2).kind),
        ],
{
}

/// An input whose tokens are `let`, an identifier, `=`, any tokens but `;`,
/// and a final `;` parses to exactly one `let` statement, with no
/// diagnostic: its literal is `let` and it binds that identifier's name.
pub proof fn lemma_single_let(s: Seq<char>)
    requires
        tokens_from(s, 0).len() >= 5,
        tokens_from(s, 0)[0].kind == TokenKind::Let,
        tokens_from(s, 0)[1].kind == TokenKind::Ident,
        tokens_from(s, 0)[2].kind == TokenKind::Assign,
        tokens_from(s, 0)[tokens_from(s, 0).len() - 2].kind == TokenKind::Semicolon,
        forall|i: int|
            3 <= i < tokens_from(s, 0).len() - 2 ==> #[trigger] tokens_from(s, 0)[i].kind
                != TokenKind::Semicolon,
    ensures
        ({
            let ts = tokens_from(s, 0);
            let (stmts, diags) = parse_all(ts, 0);
            &&& stmts.len() == 1
            &&& diags.len() == 0
            &&& stmts[0] == StatementModel::Let(
                LetModel {
                    token: ts[0],
                    name: IdentifierModel { token: ts[1], value: ts[1].text },
                    value: None,
                },
            )
            &&& stmts[0].literal() == "let"@
            &&& stmts[0]->Let_0.name.value == ts[1].text
        }),
{
    let ts = tokens_from(s, 0);
    let n = ts.len();
    lemma_tokens_shape(s, 0);
    lemma_tokens_step(s, 0);
    lemma_keyword_text(s, 0);
    lemma_skip_lands(ts, 3, n - 2);
    lemma_parse_all_unfold(ts, 0);
    assert(ts.last() == ts[n - 1]);
}

/// An input whose tokens are `return`, any tokens but `;`, and a final `;`
/// parses to exactly one `return` statement, with no diagnostic, whose
/// literal is `return`.
pub proof fn lemma_single_return(s: Seq<char>)
    requires
        tokens_from(s, 0).len() >= 3,
        tokens_from(s, 0)[0].kind == TokenKind::Return,
        tokens_from(s, 0)[tokens_from(s, 0).len() - 2].kind == TokenKind::Semicolon,
        forall|i: int|
            1 <= i < tokens_from(s, 0).len() - 2 ==> #[trigger] tokens_from(s, 0)[i].kind
                != TokenKind::Semicolon,
    ensures
        ({
            let ts = tokens_from(s, 0);
            let (stmts, diags) = parse_all(ts, 0);
            &&& stmts.len() == 1
            &&& diags.len() == 0
            &&& stmts[0] == StatementModel::Return(ReturnModel { token: ts[0], value: None })
            &&& stmts[0].literal() == "return"@
        }),
{
    let ts = tokens_from(s, 0);
    let n = ts.len();
    lemma_tokens_shape(s, 0);
    lemma_tokens_step(s, 0);
    lemma_keyword_text(s, 0);
    lemma_skip_lands(ts, 1, n - 2);
    lemma_parse_all_unfold(ts, 0);
    assert(ts.last() == ts[n - 1]);
}

/// The statements of a program come in source order: the `i`-th statement
/// was introduced by the token at `pos[i]`, a `let` or `return` of the
/// same kind as the statement, and the positions strictly increase.
pub proof fn lemma_source_order(ts: Seq<Lexeme>, k: int) -> (pos: Seq<int>)
    requires
        0 <= k,
    ensures
        pos.len() == parse_all(ts, k).0.len(),
        forall|i: int| 0 <= i < pos.len() ==> k <= #[trigger] pos[i] < ts.len(),
        forall|i: int, j: int| 0 <= i < j < pos.len() ==> pos[i] < pos[j],
        forall|i: int|
            0 <= i < pos.len() ==> parse_all(ts, k).0[i].token() == ts[#[trigger] pos[i]],
        forall|i: int|
            0 <= i < pos.len() ==> (parse_all(ts, k).0[i] is Let <==> ts[#[trigger] pos[i]].kind
                == TokenKind::Let),
        forall|i: int|
            0 <= i < pos.len() ==> (parse_all(ts, k).0[i] is Return <==> ts[#[trigger] pos[i]].kind
                == TokenKind::Return),
    decreases ts.len() - k,
{
    if k >= ts.len() || ts[k].kind == TokenKind::EOF {
        Seq::empty()
    } else {
        lemma_statement_bounds(ts, k);
        lemma_parse_all_unfold(ts, k);
        let e = parse_statement_at(ts, k).2;
        let rest = if e + 1 <= ts.len() {
            lemma_source_order(ts, e + 1)
        } else {
            Seq::empty()
        };
        match parse_statement_at(ts, k).0 {
            Some(st) => {
                let pos = seq![k] + rest;
                assert(parse_all(ts, k).0 == seq![st] + parse_all(ts, e + 1).0);
                assert forall|i: int| 0 <= i < pos.len() implies parse_all(ts, k).0[i].token()
                    == ts[#[trigger] pos[i]] by {
                    if i > 0 {
                        assert(pos[i] == rest[i - 1]);
                    }
                }
                assert forall|i: int|
                    0 <= i < pos.len() implies (parse_all(ts, k).0[i] is Let <==> ts[#[trigger] pos[i]].kind
                        == TokenKind::Let) by {
                    if i > 0 {
                        assert(pos[i] == rest[i - 1]);
                    }
                }
                assert forall|i: int|
                    0 <= i < pos.len() implies (parse_all(ts, k).0[i] is Return <==> ts[#[trigger] pos[i]].kind
                        == TokenKind::Return) by {
                    if i > 0 {
                        assert(pos[i] == rest[i - 1]);
                    }
                }
                assert forall|i: int, j: int| 0 <= i < j < pos.len() implies pos[i] < pos[j] by {
                    assert(pos[j] == rest[j - 1]);
                    if i > 0 {
                        assert(pos[i] == rest[i - 1]);
                    }
                }
                pos
            },
            None => rest,
        }
    }
}

/// A parser: a lexer and a window of two tokens over the stream it yields,
/// with the diagnostics recorded so far.
pub struct Parser {
    lexer: Lexer,
    cur_token: Token,
    peek_token: Token,
    errors: Vec<String>,
    tokens: Ghost<Seq<Lexeme>>,
    index: Ghost<int>,
}

impl Parser {
    /// The whole token stream of the lexer this parser was made from.
    pub closed spec fn tokens(&self) -> Seq<Lexeme> {
        self.tokens@
    }

    /// The index in `tokens()` of the current token.
    pub closed spec fn index(&self) -> int {
        self.index@
    }

    /// The diagnostics recorded so far, in order.
    pub closed spec fn diagnostics(&self) -> Seq<Seq<char>> {
        self.errors@.map_values(|e: String| e@)
    }

    /// The window holds the tokens at `index` and `index + 1` of the stream,
    /// and the lexer yields the tokens after them.
    pub closed spec fn wf(&self) -> bool {
        &&& self.lexer.wf()
        &&& 0 <= self.index@
        &&& self.cur_token@ == tok_at(self.tokens@, self.index@)
        &&& self.peek_token@ == tok_at(self.tokens@, self.index@ + 1)
        &&& forall|m: int|
            0 <= m ==> #[trigger] tok_at(self.lexer.pending(), m) == tok_at(
                self.tokens@,
                self.index@ + 2 + m,
            )
    }

    /// A parser over the tokens that `lexer` yields, standing on the first
    /// of them.
    pub fn new(lexer: Lexer) -> (r: Parser)
        requires
            lexer.wf(),
        ensures
            r.wf(),
            r.tokens() == lexer.pending(),
            r.index() == 0,
            r.diagnostics() == Seq::<Seq<char>>::empty(),
    {
        let ghost tokens = lexer.pending();
        let mut lexer = lexer;
        let cur_token = lexer.next_token();
        let peek_token = lexer.next_token();
        let parser = Parser {
            lexer,
            cur_token,
            peek_token,
            errors: Vec::new(),
            tokens: Ghost(tokens),
            index: Ghost(0),
        };
        assert(parser.diagnostics() =~= Seq::<Seq<char>>::empty());
        parser
    }

    /// Shifts the window by one token.
    fn next_token(&mut self)
        requires
            old(self).wf(),
        ensures
            final(self).wf(),
            final(self).tokens() == old(self).tokens(),
            final(self).index() == old(self).index() + 1,
            final(self).diagnostics() == old(self).diagnostics(),
    {
        self.cur_token = self.peek_token.clone();
        self.peek_token = self.lexer.next_token();
        self.index = Ghost(self.index@ + 1);
        assert(self.peek_token@ == tok_at(self.tokens@, self.index@ + 1)) by {
            assert(tok_at(old(self).lexer.pending(), 0) == tok_at(
                self.tokens@,
                old(self).index@ + 2,
            ));
        }
        assert forall|m: int| 0 <= m implies #[trigger] tok_at(self.lexer.pending(), m) == tok_at(
            self.tokens@,
            self.index@ + 2 + m,
        ) by {
            assert(tok_at(old(self).lexer.pending(), m + 1) == tok_at(
                self.tokens@,
                old(self).index@ + 2 + (m + 1),
            ));
        }
    }

    /// Parses statements up to the end of the input. Statements that cannot
    /// be parsed leave diagnostics and no node; a program is always returned.
    pub fn parse_program(&mut self) -> (r: Option<Program>)
        requires
            old(self).wf(),
        ensures
            final(self).wf(),
            final(self).tokens() == old(self).tokens(),
            r matches Some(p) && p@ == parse_all(old(self).tokens(), old(self).index()).0,
            final(self).diagnostics() == old(self).diagnostics() + parse_all(
                old(self).tokens(),
                old(self).index(),
            ).1,
            tok_at(final(self).tokens(), final(self).index()).kind == TokenKind::EOF,
    {
        let ghost ts = self.tokens();
        let ghost k0 = self.index();
        let mut program = Program { statements: Vec::new() };
        assert(program@ + parse_all(ts, k0).0 =~= parse_all(ts, k0).0);
        assert(self.diagnostics() + parse_all(ts, k0).1 =~= old(self).diagnostics() + parse_all(
            ts,
            k0,
        ).1);
        while !self.cur_token_is(TokenKind::EOF)
            invariant
                self.wf(),
                self.tokens() == ts,
                program@ + parse_all(ts, self.index()).0 == parse_all(ts, k0).0,
                self.diagnostics() + parse_all(ts, self.index()).1 == old(self).diagnostics()
                    + parse_all(ts, k0).1,
            decreases ts.len() + 3 - self.index(),
        {
            let ghost k = self.index();
            let ghost before = program@;
            let ghost diags_before = self.diagnostics();
            proof {
                lemma_parse_all_unfold(ts, k);
                lemma_statement_bounds(ts, k);
            }
            let stmt = self.parse_statement();
            match stmt {
                Some(st) => {
                    program.statements.push(st);
                    assert(program@ =~= before.push(st@));
                },
                None => {},
            }
            self.next_token();
            let ghost e = parse_statement_at(ts, k).2;
            assert(program@ + parse_all(ts, e + 1).0 =~= before + parse_all(ts, k).0);
            assert(self.diagnostics() + parse_all(ts, e + 1).1 =~= diags_before + parse_all(
                ts,
                k,
            ).1);
        }
        proof {
            assert(parse_all(ts, self.index()).0 =~= Seq::<StatementModel>::empty());
            assert(program@ =~= parse_all(ts, k0).0);
            assert(self.diagnostics() =~= old(self).diagnostics() + parse_all(ts, k0).1);
        }
        Some(program)
    }

    /// Parses the statement that the current token starts. A token that
    /// starts no statement, an illegal one included, yields no node and no
    /// diagnostic.
    fn parse_statement(&mut self) -> (r: Option<StatementNode>)
        requires
            old(self).wf(),
        ensures
            final(self).wf(),
            final(self).tokens() == old(self).tokens(),
            stmt_option_view(r) == parse_statement_at(old(self).tokens(), old(self).index()).0,
            final(self).diagnostics() == old(self).diagnostics() + parse_statement_at(
                old(self).tokens(),
                old(self).index(),
            ).1,
            final(self).index() == parse_statement_at(old(self).tokens(), old(self).index()).2,
    {
        match self.cur_token.kind {
            TokenKind::Let => self.parse_let_statement(),
            TokenKind::Return => self.parse_return_statement(),
            _ => {
                assert(self.diagnostics() =~= self.diagnostics() + Seq::<Seq<char>>::empty());
                None
            },
        }
    }

    /// Moves to the `;` or `EOF` that ends the current statement.
    fn skip_to_end(&mut self)
        requires
            old(self).wf(),
        ensures
            final(self).wf(),
            final(self).tokens() == old(self).tokens(),
            final(self).diagnostics() == old(self).diagnostics(),
            final(self).index() == skip_to_semicolon(old(self).tokens(), old(self).index()),
    {
        while !self.cur_token_is(TokenKind::Semicolon) && !self.cur_token_is(TokenKind::EOF)
            invariant
                self.wf(),
                self.tokens() == old(self).tokens(),
                self.diagnostics() == old(self).diagnostics(),
                skip_to_semicolon(self.tokens(), self.index()) == skip_to_semicolon(
                    self.tokens(),
                    old(self).index(),
                ),
            decreases self.tokens().len() - self.index(),
        {
            self.next_token();
        }
    }

    /// `let <identifier> = ... ;`: the tokens after `=` are skipped up to the
    /// `;` (or the end of the input), and the value is left empty.
    fn parse_let_statement(&mut self) -> (r: Option<StatementNode>)
        requires
            old(self).wf(),
            tok_at(old(self).tokens(), old(self).index()).kind == TokenKind::Let,
        ensures
            final(self).wf(),
            final(self).tokens() == old(self).tokens(),
            stmt_option_view(r) == parse_statement_at(old(self).tokens(), old(self).index()).0,
            final(self).diagnostics() == old(self).diagnostics() + parse_statement_at(
                old(self).tokens(),
                old(self).index(),
            ).1,
            final(self).index() == parse_statement_at(old(self).tokens(), old(self).index()).2,
    {
        let token = self.cur_token.clone();
        if !self.expect_peek(TokenKind::Ident) {
            return None;
        }
        let name = Identifier { token: self.cur_token.clone(), value: self.cur_token.literal.clone() };
        if !self.expect_peek(TokenKind::Assign) {
            return None;
        }
        self.next_token();
        self.skip_to_end();
        assert(self.diagnostics() =~= old(self).diagnostics() + Seq::<Seq<char>>::empty());
        Some(StatementNode::Let(LetStatement { token, name, value: None }))
    }

    /// `return ... ;`: the tokens after `return` are skipped up to the `;` (or
    /// the end of the input), and the value is left empty.
    fn parse_return_statement(&mut self) -> (r: Option<StatementNode>)
        requires
            old(self).wf(),
            tok_at(old(self).tokens(), old(self).index()).kind == TokenKind::Return,
        ensures
            final(self).wf(),
            final(self).tokens() == old(self).tokens(),
            stmt_option_view(r) == parse_statement_at(old(self).tokens(), old(self).index()).0,
            final(self).diagnostics() == old(self).diagnostics() + parse_statement_at(
                old(self).tokens(),
                old(self).index(),
            ).1,
            final(self).index() == parse_statement_at(old(self).tokens(), old(self).index()).2,
    {
        let stmt = StatementNode::Return(
            ReturnStatement { token: self.cur_token.clone(), return_value: None },
        );
        self.next_token();
        self.skip_to_end();
        assert(self.diagnostics() =~= old(self).diagnostics() + Seq::<Seq<char>>::empty());
        Some(stmt)
    }

    /// Moves onto the next token when it is of kind `kind`; records a
    /// diagnostic and stays otherwise.
    fn expect_peek(&mut self, kind: TokenKind) -> (r: bool)
        requires
            old(self).wf(),
        ensures
            final(self).wf(),
            final(self).tokens() == old(self).tokens(),
            r == (tok_at(old(self).tokens(), old(self).index() + 1).kind == kind),
            r ==> final(self).index() == old(self).index() + 1 && final(self).diagnostics()
                == old(self).diagnostics(),
            !r ==> final(self).index() == old(self).index() && final(self).diagnostics()
                == old(self).diagnostics().push(
                peek_error_text(kind, tok_at(old(self).tokens(), old(self).index() + 1).kind),
            ),
    {
        if self.peek_token_is(kind) {
            self.next_token();
            return true;
        }
        self.peek_error(kind);
        false
    }

    fn peek_token_is(&self, kind: TokenKind) -> (r: bool)
        requires
            self.wf(),
        ensures
            r == (tok_at(self.tokens(), self.index() + 1).kind == kind),
    {
        self.peek_token.kind == kind
    }

    fn cur_token_is(&self, kind: TokenKind) -> (r: bool)
        requires
            self.wf(),
        ensures
            r == (tok_at(self.tokens(), self.index()).kind == kind),
    {
        self.cur_token.kind == kind
    }

    /// The diagnostics recorded so far, in order.
    pub fn errors(&self) -> (r: &Vec<String>)
        ensures
            r@.map_values(|e: String| e@) == self.diagnostics(),
    {
        &self.errors
    }

    /// Records that the next token is not of kind `kind`.
    fn peek_error(&mut self, kind: TokenKind)
        requires
            old(self).wf(),
        ensures
            final(self).wf(),
            final(self).tokens() == old(self).tokens(),
            final(self).index() == old(self).index(),
            final(self).diagnostics() == old(self).diagnostics().push(
                peek_error_text(kind, tok_at(old(self).tokens(), old(self).index() + 1).kind),
            ),
    {
        let mut msg = String::from_str("expected next token to be ");
        msg.append(kind.spelling().as_str());
        msg.append(", got ");
        msg.append(self.peek_token.kind.spelling().as_str());
        msg.append(" instead");
        self.errors.push(msg);
        assert(self.diagnostics() =~= old(self).diagnostics().push(
            peek_error_text(kind, tok_at(old(self).tokens(), old(self).index() + 1).kind),
        ));
    }
}

} // verus!
