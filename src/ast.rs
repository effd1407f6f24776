use crate::token::{Lexeme, Token};
use vstd::prelude::*;

verus! {

/// The model of an identifier node: its token and its name.
pub struct IdentifierModel {
    pub token: Lexeme,
    pub value: Seq<char>,
}

/// The model of an expression node.
pub enum ExpressionModel {
    Identifier(IdentifierModel),
}

/// The model of a `let` statement node.
pub struct LetModel {
    pub token: Lexeme,
    pub name: IdentifierModel,
    pub value: Option<ExpressionModel>,
}

/// The model of a `return` statement node.
pub struct ReturnModel {
    pub token: Lexeme,
    pub value: Option<ExpressionModel>,
}

/// The model of a statement node.
pub enum StatementModel {
    Let(LetModel),
    Return(ReturnModel),
}

impl ExpressionModel {
    pub open spec fn literal(self) -> Seq<char> {
        match self {
            ExpressionModel::Identifier(i) => i.token.text,
        }
    }

    pub open spec fn printed(self) -> Seq<char> {
        match self {
            ExpressionModel::Identifier(i) => i.value,
        }
    }
}

/// How an optional value prints: the value itself, or `None` when absent.
pub open spec fn value_printed(v: Option<ExpressionModel>) -> Seq<char> {
    match v {
        Some(e) => e.printed(),
        None => "None"@,
    }
}

impl LetModel {
    /// `<let> <name> = <value>;`
    pub open spec fn printed(self) -> Seq<char> {
        self.token.text + " "@ + self.name.value + " = "@ + value_printed(self.value) + ";"@
    }
}

impl ReturnModel {
    /// `<return> <value>;`
    pub open spec fn printed(self) -> Seq<char> {
        self.token.text + " "@ + value_printed(self.value) + ";"@
    }
}

impl StatementModel {
    /// The token that introduced the statement.
    pub open spec fn token(self) -> Lexeme {
        match self {
            StatementModel::Let(s) => s.token,
            StatementModel::Return(s) => s.token,
        }
    }

    pub open spec fn literal(self) -> Seq<char> {
        match self {
            StatementModel::Let(s) => s.token.text,
            StatementModel::Return(s) => s.token.text,
        }
    }

    pub open spec fn printed(self) -> Seq<char> {
        match self {
            StatementModel::Let(s) => s.printed(),
            StatementModel::Return(s) => s.printed(),
        }
    }
}

/// The literal of a program: that of its first statement, or empty.
pub open spec fn program_literal(stmts: Seq<StatementModel>) -> Seq<char> {
    if stmts.len() > 0 {
        stmts[0].literal()
    } else {
        Seq::empty()
    }
}

/// The rendering of a program: its statements' renderings, in order, with
/// nothing between them.
pub open spec fn program_printed(stmts: Seq<StatementModel>) -> Seq<char>
    decreases stmts.len(),
{
    if stmts.len() == 0 {
        Seq::empty()
    } else {
        program_printed(stmts.drop_last()) + stmts.last().printed()
    }
}

/// What every node of the syntax tree offers: the literal of the token that
/// introduced it, and a rendering of the node as text.
pub trait Node {
    spec fn literal_model(&self) -> Seq<char>;

    spec fn printed_model(&self) -> Seq<char>;

    fn token_literal(&self) -> (r: String)
        ensures
            r@ == self.literal_model(),
    ;

    fn print(&self) -> (r: String)
        ensures
            r@ == self.printed_model(),
    ;
}

/// A name reference: its token and the name it holds.
#[derive(Debug, Default)]
pub struct Identifier {
    pub token: Token,
    pub value: String,
}

impl View for Identifier {
    type V = IdentifierModel;

    open spec fn view(&self) -> IdentifierModel {
        IdentifierModel { token: self.token@, value: self.value@ }
    }
}

impl Node for Identifier {
    open spec fn literal_model(&self) -> Seq<char> {
        self.token.literal@
    }

    open spec fn printed_model(&self) -> Seq<char> {
        self.value@
    }

    fn token_literal(&self) -> (r: String) {
        self.token.literal.clone()
    }

    fn print(&self) -> (r: String) {
        self.value.clone()
    }
}

#[derive(Debug)]
pub enum ExpressionNode {
    IdentifierNode(Identifier),
}

impl View for ExpressionNode {
    type V = ExpressionModel;

    open spec fn view(&self) -> ExpressionModel {
        match self {
            ExpressionNode::IdentifierNode(i) => ExpressionModel::Identifier(i@),
        }
    }
}

impl Node for ExpressionNode {
    open spec fn literal_model(&self) -> Seq<char> {
        self@.literal()
    }

    open spec fn printed_model(&self) -> Seq<char> {
        self@.printed()
    }

    fn token_literal(&self) -> (r: String) {
        match self {
            ExpressionNode::IdentifierNode(e) => e.token_literal(),
        }
    }

    fn print(&self) -> (r: String) {
        match self {
            ExpressionNode::IdentifierNode(e) => e.print(),
        }
    }
}

pub open spec fn option_view(v: Option<ExpressionNode>) -> Option<ExpressionModel> {
    match v {
        Some(e) => Some(e@),
        None => None,
    }
}

/// Appends the rendering of an optional value.
fn push_value(output: &mut String, value: &Option<ExpressionNode>)
    ensures
        final(output)@ == old(output)@ + value_printed(option_view(*value)),
{
    match value {
        Some(v) => output.append(v.print().as_str()),
        None => output.append("None"),
    }
}

/// `let <name> = <value>;`
#[derive(Debug)]
pub struct LetStatement {
    pub token: Token,
    pub name: Identifier,
    pub value: Option<ExpressionNode>,
}

impl View for LetStatement {
    type V = LetModel;

    open spec fn view(&self) -> LetModel {
        LetModel { token: self.token@, name: self.name@, value: option_view(self.value) }
    }
}

impl Node for LetStatement {
    open spec fn literal_model(&self) -> Seq<char> {
        self.token.literal@
    }

    open spec fn printed_model(&self) -> Seq<char> {
        self@.printed()
    }

    fn token_literal(&self) -> (r: String) {
        self.token.literal.clone()
    }

    fn print(&self) -> (r: String) {
        let mut output = String::new();
        output.append(self.token_literal().as_str());
        output.append(" ");
        output.append(self.name.print().as_str());
        output.append(" = ");
        push_value(&mut output, &self.value);
        output.append(";");
        output
    }
}

/// `return <value>;`
#[derive(Debug, Default)]
pub struct ReturnStatement {
    pub token: Token,
    pub return_value: Option<ExpressionNode>,
}

impl View for ReturnStatement {
    type V = ReturnModel;

    open spec fn view(&self) -> ReturnModel {
        ReturnModel { token: self.token@, value: option_view(self.return_value) }
    }
}

impl Node for ReturnStatement {
    open spec fn literal_model(&self) -> Seq<char> {
        self.token.literal@
    }

    open spec fn printed_model(&self) -> Seq<char> {
        self@.printed()
    }

    fn token_literal(&self) -> (r: String) {
        self.token.literal.clone()
    }

    fn print(&self) -> (r: String) {
        let mut output = String::new();
        output.append(self.token_literal().as_str());
        output.append(" ");
        push_value(&mut output, &self.return_value);
        output.append(";");
        output
    }
}

#[derive(Debug)]
pub enum StatementNode {
    Let(LetStatement),
    Return(ReturnStatement),
}

impl View for StatementNode {
    type V = StatementModel;

    open spec fn view(&self) -> StatementModel {
        match self {
            StatementNode::Let(s) => StatementModel::Let(s@),
            StatementNode::Return(s) => StatementModel::Return(s@),
        }
    }
}

impl Node for StatementNode {
    open spec fn literal_model(&self) -> Seq<char> {
        self@.literal()
    }

    open spec fn printed_model(&self) -> Seq<char> {
        self@.printed()
    }

    fn token_literal(&self) -> (r: String) {
        match self {
            StatementNode::Let(e) => e.token_literal(),
            StatementNode::Return(e) => e.token_literal(),
        }
    }

    fn print(&self) -> (r: String) {
        match self {
            StatementNode::Let(e) => e.print(),
            StatementNode::Return(e) => e.print(),
        }
    }
}

/// The root of the tree: its statements, in source order.
pub struct Program {
    pub statements: Vec<StatementNode>,
}

impl View for Program {
    type V = Seq<StatementModel>;

    open spec fn view(&self) -> Seq<StatementModel> {
        self.statements@.map_values(|s: StatementNode| s@)
    }
}

impl Node for Program {
    open spec fn literal_model(&self) -> Seq<char> {
        program_literal(self@)
    }

    open spec fn printed_model(&self) -> Seq<char> {
        program_printed(self@)
    }

    fn token_literal(&self) -> (r: String) {
        if self.statements.len() > 0 {
            self.statements[0].token_literal()
        } else {
            String::new()
        }
    }

    fn print(&self) -> (r: String) {
        let mut output = String::new();
        let mut i: usize = 0;
        while i < self.statements.len()
            invariant
                i <= self.statements.len(),
                output@ == program_printed(self@.take(i as int)),
            decreases self.statements.len() - i,
        {
            output.append(self.statements[i].print().as_str());
            assert(self@.take(i + 1).drop_last() =~= self@.take(i as int));
            i = i + 1;
        }
        assert(self@.take(i as int) =~= self@);
        output
    }
}

} // verus!
