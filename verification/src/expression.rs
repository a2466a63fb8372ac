//! The expression-tree model and its canonical parenthesized-prefix
//! printer: the target shape for a future parser, sharing the token
//! vocabulary with the scanner and exercised through direct
//! construction.

use vstd::prelude::*;

use crate::scanner::Token;

verus! {

/// A node of an expression tree. Every composite node exclusively
/// owns its children; nothing is shared or mutated after construction.
pub enum Expression {
    Literal(Literal),
    Unary(Unary),
    Binary(Binary),
    Grouping(Grouping),
}

/// A parenthesized sub-expression.
pub struct Grouping(pub Box<Expression>);

/// A literal leaf. A numeric literal carries its canonical decimal
/// text; booleans and nil exist for the printer and are not produced
/// by the scanner.
pub enum Literal {
    Number(String),
    String(String),
    Boolean(bool),
    Nil,
}

/// An operator applied to one operand.
pub struct Unary {
    pub operator: Token,
    pub right: Box<Expression>,
}

/// An operator applied to two ordered operands.
pub struct Binary {
    pub left: Box<Expression>,
    pub operator: Token,
    pub right: Box<Expression>,
}

/// The canonical text of a literal leaf: `nil`, `true` or `false`, or
/// the carried text itself, with no added quoting.
pub open spec fn spec_render_literal(l: Literal) -> Seq<char> {
    match l {
        Literal::Nil => "nil"@,
        Literal::Boolean(b) => if b {
            "true"@
        } else {
            "false"@
        },
        Literal::Number(s) => s@,
        Literal::String(s) => s@,
    }
}

/// The canonical fully-parenthesized prefix rendering of a tree:
/// `(<op> <right>)` for unary nodes, `(<op> <left> <right>)` for
/// binary nodes, `(group <inner>)` for groupings, and the literal's
/// own text for leaves.
pub open spec fn spec_render(e: Expression) -> Seq<char>
    decreases e,
{
    match e {
        Expression::Literal(l) => spec_render_literal(l),
        Expression::Unary(u) => "("@ + u.operator.lexeme@ + " "@ + spec_render(*u.right) + ")"@,
        Expression::Binary(b) => "("@ + b.operator.lexeme@ + " "@ + spec_render(*b.left) + " "@
            + spec_render(*b.right) + ")"@,
        Expression::Grouping(g) => "(group "@ + spec_render(*g.0) + ")"@,
    }
}

impl Literal {
    /// Renders the leaf's canonical text.
    pub fn render(&self) -> (r: String)
        ensures
            r@ == spec_render_literal(*self),
    {
        match self {
            Literal::Nil => String::from_str("nil"),
            Literal::Boolean(b) => if *b {
                String::from_str("true")
            } else {
                String::from_str("false")
            },
            Literal::Number(s) => s.clone(),
            Literal::String(s) => s.clone(),
        }
    }
}

impl Unary {
    /// Renders `(<operator lexeme> <right>)`.
    pub fn render(&self) -> (r: String)
        ensures
            r@ == "("@ + self.operator.lexeme@ + " "@ + spec_render(*self.right) + ")"@,
        decreases *self,
    {
        let mut r = String::from_str("(");
        r.append(self.operator.lexeme.as_str());
        r.append(" ");
        r.append(self.right.render().as_str());
        r.append(")");
        r
    }
}

impl Binary {
    /// Renders `(<operator lexeme> <left> <right>)`.
    pub fn render(&self) -> (r: String)
        ensures
            r@ == "("@ + self.operator.lexeme@ + " "@ + spec_render(*self.left) + " "@
                + spec_render(*self.right) + ")"@,
        decreases *self,
    {
        let mut r = String::from_str("(");
        r.append(self.operator.lexeme.as_str());
        r.append(" ");
        r.append(self.left.render().as_str());
        r.append(" ");
        r.append(self.right.render().as_str());
        r.append(")");
        r
    }
}

impl Grouping {
    /// Renders `(group <inner>)`.
    pub fn render(&self) -> (r: String)
        ensures
            r@ == "(group "@ + spec_render(*self.0) + ")"@,
        decreases *self,
    {
        let mut r = String::from_str("(group ");
        r.append(self.0.render().as_str());
        r.append(")");
        r
    }
}

impl Expression {
    /// Renders the whole tree in its canonical form; total over any
    /// well-formed tree and free of side effects.
    pub fn render(&self) -> (r: String)
        ensures
            r@ == spec_render(*self),
        decreases *self,
    {
        match self {
            Expression::Literal(l) => l.render(),
            Expression::Unary(u) => u.render(),
            Expression::Binary(b) => b.render(),
            Expression::Grouping(g) => g.render(),
        }
    }
}

} // verus!
