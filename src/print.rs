use vstd::prelude::*;

use crate::expr::{AcceptsVisitor, BinaryExpr, Expr, GroupingExpr, LiteralExpr, UnaryExpr, Visitor};
use crate::token::{push_char, Literal};

verus! {

/// The printed form of a literal: a number in its shortest decimal text, a
/// string between double quotes, with nothing escaped.
pub open spec fn literal_text(l: Literal) -> Seq<char> {
    match l {
        Literal::Number(n) => n@,
        Literal::String(s) => seq!['"'] + s@ + seq!['"'],
    }
}

/// The fully parenthesized prefix form of `e`.
pub open spec fn show(e: Expr) -> Seq<char>
    decreases e,
{
    match e {
        Expr::Binary(b) => seq!['('] + b.operator.lexeme@ + seq![' '] + show(*b.left) + seq![' ']
            + show(*b.right) + seq![')'],
        Expr::Grouping(g) => "(group "@ + show(*g.expression) + seq![')'],
        Expr::Literal(l) => literal_text(l.value),
        Expr::Unary(u) => seq!['('] + u.operator.lexeme@ + seq![' '] + show(*u.expression) + seq![
            ')',
        ],
    }
}

/// Prints an expression tree as fully parenthesized prefix text.
pub struct AstPrinter {}

impl AstPrinter {
    /// A printer. It keeps no state between calls.
    pub fn new() -> (r: AstPrinter) {
        AstPrinter {}
    }

    /// The printed form of `expr`.
    pub fn print(&mut self, expr: Expr) -> (r: String)
        ensures
            r@ == show(expr),
    {
        expr.accept(self)
    }
}

fn render(e: &Expr) -> (r: String)
    ensures
        r@ == show(*e),
    decreases e,
{
    match e {
        Expr::Binary(b) => binary_text(b),
        Expr::Grouping(g) => grouping_text(g),
        Expr::Literal(l) => literal_expr_text(l),
        Expr::Unary(u) => unary_text(u),
    }
}

fn binary_text(b: &BinaryExpr) -> (r: String)
    ensures
        r@ == show(Expr::Binary(*b)),
    decreases b,
{
    let left = render(&b.left);
    let right = render(&b.right);
    let mut r = String::new();
    push_char(&mut r, '(');
    r.append(b.operator.lexeme.as_str());
    push_char(&mut r, ' ');
    r.append(left.as_str());
    push_char(&mut r, ' ');
    r.append(right.as_str());
    push_char(&mut r, ')');
    r
}

fn grouping_text(g: &GroupingExpr) -> (r: String)
    ensures
        r@ == show(Expr::Grouping(*g)),
    decreases g,
{
    let inner = render(&g.expression);
    let mut r = "(group ".to_owned();
    r.append(inner.as_str());
    push_char(&mut r, ')');
    r
}

fn literal_expr_text(l: &LiteralExpr) -> (r: String)
    ensures
        r@ == show(Expr::Literal(*l)),
{
    match &l.value {
        Literal::Number(n) => n.text(),
        Literal::String(s) => {
            let mut r = String::new();
            push_char(&mut r, '"');
            r.append(s.as_str());
            push_char(&mut r, '"');
            r
        },
    }
}

fn unary_text(u: &UnaryExpr) -> (r: String)
    ensures
        r@ == show(Expr::Unary(*u)),
    decreases u,
{
    let operand = render(&u.expression);
    let mut r = String::new();
    push_char(&mut r, '(');
    r.append(u.operator.lexeme.as_str());
    push_char(&mut r, ' ');
    r.append(operand.as_str());
    push_char(&mut r, ')');
    r
}

impl Visitor for AstPrinter {
    type Result = String;

    open spec fn visited(&self, before: Self, e: Expr, r: String) -> bool {
        r@ == show(e)
    }

    fn visit_binary_expr(&mut self, expr: &BinaryExpr) -> (r: String) {
        binary_text(expr)
    }

    fn visit_grouping_expr(&mut self, expr: &GroupingExpr) -> (r: String) {
        grouping_text(expr)
    }

    fn visit_literal_expr(&mut self, expr: &LiteralExpr) -> (r: String) {
        literal_expr_text(expr)
    }

    fn visit_unary_expr(&mut self, expr: &UnaryExpr) -> (r: String) {
        unary_text(expr)
    }
}

} // verus!
