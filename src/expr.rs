use vstd::prelude::*;

use crate::token::{Literal, Token};

verus! {

/// An expression tree. Each node owns its children, so a tree never shares
/// or cycles back to a node.
pub enum Expr {
    Binary(BinaryExpr),
    Grouping(GroupingExpr),
    Literal(LiteralExpr),
    Unary(UnaryExpr),
}

impl Expr {
    /// The binary expression `left operator right`.
    pub fn make_binary(left: Expr, operator: Token, right: Expr) -> (r: Expr)
        ensures
            r == Expr::Binary(BinaryExpr { left: Box::new(left), operator, right: Box::new(right) }),
    {
        Expr::Binary(BinaryExpr { left: Box::new(left), operator, right: Box::new(right) })
    }

    /// The parenthesized expression `( expression )`.
    pub fn make_grouping(expression: Expr) -> (r: Expr)
        ensures
            r == Expr::Grouping(GroupingExpr { expression: Box::new(expression) }),
    {
        Expr::Grouping(GroupingExpr { expression: Box::new(expression) })
    }

    /// The literal expression holding `value`.
    pub fn make_literal(value: Literal) -> (r: Expr)
        ensures
            r == Expr::Literal(LiteralExpr { value }),
    {
        Expr::Literal(LiteralExpr { value })
    }

    /// The prefix expression `operator expression`.
    pub fn make_unary(operator: Token, expression: Expr) -> (r: Expr)
        ensures
            r == Expr::Unary(UnaryExpr { operator, expression: Box::new(expression) }),
    {
        Expr::Unary(UnaryExpr { operator, expression: Box::new(expression) })
    }
}

pub struct BinaryExpr {
    pub left: Box<Expr>,
    pub operator: Token,
    pub right: Box<Expr>,
}

pub struct GroupingExpr {
    pub expression: Box<Expr>,
}

pub struct LiteralExpr {
    pub value: Literal,
}

pub struct UnaryExpr {
    pub operator: Token,
    pub expression: Box<Expr>,
}

/// An operation over expression trees, one method for each kind of node.
/// Each consumer chooses its own result type.
pub trait Visitor: Sized {
    type Result;

    /// Whether `r` is what this visitor yields on visiting `e`, having gone
    /// from `before` to `self` while doing so.
    spec fn visited(&self, before: Self, e: Expr, r: Self::Result) -> bool;

    fn visit_binary_expr(&mut self, expr: &BinaryExpr) -> (r: Self::Result)
        ensures
            final(self).visited(*old(self), Expr::Binary(*expr), r),
    ;

    fn visit_grouping_expr(&mut self, expr: &GroupingExpr) -> (r: Self::Result)
        ensures
            final(self).visited(*old(self), Expr::Grouping(*expr), r),
    ;

    fn visit_literal_expr(&mut self, expr: &LiteralExpr) -> (r: Self::Result)
        ensures
            final(self).visited(*old(self), Expr::Literal(*expr), r),
    ;

    fn visit_unary_expr(&mut self, expr: &UnaryExpr) -> (r: Self::Result)
        ensures
            final(self).visited(*old(self), Expr::Unary(*expr), r),
    ;
}

/// A node that hands itself to the visitor method for its kind.
pub trait AcceptsVisitor {
    /// The expression this node stands for.
    spec fn as_expr(&self) -> Expr;

    fn accept<V: Visitor>(&self, visitor: &mut V) -> (r: V::Result)
        ensures
            final(visitor).visited(*old(visitor), self.as_expr(), r),
    ;
}

impl AcceptsVisitor for Expr {
    open spec fn as_expr(&self) -> Expr {
        *self
    }

    fn accept<V: Visitor>(&self, visitor: &mut V) -> (r: V::Result) {
        match self {
            Expr::Binary(expr) => visitor.visit_binary_expr(expr),
            Expr::Grouping(expr) => visitor.visit_grouping_expr(expr),
            Expr::Literal(expr) => visitor.visit_literal_expr(expr),
            Expr::Unary(expr) => visitor.visit_unary_expr(expr),
        }
    }
}

impl AcceptsVisitor for BinaryExpr {
    open spec fn as_expr(&self) -> Expr {
        Expr::Binary(*self)
    }

    fn accept<V: Visitor>(&self, visitor: &mut V) -> (r: V::Result) {
        visitor.visit_binary_expr(self)
    }
}

impl AcceptsVisitor for GroupingExpr {
    open spec fn as_expr(&self) -> Expr {
        Expr::Grouping(*self)
    }

    fn accept<V: Visitor>(&self, visitor: &mut V) -> (r: V::Result) {
        visitor.visit_grouping_expr(self)
    }
}

} // verus!
