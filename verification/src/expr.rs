use crate::token::{Token, TokenView, Value, ValueView};
use vstd::prelude::*;

verus! {

/// An operator between two operands.
pub struct Binary {
    pub left: Box<Expr>,
    pub operator: Token,
    pub right: Box<Expr>,
}

/// An expression in parentheses.
pub struct Grouping {
    pub expression: Box<Expr>,
}

/// A literal value.
pub struct Literal {
    pub value: Value,
}

/// An operator before its operand.
pub struct Unary {
    pub operator: Token,
    pub right: Box<Expr>,
}

/// An expression: one of the four kinds of node. Each node owns its
/// operands, so an expression is a tree.
pub enum Expr {
    Binary(Binary),
    Grouping(Grouping),
    Literal(Literal),
    Unary(Unary),
}

/// What an expression holds, as mathematical data.
pub enum ExprView {
    Binary { left: Box<ExprView>, operator: TokenView, right: Box<ExprView> },
    Grouping { expression: Box<ExprView> },
    Literal { value: ValueView },
    Unary { operator: TokenView, right: Box<ExprView> },
}

/// The view of `e`.
pub open spec fn expr_view(e: Expr) -> ExprView
    decreases e,
{
    match e {
        Expr::Binary(b) => ExprView::Binary {
            left: Box::new(expr_view(*b.left)),
            operator: b.operator@,
            right: Box::new(expr_view(*b.right)),
        },
        Expr::Grouping(g) => ExprView::Grouping { expression: Box::new(expr_view(*g.expression)) },
        Expr::Literal(l) => ExprView::Literal { value: l.value@ },
        Expr::Unary(u) => ExprView::Unary {
            operator: u.operator@,
            right: Box::new(expr_view(*u.right)),
        },
    }
}

/// The operands of `e`, from left to right.
pub open spec fn children_of(e: ExprView) -> Seq<ExprView> {
    match e {
        ExprView::Binary { left, operator, right } => seq![*left, *right],
        ExprView::Grouping { expression } => seq![*expression],
        ExprView::Literal { value } => Seq::empty(),
        ExprView::Unary { operator, right } => seq![*right],
    }
}

/// The views of a sequence of borrowed expressions.
pub open spec fn expr_views(es: Seq<&Expr>) -> Seq<ExprView> {
    es.map_values(|e: &Expr| e@)
}

impl View for Expr {
    type V = ExprView;

    open spec fn view(&self) -> ExprView {
        expr_view(*self)
    }
}

impl View for Binary {
    type V = ExprView;

    open spec fn view(&self) -> ExprView {
        ExprView::Binary {
            left: Box::new(self.left@),
            operator: self.operator@,
            right: Box::new(self.right@),
        }
    }
}

impl View for Grouping {
    type V = ExprView;

    open spec fn view(&self) -> ExprView {
        ExprView::Grouping { expression: Box::new(self.expression@) }
    }
}

impl View for Literal {
    type V = ExprView;

    open spec fn view(&self) -> ExprView {
        ExprView::Literal { value: self.value@ }
    }
}

impl View for Unary {
    type V = ExprView;

    open spec fn view(&self) -> ExprView {
        ExprView::Unary { operator: self.operator@, right: Box::new(self.right@) }
    }
}

/// A traversal of expressions: one method for each kind of node, all with
/// one type of result. A new traversal is a new implementation; the nodes
/// stay as they are.
///
/// Each method comes with a relation that says what a visit does: it holds
/// of the visitor before the visit, the node, the visitor after it and the
/// result.
pub trait Visitor: Sized {
    spec fn visits_binary(&self, expr: &Binary, after: &Self, result: Value) -> bool;

    spec fn visits_grouping(&self, expr: &Grouping, after: &Self, result: Value) -> bool;

    spec fn visits_literal(&self, expr: &Literal, after: &Self, result: Value) -> bool;

    spec fn visits_unary(&self, expr: &Unary, after: &Self, result: Value) -> bool;

    fn visit_binary_expr(&mut self, expr: &Binary) -> (r: Value)
        ensures
            old(self).visits_binary(expr, final(self), r),
    ;

    fn visit_grouping_expr(&mut self, expr: &Grouping) -> (r: Value)
        ensures
            old(self).visits_grouping(expr, final(self), r),
    ;

    fn visit_literal_expr(&mut self, expr: &Literal) -> (r: Value)
        ensures
            old(self).visits_literal(expr, final(self), r),
    ;

    fn visit_unary_expr(&mut self, expr: &Unary) -> (r: Value)
        ensures
            old(self).visits_unary(expr, final(self), r),
    ;
}

impl Binary {
    pub fn new(left: Box<Expr>, operator: Token, right: Box<Expr>) -> (r: Self)
        ensures
            r.left == left,
            r.operator == operator,
            r.right == right,
    {
        Self { left, operator, right }
    }

    /// Hands this node to the visitor's method for binary nodes.
    pub fn accept<V: Visitor>(&self, visitor: &mut V) -> (r: Value)
        ensures
            old(visitor).visits_binary(self, final(visitor), r),
    {
        visitor.visit_binary_expr(self)
    }

    /// The two operands, the left one first.
    pub fn children(&self) -> (r: Vec<&Expr>)
        ensures
            r@ == seq![&*self.left, &*self.right],
            expr_views(r@) == children_of(self@),
    {
        let r = vec![&*self.left, &*self.right];
        r
    }
}

impl Grouping {
    pub fn new(expression: Box<Expr>) -> (r: Self)
        ensures
            r.expression == expression,
    {
        Self { expression }
    }

    /// Hands this node to the visitor's method for groupings.
    pub fn accept<V: Visitor>(&self, visitor: &mut V) -> (r: Value)
        ensures
            old(visitor).visits_grouping(self, final(visitor), r),
    {
        visitor.visit_grouping_expr(self)
    }

    /// The expression inside the parentheses.
    pub fn children(&self) -> (r: Vec<&Expr>)
        ensures
            r@ == seq![&*self.expression],
            expr_views(r@) == children_of(self@),
    {
        let r = vec![&*self.expression];
        r
    }
}

impl Literal {
    pub fn new(value: Value) -> (r: Self)
        ensures
            r.value == value,
    {
        Self { value }
    }

    /// Hands this node to the visitor's method for literals.
    pub fn accept<V: Visitor>(&self, visitor: &mut V) -> (r: Value)
        ensures
            old(visitor).visits_literal(self, final(visitor), r),
    {
        visitor.visit_literal_expr(self)
    }

    /// A literal has no operands.
    pub fn children(&self) -> (r: Vec<&Expr>)
        ensures
            r@ == Seq::<&Expr>::empty(),
            expr_views(r@) == children_of(self@),
    {
        let r: Vec<&Expr> = Vec::new();
        r
    }
}

impl Unary {
    pub fn new(operator: Token, right: Box<Expr>) -> (r: Self)
        ensures
            r.operator == operator,
            r.right == right,
    {
        Unary { operator, right }
    }

    /// Hands this node to the visitor's method for unary nodes.
    pub fn accept<V: Visitor>(&self, visitor: &mut V) -> (r: Value)
        ensures
            old(visitor).visits_unary(self, final(visitor), r),
    {
        visitor.visit_unary_expr(self)
    }

    /// The operand.
    pub fn children(&self) -> (r: Vec<&Expr>)
        ensures
            r@ == seq![&*self.right],
            expr_views(r@) == children_of(self@),
    {
        let r = vec![&*self.right];
        r
    }
}

impl Expr {
    /// Hands the node to the method of the visitor that is for its kind, and
    /// to no other.
    pub fn accept<V: Visitor>(&self, visitor: &mut V) -> (r: Value)
        ensures
            match self {
                Expr::Binary(b) => old(visitor).visits_binary(b, final(visitor), r),
                Expr::Grouping(g) => old(visitor).visits_grouping(g, final(visitor), r),
                Expr::Literal(l) => old(visitor).visits_literal(l, final(visitor), r),
                Expr::Unary(u) => old(visitor).visits_unary(u, final(visitor), r),
            },
    {
        match self {
            Expr::Binary(b) => b.accept(visitor),
            Expr::Grouping(g) => g.accept(visitor),
            Expr::Literal(l) => l.accept(visitor),
            Expr::Unary(u) => u.accept(visitor),
        }
    }

    /// The operands of the node, from left to right.
    pub fn children(&self) -> (r: Vec<&Expr>)
        ensures
            expr_views(r@) == children_of(self@),
    {
        match self {
            Expr::Binary(b) => b.children(),
            Expr::Grouping(g) => g.children(),
            Expr::Literal(l) => l.children(),
            Expr::Unary(u) => u.children(),
        }
    }
}

} // verus!
