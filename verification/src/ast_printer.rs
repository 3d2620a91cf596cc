use crate::expr::{expr_views, Binary, Expr, ExprView, Grouping, Literal, Unary, Visitor};
use crate::token::{TokenView, Value, ValueView};
use vstd::prelude::*;

verus! {

/// How a literal is written: `nil` for the absence of a value, a string as
/// its text, a number as its numeral, a boolean as `true` or `false`.
pub open spec fn literal_text(v: ValueView) -> Seq<char> {
    match v {
        ValueView::Nil => "nil"@,
        ValueView::String(s) => s,
        ValueView::Number(n) => n,
        ValueView::Boolean(b) => if b {
            "true"@
        } else {
            "false"@
        },
    }
}

/// The texts `parts` one after the other, each with a space before it.
pub open spec fn spaced(parts: Seq<Seq<char>>) -> Seq<char>
    decreases parts.len(),
{
    if parts.len() == 0 {
        Seq::<char>::empty()
    } else {
        spaced(parts.drop_last()) + seq![' '] + parts.last()
    }
}

/// `(name part part ...)`
pub open spec fn parenthesized(name: Seq<char>, parts: Seq<Seq<char>>) -> Seq<char> {
    seq!['('] + name + spaced(parts) + seq![')']
}

/// The expression in prefix form, with every operation in parentheses.
pub open spec fn rendered(e: ExprView) -> Seq<char>
    decreases e,
{
    match e {
        ExprView::Binary { left, operator, right } => parenthesized(
            operator.lexeme,
            seq![rendered(*left), rendered(*right)],
        ),
        ExprView::Grouping { expression } => parenthesized("group"@, seq![rendered(*expression)]),
        ExprView::Literal { value } => literal_text(value),
        ExprView::Unary { operator, right } => parenthesized(
            operator.lexeme,
            seq![rendered(*right)],
        ),
    }
}

/// The rendering of each of `es`.
pub open spec fn rendered_all(es: Seq<ExprView>) -> Seq<Seq<char>> {
    es.map_values(|e: ExprView| rendered(e))
}

/// The visitor that writes an expression in prefix form.
pub struct AstPrinter {}

impl AstPrinter {
    pub fn new() -> (r: Self)
        ensures
            r == (AstPrinter {  }),
    {
        AstPrinter {  }
    }

    /// The expression in prefix form. The text depends on the tree alone:
    /// printing it again gives the same text.
    pub fn print(&mut self, expr: Box<Expr>) -> (r: String)
        ensures
            r@ == rendered(expr@),
            *final(self) == *old(self),
    {
        match expr.accept(self) {
            Value::String(s) => s,
            _ => String::new(),
        }
    }

    /// `(name child child ...)`, each child as its visit writes it.
    fn parenthesize(&mut self, name: &str, exprs: &[&Expr], Ghost(parent): Ghost<Expr>) -> (r:
        Option<String>)
        requires
            forall|i: int| 0 <= i < exprs@.len() ==> decreases_to!(parent => *(#[trigger] exprs@[i])),
        ensures
            r is Some,
            r->Some_0@ == parenthesized(name@, rendered_all(expr_views(exprs@))),
        decreases parent, 0nat,
    {
        let mut result = String::new();
        result.push('(');
        result.append(name);
        let ghost parts = rendered_all(expr_views(exprs@));
        let mut i: usize = 0;
        while i < exprs.len()
            invariant
                i <= exprs.len(),
                parts == rendered_all(expr_views(exprs@)),
                forall|i: int|
                    0 <= i < exprs@.len() ==> decreases_to!(parent => *(#[trigger] exprs@[i])),
                result@ == seq!['('] + name@ + spaced(parts.take(i as int)),
            decreases exprs.len() - i,
        {
            match self.visit(exprs[i]) {
                Value::String(inner) => {
                    result.push(' ');
                    result.append(inner.as_str());
                    proof {
                        assert(parts.take(i + 1).drop_last() =~= parts.take(i as int));
                        assert(result@ =~= seq!['('] + name@ + spaced(parts.take(i + 1)));
                    }
                },
                _ => return None,
            }
            i += 1;
        }
        result.push(')');
        proof {
            assert(parts.take(exprs@.len() as int) =~= parts);
        }
        Some(result)
    }

    /// Writes `expr`, whatever its kind. The printer goes down a tree
    /// through this function and not through `Expr::accept`: that a descent
    /// ends can be shown of a function that names what it calls, and not of
    /// a call through a trait.
    fn visit(&mut self, expr: &Expr) -> (r: Value)
        ensures
            r@ == ValueView::String(rendered(expr@)),
        decreases *expr, 2nat,
    {
        match expr {
            Expr::Binary(b) => self.binary(b),
            Expr::Grouping(g) => self.grouping(g),
            Expr::Literal(l) => self.literal(l),
            Expr::Unary(u) => self.unary(u),
        }
    }

    /// `(operator left right)`
    fn binary(&mut self, expr: &Binary) -> (r: Value)
        ensures
            r@ == ValueView::String(rendered(expr@)),
        decreases Expr::Binary(*expr), 1nat,
    {
        let children = expr.children();
        proof {
            let whole = Expr::Binary(*expr);
            assert(decreases_to!(whole->Binary_0 => whole->Binary_0.right));
        }
        let text = self.parenthesize(
            expr.operator.lexeme.as_str(),
            children.as_slice(),
            Ghost(Expr::Binary(*expr)),
        );
        proof {
            assert(rendered_all(expr_views(children@)) =~= seq![
                rendered(expr.left@),
                rendered(expr.right@),
            ]);
        }
        Value::String(text.unwrap())
    }

    /// `(group inner)`
    fn grouping(&mut self, expr: &Grouping) -> (r: Value)
        ensures
            r@ == ValueView::String(rendered(expr@)),
        decreases Expr::Grouping(*expr), 1nat,
    {
        let children = expr.children();
        proof {
            let whole = Expr::Grouping(*expr);
            assert(decreases_to!(whole->Grouping_0 => whole->Grouping_0.expression));
        }
        let text = self.parenthesize(
            "group",
            children.as_slice(),
            Ghost(Expr::Grouping(*expr)),
        );
        proof {
            assert(rendered_all(expr_views(children@)) =~= seq![rendered(expr.expression@)]);
        }
        Value::String(text.unwrap())
    }

    /// The literal as it is written.
    fn literal(&mut self, expr: &Literal) -> (r: Value)
        ensures
            r@ == ValueView::String(rendered(expr@)),
    {
        match &expr.value {
            Value::Nil => Value::String("nil".to_owned()),
            Value::String(a) => Value::String(a.clone()),
            Value::Number(a) => Value::String(a.clone()),
            Value::Boolean(a) => Value::String(
                if *a {
                    "true".to_owned()
                } else {
                    "false".to_owned()
                },
            ),
        }
    }

    /// `(operator right)`
    fn unary(&mut self, expr: &Unary) -> (r: Value)
        ensures
            r@ == ValueView::String(rendered(expr@)),
        decreases Expr::Unary(*expr), 1nat,
    {
        let children = expr.children();
        proof {
            let whole = Expr::Unary(*expr);
            assert(decreases_to!(whole->Unary_0 => whole->Unary_0.right));
        }
        let text = self.parenthesize(
            expr.operator.lexeme.as_str(),
            children.as_slice(),
            Ghost(Expr::Unary(*expr)),
        );
        proof {
            assert(rendered_all(expr_views(children@)) =~= seq![rendered(expr.right@)]);
        }
        Value::String(text.unwrap())
    }
}

impl Visitor for AstPrinter {
    open spec fn visits_binary(&self, expr: &Binary, after: &Self, result: Value) -> bool {
        result@ == ValueView::String(rendered(expr@)) && *after == *self
    }

    open spec fn visits_grouping(&self, expr: &Grouping, after: &Self, result: Value) -> bool {
        result@ == ValueView::String(rendered(expr@)) && *after == *self
    }

    open spec fn visits_literal(&self, expr: &Literal, after: &Self, result: Value) -> bool {
        result@ == ValueView::String(rendered(expr@)) && *after == *self
    }

    open spec fn visits_unary(&self, expr: &Unary, after: &Self, result: Value) -> bool {
        result@ == ValueView::String(rendered(expr@)) && *after == *self
    }

    fn visit_unary_expr(&mut self, expr: &Unary) -> (r: Value) {
        self.unary(expr)
    }

    fn visit_binary_expr(&mut self, expr: &Binary) -> (r: Value) {
        self.binary(expr)
    }

    fn visit_literal_expr(&mut self, expr: &Literal) -> (r: Value) {
        self.literal(expr)
    }

    fn visit_grouping_expr(&mut self, expr: &Grouping) -> (r: Value) {
        self.grouping(expr)
    }
}

/// A binary node is written as `(operator left right)`.
pub proof fn lemma_binary_text(left: ExprView, operator: TokenView, right: ExprView)
    ensures
        rendered(
            ExprView::Binary { left: Box::new(left), operator, right: Box::new(right) },
        ) == "("@ + operator.lexeme + " "@ + rendered(left) + " "@ + rendered(right) + ")"@,
{
    reveal_strlit("(");
    reveal_strlit(" ");
    reveal_strlit(")");
    reveal_with_fuel(spaced, 3);
}

/// A unary node is written as `(operator right)`.
pub proof fn lemma_unary_text(operator: TokenView, right: ExprView)
    ensures
        rendered(ExprView::Unary { operator, right: Box::new(right) }) == "("@ + operator.lexeme
            + " "@ + rendered(right) + ")"@,
{
    reveal_strlit("(");
    reveal_strlit(" ");
    reveal_strlit(")");
    reveal_with_fuel(spaced, 2);
}

/// A grouping is written as `(group inner)`.
pub proof fn lemma_grouping_text(expression: ExprView)
    ensures
        rendered(ExprView::Grouping { expression: Box::new(expression) }) == "(group "@
            + rendered(expression) + ")"@,
{
    reveal_strlit("(group ");
    reveal_strlit("group");
    reveal_strlit(")");
    reveal_with_fuel(spaced, 2);
}

/// The text of an expression depends on what the tree holds and on nothing
/// else: two trees that hold the same are written the same.
pub proof fn lemma_text_is_of_the_tree(a: Expr, b: Expr)
    requires
        a@ == b@,
    ensures
        rendered(a@) == rendered(b@),
{
}

} // verus!
