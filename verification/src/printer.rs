//! Printing expressions in fully parenthesized prefix form.

use vstd::prelude::*;
use vstd::string::StringExecFns;
use crate::text::write_text;
use crate::value::display_text;
use crate::ast::{
    BinaryExpression, CallExpression, Expression, Grouping, Literal, UnaryExpression,
};

verus! {

/// The texts of a sequence, each behind a blank.
pub open spec fn joined(parts: Seq<Seq<char>>, from: int) -> Seq<char>
    decreases parts.len() - from,
{
    if from < 0 || from >= parts.len() {
        Seq::empty()
    } else {
        " "@ + parts[from] + joined(parts, from + 1)
    }
}

/// A name and the texts of some parts, in parentheses.
pub open spec fn parenthesized(name: Seq<char>, parts: Seq<Seq<char>>) -> Seq<char> {
    "("@ + name + joined(parts, 0) + ")"@
}

/// The prefix form of an expression. A constant is displayed as a value
/// is, a name as it is written; every other expression stands in
/// parentheses, behind its operator or the name of its kind.
pub open spec fn prefix_form(e: Expression) -> Seq<char>
    decreases e,
{
    match e {
        Expression::Literal(n) => display_text(n.value@),
        Expression::Grouping(n) => parenthesized("group"@, seq![prefix_form(*n.expression)]),
        Expression::Unary(n) => parenthesized(
            n.operator.token_value@,
            seq![prefix_form(*n.expression)],
        ),
        Expression::Binary(n) => parenthesized(
            n.operator.token_value@,
            seq![prefix_form(*n.left), prefix_form(*n.right)],
        ),
        Expression::Logical(n) => parenthesized(
            n.operator.token_value@,
            seq![prefix_form(*n.left), prefix_form(*n.right)],
        ),
        Expression::Variable(n) => n.variable.token_value@,
        Expression::Assignment(n) => parenthesized(
            "="@,
            seq![n.name.token_value@, prefix_form(*n.value)],
        ),
        Expression::Call(n) => parenthesized(
            "call"@,
            seq![prefix_form(*n.callee)] + prefix_forms(n.arguments@, 0),
        ),
        Expression::Get(n) => parenthesized(
            "."@,
            seq![prefix_form(*n.expression), n.name.token_value@],
        ),
        Expression::SetField(n) => parenthesized(
            "="@,
            seq![
                parenthesized("."@, seq![prefix_form(*n.expression), n.name.token_value@]),
                prefix_form(*n.value),
            ],
        ),
        Expression::This(n) => n.value.token_value@,
        Expression::Super(n) => parenthesized("super"@, seq![n.method.token_value@]),
    }
}

/// The prefix forms of the expressions of a list from an index on.
pub open spec fn prefix_forms(list: Seq<Expression>, from: int) -> Seq<Seq<char>>
    decreases list, list.len() - from,
{
    if from < 0 || from >= list.len() {
        Seq::empty()
    } else {
        seq![prefix_form(list[from])] + prefix_forms(list, from + 1)
    }
}

/// The views of the texts of a vector, in order.
pub open spec fn texts_view(texts: Seq<String>) -> Seq<Seq<char>> {
    Seq::new(texts.len(), |i: int| texts[i]@)
}

/// The printer's interface: one method for each kind of expression that
/// has a form of its own, and the one that writes the parentheses.
pub trait AstPrinterTrait {
    fn print(&self, expression: &Expression) -> (r: String)
        ensures
            r@ == prefix_form(*expression),
    ;

    fn visit_binary_expression(&self, expression: &BinaryExpression) -> (r: String)
        ensures
            r@ == prefix_form(Expression::Binary(*expression)),
    ;

    fn visit_unary_expression(&self, expression: &UnaryExpression) -> (r: String)
        ensures
            r@ == prefix_form(Expression::Unary(*expression)),
    ;

    fn visit_grouping(&self, expression: &Grouping) -> (r: String)
        ensures
            r@ == prefix_form(Expression::Grouping(*expression)),
    ;

    fn visit_literal(&self, expression: &Literal) -> (r: String)
        ensures
            r@ == prefix_form(Expression::Literal(*expression)),
    ;

    fn paranthesize(&self, name: &str, parts: &Vec<String>) -> (r: String)
        ensures
            r@ == parenthesized(name@, texts_view(parts@)),
    ;
}

/// The printer.
pub struct AstPrinter {}

/// A vector of one text.
fn one(a: String) -> (r: Vec<String>)
    ensures
        texts_view(r@) == seq![a@],
{
    let mut parts: Vec<String> = Vec::new();
    parts.push(a);
    assert(texts_view(parts@) =~= seq![a@]);
    parts
}

/// A vector of two texts.
fn two(a: String, b: String) -> (r: Vec<String>)
    ensures
        texts_view(r@) == seq![a@, b@],
{
    let mut parts: Vec<String> = Vec::new();
    parts.push(a);
    parts.push(b);
    assert(texts_view(parts@) =~= seq![a@, b@]);
    parts
}

/// The prefix form of a call.
fn call_form(n: &CallExpression) -> (r: String)
    ensures
        r@ == prefix_form(Expression::Call(*n)),
    decreases n,
{
    let printer = AstPrinter {  };
    let mut parts = one(form(&n.callee));
    let ghost first = texts_view(parts@);
    assert(prefix_forms(n.arguments@, n.arguments@.len() as int) =~= Seq::empty());
    let mut i: usize = 0;
    while i < n.arguments.len()
        invariant
            i <= n.arguments@.len(),
            texts_view(parts@) + prefix_forms(n.arguments@, i as int) == first + prefix_forms(
                n.arguments@,
                0,
            ),
        decreases n.arguments@.len() - i,
    {
        let ghost before = texts_view(parts@);
        let text = form(&n.arguments[i]);
        parts.push(text);
        assert(texts_view(parts@) =~= before + seq![text@]);
        assert(texts_view(parts@) + prefix_forms(n.arguments@, i + 1) =~= before + prefix_forms(
            n.arguments@,
            i as int,
        ));
        i += 1;
    }
    assert(texts_view(parts@) =~= first + prefix_forms(n.arguments@, 0));
    printer.paranthesize("call", &parts)
}

/// The prefix form of an expression.
pub fn form(expression: &Expression) -> (r: String)
    ensures
        r@ == prefix_form(*expression),
    decreases expression,
{
    let printer = AstPrinter {  };
    match expression {
        Expression::Literal(n) => n.value.to_string(),
        Expression::Grouping(n) => printer.paranthesize("group", &one(form(&n.expression))),
        Expression::Unary(n) => printer.paranthesize(
            n.operator.token_value.as_str(),
            &one(form(&n.expression)),
        ),
        Expression::Binary(n) => printer.paranthesize(
            n.operator.token_value.as_str(),
            &two(form(&n.left), form(&n.right)),
        ),
        Expression::Logical(n) => printer.paranthesize(
            n.operator.token_value.as_str(),
            &two(form(&n.left), form(&n.right)),
        ),
        Expression::Variable(n) => n.variable.token_value.clone(),
        Expression::Assignment(n) => printer.paranthesize(
            "=",
            &two(n.name.token_value.clone(), form(&n.value)),
        ),
        Expression::Call(n) => call_form(n),
        Expression::Get(n) => printer.paranthesize(
            ".",
            &two(form(&n.expression), n.name.token_value.clone()),
        ),
        Expression::SetField(n) => {
            let target = printer.paranthesize(
                ".",
                &two(form(&n.expression), n.name.token_value.clone()),
            );
            printer.paranthesize("=", &two(target, form(&n.value)))
        },
        Expression::This(n) => n.value.token_value.clone(),
        Expression::Super(n) => printer.paranthesize("super", &one(n.method.token_value.clone())),
    }
}

impl AstPrinterTrait for AstPrinter {
    fn print(&self, expression: &Expression) -> (r: String) {
        form(expression)
    }

    fn visit_binary_expression(&self, expression: &BinaryExpression) -> (r: String) {
        self.paranthesize(
            expression.operator.token_value.as_str(),
            &two(form(&expression.left), form(&expression.right)),
        )
    }

    fn visit_unary_expression(&self, expression: &UnaryExpression) -> (r: String) {
        self.paranthesize(
            expression.operator.token_value.as_str(),
            &one(form(&expression.expression)),
        )
    }

    fn visit_grouping(&self, expression: &Grouping) -> (r: String) {
        self.paranthesize("group", &one(form(&expression.expression)))
    }

    fn visit_literal(&self, expression: &Literal) -> (r: String) {
        expression.value.to_string()
    }

    fn paranthesize(&self, name: &str, parts: &Vec<String>) -> (r: String) {
        let mut result = String::from_str("(");
        write_text(&mut result, name);
        let ghost views = texts_view(parts@);
        assert(joined(views, views.len() as int) =~= Seq::empty());
        let mut i: usize = 0;
        while i < parts.len()
            invariant
                i <= parts@.len(),
                views == texts_view(parts@),
                result@ + joined(views, i as int) == "("@ + name@ + joined(views, 0),
            decreases parts@.len() - i,
        {
            let ghost before = result@;
            write_text(&mut result, " ");
            write_text(&mut result, parts[i].as_str());
            assert(result@ + joined(views, i + 1) =~= before + joined(views, i as int));
            i += 1;
        }
        assert(result@ =~= "("@ + name@ + joined(views, 0));
        write_text(&mut result, ")");
        result
    }
}

impl Expression {
    /// The expression in fully parenthesized prefix form.
    pub fn expression_print(&self) -> (r: String)
        ensures
            r@ == prefix_form(*self),
    {
        form(self)
    }
}

} // verus!
