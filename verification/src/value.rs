//! Runtime values.

use vstd::prelude::*;
use vstd::string::*;

verus! {

/// The native `clock` function.
#[derive(PartialEq, Eq, Structural, Clone, Copy, Debug, Default)]
pub struct Clock {}

/// A value of the language.
///
/// A number is held as a decimal text. In the tree it is the numeral as it
/// was written; at run time it is the text that the host answered with,
/// for every number of a running program has come from the host. The
/// library never computes with numbers: it moves them. One number may be
/// written in many ways, so the text tells that two numbers are the same
/// only where it is the same text; whether two numbers that are written
/// differently are equal is asked of the host, as every other relation
/// between numbers is. Functions, classes and instances are shared and
/// mutable, so a value names them by a handle into the interpreter's heap;
/// two such values are the same object exactly when their handles are
/// equal.
#[derive(Debug)]
pub enum LiteralValue {
    Nil,
    Boolean(bool),
    Number(String),
    String(String),
    Clock(Clock),
    Function(usize),
    LoxClass(usize),
    Instance(usize),
}

/// The mathematical view of a value: texts are sequences of characters.
pub enum ValueView {
    Nil,
    Boolean(bool),
    Number(Seq<char>),
    String(Seq<char>),
    Clock,
    Function(usize),
    LoxClass(usize),
    Instance(usize),
}

impl View for LiteralValue {
    type V = ValueView;

    open spec fn view(&self) -> ValueView {
        match *self {
            LiteralValue::Nil => ValueView::Nil,
            LiteralValue::Boolean(b) => ValueView::Boolean(b),
            LiteralValue::Number(n) => ValueView::Number(n@),
            LiteralValue::String(s) => ValueView::String(s@),
            LiteralValue::Clock(_) => ValueView::Clock,
            LiteralValue::Function(h) => ValueView::Function(h),
            LiteralValue::LoxClass(h) => ValueView::LoxClass(h),
            LiteralValue::Instance(h) => ValueView::Instance(h),
        }
    }
}

impl Default for LiteralValue {
    fn default() -> (r: Self)
        ensures
            r == LiteralValue::Nil,
    {
        LiteralValue::Nil
    }
}

/// The view of an optional value.
pub open spec fn optional_value_view(value: Option<LiteralValue>) -> Option<ValueView> {
    match value {
        Some(v) => Some(v@),
        None => None,
    }
}

/// The views of a sequence of values, in order.
pub open spec fn values_view(values: Seq<LiteralValue>) -> Seq<ValueView> {
    Seq::new(values.len(), |i: int| values[i]@)
}

/// Whether a sequence of characters holds a decimal point.
pub open spec fn has_point(text: Seq<char>) -> bool {
    exists|i: int| 0 <= i < text.len() && text[i] == '.'
}

/// The text of a number as a value is displayed: whole numbers get a
/// trailing `.0`.
pub open spec fn number_text(text: Seq<char>) -> Seq<char> {
    if has_point(text) {
        text
    } else {
        text + ".0"@
    }
}

/// The text by which a value is displayed when nothing is known of the
/// heap: a function, a class or an instance shows its kind only.
pub open spec fn display_text(value: ValueView) -> Seq<char> {
    match value {
        ValueView::Nil => "nil"@,
        ValueView::Boolean(b) => if b {
            "true"@
        } else {
            "false"@
        },
        ValueView::Number(n) => number_text(n),
        ValueView::String(s) => s,
        ValueView::Clock => "<native fn>"@,
        ValueView::Function(_) => "<fn>"@,
        ValueView::LoxClass(_) => "<class>"@,
        ValueView::Instance(_) => "<instance>"@,
    }
}

/// Truthiness: `nil` and `false` are falsy, every other value is truthy.
pub open spec fn truthy(value: ValueView) -> bool {
    match value {
        ValueView::Nil => false,
        ValueView::Boolean(b) => b,
        _ => true,
    }
}

/// Equality of values, as far as it can be told without arithmetic.
/// `nil` equals `nil`; booleans and strings are equal when they hold the
/// same thing; functions, classes and instances are equal when they are
/// the same object; values of different kinds are not equal. Numbers are
/// equal when they are the same number, however they are written: two
/// numbers with the same text are, and of two numbers with different texts,
/// such as `1` and `1.0`, only arithmetic can tell. For them the result is
/// `None`.
pub open spec fn equality(left: ValueView, right: ValueView) -> Option<bool> {
    match (left, right) {
        (ValueView::Number(a), ValueView::Number(b)) => if a == b {
            Some(true)
        } else {
            None
        },
        _ => Some(left == right),
    }
}

/// Whether the text holds a decimal point.
pub fn contains_point(text: &str) -> (r: bool)
    ensures
        r == has_point(text@),
{
    let n = text.unicode_len();
    let mut i: usize = 0;
    while i < n
        invariant
            n == text@.len(),
            i <= n,
            forall|j: int| 0 <= j < i ==> text@[j] != '.',
        decreases n - i,
    {
        if text.get_char(i) == '.' {
            return true;
        }
        i += 1;
    }
    false
}

impl Clone for LiteralValue {
    fn clone(&self) -> (r: Self)
        ensures
            r == *self,
    {
        match self {
            LiteralValue::Nil => LiteralValue::Nil,
            LiteralValue::Boolean(b) => LiteralValue::Boolean(*b),
            LiteralValue::Number(n) => LiteralValue::Number(n.clone()),
            LiteralValue::String(s) => LiteralValue::String(s.clone()),
            LiteralValue::Clock(c) => LiteralValue::Clock(*c),
            LiteralValue::Function(h) => LiteralValue::Function(*h),
            LiteralValue::LoxClass(h) => LiteralValue::LoxClass(*h),
            LiteralValue::Instance(h) => LiteralValue::Instance(*h),
        }
    }
}

impl LiteralValue {
    /// Whether the value counts as true in a condition.
    pub fn is_truthy(&self) -> (r: bool)
        ensures
            r == truthy(self@),
    {
        match self {
            LiteralValue::Nil => false,
            LiteralValue::Boolean(b) => *b,
            _ => true,
        }
    }

    /// Whether two values are equal in the language's sense, where that
    /// can be told without arithmetic: of two numbers that are written
    /// differently it cannot, and the result is `None`.
    pub fn is_equal(&self, other: &LiteralValue) -> (r: Option<bool>)
        ensures
            r == equality(self@, other@),
    {
        match (self, other) {
            (LiteralValue::Nil, LiteralValue::Nil) => Some(true),
            (LiteralValue::Boolean(a), LiteralValue::Boolean(b)) => Some(*a == *b),
            (LiteralValue::Number(a), LiteralValue::Number(b)) => if *a == *b {
                Some(true)
            } else {
                None
            },
            (LiteralValue::String(a), LiteralValue::String(b)) => {
                let same = *a == *b;
                assert(same == (a@ == b@));
                Some(same)
            },
            (LiteralValue::Clock(_), LiteralValue::Clock(_)) => Some(true),
            (LiteralValue::Function(a), LiteralValue::Function(b)) => Some(*a == *b),
            (LiteralValue::LoxClass(a), LiteralValue::LoxClass(b)) => Some(*a == *b),
            (LiteralValue::Instance(a), LiteralValue::Instance(b)) => Some(*a == *b),
            _ => Some(false),
        }
    }

    /// The text by which the value is displayed.
    pub fn to_string(&self) -> (r: String)
        ensures
            r@ == display_text(self@),
    {
        match self {
            LiteralValue::Nil => String::from_str("nil"),
            LiteralValue::Boolean(b) => if *b {
                String::from_str("true")
            } else {
                String::from_str("false")
            },
            LiteralValue::Number(n) => {
                if contains_point(n.as_str()) {
                    n.clone()
                } else {
                    n.clone().concat(".0")
                }
            },
            LiteralValue::String(s) => s.clone(),
            LiteralValue::Clock(_) => String::from_str("<native fn>"),
            LiteralValue::Function(_) => String::from_str("<fn>"),
            LiteralValue::LoxClass(_) => String::from_str("<class>"),
            LiteralValue::Instance(_) => String::from_str("<instance>"),
        }
    }
}

/// Every value is either truthy or falsy, and the falsy ones are exactly
/// `nil` and `false`.
pub proof fn truthiness_is_total(value: ValueView)
    ensures
        truthy(value) || !truthy(value),
        !truthy(value) <==> (value == ValueView::Nil || value == ValueView::Boolean(false)),
{
}

/// A value is equal to itself. It holds of every value, and so of every
/// `nil`, boolean, number and string.
pub proof fn equality_is_reflexive(value: ValueView)
    ensures
        equality(value, value) == Some(true),
{
}

/// Where equality is told without arithmetic, two values are equal exactly
/// when they are the same; and it is told of every two values but of two
/// numbers that are written differently.
pub proof fn equality_is_sameness(left: ValueView, right: ValueView)
    ensures
        equality(left, right) matches Some(equal) ==> equal == (left == right),
        equality(left, right) is None <==> left is Number && right is Number && left != right,
{
}

} // verus!
