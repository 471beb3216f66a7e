use crate::query::structs::expression::{ExpressionOperator, ExpressionResult, ValueView};
use crate::utils::errors::{agrees, ErrorView, Errored};
use crate::utils::text::{
    lemma_text_order_total, lemma_text_order_transitive, push_signed_decimal, same_text,
    signed_decimal, text_less, text_lt,
};
use std::cmp::Ordering;
use vstd::prelude::*;
use vstd::string::*;

verus! {

/// The name of an operator, as it is written in messages.
pub open spec fn operator_name(op: ExpressionOperator) -> Seq<char> {
    match op {
        ExpressionOperator::Nothing => "Nothing"@,
        ExpressionOperator::Equals => "Equals"@,
        ExpressionOperator::NotEquals => "NotEquals"@,
        ExpressionOperator::GreaterThan => "GreaterThan"@,
        ExpressionOperator::LessThan => "LessThan"@,
        ExpressionOperator::GreaterOrEqual => "GreaterOrEqual"@,
        ExpressionOperator::LessOrEqual => "LessOrEqual"@,
        ExpressionOperator::And => "And"@,
        ExpressionOperator::Or => "Or"@,
        ExpressionOperator::Not => "Not"@,
    }
}

/// The message for an operator that does not compare integers.
pub open spec fn bad_int_comparison(op: ExpressionOperator) -> Seq<char> {
    "invalid comparison for ints: "@ + operator_name(op)
}

/// The message for an operator that does not compare texts.
pub open spec fn bad_str_comparison(op: ExpressionOperator) -> Seq<char> {
    "invalid comparison for str: "@ + operator_name(op)
}

/// The message for an operator that does not connect booleans.
pub open spec fn bad_bool_comparison(op: ExpressionOperator) -> Seq<char> {
    "invalid comparison for bool: "@ + operator_name(op)
}

/// The comparison `op` of two integers, in their numeric order.
pub open spec fn compare_ints_spec(l: i64, r: i64, op: ExpressionOperator) -> Result<
    ValueView,
    ErrorView,
> {
    match op {
        ExpressionOperator::Equals => Ok(ValueView::Bool(l == r)),
        ExpressionOperator::NotEquals => Ok(ValueView::Bool(l != r)),
        ExpressionOperator::GreaterThan => Ok(ValueView::Bool(l > r)),
        ExpressionOperator::LessThan => Ok(ValueView::Bool(l < r)),
        ExpressionOperator::GreaterOrEqual => Ok(ValueView::Bool(l >= r)),
        ExpressionOperator::LessOrEqual => Ok(ValueView::Bool(l <= r)),
        _ => Err(ErrorView::Syntax(bad_int_comparison(op))),
    }
}

/// The comparison `op` of two texts, in lexicographic order.
pub open spec fn compare_str_spec(l: Seq<char>, r: Seq<char>, op: ExpressionOperator) -> Result<
    ValueView,
    ErrorView,
> {
    match op {
        ExpressionOperator::Equals => Ok(ValueView::Bool(l == r)),
        ExpressionOperator::NotEquals => Ok(ValueView::Bool(l != r)),
        ExpressionOperator::GreaterThan => Ok(ValueView::Bool(text_less(r, l))),
        ExpressionOperator::LessThan => Ok(ValueView::Bool(text_less(l, r))),
        ExpressionOperator::GreaterOrEqual => Ok(ValueView::Bool(!text_less(l, r))),
        ExpressionOperator::LessOrEqual => Ok(ValueView::Bool(!text_less(r, l))),
        _ => Err(ErrorView::Syntax(bad_str_comparison(op))),
    }
}

/// The connective `op` of two booleans; `Not` negates the left one.
pub open spec fn compare_bools_spec(l: bool, r: bool, op: ExpressionOperator) -> Result<
    ValueView,
    ErrorView,
> {
    match op {
        ExpressionOperator::And => Ok(ValueView::Bool(l && r)),
        ExpressionOperator::Or => Ok(ValueView::Bool(l || r)),
        ExpressionOperator::Not => Ok(ValueView::Bool(!l)),
        _ => Err(ErrorView::Syntax(bad_bool_comparison(op))),
    }
}

/// A value as it is written in messages.
pub open spec fn value_text(v: ValueView) -> Seq<char> {
    match v {
        ValueView::Int(n) => "Int("@ + signed_decimal(n as int) + ")"@,
        ValueView::Str(s) => "Str(\""@ + s + "\")"@,
        ValueView::Bool(b) => if b {
            "Bool(true)"@
        } else {
            "Bool(false)"@
        },
    }
}

/// The message for two values of two types that were to be ordered.
pub open spec fn incomparable_message(a: ValueView, b: ValueView) -> Seq<char> {
    "Cannot compare different types: "@ + value_text(a) + " and "@ + value_text(b)
}

/// How two values of one type are ordered: integers by number, texts
/// lexicographically, `false` before `true`. Values of two types have no
/// order.
pub open spec fn ordering_of(a: ValueView, b: ValueView) -> Option<Ordering> {
    match (a, b) {
        (ValueView::Int(x), ValueView::Int(y)) => Some(
            if x < y {
                Ordering::Less
            } else if x == y {
                Ordering::Equal
            } else {
                Ordering::Greater
            },
        ),
        (ValueView::Str(x), ValueView::Str(y)) => Some(
            if text_less(x, y) {
                Ordering::Less
            } else if x == y {
                Ordering::Equal
            } else {
                Ordering::Greater
            },
        ),
        (ValueView::Bool(x), ValueView::Bool(y)) => Some(
            if !x && y {
                Ordering::Less
            } else if x == y {
                Ordering::Equal
            } else {
                Ordering::Greater
            },
        ),
        _ => None,
    }
}

/// How one value stands to another.
#[derive(Debug, PartialEq, Eq, Clone, Copy, Structural)]
pub enum Comparison {
    Less,
    Equal,
    Greater,
}

/// How `a` stands to `b` where rows are sorted: in the order of their
/// type, and equal where they are of two types.
pub open spec fn comparison_of(a: ValueView, b: ValueView) -> Comparison {
    match ordering_of(a, b) {
        Some(Ordering::Less) => Comparison::Less,
        Some(Ordering::Greater) => Comparison::Greater,
        _ => Comparison::Equal,
    }
}

/// Comparisons of typed values.
pub struct ExpressionComparator;

impl ExpressionComparator {
    /// Compares two integers with one of the six comparison operators.
    pub fn compare_ints(l: i64, r: i64, op: &ExpressionOperator) -> (res: Result<
        ExpressionResult,
        Errored,
    >)
        ensures
            agrees(res, compare_ints_spec(l, r, *op)),
    {
        match op {
            ExpressionOperator::Equals => Ok(ExpressionResult::Bool(l == r)),
            ExpressionOperator::NotEquals => Ok(ExpressionResult::Bool(l != r)),
            ExpressionOperator::GreaterThan => Ok(ExpressionResult::Bool(l > r)),
            ExpressionOperator::LessThan => Ok(ExpressionResult::Bool(l < r)),
            ExpressionOperator::GreaterOrEqual => Ok(ExpressionResult::Bool(l >= r)),
            ExpressionOperator::LessOrEqual => Ok(ExpressionResult::Bool(l <= r)),
            _ => {
                let mut message = String::from_str("invalid comparison for ints: ");
                message.append(Self::name_of(op));
                Err(Errored::Syntax(message))
            },
        }
    }

    /// Compares two texts with one of the six comparison operators.
    pub fn compare_str(l: &str, r: &str, op: &ExpressionOperator) -> (res: Result<
        ExpressionResult,
        Errored,
    >)
        ensures
            agrees(res, compare_str_spec(l@, r@, *op)),
    {
        match op {
            ExpressionOperator::Equals => Ok(ExpressionResult::Bool(same_text(l, r))),
            ExpressionOperator::NotEquals => Ok(ExpressionResult::Bool(!same_text(l, r))),
            ExpressionOperator::GreaterThan => Ok(ExpressionResult::Bool(text_lt(r, l))),
            ExpressionOperator::LessThan => Ok(ExpressionResult::Bool(text_lt(l, r))),
            ExpressionOperator::GreaterOrEqual => Ok(ExpressionResult::Bool(!text_lt(l, r))),
            ExpressionOperator::LessOrEqual => Ok(ExpressionResult::Bool(!text_lt(r, l))),
            _ => {
                let mut message = String::from_str("invalid comparison for str: ");
                message.append(Self::name_of(op));
                Err(Errored::Syntax(message))
            },
        }
    }

    /// Combines two booleans with `And`, `Or` or `Not`.
    pub fn compare_bools(l: bool, r: bool, op: &ExpressionOperator) -> (res: Result<
        ExpressionResult,
        Errored,
    >)
        ensures
            agrees(res, compare_bools_spec(l, r, *op)),
    {
        match op {
            ExpressionOperator::And => Ok(ExpressionResult::Bool(l && r)),
            ExpressionOperator::Or => Ok(ExpressionResult::Bool(l || r)),
            ExpressionOperator::Not => Ok(ExpressionResult::Bool(!l)),
            _ => {
                let mut message = String::from_str("invalid comparison for bool: ");
                message.append(Self::name_of(op));
                Err(Errored::Syntax(message))
            },
        }
    }

    /// Orders two values of the same type; fails on values of two types.
    pub fn compare_ordering(this: &ExpressionResult, other: &ExpressionResult) -> (res: Result<
        Ordering,
        Errored,
    >)
        ensures
            match ordering_of(this@, other@) {
                Some(o) => res is Ok && res->Ok_0 == o,
                None => res is Err && res->Err_0@ == ErrorView::Syntax(
                    incomparable_message(this@, other@),
                ),
            },
    {
        match (this, other) {
            (ExpressionResult::Int(a), ExpressionResult::Int(b)) => {
                if *a < *b {
                    Ok(Ordering::Less)
                } else if *a == *b {
                    Ok(Ordering::Equal)
                } else {
                    Ok(Ordering::Greater)
                }
            },
            (ExpressionResult::Str(a), ExpressionResult::Str(b)) => {
                if text_lt(a.as_str(), b.as_str()) {
                    Ok(Ordering::Less)
                } else if same_text(a.as_str(), b.as_str()) {
                    Ok(Ordering::Equal)
                } else {
                    Ok(Ordering::Greater)
                }
            },
            (ExpressionResult::Bool(a), ExpressionResult::Bool(b)) => {
                if !*a && *b {
                    Ok(Ordering::Less)
                } else if *a == *b {
                    Ok(Ordering::Equal)
                } else {
                    Ok(Ordering::Greater)
                }
            },
            _ => {
                let mut message = String::from_str("Cannot compare different types: ");
                Self::push_value(&mut message, this);
                message.append(" and ");
                Self::push_value(&mut message, other);
                Err(Errored::Syntax(message))
            },
        }
    }

    /// How `this` stands to `other` where rows are sorted: values of two
    /// types count as equal.
    pub fn compare_values(this: &ExpressionResult, other: &ExpressionResult) -> (c: Comparison)
        ensures
            c == comparison_of(this@, other@),
    {
        match Self::compare_ordering(this, other) {
            Ok(Ordering::Less) => Comparison::Less,
            Ok(Ordering::Greater) => Comparison::Greater,
            _ => Comparison::Equal,
        }
    }

    /// The name of an operator, as it is written in messages.
    pub fn name_of(op: &ExpressionOperator) -> (name: &'static str)
        ensures
            name@ == operator_name(*op),
    {
        match op {
            ExpressionOperator::Nothing => "Nothing",
            ExpressionOperator::Equals => "Equals",
            ExpressionOperator::NotEquals => "NotEquals",
            ExpressionOperator::GreaterThan => "GreaterThan",
            ExpressionOperator::LessThan => "LessThan",
            ExpressionOperator::GreaterOrEqual => "GreaterOrEqual",
            ExpressionOperator::LessOrEqual => "LessOrEqual",
            ExpressionOperator::And => "And",
            ExpressionOperator::Or => "Or",
            ExpressionOperator::Not => "Not",
        }
    }

    /// Appends a value, as it is written in messages.
    fn push_value(message: &mut String, value: &ExpressionResult)
        ensures
            final(message)@ == old(message)@ + value_text(value@),
    {
        match value {
            ExpressionResult::Int(n) => {
                message.append("Int(");
                push_signed_decimal(message, *n);
                message.append(")");
            },
            ExpressionResult::Str(s) => {
                message.append("Str(\"");
                message.append(s.as_str());
                message.append("\")");
            },
            ExpressionResult::Bool(b) => {
                if *b {
                    message.append("Bool(true)");
                } else {
                    message.append("Bool(false)");
                }
            },
        }
    }
}

/// The comparison seen from the other side.
pub open spec fn reversed(c: Comparison) -> Comparison {
    match c {
        Comparison::Less => Comparison::Greater,
        Comparison::Equal => Comparison::Equal,
        Comparison::Greater => Comparison::Less,
    }
}

/// Whether two values are of one type.
pub open spec fn same_type(x: ValueView, y: ValueView) -> bool {
    (x is Int && y is Int) || (x is Str && y is Str) || (x is Bool && y is Bool)
}

/// Comparing the other way round gives the reversed comparison.
pub proof fn lemma_comparison_reverses(x: ValueView, y: ValueView)
    ensures
        comparison_of(y, x) == reversed(comparison_of(x, y)),
{
    if x is Str && y is Str {
        lemma_text_order_total(x->Str_0, y->Str_0);
    }
}

/// Among values of one type "not greater" is transitive, and values
/// between two equal ones are equal to both.
pub proof fn lemma_comparison_orders(x: ValueView, y: ValueView, z: ValueView)
    requires
        same_type(x, y),
        same_type(y, z),
        comparison_of(x, y) != Comparison::Greater,
        comparison_of(y, z) != Comparison::Greater,
    ensures
        comparison_of(x, z) != Comparison::Greater,
        comparison_of(x, z) == Comparison::Equal ==> comparison_of(x, y) == Comparison::Equal
            && comparison_of(y, z) == Comparison::Equal,
{
    if x is Str {
        let (a, b, c) = (x->Str_0, y->Str_0, z->Str_0);
        lemma_text_order_total(a, b);
        lemma_text_order_total(b, c);
        lemma_text_order_total(a, c);
        if text_less(a, b) && text_less(b, c) {
            lemma_text_order_transitive(a, b, c);
        }
    }
}

} // verus!
