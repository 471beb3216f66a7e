use crate::query::structs::comparator::{
    compare_bools_spec, compare_ints_spec, compare_str_spec, ExpressionComparator,
};
use crate::query::structs::token::{Token, TokenKind, TokenView};
use crate::utils::errors::{agrees, ErrorView, Errored};
use crate::utils::text::{parse_i64, parse_int};
use vstd::hash_map::StringHashMap;
use vstd::prelude::*;
use vstd::string::*;

verus! {

/// The operators of expressions: no operator, the six comparisons and the three
/// logical connectives.
#[derive(Debug, PartialEq, Eq, Clone, Copy, Structural)]
pub enum ExpressionOperator {
    Nothing,
    Equals,
    NotEquals,
    GreaterThan,
    LessThan,
    GreaterOrEqual,
    LessOrEqual,
    And,
    Or,
    Not,
}

impl Default for ExpressionOperator {
    fn default() -> (op: ExpressionOperator)
        ensures
            op == ExpressionOperator::Nothing,
    {
        ExpressionOperator::Nothing
    }
}

/// An expression tree: nothing, one token, or an operator over two
/// subtrees that the node owns.
#[derive(Debug, PartialEq)]
pub enum ExpressionNode {
    Empty,
    Leaf(Token),
    Statement { operator: ExpressionOperator, left: Box<ExpressionNode>, right: Box<ExpressionNode> },
}

/// An [`ExpressionNode`] over [`TokenView`]s.
pub enum ExpressionView {
    Empty,
    Leaf(TokenView),
    Statement { operator: ExpressionOperator, left: Box<ExpressionView>, right: Box<ExpressionView> },
}

/// A value that an expression evaluates to.
#[derive(Debug, PartialEq)]
pub enum ExpressionResult {
    Int(i64),
    Str(String),
    Bool(bool),
}

/// An [`ExpressionResult`] with its text as a sequence of characters.
pub enum ValueView {
    Int(i64),
    Str(Seq<char>),
    Bool(bool),
}

impl View for ExpressionResult {
    type V = ValueView;

    open spec fn view(&self) -> ValueView {
        match self {
            ExpressionResult::Int(n) => ValueView::Int(*n),
            ExpressionResult::Str(s) => ValueView::Str(s@),
            ExpressionResult::Bool(b) => ValueView::Bool(*b),
        }
    }
}

impl DeepView for ExpressionResult {
    type V = ValueView;

    open spec fn deep_view(&self) -> ValueView {
        self@
    }
}

impl ExpressionNode {
    /// The tree over the views of its tokens.
    pub open spec fn model(&self) -> ExpressionView
        decreases self,
    {
        match self {
            ExpressionNode::Empty => ExpressionView::Empty,
            ExpressionNode::Leaf(t) => ExpressionView::Leaf(t@),
            ExpressionNode::Statement { operator, left, right } => ExpressionView::Statement {
                operator: *operator,
                left: Box::new(left.model()),
                right: Box::new(right.model()),
            },
        }
    }
}

impl View for ExpressionNode {
    type V = ExpressionView;

    open spec fn view(&self) -> ExpressionView {
        self.model()
    }
}

impl DeepView for ExpressionNode {
    type V = ExpressionView;

    open spec fn deep_view(&self) -> ExpressionView {
        self.model()
    }
}

impl Default for ExpressionNode {
    fn default() -> (node: ExpressionNode)
        ensures
            node@ == ExpressionView::Empty,
    {
        ExpressionNode::Empty
    }
}

/// The values of a record by column name, as texts.
pub open spec fn context(values: Map<Seq<char>, String>) -> Map<Seq<char>, Seq<char>> {
    values.map_values(|v: String| v@)
}

/// The message for a column that the record does not have.
pub open spec fn missing_column_message(name: Seq<char>) -> Seq<char> {
    "column "@ + name + " does not exist"@
}

/// The message for a number literal that does not fit.
pub open spec fn bad_number_message(text: Seq<char>) -> Seq<char> {
    "PARSE_INT - "@ + text + " does not fit a 64-bit integer"@
}

/// The message for a statement over values of two types.
pub open spec fn mismatch_message() -> Seq<char> {
    "expression members must match in type."@
}

/// A text as a value: an integer where it reads as one, else the text.
pub open spec fn typed_value(text: Seq<char>) -> ValueView {
    match parse_int(text) {
        Some(n) => ValueView::Int(n),
        None => ValueView::Str(text),
    }
}

/// The value of the column that `t` names.
pub open spec fn variable_value(values: Map<Seq<char>, Seq<char>>, t: TokenView) -> Result<
    ValueView,
    ErrorView,
> {
    if values.contains_key(t.value) {
        Ok(typed_value(values[t.value]))
    } else {
        Err(ErrorView::Column(missing_column_message(t.value)))
    }
}

/// The value of `operator` applied to two values: comparisons on two
/// integers or two texts, connectives on two booleans.
pub open spec fn statement_value(
    operator: ExpressionOperator,
    left: ValueView,
    right: ValueView,
) -> Result<ValueView, ErrorView> {
    match (left, right) {
        (ValueView::Int(l), ValueView::Int(r)) => compare_ints_spec(l, r, operator),
        (ValueView::Str(l), ValueView::Str(r)) => compare_str_spec(l, r, operator),
        (ValueView::Bool(l), ValueView::Bool(r)) => compare_bools_spec(l, r, operator),
        _ => Err(ErrorView::Syntax(mismatch_message())),
    }
}

/// The value of a leaf: a column's value for an identifier, the literal for
/// a string or a number, `false` for any other token.
pub open spec fn leaf_value(t: TokenView, values: Map<Seq<char>, Seq<char>>) -> Result<
    ValueView,
    ErrorView,
> {
    match t.kind {
        TokenKind::Identifier => variable_value(values, t),
        TokenKind::String => Ok(ValueView::Str(t.value)),
        TokenKind::Number => match parse_int(t.value) {
            Some(n) => Ok(ValueView::Int(n)),
            None => Err(ErrorView::Default(bad_number_message(t.value))),
        },
        _ => Ok(ValueView::Bool(false)),
    }
}

/// The value of `node` for a record with the given values. The empty
/// expression is true; the left side is evaluated first and its error wins.
pub open spec fn eval(node: ExpressionView, values: Map<Seq<char>, Seq<char>>) -> Result<
    ValueView,
    ErrorView,
>
    decreases node,
{
    match node {
        ExpressionView::Empty => Ok(ValueView::Bool(true)),
        ExpressionView::Leaf(t) => leaf_value(t, values),
        ExpressionView::Statement { operator, left, right } => match eval(*left, values) {
            Err(e) => Err(e),
            Ok(l) => match eval(*right, values) {
                Err(e) => Err(e),
                Ok(r) => statement_value(operator, l, r),
            },
        },
    }
}

/// The message for an assignment whose sides are not both leaves.
pub open spec fn not_leaves_message() -> Seq<char> {
    "both sides of expression must be leaf nodes."@
}

/// The message for a statement over two leaves with another operator than
/// `Equals`.
pub open spec fn not_assignment_message() -> Seq<char> {
    "expected an assignment with the operator Equals."@
}

/// The message for an expression that is no statement.
pub open spec fn not_statement_message() -> Seq<char> {
    "expected a statement, but got an empty expression or a single value."@
}

/// The column and the value of an assignment: a statement with the
/// operator `Equals` over two leaves.
pub open spec fn leaf_pair(node: ExpressionView) -> Result<(TokenView, TokenView), ErrorView> {
    match node {
        ExpressionView::Statement { operator, left, right } => match (*left, *right) {
            (ExpressionView::Leaf(l), ExpressionView::Leaf(r)) => if operator
                == ExpressionOperator::Equals {
                Ok((l, r))
            } else {
                Err(ErrorView::Default(not_assignment_message()))
            },
            _ => Err(ErrorView::Default(not_leaves_message())),
        },
        _ => Err(ErrorView::Default(not_statement_message())),
    }
}

/// Whether every one of `updates` is an assignment.
pub open spec fn all_assignments(updates: Seq<ExpressionView>) -> bool {
    forall|k: int| 0 <= k < updates.len() ==> leaf_pair(#[trigger] updates[k]) is Ok
}

impl ExpressionNode {
    /// Evaluates the expression for a record whose values are given by
    /// column name.
    pub fn evaluate(&self, values: &StringHashMap<String>) -> (r: Result<ExpressionResult, Errored>)
        ensures
            agrees(r, eval(self@, context(values@))),
        decreases self,
    {
        match self {
            ExpressionNode::Empty => Ok(ExpressionResult::Bool(true)),
            ExpressionNode::Leaf(t) => match t.kind {
                TokenKind::Identifier => ExpressionNode::get_variable_value(values, t),
                TokenKind::String => Ok(ExpressionResult::Str(t.value.clone())),
                TokenKind::Number => match parse_i64(t.value.as_str()) {
                    Some(n) => Ok(ExpressionResult::Int(n)),
                    None => {
                        let mut message = String::from_str("PARSE_INT - ");
                        message.append(t.value.as_str());
                        message.append(" does not fit a 64-bit integer");
                        Err(Errored::Default(message))
                    },
                },
                _ => Ok(ExpressionResult::Bool(false)),
            },
            ExpressionNode::Statement { operator, left, right } => {
                let l = left.evaluate(values)?;
                let r = right.evaluate(values)?;
                ExpressionNode::get_statement_value(operator, l, r)
            },
        }
    }

    /// Applies `operator` to two values of the same type.
    fn get_statement_value(
        operator: &ExpressionOperator,
        left: ExpressionResult,
        right: ExpressionResult,
    ) -> (r: Result<ExpressionResult, Errored>)
        ensures
            agrees(r, statement_value(*operator, left@, right@)),
    {
        match (left, right) {
            (ExpressionResult::Int(l), ExpressionResult::Int(r)) => {
                ExpressionComparator::compare_ints(l, r, operator)
            },
            (ExpressionResult::Str(l), ExpressionResult::Str(r)) => {
                ExpressionComparator::compare_str(l.as_str(), r.as_str(), operator)
            },
            (ExpressionResult::Bool(l), ExpressionResult::Bool(r)) => {
                ExpressionComparator::compare_bools(l, r, operator)
            },
            _ => Err(Errored::Syntax(String::from_str("expression members must match in type."))),
        }
    }

    /// The value of the column that `t` names: an integer where the text
    /// reads as one, else the text. Fails where the record has no such column.
    pub fn get_variable_value(values: &StringHashMap<String>, t: &Token) -> (r: Result<
        ExpressionResult,
        Errored,
    >)
        ensures
            agrees(r, variable_value(context(values@), t@)),
    {
        match values.get(t.value.as_str()) {
            Some(v) => match parse_i64(v.as_str()) {
                Some(n) => Ok(ExpressionResult::Int(n)),
                None => Ok(ExpressionResult::Str(v.clone())),
            },
            None => {
                let mut message = String::from_str("column ");
                message.append(t.value.as_str());
                message.append(" does not exist");
                Err(Errored::Column(message))
            },
        }
    }

    /// The two leaves of an assignment: the column, then the value.
    pub fn as_leaf_tuple(&self) -> (r: Result<(&Token, &Token), Errored>)
        ensures
            match leaf_pair(self@) {
                Ok((l, r_)) => r is Ok && r->Ok_0.0@ == l && r->Ok_0.1@ == r_,
                Err(e) => r is Err && r->Err_0@ == e,
            },
    {
        match self {
            ExpressionNode::Statement { operator, left, right } => match (&**left, &**right) {
                (ExpressionNode::Leaf(l), ExpressionNode::Leaf(r)) => {
                    assert(left.model() == ExpressionView::Leaf(l@));
                    assert(right.model() == ExpressionView::Leaf(r@));
                    if *operator == ExpressionOperator::Equals {
                        Ok((l, r))
                    } else {
                        Err(
                            Errored::Default(
                                String::from_str("expected an assignment with the operator Equals."),
                            ),
                        )
                    }
                },
                _ => {
                    Err(
                        Errored::Default(
                            String::from_str("both sides of expression must be leaf nodes."),
                        ),
                    )
                },
            },
            _ => Err(
                Errored::Default(
                    String::from_str(
                        "expected a statement, but got an empty expression or a single value.",
                    ),
                ),
            ),
        }
    }
}

/// A comparison or a connective between a number and a text fails,
/// whatever the operator: the two sides of a statement have to be of one
/// type.
pub proof fn lemma_mixed_types_fail(
    operator: ExpressionOperator,
    left: ExpressionView,
    right: ExpressionView,
    values: Map<Seq<char>, Seq<char>>,
)
    requires
        eval(left, values) matches Ok(l) && eval(right, values) matches Ok(r) && ((l is Int
            && r is Str) || (l is Str && r is Int)),
    ensures
        eval(
            ExpressionView::Statement { operator, left: Box::new(left), right: Box::new(right) },
            values,
        ) == Err::<ValueView, ErrorView>(ErrorView::Syntax(mismatch_message())),
{
}

/// A statement fails where one of its sides does: no value is made up for
/// a side that has none.
pub proof fn lemma_failure_spreads(
    operator: ExpressionOperator,
    left: ExpressionView,
    right: ExpressionView,
    values: Map<Seq<char>, Seq<char>>,
)
    requires
        eval(left, values) is Err || eval(right, values) is Err,
    ensures
        eval(
            ExpressionView::Statement { operator, left: Box::new(left), right: Box::new(right) },
            values,
        ) is Err,
{
}

/// Whether the expression names a column that `header` does not hold.
pub open spec fn names_unknown_column(node: ExpressionView, header: Seq<Seq<char>>) -> bool
    decreases node,
{
    match node {
        ExpressionView::Empty => false,
        ExpressionView::Leaf(t) => t.kind == TokenKind::Identifier && !header.contains(t.value),
        ExpressionView::Statement { operator, left, right } => names_unknown_column(*left, header)
            || names_unknown_column(*right, header),
    }
}

/// Whether the first part of the expression that fails, from left to
/// right, is a column that `header` does not hold.
pub open spec fn fails_first_at_unknown_column(
    node: ExpressionView,
    header: Seq<Seq<char>>,
    values: Map<Seq<char>, Seq<char>>,
) -> bool
    decreases node,
{
    match node {
        ExpressionView::Empty => false,
        ExpressionView::Leaf(t) => t.kind == TokenKind::Identifier && !header.contains(t.value),
        ExpressionView::Statement { operator, left, right } => fails_first_at_unknown_column(
            *left,
            header,
            values,
        ) || (eval(*left, values) is Ok && fails_first_at_unknown_column(*right, header, values)),
    }
}

/// Whether a record has values for columns of `header` only.
pub open spec fn within_header(values: Map<Seq<char>, Seq<char>>, header: Seq<Seq<char>>) -> bool {
    forall|name: Seq<char>| values.contains_key(name) ==> header.contains(name)
}

/// An expression that names a column that the table does not have fails
/// for every record of the table.
pub proof fn lemma_unknown_column_fails(
    node: ExpressionView,
    header: Seq<Seq<char>>,
    values: Map<Seq<char>, Seq<char>>,
)
    requires
        names_unknown_column(node, header),
        within_header(values, header),
    ensures
        eval(node, values) is Err,
    decreases node,
{
    match node {
        ExpressionView::Statement { operator, left, right } => {
            if names_unknown_column(*left, header) {
                lemma_unknown_column_fails(*left, header, values);
            } else {
                lemma_unknown_column_fails(*right, header, values);
            }
        },
        _ => {},
    }
}

/// An expression fails with a column error where the first of its parts
/// that fails is a column that the table does not have.
pub proof fn lemma_unknown_column_is_reported(
    node: ExpressionView,
    header: Seq<Seq<char>>,
    values: Map<Seq<char>, Seq<char>>,
)
    requires
        fails_first_at_unknown_column(node, header, values),
        within_header(values, header),
    ensures
        eval(node, values) matches Err(e) && e is Column,
    decreases node,
{
    match node {
        ExpressionView::Statement { operator, left, right } => {
            if fails_first_at_unknown_column(*left, header, values) {
                lemma_unknown_column_is_reported(*left, header, values);
            } else {
                lemma_unknown_column_is_reported(*right, header, values);
            }
        },
        _ => {},
    }
}

} // verus!
