use crate::query::builder::{parsed, take_front, Reading};
use crate::query::structs::expression::{ExpressionNode, ExpressionOperator, ExpressionView};
use crate::query::structs::token::{
    is_rest_of, lemma_rest_of_itself, lemma_rest_of_rest, token_text, Token, TokenKind, TokenView,
};
use crate::utils::errors::{ErrorView, Errored};
use crate::utils::text::same_text;
use std::collections::VecDeque;
use vstd::prelude::*;
use vstd::string::*;

verus! {

broadcast use {lemma_rest_of_rest, lemma_rest_of_itself};

/// The comparison operator that `value` writes.
pub open spec fn simple_operator(value: Seq<char>) -> Option<ExpressionOperator> {
    if value == "="@ {
        Some(ExpressionOperator::Equals)
    } else if value == "!="@ {
        Some(ExpressionOperator::NotEquals)
    } else if value == ">"@ {
        Some(ExpressionOperator::GreaterThan)
    } else if value == ">="@ {
        Some(ExpressionOperator::GreaterOrEqual)
    } else if value == "<"@ {
        Some(ExpressionOperator::LessThan)
    } else if value == "<="@ {
        Some(ExpressionOperator::LessOrEqual)
    } else {
        None
    }
}

/// The message for a token that cannot start or end a leaf.
pub open spec fn unexpected_leaf_message(t: TokenView) -> Seq<char> {
    "unexpected token when parsing leaf: "@ + token_text(t)
}

/// The message for a group that is open at the end of the tokens.
pub open spec fn missing_close_message() -> Seq<char> {
    "expected a closing parenthesis but was end of query."@
}

/// The message for the end of the tokens where an operator was looked for.
pub open spec fn missing_operator_message() -> Seq<char> {
    "expected operator but was end of query."@
}

/// The message for a token that is no comparison operator.
pub open spec fn invalid_operator_message(value: Seq<char>) -> Seq<char> {
    "invalid operator, got: "@ + value
}

/// A statement node over two subtrees.
pub open spec fn statement(
    operator: ExpressionOperator,
    left: ExpressionView,
    right: ExpressionView,
) -> ExpressionView {
    ExpressionView::Statement { operator, left: Box::new(left), right: Box::new(right) }
}

/// A leaf: nothing at the end of the tokens; an identifier, a number or a
/// string; or a whole expression between parentheses. A token that can
/// neither start nor close a leaf is reported and stays in the queue.
///
/// In this and the following definitions a test of the form
/// `rest.len() <= q.len()` keeps the recursion well-founded. It always
/// holds: see [`lemma_parse_consumes`].
pub open spec fn parse_leaf_spec(q: Seq<TokenView>) -> Reading<ExpressionView>
    decreases q.len(), 0nat,
{
    if q.len() == 0 {
        (Ok(ExpressionView::Empty), q)
    } else {
        match q[0].kind {
            TokenKind::Identifier | TokenKind::Number | TokenKind::String => (
                Ok(ExpressionView::Leaf(q[0])),
                q.skip(1),
            ),
            TokenKind::ParenthesisOpen => {
                let (inner, rest) = parse_or_spec(q.skip(1));
                if inner is Err {
                    (inner, rest)
                } else if rest.len() == 0 {
                    (Err(ErrorView::Syntax(missing_close_message())), rest)
                } else if rest[0].kind == TokenKind::ParenthesisClose {
                    (inner, rest.skip(1))
                } else {
                    (Err(ErrorView::Syntax(unexpected_leaf_message(rest[0]))), rest)
                }
            },
            _ => (Err(ErrorView::Syntax(unexpected_leaf_message(q[0]))), q),
        }
    }
}

/// A leaf, or two leaves around a comparison operator.
pub open spec fn parse_comparisons_spec(q: Seq<TokenView>) -> Reading<ExpressionView>
    decreases q.len(), 1nat,
{
    let (left, rest) = parse_leaf_spec(q);
    if left is Ok && rest.len() > 0 && simple_operator(rest[0].value) is Some && rest.len()
        <= q.len() {
        let (right, after) = parse_leaf_spec(rest.skip(1));
        match right {
            Err(e) => (Err(e), after),
            Ok(right) => (
                Ok(statement(simple_operator(rest[0].value)->0, left->Ok_0, right)),
                after,
            ),
        }
    } else {
        (left, rest)
    }
}

/// A comparison, or `NOT` in front of one.
pub open spec fn parse_not_spec(q: Seq<TokenView>) -> Reading<ExpressionView>
    decreases q.len(), 2nat,
{
    if q.len() > 0 && q[0].is_keyword("NOT"@) {
        let (node, rest) = parse_comparisons_spec(q.skip(1));
        match node {
            Err(e) => (Err(e), rest),
            Ok(node) => (Ok(statement(ExpressionOperator::Not, node, ExpressionView::Empty)), rest),
        }
    } else {
        parse_comparisons_spec(q)
    }
}

/// `left`, joined from the left with every following `AND` operand.
pub open spec fn parse_and_tail(left: ExpressionView, q: Seq<TokenView>) -> Reading<ExpressionView>
    decreases q.len(), 3nat,
{
    if q.len() > 0 && q[0].is_keyword("AND"@) {
        let (right, rest) = parse_not_spec(q.skip(1));
        match right {
            Err(e) => (Err(e), rest),
            Ok(right) => if rest.len() < q.len() {
                parse_and_tail(statement(ExpressionOperator::And, left, right), rest)
            } else {
                (Ok(statement(ExpressionOperator::And, left, right)), rest)
            },
        }
    } else {
        (Ok(left), q)
    }
}

/// One or more operands joined by `AND`, grouped from the left.
pub open spec fn parse_and_spec(q: Seq<TokenView>) -> Reading<ExpressionView>
    decreases q.len(), 4nat,
{
    let (left, rest) = parse_not_spec(q);
    match left {
        Err(e) => (Err(e), rest),
        Ok(left) => if rest.len() <= q.len() {
            parse_and_tail(left, rest)
        } else {
            (Ok(left), rest)
        },
    }
}

/// `left`, joined from the left with every following `OR` operand.
pub open spec fn parse_or_tail(left: ExpressionView, q: Seq<TokenView>) -> Reading<ExpressionView>
    decreases q.len(), 5nat,
{
    if q.len() > 0 && q[0].is_keyword("OR"@) {
        let (right, rest) = parse_and_spec(q.skip(1));
        match right {
            Err(e) => (Err(e), rest),
            Ok(right) => if rest.len() < q.len() {
                parse_or_tail(statement(ExpressionOperator::Or, left, right), rest)
            } else {
                (Ok(statement(ExpressionOperator::Or, left, right)), rest)
            },
        }
    } else {
        (Ok(left), q)
    }
}

/// One or more operands joined by `OR`, grouped from the left. This is the
/// whole expression: `OR` binds weakest, then `AND`, then `NOT`, then the
/// comparisons.
pub open spec fn parse_or_spec(q: Seq<TokenView>) -> Reading<ExpressionView>
    decreases q.len(), 6nat,
{
    let (left, rest) = parse_and_spec(q);
    match left {
        Err(e) => (Err(e), rest),
        Ok(left) => if rest.len() <= q.len() {
            parse_or_tail(left, rest)
        } else {
            (Ok(left), rest)
        },
    }
}

/// The parser of boolean expressions.
pub struct ExpressionBuilder;

impl ExpressionBuilder {
    /// Parses one expression off the front of `tokens` and leaves the rest
    /// in the queue.
    pub fn parse_expressions(tokens: &mut VecDeque<Token>) -> (r: Result<ExpressionNode, Errored>)
        ensures
            parsed(r, final(tokens).deep_view(), parse_or_spec(old(tokens).deep_view())),
            is_rest_of(final(tokens).deep_view(), old(tokens).deep_view()),
            r is Ok && old(tokens)@.len() > 0 ==> final(tokens)@.len() < old(tokens)@.len(),
        decreases old(tokens)@.len(), 7nat,
    {
        ExpressionBuilder::parse_or(tokens)
    }

    /// Parses operands joined by `OR`; see [`parse_or_spec`].
    fn parse_or(tokens: &mut VecDeque<Token>) -> (r: Result<ExpressionNode, Errored>)
        ensures
            parsed(r, final(tokens).deep_view(), parse_or_spec(old(tokens).deep_view())),
            is_rest_of(final(tokens).deep_view(), old(tokens).deep_view()),
            r is Ok && old(tokens)@.len() > 0 ==> final(tokens)@.len() < old(tokens)@.len(),
        decreases old(tokens)@.len(), 6nat,
    {
        let mut left = ExpressionBuilder::parse_and(tokens)?;
        while tokens.len() > 0 && tokens[0].is("OR", TokenKind::Keyword)
            invariant
                is_rest_of(tokens.deep_view(), old(tokens).deep_view()),
                old(tokens)@.len() > 0 ==> tokens@.len() < old(tokens)@.len(),
                parse_or_spec(old(tokens).deep_view()) == parse_or_tail(left@, tokens.deep_view()),
            decreases tokens@.len(),
        {
            let _ = take_front(tokens);
            let right = ExpressionBuilder::parse_and(tokens)?;
            left =
            ExpressionNode::Statement {
                operator: ExpressionOperator::Or,
                left: Box::new(left),
                right: Box::new(right),
            };
        }
        Ok(left)
    }

    /// Parses operands joined by `AND`; see [`parse_and_spec`].
    fn parse_and(tokens: &mut VecDeque<Token>) -> (r: Result<ExpressionNode, Errored>)
        ensures
            parsed(r, final(tokens).deep_view(), parse_and_spec(old(tokens).deep_view())),
            is_rest_of(final(tokens).deep_view(), old(tokens).deep_view()),
            r is Ok && old(tokens)@.len() > 0 ==> final(tokens)@.len() < old(tokens)@.len(),
        decreases old(tokens)@.len(), 4nat,
    {
        let mut left = ExpressionBuilder::parse_not(tokens)?;
        while tokens.len() > 0 && tokens[0].is("AND", TokenKind::Keyword)
            invariant
                is_rest_of(tokens.deep_view(), old(tokens).deep_view()),
                old(tokens)@.len() > 0 ==> tokens@.len() < old(tokens)@.len(),
                parse_and_spec(old(tokens).deep_view()) == parse_and_tail(
                    left@,
                    tokens.deep_view(),
                ),
            decreases tokens@.len(),
        {
            let _ = take_front(tokens);
            let right = ExpressionBuilder::parse_not(tokens)?;
            left =
            ExpressionNode::Statement {
                operator: ExpressionOperator::And,
                left: Box::new(left),
                right: Box::new(right),
            };
        }
        Ok(left)
    }

    /// Parses a comparison, or `NOT` in front of one; see [`parse_not_spec`].
    fn parse_not(tokens: &mut VecDeque<Token>) -> (r: Result<ExpressionNode, Errored>)
        ensures
            parsed(r, final(tokens).deep_view(), parse_not_spec(old(tokens).deep_view())),
            is_rest_of(final(tokens).deep_view(), old(tokens).deep_view()),
            r is Ok && old(tokens)@.len() > 0 ==> final(tokens)@.len() < old(tokens)@.len(),
        decreases old(tokens)@.len(), 2nat,
    {
        if tokens.len() > 0 && tokens[0].is("NOT", TokenKind::Keyword) {
            let _ = take_front(tokens);
            let node = ExpressionBuilder::parse_comparisons(tokens)?;
            assert(ExpressionNode::Empty@ == ExpressionView::Empty);
            return Ok(
                ExpressionNode::Statement {
                    operator: ExpressionOperator::Not,
                    left: Box::new(node),
                    right: Box::new(ExpressionNode::Empty),
                },
            );
        }
        ExpressionBuilder::parse_comparisons(tokens)
    }

    /// Parses a leaf, or two leaves around a comparison operator; see
    /// [`parse_comparisons_spec`].
    fn parse_comparisons(tokens: &mut VecDeque<Token>) -> (r: Result<ExpressionNode, Errored>)
        ensures
            parsed(r, final(tokens).deep_view(), parse_comparisons_spec(old(tokens).deep_view())),
            is_rest_of(final(tokens).deep_view(), old(tokens).deep_view()),
            r is Ok && old(tokens)@.len() > 0 ==> final(tokens)@.len() < old(tokens)@.len(),
        decreases old(tokens)@.len(), 1nat,
    {
        let left = ExpressionBuilder::parse_leaf(tokens)?;
        let operator = match ExpressionBuilder::parse_simple_operator(tokens) {
            Ok(operator) => operator,
            Err(_) => {
                return Ok(left);
            },
        };
        let right = ExpressionBuilder::parse_leaf(tokens)?;
        Ok(ExpressionNode::Statement { operator, left: Box::new(left), right: Box::new(right) })
    }

    /// Parses a leaf: a token, or an expression between parentheses; see
    /// [`parse_leaf_spec`].
    fn parse_leaf(tokens: &mut VecDeque<Token>) -> (r: Result<ExpressionNode, Errored>)
        ensures
            parsed(r, final(tokens).deep_view(), parse_leaf_spec(old(tokens).deep_view())),
            is_rest_of(final(tokens).deep_view(), old(tokens).deep_view()),
            r is Ok && old(tokens)@.len() > 0 ==> final(tokens)@.len() < old(tokens)@.len(),
        decreases old(tokens)@.len(), 0nat,
    {
        if tokens.len() == 0 {
            return Ok(ExpressionNode::Empty);
        }
        match tokens[0].kind {
            TokenKind::Identifier | TokenKind::Number | TokenKind::String => {
                let t = take_front(tokens);
                Ok(ExpressionNode::Leaf(t))
            },
            TokenKind::ParenthesisOpen => {
                let _ = take_front(tokens);
                let inner = ExpressionBuilder::parse_expressions(tokens)?;
                if tokens.len() == 0 {
                    return Err(
                        Errored::Syntax(
                            String::from_str("expected a closing parenthesis but was end of query."),
                        ),
                    );
                }
                if tokens[0].kind == TokenKind::ParenthesisClose {
                    let _ = take_front(tokens);
                    Ok(inner)
                } else {
                    Err(ExpressionBuilder::unexpected(&tokens[0]))
                }
            },
            _ => Err(ExpressionBuilder::unexpected(&tokens[0])),
        }
    }

    /// The error for a token that cannot start or end a leaf.
    fn unexpected(t: &Token) -> (e: Errored)
        ensures
            e@ == ErrorView::Syntax(unexpected_leaf_message(t@)),
    {
        let mut message = String::from_str("unexpected token when parsing leaf: ");
        t.describe_into(&mut message);
        Errored::Syntax(message)
    }

    /// Takes a comparison operator off the front of `tokens`; fails, and
    /// leaves the queue as it is, where none stands there.
    fn parse_simple_operator(tokens: &mut VecDeque<Token>) -> (r: Result<
        ExpressionOperator,
        Errored,
    >)
        ensures
            is_rest_of(final(tokens).deep_view(), old(tokens).deep_view()),
            old(tokens)@.len() == 0 ==> r is Err && r->Err_0@ == ErrorView::Syntax(
                missing_operator_message(),
            ) && *final(tokens) == *old(tokens),
            old(tokens)@.len() > 0 ==> match simple_operator(old(tokens).deep_view()[0].value) {
                Some(op) => {
                    &&& r == Ok::<ExpressionOperator, Errored>(op)
                    &&& final(tokens).deep_view() == old(tokens).deep_view().skip(1)
                    &&& final(tokens)@.len() == old(tokens)@.len() - 1
                },
                None => r is Err && r->Err_0@ == ErrorView::Syntax(
                    invalid_operator_message(old(tokens).deep_view()[0].value),
                ) && *final(tokens) == *old(tokens),
            },
    {
        if tokens.len() == 0 {
            return Err(Errored::Syntax(String::from_str("expected operator but was end of query.")));
        }
        let value = tokens[0].value.as_str();
        let op = if same_text(value, "=") {
            ExpressionOperator::Equals
        } else if same_text(value, "!=") {
            ExpressionOperator::NotEquals
        } else if same_text(value, ">") {
            ExpressionOperator::GreaterThan
        } else if same_text(value, ">=") {
            ExpressionOperator::GreaterOrEqual
        } else if same_text(value, "<") {
            ExpressionOperator::LessThan
        } else if same_text(value, "<=") {
            ExpressionOperator::LessOrEqual
        } else {
            let mut message = String::from_str("invalid operator, got: ");
            message.append(value);
            return Err(Errored::Syntax(message));
        };
        let _ = take_front(tokens);
        Ok(op)
    }
}

/// Whether a parser left no more tokens than `q` has.
pub open spec fn within_input<T>(r: Reading<T>, q: Seq<TokenView>) -> bool {
    r.1.len() <= q.len()
}

/// Whether a parser left no more tokens than `q` has, and took at least
/// one where it succeeded and `q` has any.
pub open spec fn takes_some<T>(r: Reading<T>, q: Seq<TokenView>) -> bool {
    r.1.len() <= q.len() && (r.0 is Ok && q.len() > 0 ==> r.1.len() < q.len())
}

/// No parser of this module returns more tokens than it was given, and
/// each takes at least one where there is any: the tests on the lengths
/// in the definitions never fail.
pub proof fn lemma_parse_consumes(q: Seq<TokenView>)
    ensures
        takes_some(parse_leaf_spec(q), q),
        takes_some(parse_comparisons_spec(q), q),
        takes_some(parse_not_spec(q), q),
        takes_some(parse_and_spec(q), q),
        takes_some(parse_or_spec(q), q),
    decreases q.len(), 7nat,
{
    lemma_leaf_consumes(q);
    lemma_comparisons_consume(q);
    lemma_not_consumes(q);
    lemma_and_consumes(q);
    lemma_or_consumes(q);
}

/// A leaf takes at least one token where there is any.
proof fn lemma_leaf_consumes(q: Seq<TokenView>)
    ensures
        takes_some(parse_leaf_spec(q), q),
    decreases q.len(), 0nat,
{
    if q.len() > 0 && q[0].kind == TokenKind::ParenthesisOpen {
        lemma_or_consumes(q.skip(1));
    }
}

/// A comparison takes at least one token where there is any.
proof fn lemma_comparisons_consume(q: Seq<TokenView>)
    ensures
        takes_some(parse_comparisons_spec(q), q),
    decreases q.len(), 1nat,
{
    lemma_leaf_consumes(q);
    let rest = parse_leaf_spec(q).1;
    if rest.len() > 0 {
        lemma_leaf_consumes(rest.skip(1));
    }
}

/// A negation takes at least one token where there is any.
proof fn lemma_not_consumes(q: Seq<TokenView>)
    ensures
        takes_some(parse_not_spec(q), q),
    decreases q.len(), 2nat,
{
    if q.len() > 0 && q[0].is_keyword("NOT"@) {
        lemma_comparisons_consume(q.skip(1));
    } else {
        lemma_comparisons_consume(q);
    }
}

/// The operands behind an `AND` add no token.
proof fn lemma_and_tail_consumes(left: ExpressionView, q: Seq<TokenView>)
    ensures
        within_input(parse_and_tail(left, q), q),
    decreases q.len(), 3nat,
{
    if q.len() > 0 && q[0].is_keyword("AND"@) {
        lemma_not_consumes(q.skip(1));
        let (right, rest) = parse_not_spec(q.skip(1));
        if right is Ok {
            lemma_and_tail_consumes(statement(ExpressionOperator::And, left, right->Ok_0), rest);
        }
    }
}

/// A conjunction takes at least one token where there is any.
proof fn lemma_and_consumes(q: Seq<TokenView>)
    ensures
        takes_some(parse_and_spec(q), q),
    decreases q.len(), 4nat,
{
    lemma_not_consumes(q);
    let (left, rest) = parse_not_spec(q);
    if left is Ok {
        lemma_and_tail_consumes(left->Ok_0, rest);
    }
}

/// The operands behind an `OR` add no token.
proof fn lemma_or_tail_consumes(left: ExpressionView, q: Seq<TokenView>)
    ensures
        within_input(parse_or_tail(left, q), q),
    decreases q.len(), 5nat,
{
    if q.len() > 0 && q[0].is_keyword("OR"@) {
        lemma_and_consumes(q.skip(1));
        let (right, rest) = parse_and_spec(q.skip(1));
        if right is Ok {
            lemma_or_tail_consumes(statement(ExpressionOperator::Or, left, right->Ok_0), rest);
        }
    }
}

/// A disjunction takes at least one token where there is any.
proof fn lemma_or_consumes(q: Seq<TokenView>)
    ensures
        takes_some(parse_or_spec(q), q),
    decreases q.len(), 6nat,
{
    lemma_and_consumes(q);
    let (left, rest) = parse_and_spec(q);
    if left is Ok {
        lemma_or_tail_consumes(left->Ok_0, rest);
    }
}

} // verus!
