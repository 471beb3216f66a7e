//! From tokens to a query: the grammar that the four statement builders
//! share, and the builders themselves.
use crate::query::builder::expression::{parse_or_spec, ExpressionBuilder};
use crate::query::structs::expression::{ExpressionNode, ExpressionView};
use crate::query::structs::operation::Operation;
use crate::query::structs::query::{Query, QueryView};
use crate::query::structs::token::{
    is_rest_of, lemma_rest_of_itself, lemma_rest_of_rest, token_text, Token, TokenKind, TokenView,
};
use crate::utils::errors::{agrees, ErrorView, Errored};
use crate::utils::text::{same_text, texts_of, to_upper_text, upper};
use std::collections::VecDeque;
use vstd::prelude::*;
use vstd::string::*;

pub mod delete;
pub mod expression;
pub mod insert;
pub mod select;
pub mod update;

verus! {

broadcast use {lemma_rest_of_rest, lemma_rest_of_itself};

/// What a parser makes of tokens: its value or its error, and the tokens
/// that it leaves in the queue, in either case.
pub type Reading<T> = (Result<T, ErrorView>, Seq<TokenView>);

/// Whether a parser's result and the tokens it left agree with what is
/// specified: the value or the error, and in either case what is left in
/// the queue.
pub open spec fn parsed<T: DeepView>(
    r: Result<T, Errored>,
    remaining: Seq<TokenView>,
    expected: Reading<T::V>,
) -> bool {
    agrees(r, expected.0) && remaining == expected.1
}

/// The name of an operation, as it is written in messages.
pub open spec fn operation_name(operation: Operation) -> Seq<char> {
    match operation {
        Operation::Unknown => "Unknown"@,
        Operation::Select => "Select"@,
        Operation::Update => "Update"@,
        Operation::Delete => "Delete"@,
        Operation::Insert => "Insert"@,
    }
}

/// The message for a token that has no place in the clause `stage`.
pub open spec fn unexpected_token_message(stage: Seq<char>, t: TokenView) -> Seq<char> {
    "unexpected token while parsing "@ + stage + " fields: "@ + token_text(t)
}

/// The message for a token that stands where another was expected.
pub open spec fn expected_token_message(value: Seq<char>, kind: TokenKind, t: TokenView) -> Seq<
    char,
> {
    "expected "@ + token_text(TokenView { value, kind }) + " token, got: "@ + token_text(t)
}

/// The message for the end of the tokens where a token was expected.
pub open spec fn expected_token_at_end_message(value: Seq<char>, kind: TokenKind) -> Seq<char> {
    "got None when expecting: "@ + token_text(TokenView { value, kind })
}

/// The message for a statement that ends in front of its table.
pub open spec fn missing_table_message() -> Seq<char> {
    "could not find table identifier."@
}

/// The message for a column list that names no column.
pub open spec fn missing_columns_message() -> Seq<char> {
    "read FROM without any * or fields in query."@
}

/// The message for a token behind the end of the statement.
pub open spec fn trailing_token_message(t: TokenView) -> Seq<char> {
    "expected end of query but got: "@ + token_text(t)
}

/// The message for a keyword that has no place in the statement.
pub open spec fn invalid_keyword_message(operation: Operation, word: Seq<char>) -> Seq<char> {
    "invalid keyword for "@ + operation_name(operation) + " query detected: "@ + word
}

/// The operation that the first token of a query names, by its text.
pub open spec fn kind_of(token: Option<TokenView>) -> Operation {
    match token {
        Some(t) => if t.value == "SELECT"@ {
            Operation::Select
        } else if t.value == "INSERT INTO"@ {
            Operation::Insert
        } else if t.value == "UPDATE"@ {
            Operation::Update
        } else if t.value == "DELETE"@ {
            Operation::Delete
        } else {
            Operation::Unknown
        },
        None => Operation::Unknown,
    }
}

/// Succeeds where the first token has the kind `kind` and the text `value`
/// in upper case.
pub open spec fn peek_expecting_spec(q: Seq<TokenView>, value: Seq<char>, kind: TokenKind) -> Result<
    (),
    ErrorView,
> {
    if q.len() == 0 {
        Err(ErrorView::Syntax(expected_token_at_end_message(value, kind)))
    } else if q[0].kind != kind || q[0].value != upper(value) {
        Err(ErrorView::Syntax(expected_token_message(value, kind, q[0])))
    } else {
        Ok(())
    }
}

/// The expected token, taken off the front; where another stands there,
/// it stays.
pub open spec fn pop_expecting_spec(q: Seq<TokenView>, value: Seq<char>, kind: TokenKind) -> Reading<
    Option<TokenView>,
> {
    match peek_expecting_spec(q, value, kind) {
        Err(e) => (Err(e), q),
        Ok(_) => (Ok(Some(q[0])), q.skip(1)),
    }
}

/// The table name: an identifier, behind `FROM` for a selection or a
/// deletion. A token that stands in the place of the name is taken off the
/// queue and reported.
pub open spec fn parse_table_spec(q: Seq<TokenView>, operation: Operation) -> Reading<Seq<char>> {
    let from = operation == Operation::Select || operation == Operation::Delete;
    let rest = if from {
        q.skip(1)
    } else {
        q
    };
    if from && peek_expecting_spec(q, "FROM"@, TokenKind::Keyword) is Err {
        (Err(peek_expecting_spec(q, "FROM"@, TokenKind::Keyword)->Err_0), q)
    } else if rest.len() == 0 {
        (Err(ErrorView::Syntax(missing_table_message())), rest)
    } else if rest[0].kind != TokenKind::Identifier {
        (Err(ErrorView::Syntax(unexpected_token_message("TABLE"@, rest[0]))), rest.skip(1))
    } else {
        (Ok(rest[0].value), rest.skip(1))
    }
}

/// The column list, continued behind the columns `fields` that were read
/// already. Identifiers are columns and opening parentheses are passed
/// over. The list ends behind `*` or a closing parenthesis, in front of
/// `FROM` or `VALUES`, where at least one column is asked for, and at the end
/// of the tokens. Any other token is reported and stays in the queue.
pub open spec fn parse_columns_from(fields: Seq<TokenView>, q: Seq<TokenView>) -> Reading<
    Seq<TokenView>,
>
    decreases q.len(),
{
    if q.len() == 0 {
        (Ok(fields), q)
    } else if q[0].kind == TokenKind::Identifier {
        parse_columns_from(fields.push(q[0]), q.skip(1))
    } else if q[0].is_keyword("FROM"@) || q[0].is_keyword("VALUES"@) {
        if fields.len() == 0 {
            (Err(ErrorView::Syntax(missing_columns_message())), q)
        } else {
            (Ok(fields), q)
        }
    } else if q[0].kind == TokenKind::ParenthesisClose {
        (Ok(fields), q.skip(1))
    } else if q[0].kind == TokenKind::Operator && q[0].value == "*"@ {
        (Ok(fields), q.skip(1))
    } else if q[0].kind == TokenKind::ParenthesisOpen {
        parse_columns_from(fields, q.skip(1))
    } else {
        (Err(ErrorView::Syntax(unexpected_token_message("COLUMN"@, q[0]))), q)
    }
}

/// The column list at the front of `q`.
pub open spec fn parse_columns_spec(q: Seq<TokenView>) -> Reading<Seq<TokenView>> {
    parse_columns_from(Seq::empty(), q)
}

/// `WHERE` and the condition behind it.
pub open spec fn parse_where_spec(q: Seq<TokenView>) -> Reading<ExpressionView> {
    match peek_expecting_spec(q, "WHERE"@, TokenKind::Keyword) {
        Err(e) => (Err(e), q),
        Ok(_) => parse_or_spec(q.skip(1)),
    }
}

/// Succeeds where no token is left.
pub open spec fn expect_none_spec(q: Seq<TokenView>) -> Result<(), ErrorView> {
    if q.len() > 0 {
        Err(ErrorView::Syntax(trailing_token_message(q[0])))
    } else {
        Ok(())
    }
}

/// The condition of a statement that ends with it: `WHERE` and the
/// condition, or nothing at all, and no token behind it.
pub open spec fn parse_condition_spec(q: Seq<TokenView>) -> Reading<ExpressionView> {
    if peek_expecting_spec(q, "WHERE"@, TokenKind::Keyword) is Ok {
        let (conditions, rest) = parse_where_spec(q);
        if conditions is Ok && expect_none_spec(rest) is Err {
            (Err(expect_none_spec(rest)->Err_0), rest)
        } else {
            (conditions, rest)
        }
    } else {
        match expect_none_spec(q) {
            Err(e) => (Err(e), q),
            Ok(_) => (Ok(ExpressionView::Empty), q),
        }
    }
}

/// The text of the first keyword among `q` that `allowed` does not hold.
pub open spec fn first_invalid_keyword(allowed: Seq<Seq<char>>, q: Seq<TokenView>) -> Option<
    Seq<char>,
>
    decreases q.len(),
{
    if q.len() == 0 {
        None
    } else if q[0].kind == TokenKind::Keyword && !allowed.contains(q[0].value) {
        Some(q[0].value)
    } else {
        first_invalid_keyword(allowed, q.skip(1))
    }
}

/// Succeeds where every keyword among `q` is one of `allowed`.
pub open spec fn validate_keywords_spec(
    allowed: Seq<Seq<char>>,
    q: Seq<TokenView>,
    operation: Operation,
) -> Result<(), ErrorView> {
    match first_invalid_keyword(allowed, q) {
        Some(word) => Err(ErrorView::Syntax(invalid_keyword_message(operation, word))),
        None => Ok(()),
    }
}

/// Takes the first token off the queue.
pub fn take_front(tokens: &mut VecDeque<Token>) -> (t: Token)
    requires
        old(tokens)@.len() > 0,
    ensures
        t@ == old(tokens).deep_view()[0],
        final(tokens).deep_view() == old(tokens).deep_view().skip(1),
        final(tokens)@.len() == old(tokens)@.len() - 1,
        is_rest_of(final(tokens).deep_view(), old(tokens).deep_view()),
{
    let t = tokens.pop_front().unwrap();
    t
}

/// The name of an operation, as it is written in messages.
pub fn name_of_operation(operation: Operation) -> (name: &'static str)
    ensures
        name@ == operation_name(operation),
{
    match operation {
        Operation::Unknown => "Unknown",
        Operation::Select => "Select",
        Operation::Update => "Update",
        Operation::Delete => "Delete",
        Operation::Insert => "Insert",
    }
}

/// The operation that a query starts with, by the text of its first token.
pub fn get_kind(token: Option<Token>) -> (operation: Operation)
    ensures
        operation == kind_of(
            match token {
                Some(t) => Some(t@),
                None => None,
            },
        ),
{
    match token {
        Some(t) => {
            let value = t.value.as_str();
            if same_text(value, "SELECT") {
                Operation::Select
            } else if same_text(value, "INSERT INTO") {
                Operation::Insert
            } else if same_text(value, "UPDATE") {
                Operation::Update
            } else if same_text(value, "DELETE") {
                Operation::Delete
            } else {
                Operation::Unknown
            }
        },
        None => Operation::Unknown,
    }
}

/// Whether `words` holds `word`.
fn is_allowed(words: &Vec<&'static str>, word: &str) -> (b: bool)
    ensures
        b == texts_of(words@).contains(word@),
{
    let mut i: usize = 0;
    while i < words.len()
        invariant
            i <= words.len(),
            forall|j: int| 0 <= j < i ==> texts_of(words@)[j] != word@,
        decreases words.len() - i,
    {
        if same_text(words[i], word) {
            assert(texts_of(words@)[i as int] == word@);
            return true;
        }
        i += 1;
    }
    false
}

/// Rejects the first keyword among `tokens` that `allowed` does not hold.
pub fn validate_keywords(
    allowed: &Vec<&'static str>,
    tokens: &VecDeque<Token>,
    operation: Operation,
) -> (r: Result<(), Errored>)
    ensures
        agrees(r, validate_keywords_spec(texts_of(allowed@), tokens.deep_view(), operation)),
{
    let ghost q = tokens.deep_view();
    let mut i: usize = 0;
    assert(q.skip(0) =~= q);
    while i < tokens.len()
        invariant
            i <= tokens.len(),
            q == tokens.deep_view(),
            first_invalid_keyword(texts_of(allowed@), q) == first_invalid_keyword(
                texts_of(allowed@),
                q.skip(i as int),
            ),
        decreases tokens.len() - i,
    {
        let word = &tokens[i];
        if word.kind == TokenKind::Keyword && !is_allowed(allowed, word.value.as_str()) {
            let mut message = String::from_str("invalid keyword for ");
            message.append(name_of_operation(operation));
            message.append(" query detected: ");
            message.append(word.value.as_str());
            return Err(Errored::Syntax(message));
        }
        assert(q.skip(i as int).skip(1) =~= q.skip(i + 1));
        i += 1;
    }
    Ok(())
}

/// The error for a token that has no place in the clause `stage`.
pub fn unexpected_token_in_stage(stage: &str, token: &Token) -> (r: Result<(), Errored>)
    ensures
        r is Err,
        r->Err_0@ == ErrorView::Syntax(unexpected_token_message(stage@, token@)),
{
    let mut message = String::from_str("unexpected token while parsing ");
    message.append(stage);
    message.append(" fields: ");
    token.describe_into(&mut message);
    Err(Errored::Syntax(message))
}

/// Appends a token of the given text and kind, as it is written in messages.
fn describe_expected(message: &mut String, value: &str, kind: TokenKind)
    ensures
        final(message)@ == old(message)@ + token_text(TokenView { value: value@, kind }),
{
    let expected = Token { value: String::from_str(value), kind };
    expected.describe_into(message);
}

/// Checks that the first token has the given kind and, in upper case, the
/// given text. The queue stays as it is.
pub fn peek_expecting(tokens: &VecDeque<Token>, value: &str, kind: TokenKind) -> (r: Result<
    (),
    Errored,
>)
    ensures
        agrees(r, peek_expecting_spec(tokens.deep_view(), value@, kind)),
{
    if tokens.len() > 0 {
        let t = &tokens[0];
        let expected = to_upper_text(value);
        if t.kind != kind || !same_text(t.value.as_str(), expected.as_str()) {
            let mut message = String::from_str("expected ");
            describe_expected(&mut message, value, kind);
            message.append(" token, got: ");
            t.describe_into(&mut message);
            return Err(Errored::Syntax(message));
        }
    } else {
        let mut message = String::from_str("got None when expecting: ");
        describe_expected(&mut message, value, kind);
        return Err(Errored::Syntax(message));
    }
    Ok(())
}

/// Takes the first token off the queue where it is the expected one.
pub fn pop_expecting(tokens: &mut VecDeque<Token>, value: &str, kind: TokenKind) -> (r: Result<
    Option<Token>,
    Errored,
>)
    ensures
        is_rest_of(final(tokens).deep_view(), old(tokens).deep_view()),
        final(tokens).deep_view() == pop_expecting_spec(old(tokens).deep_view(), value@, kind).1,
        match pop_expecting_spec(old(tokens).deep_view(), value@, kind).0 {
            Ok(t) => r is Ok && r->Ok_0 is Some && Some(r->Ok_0->0@) == t,
            Err(e) => r is Err && r->Err_0@ == e && *final(tokens) == *old(tokens),
        },
{
    peek_expecting(tokens, value, kind)?;
    Ok(Some(take_front(tokens)))
}

/// Reads the table name off the queue.
pub fn parse_table(tokens: &mut VecDeque<Token>, operation: Operation) -> (r: Result<
    String,
    Errored,
>)
    ensures
        parsed(
            r,
            final(tokens).deep_view(),
            parse_table_spec(old(tokens).deep_view(), operation),
        ),
        is_rest_of(final(tokens).deep_view(), old(tokens).deep_view()),
{
    match operation {
        Operation::Select | Operation::Delete => {
            peek_expecting(tokens, "FROM", TokenKind::Keyword)?;
            let _ = take_front(tokens);
        },
        _ => {},
    }
    if tokens.len() == 0 {
        return Err(Errored::Syntax(String::from_str("could not find table identifier.")));
    }
    let t = take_front(tokens);
    if t.kind != TokenKind::Identifier {
        unexpected_token_in_stage("TABLE", &t)?;
    }
    Ok(t.value)
}

/// Reads the column list off the queue.
pub fn parse_columns(tokens: &mut VecDeque<Token>) -> (r: Result<Vec<Token>, Errored>)
    ensures
        parsed(r, final(tokens).deep_view(), parse_columns_spec(old(tokens).deep_view())),
        is_rest_of(final(tokens).deep_view(), old(tokens).deep_view()),
{
    let mut fields: Vec<Token> = Vec::new();
    assert(fields.deep_view() =~= Seq::empty());
    while tokens.len() > 0
        invariant
            is_rest_of(tokens.deep_view(), old(tokens).deep_view()),
            parse_columns_spec(old(tokens).deep_view()) == parse_columns_from(
                fields.deep_view(),
                tokens.deep_view(),
            ),
        decreases tokens@.len(),
    {
        let ghost read = fields.deep_view();
        let t = &tokens[0];
        if t.kind == TokenKind::Identifier {
            let field = take_front(tokens);
            fields.push(field);
            assert(fields.deep_view() =~= read.push(field@));
        } else if t.is("FROM", TokenKind::Keyword) || t.is("VALUES", TokenKind::Keyword) {
            if fields.len() == 0 {
                return Err(
                    Errored::Syntax(String::from_str("read FROM without any * or fields in query.")),
                );
            }
            return Ok(fields);
        } else if t.kind == TokenKind::ParenthesisClose {
            let _ = take_front(tokens);
            return Ok(fields);
        } else if t.is("*", TokenKind::Operator) {
            let _ = take_front(tokens);
            return Ok(fields);
        } else if t.kind == TokenKind::ParenthesisOpen {
            let _ = take_front(tokens);
        } else {
            unexpected_token_in_stage("COLUMN", t)?;
        }
    }
    Ok(fields)
}

/// Reads `WHERE` and the condition off the queue.
pub fn parse_where(tokens: &mut VecDeque<Token>) -> (r: Result<ExpressionNode, Errored>)
    ensures
        parsed(r, final(tokens).deep_view(), parse_where_spec(old(tokens).deep_view())),
        is_rest_of(final(tokens).deep_view(), old(tokens).deep_view()),
{
    pop_expecting(tokens, "WHERE", TokenKind::Keyword)?;
    ExpressionBuilder::parse_expressions(tokens)
}

/// Fails where a token is left.
pub fn expect_none(tokens: &VecDeque<Token>) -> (r: Result<(), Errored>)
    ensures
        agrees(r, expect_none_spec(tokens.deep_view())),
{
    if tokens.len() > 0 {
        let mut message = String::from_str("expected end of query but got: ");
        tokens[0].describe_into(&mut message);
        return Err(Errored::Syntax(message));
    }
    Ok(())
}

/// Reads the condition of a statement that ends with it, up to the end
/// of the tokens.
pub fn parse_condition(tokens: &mut VecDeque<Token>) -> (r: Result<ExpressionNode, Errored>)
    ensures
        parsed(r, final(tokens).deep_view(), parse_condition_spec(old(tokens).deep_view())),
        r is Ok ==> final(tokens)@.len() == 0,
        is_rest_of(final(tokens).deep_view(), old(tokens).deep_view()),
{
    match peek_expecting(tokens, "WHERE", TokenKind::Keyword) {
        Ok(_) => {
            let conditions = parse_where(tokens)?;
            expect_none(tokens)?;
            Ok(conditions)
        },
        Err(_) => {
            expect_none(tokens)?;
            Ok(ExpressionNode::Empty)
        },
    }
}

/// What the builders of the four statements share: each holds the tokens
/// behind the statement's first keyword and reads them with the grammar of
/// this module. A builder supplies the grammar of its statement and the
/// keywords that may occur in it.
pub trait Builder {
    /// The tokens that are left to read.
    spec fn remaining(&self) -> Seq<TokenView>;

    /// The statement's operation.
    spec fn operation() -> Operation;

    /// The keywords that may occur in the statement.
    spec fn allowed_keywords() -> Seq<Seq<char>>;

    /// The query that the tokens `q` write, or the first error, and the
    /// tokens that are left in either case.
    spec fn build_spec(q: Seq<TokenView>) -> Reading<QueryView>;

    /// Reads the whole statement: where it succeeds no token is left.
    fn build(&mut self) -> (r: Result<Query, Errored>)
        ensures
            parsed(r, final(self).remaining(), Self::build_spec(old(self).remaining())),
            r is Ok ==> final(self).remaining().len() == 0,
            is_rest_of(final(self).remaining(), old(self).remaining()),
    ;

    /// The queue of tokens.
    fn tokens(&mut self) -> (r: &mut VecDeque<Token>)
        ensures
            r.deep_view() == old(self).remaining(),
            final(self).remaining() == final(r).deep_view(),
    ;

    /// Reads the table name; see [`parse_table_spec`].
    fn parse_table(&mut self, operation: Operation) -> (r: Result<String, Errored>)
        ensures
            parsed(r, final(self).remaining(), parse_table_spec(old(self).remaining(), operation)),
            is_rest_of(final(self).remaining(), old(self).remaining()),
    {
        parse_table(self.tokens(), operation)
    }

    /// Reads the column list; see [`parse_columns_spec`].
    fn parse_columns(&mut self) -> (r: Result<Vec<Token>, Errored>)
        ensures
            parsed(r, final(self).remaining(), parse_columns_spec(old(self).remaining())),
            is_rest_of(final(self).remaining(), old(self).remaining()),
    {
        parse_columns(self.tokens())
    }

    /// Reads `WHERE` and the condition; see [`parse_where_spec`].
    fn parse_where(&mut self) -> (r: Result<ExpressionNode, Errored>)
        ensures
            parsed(r, final(self).remaining(), parse_where_spec(old(self).remaining())),
            is_rest_of(final(self).remaining(), old(self).remaining()),
    {
        parse_where(self.tokens())
    }

    /// Fails where a token is left.
    fn expect_none(&mut self) -> (r: Result<(), Errored>)
        ensures
            agrees(r, expect_none_spec(old(self).remaining())),
            final(self).remaining() == old(self).remaining(),
    {
        expect_none(self.tokens())
    }

    /// Takes the expected token off the queue.
    fn pop_expecting(&mut self, value: &str, kind: TokenKind) -> (r: Result<Option<Token>, Errored>)
        ensures
            is_rest_of(final(self).remaining(), old(self).remaining()),
            final(self).remaining() == pop_expecting_spec(old(self).remaining(), value@, kind).1,
            match pop_expecting_spec(old(self).remaining(), value@, kind).0 {
                Ok(t) => r is Ok && r->Ok_0 is Some && Some(r->Ok_0->0@) == t,
                Err(e) => r is Err && r->Err_0@ == e,
            },
    {
        pop_expecting(self.tokens(), value, kind)
    }

    /// Checks that the expected token is the next one.
    fn peek_expecting(&mut self, value: &str, kind: TokenKind) -> (r: Result<(), Errored>)
        ensures
            agrees(r, peek_expecting_spec(old(self).remaining(), value@, kind)),
            final(self).remaining() == old(self).remaining(),
    {
        peek_expecting(self.tokens(), value, kind)
    }

    /// Rejects a keyword that has no place in the statement.
    fn validate_keywords(&self) -> (r: Result<(), Errored>)
        ensures
            agrees(
                r,
                validate_keywords_spec(Self::allowed_keywords(), self.remaining(), Self::operation()),
            ),
    ;
}

} // verus!
