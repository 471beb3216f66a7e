//! The tokenizer: from a query string to its tokens.
use crate::query::structs::token::{Token, TokenKind, TokenView};
use crate::utils::errors::{agrees, continued, ErrorView, Errored};
use crate::utils::text::{
    alphanumeric, ascii_digit, ascii_upper, char_is_alphanumeric, char_is_ascii_digit,
    char_is_whitespace, chars_of, decimal, push_index, text_of, texts_of, to_ascii_upper, upper,
    whitespace,
};
use vstd::prelude::*;
use vstd::string::*;

pub mod written;

verus! {

/// The states of the tokenizer. `Begin` looks at the next character and
/// picks the state that reads a token of its class; `Complete` hands the
/// token over and goes back to `Begin`.
#[derive(Debug, PartialEq, Eq, Clone, Copy, Structural)]
pub enum TokenizerState {
    Begin,
    IdentifierOrKeyword,
    Operator,
    NumberLiteral,
    StringLiteral,
    OpenParenthesis,
    CloseParenthesis,
    Complete,
}

/// The reserved words, in the order in which they are tried.
pub open spec fn reserved_keywords() -> Seq<Seq<char>> {
    seq![
        "SELECT"@,
        "UPDATE"@,
        "DELETE"@,
        "INSERT INTO"@,
        "SET"@,
        "VALUES"@,
        "ORDER BY"@,
        "DESC"@,
        "ASC"@,
        "FROM"@,
        "WHERE"@,
        "AND"@,
        "OR"@,
        "NOT"@,
    ]
}

/// The operators, in the order in which they are tried.
pub open spec fn valid_operators() -> Seq<Seq<char>> {
    seq!["*"@, "="@, "<"@, ">"@, "!"@, ">="@, "<="@, "!="@]
}

/// Characters between tokens: whitespace, comma, semicolon and NUL.
pub open spec fn skippable(c: char) -> bool {
    whitespace(c) || c == ' ' || c == ',' || c == ';' || c == '\0' || c == '\n'
}

/// Characters of identifiers and keywords.
pub open spec fn identifier_char(c: char) -> bool {
    c == '_' || (alphanumeric(c) && !skippable(c))
}

/// Characters of operators.
pub open spec fn operator_char(c: char) -> bool {
    c == '*' || c == '=' || c == '<' || c == '>' || c == '!'
}

/// Whether `c` belongs to the character class of tokens of kind `kind`:
/// digits for numbers, operator characters for operators, identifier
/// characters for everything else.
pub open spec fn in_class(c: char, kind: TokenKind) -> bool {
    match kind {
        TokenKind::Number => ascii_digit(c),
        TokenKind::Operator => operator_char(c),
        _ => identifier_char(c),
    }
}

/// The character at `index`, or NUL past the end.
pub open spec fn char_at_spec(s: Seq<char>, index: int) -> char {
    if 0 <= index < s.len() {
        s[index]
    } else {
        '\0'
    }
}

/// Whether `word` stands at `i`, ignoring case, and is not continued by a
/// character of its own class.
pub open spec fn word_at(s: Seq<char>, i: int, word: Seq<char>, kind: TokenKind) -> bool {
    &&& 0 < word.len()
    &&& 0 <= i
    &&& i + word.len() <= s.len()
    &&& upper(s.subrange(i, i + word.len())) == word
    &&& !in_class(char_at_spec(s, i + word.len()), kind)
}

/// The first of `words` that stands at `i`.
pub open spec fn special_token(
    s: Seq<char>,
    i: int,
    words: Seq<Seq<char>>,
    kind: TokenKind,
) -> Option<Seq<char>>
    decreases words.len(),
{
    if words.len() == 0 {
        None
    } else if word_at(s, i, words[0], kind) {
        Some(words[0])
    } else {
        special_token(s, i, words.skip(1), kind)
    }
}

/// Where the longest run of characters of one class that starts at `i` ends.
pub open spec fn run_end(s: Seq<char>, i: int, kind: TokenKind) -> int
    decreases s.len() - i,
{
    if 0 <= i < s.len() && in_class(s[i], kind) {
        run_end(s, i + 1, kind)
    } else {
        i
    }
}

/// The position of the first single quote at or after `i`.
pub open spec fn find_quote(s: Seq<char>, i: int) -> Option<int>
    decreases s.len() - i,
{
    if i < 0 || i >= s.len() {
        None
    } else if s[i] == '\'' {
        Some(i)
    } else {
        find_quote(s, i + 1)
    }
}

/// The message for a character that starts no token. Here and in the
/// other messages a position counts the characters in front of it, not
/// their bytes.
pub open spec fn unknown_char_message(c: char, i: int) -> Seq<char> {
    "could not tokenize char: "@.push(c) + " at index: "@ + decimal(i as nat) + "."@
}

/// The message for a character that is no parenthesis where one is read.
pub open spec fn unknown_token_message(c: char, i: int) -> Seq<char> {
    "unrecognized token "@.push(c) + " at char "@ + decimal(i as nat)
}

/// The message for operator characters that are no operator.
pub open spec fn unknown_operator_message(c: char, i: int) -> Seq<char> {
    "unrecognized operator "@.push(c) + " at index: "@ + decimal(i as nat)
}

/// The message for a string literal that is not closed.
pub open spec fn open_quote_message(start: int) -> Seq<char> {
    "unclosed quotation mark after index: "@ + decimal(start as nat)
}

/// The message for parentheses that do not balance.
pub open spec fn open_parentheses_message() -> Seq<char> {
    "unclosed parentheses found."@
}

/// The state that `Begin` moves to on `c`: itself where `c` is skipped,
/// `None` where no token starts with `c`.
pub open spec fn next_state_spec(c: char) -> Option<TokenizerState> {
    if skippable(c) {
        Some(TokenizerState::Begin)
    } else if ascii_digit(c) {
        Some(TokenizerState::NumberLiteral)
    } else if identifier_char(c) {
        Some(TokenizerState::IdentifierOrKeyword)
    } else if c == '\'' {
        Some(TokenizerState::StringLiteral)
    } else if c == '(' {
        Some(TokenizerState::OpenParenthesis)
    } else if c == ')' {
        Some(TokenizerState::CloseParenthesis)
    } else if operator_char(c) {
        Some(TokenizerState::Operator)
    } else {
        None
    }
}

/// A run of characters of one class as a token, with the position behind it.
pub open spec fn run_token(s: Seq<char>, i: int, kind: TokenKind) -> (TokenView, int) {
    (TokenView { value: s.subrange(i, run_end(s, i, kind)), kind }, run_end(s, i, kind))
}

/// The token that `state` reads at `i`, with the position behind it.
pub open spec fn token_at(s: Seq<char>, i: int, state: TokenizerState) -> Result<
    (TokenView, int),
    ErrorView,
> {
    match state {
        TokenizerState::IdentifierOrKeyword => match special_token(
            s,
            i,
            reserved_keywords(),
            TokenKind::Identifier,
        ) {
            Some(word) => Ok((TokenView { value: word, kind: TokenKind::Keyword }, i + word.len())),
            None => Ok(run_token(s, i, TokenKind::Identifier)),
        },
        TokenizerState::NumberLiteral => Ok(run_token(s, i, TokenKind::Number)),
        TokenizerState::Operator => match special_token(
            s,
            i,
            valid_operators(),
            TokenKind::Operator,
        ) {
            Some(word) => Ok(
                (TokenView { value: word, kind: TokenKind::Operator }, i + word.len()),
            ),
            None => Err(ErrorView::Syntax(unknown_operator_message(char_at_spec(s, i), i))),
        },
        TokenizerState::StringLiteral => match find_quote(s, i + 1) {
            Some(end) => Ok(
                (TokenView { value: s.subrange(i + 1, end), kind: TokenKind::String }, end + 1),
            ),
            None => Err(ErrorView::Syntax(open_quote_message(i + 1))),
        },
        _ => if char_at_spec(s, i) == '(' {
            Ok((TokenView { value: seq!['('], kind: TokenKind::ParenthesisOpen }, i + 1))
        } else if char_at_spec(s, i) == ')' {
            Ok((TokenView { value: seq![')'], kind: TokenKind::ParenthesisClose }, i + 1))
        } else {
            Err(ErrorView::Syntax(unknown_token_message(char_at_spec(s, i), i)))
        },
    }
}

/// How a token changes the count of open parentheses.
pub open spec fn depth_change(kind: TokenKind) -> int {
    match kind {
        TokenKind::ParenthesisOpen => 1,
        TokenKind::ParenthesisClose => -1,
        _ => 0,
    }
}

/// The tokens of `s` from position `i` on, with `depth` parentheses open
/// before `i`; or the first error.
pub open spec fn lex(s: Seq<char>, i: int, depth: int) -> Result<Seq<TokenView>, ErrorView>
    decreases s.len() - i,
{
    if i < 0 || i >= s.len() {
        if depth == 0 {
            Ok(Seq::empty())
        } else {
            Err(ErrorView::Syntax(open_parentheses_message()))
        }
    } else {
        match next_state_spec(s[i]) {
            None => Err(ErrorView::Syntax(unknown_char_message(s[i], i))),
            Some(TokenizerState::Begin) => lex(s, i + 1, depth),
            Some(state) => match token_at(s, i, state) {
                Err(e) => Err(e),
                Ok((token, next)) => {
                    proof {
                        lemma_token_advances(s, i, state);
                    }
                    match lex(s, next, depth + depth_change(token.kind)) {
                        Err(e) => Err(e),
                        Ok(rest) => Ok(seq![token] + rest),
                    }
                },
            },
        }
    }
}

/// The tokens of the query `s`, or the first error.
pub open spec fn tokenize_spec(s: Seq<char>) -> Result<Seq<TokenView>, ErrorView> {
    lex(s, 0, 0)
}

/// A run ends within the text, and behind its start where it has a
/// character.
pub proof fn lemma_run_end_bounds(s: Seq<char>, i: int, kind: TokenKind)
    requires
        0 <= i <= s.len(),
    ensures
        i <= run_end(s, i, kind) <= s.len(),
        i < s.len() && in_class(s[i], kind) ==> i < run_end(s, i, kind),
    decreases s.len() - i,
{
    if i < s.len() && in_class(s[i], kind) {
        lemma_run_end_bounds(s, i + 1, kind);
    }
}

/// The first quote from `i` on stands at or behind `i`.
pub proof fn lemma_find_quote_bounds(s: Seq<char>, i: int)
    requires
        0 <= i,
    ensures
        find_quote(s, i) matches Some(end) ==> i <= end < s.len() && s[end] == '\'',
    decreases s.len() - i,
{
    if i < s.len() && s[i] != '\'' {
        lemma_find_quote_bounds(s, i + 1);
    }
}

/// The word that the search finds is one of the words and stands at `i`.
pub proof fn lemma_special_token_is_word(
    s: Seq<char>,
    i: int,
    words: Seq<Seq<char>>,
    kind: TokenKind,
)
    ensures
        special_token(s, i, words, kind) matches Some(word) ==> words.contains(word) && word_at(
            s,
            i,
            word,
            kind,
        ),
    decreases words.len(),
{
    if words.len() > 0 && !word_at(s, i, words[0], kind) {
        lemma_special_token_is_word(s, i, words.skip(1), kind);
    }
}

/// A token that is read at `i` ends behind `i` and within `s`.
pub proof fn lemma_token_advances(s: Seq<char>, i: int, state: TokenizerState)
    requires
        0 <= i < s.len(),
        next_state_spec(s[i]) == Some(state),
        state != TokenizerState::Begin,
    ensures
        token_at(s, i, state) matches Ok((_, next)) ==> i < next <= s.len(),
{
    match state {
        TokenizerState::IdentifierOrKeyword => {
            lemma_special_token_is_word(s, i, reserved_keywords(), TokenKind::Identifier);
            lemma_run_end_bounds(s, i, TokenKind::Identifier);
        },
        TokenizerState::NumberLiteral => {
            lemma_run_end_bounds(s, i, TokenKind::Number);
        },
        TokenizerState::Operator => {
            lemma_special_token_is_word(s, i, valid_operators(), TokenKind::Operator);
        },
        TokenizerState::StringLiteral => {
            lemma_find_quote_bounds(s, i + 1);
        },
        _ => {},
    }
}

/// The character at `index`, or NUL past the end.
fn char_at(index: usize, chars: &Vec<char>) -> (c: char)
    ensures
        c == char_at_spec(chars@, index as int),
{
    if index < chars.len() {
        chars[index]
    } else {
        '\0'
    }
}

/// Whether `c` separates tokens.
fn can_be_skipped(c: char) -> (b: bool)
    ensures
        b == skippable(c),
{
    char_is_whitespace(c) || c == ' ' || c == ',' || c == ';' || c == '\0' || c == '\n'
}

/// Whether `c` may stand in an identifier or a keyword.
fn is_identifier_char(c: char) -> (b: bool)
    ensures
        b == identifier_char(c),
{
    c == '_' || (char_is_alphanumeric(c) && !can_be_skipped(c))
}

/// Whether `c` may stand in an operator.
fn is_operator_char(c: char) -> (b: bool)
    ensures
        b == operator_char(c),
{
    c == '*' || c == '=' || c == '<' || c == '>' || c == '!'
}

/// Whether `c` is of the character class of tokens of kind `kind`.
fn matches_kind(c: char, kind: TokenKind) -> (b: bool)
    ensures
        b == in_class(c, kind),
{
    match kind {
        TokenKind::Number => char_is_ascii_digit(c),
        TokenKind::Operator => is_operator_char(c),
        _ => is_identifier_char(c),
    }
}

/// The reserved words, in the order in which they are tried.
fn keyword_list() -> (words: Vec<&'static str>)
    ensures
        texts_of(words@) == reserved_keywords(),
{
    let words = vec![
        "SELECT",
        "UPDATE",
        "DELETE",
        "INSERT INTO",
        "SET",
        "VALUES",
        "ORDER BY",
        "DESC",
        "ASC",
        "FROM",
        "WHERE",
        "AND",
        "OR",
        "NOT",
    ];
    words
}

/// The operators, in the order in which they are tried.
fn operator_list() -> (words: Vec<&'static str>)
    ensures
        texts_of(words@) == valid_operators(),
{
    let words = vec!["*", "=", "<", ">", "!", ">=", "<=", "!="];
    words
}

/// The tokenizer: a cursor into the query, the state of the machine and the
/// count of parentheses that are open.
pub struct Tokenizer {
    i: usize,
    state: TokenizerState,
    parenthesis_count: i128,
}

impl Tokenizer {
    /// The position of the cursor.
    pub closed spec fn position(&self) -> nat {
        self.i as nat
    }

    /// The state of the machine.
    pub closed spec fn state(&self) -> TokenizerState {
        self.state
    }

    /// The count of parentheses that are open.
    pub closed spec fn depth(&self) -> int {
        self.parenthesis_count as int
    }

    /// What reading one token in `state` does to the tokenizer and returns.
    spec fn reads(
        before: Tokenizer,
        after: Tokenizer,
        r: Result<Token, Errored>,
        s: Seq<char>,
        state: TokenizerState,
    ) -> bool {
        match token_at(s, before.i as int, state) {
            Ok((token, next)) => {
                &&& r is Ok
                &&& r->Ok_0@ == token
                &&& after.i == next
                &&& after.state == TokenizerState::Complete
                &&& after.parenthesis_count == before.parenthesis_count + depth_change(token.kind)
            },
            Err(e) => r is Err && r->Err_0@ == e,
        }
    }

    /// A tokenizer at the start of its input.
    pub fn new() -> (t: Tokenizer)
        ensures
            t.position() == 0,
            t.state() == TokenizerState::Begin,
            t.depth() == 0,
    {
        Tokenizer { i: 0, state: TokenizerState::Begin, parenthesis_count: 0 }
    }

    /// Splits `sql` into its tokens. Fails with a syntax error on a character
    /// that starts no token, on an operator that is not known, on a string
    /// literal that is not closed, and at the end where the parentheses do
    /// not balance. The messages name the place by the number of characters
    /// in front of it. The tokenizer starts over on every call.
    pub fn tokenize(&mut self, sql: &str) -> (r: Result<Vec<Token>, Errored>)
        ensures
            agrees(r, tokenize_spec(sql@)),
            r is Ok ==> final(self).position() == sql@.len() && final(self).depth() == 0,
    {
        let chars = chars_of(sql);
        self.i = 0;
        self.state = TokenizerState::Begin;
        self.parenthesis_count = 0;
        let mut out: Vec<Token> = Vec::new();
        let mut token = Token::default();
        let ghost s = chars@;
        while self.i < chars.len()
            invariant
                s == chars@,
                s == sql@,
                self.i <= chars.len(),
                -(self.i as int) <= self.parenthesis_count <= self.i,
                (self.state == TokenizerState::Complete) <==> token.kind != TokenKind::Unknown,
                self.state != TokenizerState::Begin && self.state != TokenizerState::Complete
                    ==> self.i < s.len() && next_state_spec(s[self.i as int]) == Some(self.state),
                tokenize_spec(s) == continued(
                    if self.state == TokenizerState::Complete {
                        out.deep_view().push(token@)
                    } else {
                        out.deep_view()
                    },
                    lex(s, self.i as int, self.parenthesis_count as int),
                ),
            decreases chars.len() - self.i, Self::rank(self.state),
        {
            let c = char_at(self.i, &chars);
            let ghost before = *self;
            let ghost done = out.deep_view();
            match self.state {
                TokenizerState::Begin => {
                    self.next_state(c)?;
                },
                TokenizerState::Complete => {
                    out.push(token);
                    assert(out.deep_view() =~= done.push(token@));
                    token = Token::default();
                    self.reset();
                },
                TokenizerState::IdentifierOrKeyword => {
                    proof {
                        lemma_token_advances(s, self.i as int, self.state);
                    }
                    token = self.tokenize_identifier_or_keyword(&chars)?;
                    proof {
                        Self::lemma_reads(before, *self, token, s, done);
                    }
                },
                TokenizerState::Operator => {
                    proof {
                        lemma_token_advances(s, self.i as int, self.state);
                    }
                    token = self.tokenize_operator(&chars)?;
                    proof {
                        Self::lemma_reads(before, *self, token, s, done);
                    }
                },
                TokenizerState::NumberLiteral => {
                    proof {
                        lemma_token_advances(s, self.i as int, self.state);
                    }
                    token = self.tokenize_number(&chars)?;
                    proof {
                        Self::lemma_reads(before, *self, token, s, done);
                    }
                },
                TokenizerState::OpenParenthesis | TokenizerState::CloseParenthesis => {
                    proof {
                        lemma_token_advances(s, self.i as int, self.state);
                    }
                    token = self.tokenize_parenthesis(&chars)?;
                    proof {
                        Self::lemma_reads(before, *self, token, s, done);
                    }
                },
                TokenizerState::StringLiteral => {
                    proof {
                        lemma_token_advances(s, self.i as int, self.state);
                    }
                    self.i += 1;
                    token = self.tokenize_quoted(&chars)?;
                    proof {
                        Self::lemma_reads(before, *self, token, s, done);
                    }
                },
            }
        }
        let ghost done = out.deep_view();
        if token.kind != TokenKind::Unknown {
            out.push(token);
            assert(out.deep_view() =~= done.push(token@));
        }
        if self.parenthesis_count != 0 {
            return Err(Errored::Syntax(String::from_str("unclosed parentheses found.")));
        }
        Ok(out)
    }

    /// The order of the states within one position of the cursor.
    spec fn rank(state: TokenizerState) -> nat {
        match state {
            TokenizerState::Complete => 2,
            TokenizerState::Begin => 1,
            _ => 0,
        }
    }

    /// After a token is read, the tokens so far with the new one, followed by
    /// the rest, are what they were before with the rest from the old
    /// position.
    proof fn lemma_reads(
        before: Tokenizer,
        after: Tokenizer,
        token: Token,
        s: Seq<char>,
        done: Seq<TokenView>,
    )
        requires
            before.i < s.len(),
            next_state_spec(s[before.i as int]) == Some(before.state),
            before.state != TokenizerState::Begin,
            Self::reads(before, after, Ok(token), s, before.state),
            token_at(s, before.i as int, before.state) is Ok,
        ensures
            continued(done, lex(s, before.i as int, before.parenthesis_count as int)) == continued(
                done.push(token@),
                lex(s, after.i as int, after.parenthesis_count as int),
            ),
            token.kind != TokenKind::Unknown,
    {
        let rest = lex(s, after.i as int, after.parenthesis_count as int);
        if rest is Ok {
            assert(done + (seq![token@] + rest->Ok_0) =~= done.push(token@) + rest->Ok_0);
        }
    }

    /// Leaves `Begin` for the state that reads the token starting with `c`,
    /// or steps over `c` where it separates tokens.
    fn next_state(&mut self, c: char) -> (r: Result<(), Errored>)
        requires
            old(self).i < usize::MAX,
        ensures
            final(self).parenthesis_count == old(self).parenthesis_count,
            match next_state_spec(c) {
                None => r is Err && r->Err_0@ == ErrorView::Syntax(
                    unknown_char_message(c, old(self).i as int),
                ),
                Some(TokenizerState::Begin) => r is Ok && final(self).i == old(self).i + 1
                    && final(self).state == old(self).state,
                Some(state) => r is Ok && final(self).i == old(self).i && final(self).state
                    == state,
            },
    {
        if can_be_skipped(c) {
            self.i += 1;
        } else if char_is_ascii_digit(c) {
            self.state = TokenizerState::NumberLiteral;
        } else if is_identifier_char(c) {
            self.state = TokenizerState::IdentifierOrKeyword;
        } else if c == '\'' {
            self.state = TokenizerState::StringLiteral;
        } else if c == '(' {
            self.state = TokenizerState::OpenParenthesis;
        } else if c == ')' {
            self.state = TokenizerState::CloseParenthesis;
        } else if is_operator_char(c) {
            self.state = TokenizerState::Operator;
        } else {
            let mut message = String::from_str("could not tokenize char: ");
            message.push(c);
            message.append(" at index: ");
            push_index(&mut message, self.i);
            message.append(".");
            return Err(Errored::Syntax(message));
        }
        Ok(())
    }

    /// Reads one parenthesis and counts it.
    fn tokenize_parenthesis(&mut self, sql: &Vec<char>) -> (r: Result<Token, Errored>)
        requires
            old(self).i < sql.len(),
            -(old(self).i as int) <= old(self).parenthesis_count <= old(self).i,
        ensures
            Self::reads(*old(self), *final(self), r, sql@, TokenizerState::OpenParenthesis),
    {
        let c = char_at(self.i, sql);
        let mut token = Token::default();
        if c == '(' {
            self.parenthesis_count += 1;
            token.kind = TokenKind::ParenthesisOpen;
        } else if c == ')' {
            self.parenthesis_count -= 1;
            token.kind = TokenKind::ParenthesisClose;
        } else {
            let mut message = String::from_str("unrecognized token ");
            message.push(c);
            message.append(" at char ");
            push_index(&mut message, self.i);
            return Err(Errored::Syntax(message));
        }
        self.i += 1;
        self.state = TokenizerState::Complete;
        token.value.push(c);
        Ok(token)
    }

    /// Reads a keyword where one stands at the cursor, else an identifier.
    fn tokenize_identifier_or_keyword(&mut self, sql: &Vec<char>) -> (r: Result<Token, Errored>)
        requires
            old(self).i <= sql.len(),
        ensures
            Self::reads(*old(self), *final(self), r, sql@, TokenizerState::IdentifierOrKeyword),
    {
        proof {
            lemma_special_token_is_word(
                sql@,
                self.i as int,
                reserved_keywords(),
                TokenKind::Identifier,
            );
        }
        if let Some(word) = self.matches_keyword(sql) {
            self.i += word.as_str().unicode_len();
            self.state = TokenizerState::Complete;
            return Ok(Token { value: word, kind: TokenKind::Keyword });
        }
        self.tokenize_kind(sql, TokenKind::Identifier)
    }

    /// Reads a run of digits.
    fn tokenize_number(&mut self, sql: &Vec<char>) -> (r: Result<Token, Errored>)
        requires
            old(self).i <= sql.len(),
        ensures
            Self::reads(*old(self), *final(self), r, sql@, TokenizerState::NumberLiteral),
    {
        self.tokenize_kind(sql, TokenKind::Number)
    }

    /// Reads the operator that stands at the cursor.
    fn tokenize_operator(&mut self, sql: &Vec<char>) -> (r: Result<Token, Errored>)
        requires
            old(self).i <= sql.len(),
        ensures
            Self::reads(*old(self), *final(self), r, sql@, TokenizerState::Operator),
    {
        proof {
            lemma_special_token_is_word(
                sql@,
                self.i as int,
                valid_operators(),
                TokenKind::Operator,
            );
        }
        if let Some(op) = self.matches_operator(sql) {
            self.i += op.as_str().unicode_len();
            self.state = TokenizerState::Complete;
            Ok(Token { value: op, kind: TokenKind::Operator })
        } else {
            let mut message = String::from_str("unrecognized operator ");
            message.push(char_at(self.i, sql));
            message.append(" at index: ");
            push_index(&mut message, self.i);
            Err(Errored::Syntax(message))
        }
    }

    /// Reads a string literal up to its closing quote; the cursor stands
    /// behind the opening quote.
    fn tokenize_quoted(&mut self, sql: &Vec<char>) -> (r: Result<Token, Errored>)
        requires
            0 < old(self).i <= sql.len(),
        ensures
            match find_quote(sql@, old(self).i as int) {
                Some(end) => {
                    &&& r is Ok
                    &&& r->Ok_0@ == (TokenView {
                        value: sql@.subrange(old(self).i as int, end),
                        kind: TokenKind::String,
                    })
                    &&& final(self).i == end + 1
                    &&& final(self).state == TokenizerState::Complete
                    &&& final(self).parenthesis_count == old(self).parenthesis_count
                },
                None => r is Err && r->Err_0@ == ErrorView::Syntax(
                    open_quote_message(old(self).i as int),
                ),
            },
    {
        let start = self.i;
        let mut index = start;
        while index < sql.len()
            invariant
                start <= index <= sql.len(),
                find_quote(sql@, start as int) == find_quote(sql@, index as int),
                start == old(self).i,
                *self == *old(self),
            decreases sql.len() - index,
        {
            if sql[index] == '\'' {
                self.i = index + 1;
                self.state = TokenizerState::Complete;
                return Ok(Token { value: text_of(sql, start, index), kind: TokenKind::String });
            }
            index += 1;
        }
        let mut message = String::from_str("unclosed quotation mark after index: ");
        push_index(&mut message, start);
        Err(Errored::Syntax(message))
    }

    /// The keyword at the cursor, if any.
    fn matches_keyword(&self, sql: &Vec<char>) -> (r: Option<String>)
        requires
            self.i <= sql.len(),
        ensures
            r is Some == special_token(
                sql@,
                self.i as int,
                reserved_keywords(),
                TokenKind::Identifier,
            ) is Some,
            r is Some ==> Some(r->0@) == special_token(
                sql@,
                self.i as int,
                reserved_keywords(),
                TokenKind::Identifier,
            ),
    {
        let words = keyword_list();
        self.matches_special_tokens(sql, &words, TokenKind::Identifier)
    }

    /// The operator at the cursor, if any.
    fn matches_operator(&self, sql: &Vec<char>) -> (r: Option<String>)
        requires
            self.i <= sql.len(),
        ensures
            r is Some == special_token(
                sql@,
                self.i as int,
                valid_operators(),
                TokenKind::Operator,
            ) is Some,
            r is Some ==> Some(r->0@) == special_token(
                sql@,
                self.i as int,
                valid_operators(),
                TokenKind::Operator,
            ),
    {
        let words = operator_list();
        self.matches_special_tokens(sql, &words, TokenKind::Operator)
    }

    /// The first of `tokens` that stands at the cursor, ignoring case, and is
    /// not continued by a character of the class of `kind`.
    fn matches_special_tokens(
        &self,
        sql: &Vec<char>,
        tokens: &Vec<&'static str>,
        kind: TokenKind,
    ) -> (r: Option<String>)
        requires
            self.i <= sql.len(),
        ensures
            r is Some == special_token(sql@, self.i as int, texts_of(tokens@), kind) is Some,
            r is Some ==> Some(r->0@) == special_token(sql@, self.i as int, texts_of(tokens@), kind),
    {
        let mut k: usize = 0;
        assert(texts_of(tokens@).skip(0) =~= texts_of(tokens@));
        while k < tokens.len()
            invariant
                k <= tokens.len(),
                self.i <= sql.len(),
                special_token(sql@, self.i as int, texts_of(tokens@), kind) == special_token(
                    sql@,
                    self.i as int,
                    texts_of(tokens@).skip(k as int),
                    kind,
                ),
            decreases tokens.len() - k,
        {
            let word = chars_of(tokens[k]);
            if self.matches_word(sql, &word, kind) {
                return Some(String::from_str(tokens[k]));
            }
            assert(texts_of(tokens@).skip(k as int).skip(1) =~= texts_of(tokens@).skip(k + 1));
            k += 1;
        }
        None
    }

    /// Whether `word` stands at the cursor.
    fn matches_word(&self, sql: &Vec<char>, word: &Vec<char>, kind: TokenKind) -> (b: bool)
        requires
            self.i <= sql.len(),
        ensures
            b == word_at(sql@, self.i as int, word@, kind),
    {
        let n = word.len();
        if n == 0 || n > sql.len() - self.i {
            return false;
        }
        let ghost window = sql@.subrange(self.i as int, self.i + n);
        let mut j: usize = 0;
        while j < n
            invariant
                j <= n,
                n == word.len(),
                self.i + n <= sql.len(),
                window == sql@.subrange(self.i as int, self.i + n),
                forall|m: int| 0 <= m < j ==> ascii_upper(window[m]) == word@[m],
            decreases n - j,
        {
            if to_ascii_upper(sql[self.i + j]) != word[j] {
                return false;
            }
            j += 1;
        }
        assert(upper(window) =~= word@);
        !matches_kind(char_at(self.i + n, sql), kind)
    }

    /// Reads the longest run of characters of the class of `output_kind`.
    fn tokenize_kind(&mut self, sql: &Vec<char>, output_kind: TokenKind) -> (r: Result<
        Token,
        Errored,
    >)
        requires
            old(self).i <= sql.len(),
        ensures
            r is Ok,
            r->Ok_0@ == run_token(sql@, old(self).i as int, output_kind).0,
            final(self).i == run_token(sql@, old(self).i as int, output_kind).1,
            final(self).state == TokenizerState::Complete,
            final(self).parenthesis_count == old(self).parenthesis_count,
    {
        let start = self.i;
        let mut c = char_at(self.i, sql);
        while self.i < sql.len() && matches_kind(c, output_kind)
            invariant
                start <= self.i <= sql.len(),
                c == char_at_spec(sql@, self.i as int),
                run_end(sql@, start as int, output_kind) == run_end(
                    sql@,
                    self.i as int,
                    output_kind,
                ),
                self.state == old(self).state,
                self.parenthesis_count == old(self).parenthesis_count,
            decreases sql.len() - self.i,
        {
            self.i += 1;
            c = char_at(self.i, sql);
        }
        self.state = TokenizerState::Complete;
        Ok(Token { value: text_of(sql, start, self.i), kind: output_kind })
    }

    /// Goes back to `Begin` for the next token.
    fn reset(&mut self)
        ensures
            final(self).state == TokenizerState::Begin,
            final(self).i == old(self).i,
            final(self).parenthesis_count == old(self).parenthesis_count,
    {
        self.state = TokenizerState::Begin
    }
}

/// The parentheses that `tokens` open, less those that they close.
pub open spec fn depth_of(tokens: Seq<TokenView>) -> int
    decreases tokens.len(),
{
    if tokens.len() == 0 {
        0
    } else {
        depth_change(tokens[0].kind) + depth_of(tokens.skip(1))
    }
}

/// The number of single quotes in `s`.
pub open spec fn quotes(s: Seq<char>) -> nat
    decreases s.len(),
{
    if s.len() == 0 {
        0
    } else if s.last() == '\'' {
        quotes(s.drop_last()) + 1
    } else {
        quotes(s.drop_last())
    }
}

/// The tokens from `i` on close what is open in front of `i`.
proof fn lemma_lex_balances(s: Seq<char>, i: int, depth: int)
    ensures
        lex(s, i, depth) matches Ok(tokens) ==> depth + depth_of(tokens) == 0,
    decreases s.len() - i,
{
    if 0 <= i < s.len() {
        match next_state_spec(s[i]) {
            None => {},
            Some(TokenizerState::Begin) => {
                lemma_lex_balances(s, i + 1, depth);
            },
            Some(state) => {
                if token_at(s, i, state) is Ok {
                    lemma_token_advances(s, i, state);
                    let (token, next) = token_at(s, i, state)->Ok_0;
                    let after = depth + depth_change(token.kind);
                    lemma_lex_balances(s, next, after);
                    if lex(s, next, after) is Ok {
                        let rest = lex(s, next, after)->Ok_0;
                        assert((seq![token] + rest).skip(1) =~= rest);
                    }
                }
            },
        }
    }
}

/// The tokens of a query open as many parentheses as they close: a query
/// with unbalanced parentheses has no tokens.
pub proof fn lemma_tokens_balance(s: Seq<char>)
    ensures
        tokenize_spec(s) matches Ok(tokens) ==> depth_of(tokens) == 0,
{
    lemma_lex_balances(s, 0, 0);
}

/// The quotes of two texts add up.
proof fn lemma_quotes_add(a: Seq<char>, b: Seq<char>)
    ensures
        quotes(a + b) == quotes(a) + quotes(b),
    decreases b.len(),
{
    if b.len() > 0 {
        assert((a + b).drop_last() =~= a + b.drop_last());
        lemma_quotes_add(a, b.drop_last());
    }
}

/// A text of other characters holds no quote.
proof fn lemma_no_quotes(s: Seq<char>)
    requires
        forall|k: int| 0 <= k < s.len() ==> s[k] != '\'',
    ensures
        quotes(s) == 0,
    decreases s.len(),
{
    if s.len() > 0 {
        lemma_no_quotes(s.drop_last());
    }
}

/// A run holds characters of its class only, and ends in front of a
/// character that is not of the class, or at the end.
pub proof fn lemma_run_end_stops(s: Seq<char>, i: int, kind: TokenKind)
    requires
        0 <= i <= s.len(),
    ensures
        i <= run_end(s, i, kind) <= s.len(),
        run_end(s, i, kind) < s.len() ==> !in_class(s[run_end(s, i, kind)], kind),
        forall|k: int| i <= k < run_end(s, i, kind) ==> in_class(#[trigger] s[k], kind),
    decreases s.len() - i,
{
    if i < s.len() && in_class(s[i], kind) {
        lemma_run_end_stops(s, i + 1, kind);
    }
}

/// No quote stands in front of the first one.
pub proof fn lemma_find_quote_first(s: Seq<char>, i: int)
    requires
        0 <= i,
    ensures
        find_quote(s, i) matches Some(end) ==> forall|k: int| i <= k < end ==> s[k] != '\'',
    decreases s.len() - i,
{
    if i < s.len() && s[i] != '\'' {
        lemma_find_quote_first(s, i + 1);
    }
}

/// The reserved words, letter by letter.
pub proof fn lemma_keywords_spelled()
    ensures
        reserved_keywords() == seq![
            seq!['S', 'E', 'L', 'E', 'C', 'T'],
            seq!['U', 'P', 'D', 'A', 'T', 'E'],
            seq!['D', 'E', 'L', 'E', 'T', 'E'],
            seq!['I', 'N', 'S', 'E', 'R', 'T', ' ', 'I', 'N', 'T', 'O'],
            seq!['S', 'E', 'T'],
            seq!['V', 'A', 'L', 'U', 'E', 'S'],
            seq!['O', 'R', 'D', 'E', 'R', ' ', 'B', 'Y'],
            seq!['D', 'E', 'S', 'C'],
            seq!['A', 'S', 'C'],
            seq!['F', 'R', 'O', 'M'],
            seq!['W', 'H', 'E', 'R', 'E'],
            seq!['A', 'N', 'D'],
            seq!['O', 'R'],
            seq!['N', 'O', 'T'],
        ],
{
    reveal_strlit("SELECT");
    reveal_strlit("UPDATE");
    reveal_strlit("DELETE");
    reveal_strlit("INSERT INTO");
    reveal_strlit("SET");
    reveal_strlit("VALUES");
    reveal_strlit("ORDER BY");
    reveal_strlit("DESC");
    reveal_strlit("ASC");
    reveal_strlit("FROM");
    reveal_strlit("WHERE");
    reveal_strlit("AND");
    reveal_strlit("OR");
    reveal_strlit("NOT");
    assert("SELECT"@ =~= seq!['S', 'E', 'L', 'E', 'C', 'T']);
    assert("UPDATE"@ =~= seq!['U', 'P', 'D', 'A', 'T', 'E']);
    assert("DELETE"@ =~= seq!['D', 'E', 'L', 'E', 'T', 'E']);
    assert("INSERT INTO"@ =~= seq!['I', 'N', 'S', 'E', 'R', 'T', ' ', 'I', 'N', 'T', 'O']);
    assert("SET"@ =~= seq!['S', 'E', 'T']);
    assert("VALUES"@ =~= seq!['V', 'A', 'L', 'U', 'E', 'S']);
    assert("ORDER BY"@ =~= seq!['O', 'R', 'D', 'E', 'R', ' ', 'B', 'Y']);
    assert("DESC"@ =~= seq!['D', 'E', 'S', 'C']);
    assert("ASC"@ =~= seq!['A', 'S', 'C']);
    assert("FROM"@ =~= seq!['F', 'R', 'O', 'M']);
    assert("WHERE"@ =~= seq!['W', 'H', 'E', 'R', 'E']);
    assert("AND"@ =~= seq!['A', 'N', 'D']);
    assert("OR"@ =~= seq!['O', 'R']);
    assert("NOT"@ =~= seq!['N', 'O', 'T']);
}

/// The operators, character by character.
pub proof fn lemma_operators_spelled()
    ensures
        valid_operators() == seq![
            seq!['*'],
            seq!['='],
            seq!['<'],
            seq!['>'],
            seq!['!'],
            seq!['>', '='],
            seq!['<', '='],
            seq!['!', '='],
        ],
{
    reveal_strlit("*");
    reveal_strlit("=");
    reveal_strlit("<");
    reveal_strlit(">");
    reveal_strlit("!");
    reveal_strlit(">=");
    reveal_strlit("<=");
    reveal_strlit("!=");
    assert("*"@ =~= seq!['*']);
    assert("="@ =~= seq!['=']);
    assert("<"@ =~= seq!['<']);
    assert(">"@ =~= seq!['>']);
    assert("!"@ =~= seq!['!']);
    assert(">="@ =~= seq!['>', '=']);
    assert("<="@ =~= seq!['<', '=']);
    assert("!="@ =~= seq!['!', '=']);
}

/// No reserved word and no operator holds a quote.
proof fn lemma_words_hold_no_quote()
    ensures
        forall|w: int, k: int|
            0 <= w < reserved_keywords().len() && 0 <= k < reserved_keywords()[w].len()
                ==> reserved_keywords()[w][k] != '\'',
        forall|w: int, k: int|
            0 <= w < valid_operators().len() && 0 <= k < valid_operators()[w].len()
                ==> valid_operators()[w][k] != '\'',
{
    lemma_keywords_spelled();
    lemma_operators_spelled();
}

/// The characters that one token takes hold no single quote, or two: the
/// two around a string literal.
proof fn lemma_token_quotes(s: Seq<char>, i: int, state: TokenizerState)
    requires
        0 <= i < s.len(),
        next_state_spec(s[i]) == Some(state),
        state != TokenizerState::Begin,
    ensures
        token_at(s, i, state) matches Ok((_, next)) ==> i < next <= s.len() && quotes(
            s.subrange(i, next),
        ) % 2 == 0,
{
    lemma_token_advances(s, i, state);
    if token_at(s, i, state) is Ok {
        let next = token_at(s, i, state)->Ok_0.1;
        let taken = s.subrange(i, next);
        match state {
            TokenizerState::StringLiteral => {
                let end = find_quote(s, i + 1)->0;
                lemma_find_quote_bounds(s, i + 1);
                lemma_find_quote_first(s, i + 1);
                let inner = s.subrange(i + 1, end);
                lemma_no_quotes(inner);
                assert(taken.drop_last() =~= seq!['\''] + inner);
                lemma_quotes_add(seq!['\''], inner);
                assert(quotes(seq!['\'']) == 1) by {
                    let one = seq!['\''];
                    assert(quotes(one.drop_last()) == 0);
                }
            },
            TokenizerState::NumberLiteral => {
                lemma_run_end_stops(s, i, TokenKind::Number);
                lemma_no_quotes(taken);
            },
            TokenizerState::IdentifierOrKeyword => {
                let words = reserved_keywords();
                lemma_special_token_is_word(s, i, words, TokenKind::Identifier);
                lemma_words_hold_no_quote();
                if special_token(s, i, words, TokenKind::Identifier) is Some {
                    let word = special_token(s, i, words, TokenKind::Identifier)->0;
                    assert forall|k: int| 0 <= k < taken.len() implies taken[k] != '\'' by {
                        assert(upper(taken)[k] == word[k]);
                    }
                } else {
                    lemma_run_end_stops(s, i, TokenKind::Identifier);
                }
                lemma_no_quotes(taken);
            },
            TokenizerState::Operator => {
                let words = valid_operators();
                lemma_special_token_is_word(s, i, words, TokenKind::Operator);
                lemma_words_hold_no_quote();
                let word = special_token(s, i, words, TokenKind::Operator)->0;
                assert forall|k: int| 0 <= k < taken.len() implies taken[k] != '\'' by {
                    assert(upper(taken)[k] == word[k]);
                }
                lemma_no_quotes(taken);
            },
            _ => {
                lemma_no_quotes(taken);
            },
        }
    }
}

/// Where the text from `i` on has tokens, it holds an even number of
/// quotes.
proof fn lemma_lex_pairs_quotes(s: Seq<char>, i: int, depth: int)
    requires
        0 <= i <= s.len(),
    ensures
        lex(s, i, depth) is Ok ==> quotes(s.skip(i)) % 2 == 0,
    decreases s.len() - i,
{
    if i < s.len() {
        match next_state_spec(s[i]) {
            None => {},
            Some(TokenizerState::Begin) => {
                lemma_lex_pairs_quotes(s, i + 1, depth);
                assert(s.skip(i) =~= seq![s[i]] + s.skip(i + 1));
                lemma_quotes_add(seq![s[i]], s.skip(i + 1));
                lemma_no_quotes(seq![s[i]]);
            },
            Some(state) => {
                lemma_token_quotes(s, i, state);
                if token_at(s, i, state) is Ok {
                    let (token, next) = token_at(s, i, state)->Ok_0;
                    lemma_lex_pairs_quotes(s, next, depth + depth_change(token.kind));
                    assert(s.skip(i) =~= s.subrange(i, next) + s.skip(next));
                    lemma_quotes_add(s.subrange(i, next), s.skip(next));
                }
            },
        }
    }
}

/// A query that has tokens holds an even number of single quotes: a
/// string literal that is not closed leaves the query without tokens.
pub proof fn lemma_quotes_pair(s: Seq<char>)
    ensures
        tokenize_spec(s) is Ok ==> quotes(s) % 2 == 0,
{
    lemma_lex_pairs_quotes(s, 0, 0);
    assert(s.skip(0) =~= s);
}

/// The parentheses that the text opens from `i` on, less those that it
/// closes, outside string literals; `inside` tells whether `i` stands in a
/// string literal.
pub open spec fn open_outside(s: Seq<char>, i: int, inside: bool) -> int
    decreases s.len() - i,
{
    if i < 0 || i >= s.len() {
        0
    } else if s[i] == '\'' {
        open_outside(s, i + 1, !inside)
    } else if inside {
        open_outside(s, i + 1, true)
    } else if s[i] == '(' {
        open_outside(s, i + 1, false) + 1
    } else if s[i] == ')' {
        open_outside(s, i + 1, false) - 1
    } else {
        open_outside(s, i + 1, false)
    }
}

/// A stretch without quote and parenthesis opens and closes nothing.
proof fn lemma_plain_stretch(s: Seq<char>, i: int, e: int)
    requires
        0 <= i <= e <= s.len(),
        forall|k: int| i <= k < e ==> s[k] != '\'' && s[k] != '(' && s[k] != ')',
    ensures
        open_outside(s, i, false) == open_outside(s, e, false),
    decreases e - i,
{
    if i < e {
        lemma_plain_stretch(s, i + 1, e);
    }
}

/// Within a string literal nothing is opened or closed.
proof fn lemma_literal_stretch(s: Seq<char>, i: int, e: int)
    requires
        0 <= i <= e <= s.len(),
        forall|k: int| i <= k < e ==> s[k] != '\'',
    ensures
        open_outside(s, i, true) == open_outside(s, e, true),
    decreases e - i,
{
    if i < e {
        lemma_literal_stretch(s, i + 1, e);
    }
}

/// No reserved word and no operator holds a parenthesis.
proof fn lemma_words_hold_no_parenthesis()
    ensures
        forall|w: int, k: int|
            0 <= w < reserved_keywords().len() && 0 <= k < reserved_keywords()[w].len()
                ==> reserved_keywords()[w][k] != '(' && reserved_keywords()[w][k] != ')',
        forall|w: int, k: int|
            0 <= w < valid_operators().len() && 0 <= k < valid_operators()[w].len()
                ==> valid_operators()[w][k] != '(' && valid_operators()[w][k] != ')',
{
    lemma_keywords_spelled();
    lemma_operators_spelled();
}

/// The characters that one token takes open and close what the token
/// does.
proof fn lemma_token_opens(s: Seq<char>, i: int, state: TokenizerState)
    requires
        0 <= i < s.len(),
        next_state_spec(s[i]) == Some(state),
        state != TokenizerState::Begin,
    ensures
        token_at(s, i, state) matches Ok((token, next)) ==> i < next <= s.len() && open_outside(
            s,
            i,
            false,
        ) == depth_change(token.kind) + open_outside(s, next, false),
{
    lemma_token_advances(s, i, state);
    if token_at(s, i, state) is Ok {
        let next = token_at(s, i, state)->Ok_0.1;
        match state {
            TokenizerState::StringLiteral => {
                let end = find_quote(s, i + 1)->0;
                lemma_find_quote_bounds(s, i + 1);
                lemma_find_quote_first(s, i + 1);
                lemma_literal_stretch(s, i + 1, end);
            },
            TokenizerState::NumberLiteral => {
                lemma_run_end_stops(s, i, TokenKind::Number);
                lemma_plain_stretch(s, i, next);
            },
            TokenizerState::IdentifierOrKeyword => {
                let words = reserved_keywords();
                lemma_special_token_is_word(s, i, words, TokenKind::Identifier);
                lemma_words_hold_no_quote();
                lemma_words_hold_no_parenthesis();
                if special_token(s, i, words, TokenKind::Identifier) is Some {
                    let word = special_token(s, i, words, TokenKind::Identifier)->0;
                    let taken = s.subrange(i, next);
                    assert forall|k: int| i <= k < next implies s[k] != '\'' && s[k] != '('
                        && s[k] != ')' by {
                        assert(upper(taken)[k - i] == word[k - i]);
                        assert(taken[k - i] == s[k]);
                    }
                } else {
                    lemma_run_end_stops(s, i, TokenKind::Identifier);
                }
                lemma_plain_stretch(s, i, next);
            },
            TokenizerState::Operator => {
                let words = valid_operators();
                lemma_special_token_is_word(s, i, words, TokenKind::Operator);
                lemma_words_hold_no_quote();
                lemma_words_hold_no_parenthesis();
                let word = special_token(s, i, words, TokenKind::Operator)->0;
                let taken = s.subrange(i, next);
                assert forall|k: int| i <= k < next implies s[k] != '\'' && s[k] != '(' && s[k]
                    != ')' by {
                    assert(upper(taken)[k - i] == word[k - i]);
                    assert(taken[k - i] == s[k]);
                }
                lemma_plain_stretch(s, i, next);
            },
            _ => {},
        }
    }
}

/// Where the text from `i` on has tokens, it closes outside its string
/// literals what is open in front of `i`, and no more.
proof fn lemma_lex_closes(s: Seq<char>, i: int, depth: int)
    requires
        0 <= i <= s.len(),
    ensures
        lex(s, i, depth) is Ok ==> depth + open_outside(s, i, false) == 0,
    decreases s.len() - i,
{
    if i < s.len() {
        match next_state_spec(s[i]) {
            None => {},
            Some(TokenizerState::Begin) => {
                lemma_lex_closes(s, i + 1, depth);
            },
            Some(state) => {
                lemma_token_opens(s, i, state);
                if token_at(s, i, state) is Ok {
                    let (token, next) = token_at(s, i, state)->Ok_0;
                    lemma_lex_closes(s, next, depth + depth_change(token.kind));
                }
            },
        }
    }
}

/// A query that has tokens opens, outside its string literals, as many
/// parentheses as it closes: a query in which these numbers differ has no
/// tokens.
pub proof fn lemma_parentheses_balance(s: Seq<char>)
    ensures
        tokenize_spec(s) is Ok ==> open_outside(s, 0, false) == 0,
{
    lemma_lex_closes(s, 0, 0);
}

/// Where a text has tokens with `depth` parentheses open in front of
/// `i`, it fails for unbalanced parentheses with any other number open.
proof fn lemma_lex_fails_unbalanced(s: Seq<char>, i: int, depth: int, other: int)
    requires
        lex(s, i, depth) is Ok,
        other != depth,
    ensures
        lex(s, i, other) == Err::<Seq<TokenView>, ErrorView>(
            ErrorView::Syntax(open_parentheses_message()),
        ),
    decreases s.len() - i,
{
    if 0 <= i < s.len() {
        match next_state_spec(s[i]) {
            None => {},
            Some(TokenizerState::Begin) => {
                lemma_lex_fails_unbalanced(s, i + 1, depth, other);
            },
            Some(state) => {
                lemma_token_advances(s, i, state);
                let (token, next) = token_at(s, i, state)->Ok_0;
                lemma_lex_fails_unbalanced(
                    s,
                    next,
                    depth + depth_change(token.kind),
                    other + depth_change(token.kind),
                );
            },
        }
    }
}

/// A query with which nothing is wrong but the balance of its
/// parentheses, so that it would have tokens with `open` parentheses open
/// in front of it, fails with the syntax error for unbalanced parentheses.
pub proof fn lemma_unbalanced_is_reported(s: Seq<char>, open: int)
    requires
        open != 0,
        lex(s, 0, open) is Ok,
    ensures
        tokenize_spec(s) == Err::<Seq<TokenView>, ErrorView>(
            ErrorView::Syntax(open_parentheses_message()),
        ),
{
    lemma_lex_fails_unbalanced(s, 0, open, 0);
}

/// Every failure of the tokenizer is a syntax error.
pub proof fn lemma_failures_are_syntax(s: Seq<char>, i: int, depth: int)
    ensures
        lex(s, i, depth) matches Err(e) ==> e is Syntax,
    decreases s.len() - i,
{
    if 0 <= i < s.len() {
        match next_state_spec(s[i]) {
            None => {},
            Some(TokenizerState::Begin) => {
                lemma_failures_are_syntax(s, i + 1, depth);
            },
            Some(state) => {
                if token_at(s, i, state) is Ok {
                    lemma_token_advances(s, i, state);
                    let (token, next) = token_at(s, i, state)->Ok_0;
                    lemma_failures_are_syntax(s, next, depth + depth_change(token.kind));
                }
            },
        }
    }
}

} // verus!
