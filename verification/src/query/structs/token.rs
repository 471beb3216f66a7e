use vstd::prelude::*;
use vstd::string::*;

verus! {

/// What a token stands for in a query.
#[derive(Debug, PartialEq, Eq, Clone, Copy, Structural)]
pub enum TokenKind {
    Unknown,
    String,
    Number,
    Operator,
    Identifier,
    ParenthesisOpen,
    ParenthesisClose,
    Keyword,
}

/// One lexical unit of a query: its text and its kind. A keyword holds its
/// upper-case spelling, a string literal its content without the quotes.
#[derive(Debug, PartialEq)]
pub struct Token {
    pub value: String,
    pub kind: TokenKind,
}

/// A [`Token`] with its text as a sequence of characters.
pub struct TokenView {
    pub value: Seq<char>,
    pub kind: TokenKind,
}

impl View for Token {
    type V = TokenView;

    open spec fn view(&self) -> TokenView {
        TokenView { value: self.value@, kind: self.kind }
    }
}

impl DeepView for Token {
    type V = TokenView;

    open spec fn deep_view(&self) -> TokenView {
        self@
    }
}

impl Default for Token {
    /// The empty token of unknown kind.
    fn default() -> (t: Token)
        ensures
            t@ == (TokenView { value: Seq::<char>::empty(), kind: TokenKind::Unknown }),
    {
        Token { value: String::new(), kind: TokenKind::Unknown }
    }
}

/// The name of a kind, as it is written in messages.
pub open spec fn kind_name(kind: TokenKind) -> Seq<char> {
    match kind {
        TokenKind::Unknown => "Unknown"@,
        TokenKind::String => "String"@,
        TokenKind::Number => "Number"@,
        TokenKind::Operator => "Operator"@,
        TokenKind::Identifier => "Identifier"@,
        TokenKind::ParenthesisOpen => "ParenthesisOpen"@,
        TokenKind::ParenthesisClose => "ParenthesisClose"@,
        TokenKind::Keyword => "Keyword"@,
    }
}

/// A token as it is written in messages.
pub open spec fn token_text(t: TokenView) -> Seq<char> {
    "Token { value: \""@ + t.value + "\", kind: "@ + kind_name(t.kind) + " }"@
}

impl TokenKind {
    /// The name of the kind, as it is written in messages.
    pub fn name(&self) -> (name: &'static str)
        ensures
            name@ == kind_name(*self),
    {
        match self {
            TokenKind::Unknown => "Unknown",
            TokenKind::String => "String",
            TokenKind::Number => "Number",
            TokenKind::Operator => "Operator",
            TokenKind::Identifier => "Identifier",
            TokenKind::ParenthesisOpen => "ParenthesisOpen",
            TokenKind::ParenthesisClose => "ParenthesisClose",
            TokenKind::Keyword => "Keyword",
        }
    }
}

impl Token {
    /// Appends the token, as it is written in messages.
    pub fn describe_into(&self, message: &mut String)
        ensures
            final(message)@ == old(message)@ + token_text(self@),
    {
        message.append("Token { value: \"");
        message.append(self.value.as_str());
        message.append("\", kind: ");
        message.append(self.kind.name());
        message.append(" }");
    }

    /// Whether the token has the given kind and text.
    pub fn is(&self, value: &str, kind: TokenKind) -> (b: bool)
        ensures
            b == (self@.kind == kind && self@.value == value@),
    {
        self.kind == kind && *self.value.as_str() == *value
    }
}

impl TokenView {
    /// Whether the token is the keyword `word`.
    pub open spec fn is_keyword(self, word: Seq<char>) -> bool {
        self.kind == TokenKind::Keyword && self.value == word
    }
}

/// The texts of `tokens`.
pub open spec fn token_values(tokens: Seq<TokenView>) -> Seq<Seq<char>> {
    tokens.map_values(|t: TokenView| t.value)
}

/// The texts of `tokens`.
pub fn values_of(tokens: &Vec<Token>) -> (values: Vec<String>)
    ensures
        values.deep_view() == token_values(tokens.deep_view()),
{
    let mut values: Vec<String> = Vec::new();
    let mut i: usize = 0;
    while i < tokens.len()
        invariant
            i <= tokens.len(),
            values.deep_view() == token_values(tokens.deep_view().take(i as int)),
        decreases tokens.len() - i,
    {
        let ghost done = values.deep_view();
        values.push(tokens[i].value.clone());
        i += 1;
        assert(values.deep_view() =~= done.push(tokens[i - 1]@.value));
    }
    values
}

/// Whether `rest` is what is left of the tokens `q` after some were taken
/// off the front.
pub open spec fn is_rest_of(rest: Seq<TokenView>, q: Seq<TokenView>) -> bool {
    rest.len() <= q.len() && rest == q.skip(q.len() - rest.len())
}

/// What is left of what is left is left.
pub broadcast proof fn lemma_rest_of_rest(a: Seq<TokenView>, b: Seq<TokenView>, c: Seq<TokenView>)
    requires
        #[trigger] is_rest_of(a, b),
        #[trigger] is_rest_of(b, c),
    ensures
        is_rest_of(a, c),
{
    assert(c.skip(c.len() - b.len()).skip(b.len() - a.len()) =~= c.skip(c.len() - a.len()));
}

/// Where nothing was taken everything is left.
pub broadcast proof fn lemma_rest_of_itself(q: Seq<TokenView>)
    ensures
        #[trigger] is_rest_of(q, q),
{
    assert(q.skip(0) =~= q);
}

} // verus!
