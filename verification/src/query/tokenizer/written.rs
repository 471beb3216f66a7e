//! Tokens written out as a query again, and what the tokenizer makes of
//! that query.
use crate::query::structs::token::{Token, TokenKind, TokenView};
use crate::query::tokenizer::{
    depth_change, depth_of, find_quote, identifier_char, in_class, lemma_find_quote_bounds,
    lemma_find_quote_first, lemma_keywords_spelled, lemma_operators_spelled, lemma_run_end_stops,
    lemma_special_token_is_word, lemma_token_advances, lemma_tokens_balance, lex, next_state_spec,
    open_parentheses_message, operator_char, reserved_keywords, run_end, skippable, special_token,
    token_at, tokenize_spec, valid_operators, word_at, TokenizerState,
};
use crate::utils::errors::ErrorView;
use crate::utils::text::{ascii_digit, ascii_lower_letter, ascii_upper, ascii_upper_letter, upper};
use vstd::prelude::*;
use vstd::string::*;

verus! {

/// A token as it is written in a query: a string literal between single
/// quotes, any other token by its text.
pub open spec fn token_source(t: TokenView) -> Seq<char> {
    if t.kind == TokenKind::String {
        seq!['\''] + t.value + seq!['\'']
    } else {
        t.value
    }
}

/// The tokens written out as a query: each as it is written, followed by
/// one space.
pub open spec fn written(tokens: Seq<TokenView>) -> Seq<char>
    decreases tokens.len(),
{
    if tokens.len() == 0 {
        Seq::empty()
    } else {
        written(tokens.drop_last()) + token_source(tokens.last()) + seq![' ']
    }
}

/// Writes the tokens out as a query: each as it is written in a query,
/// followed by one space.
pub fn write_tokens(tokens: &Vec<Token>) -> (query: String)
    ensures
        query@ == written(tokens.deep_view()),
{
    let mut query = String::new();
    let ghost all = tokens.deep_view();
    let mut i: usize = 0;
    while i < tokens.len()
        invariant
            i <= tokens.len(),
            all == tokens.deep_view(),
            query@ == written(all.take(i as int)),
        decreases tokens.len() - i,
    {
        let t = &tokens[i];
        if t.kind == TokenKind::String {
            query.push('\'');
            query.append(t.value.as_str());
            query.push('\'');
        } else {
            query.append(t.value.as_str());
        }
        query.push(' ');
        assert(all.take(i + 1).drop_last() =~= all.take(i as int));
        i += 1;
    }
    assert(all.take(i as int) =~= all);
    query
}

/// The tokens joined to a query: each as it is written, with one space
/// between each two.
pub open spec fn spaced(tokens: Seq<TokenView>) -> Seq<char>
    decreases tokens.len(),
{
    if tokens.len() == 0 {
        Seq::empty()
    } else if tokens.len() == 1 {
        token_source(tokens[0])
    } else {
        spaced(tokens.drop_last()) + seq![' '] + token_source(tokens.last())
    }
}

/// Joins the tokens to a query: each as it is written in a query, with
/// one space between each two.
pub fn join_tokens(tokens: &Vec<Token>) -> (query: String)
    ensures
        query@ == spaced(tokens.deep_view()),
{
    let mut query = String::new();
    let ghost all = tokens.deep_view();
    let mut i: usize = 0;
    while i < tokens.len()
        invariant
            i <= tokens.len(),
            all == tokens.deep_view(),
            query@ == spaced(all.take(i as int)),
        decreases tokens.len() - i,
    {
        let t = &tokens[i];
        let ghost before = query@;
        if i > 0 {
            query.push(' ');
        }
        if t.kind == TokenKind::String {
            query.push('\'');
            query.append(t.value.as_str());
            query.push('\'');
        } else {
            query.append(t.value.as_str());
        }
        proof {
            assert(all.take(i + 1).drop_last() =~= all.take(i as int));
            assert(all.take(i + 1).last() == t@);
            if i == 0 {
                assert(before =~= Seq::<char>::empty());
                assert(query@ =~= token_source(t@));
            } else {
                assert(query@ =~= before + seq![' '] + token_source(t@));
            }
        }
        i += 1;
    }
    assert(all.take(i as int) =~= all);
    query
}

/// Tokens written out are the tokens joined, and one space.
pub proof fn lemma_written_is_spaced(tokens: Seq<TokenView>)
    requires
        tokens.len() > 0,
    ensures
        written(tokens) == spaced(tokens).push(' '),
    decreases tokens.len(),
{
    if tokens.len() == 1 {
        assert(tokens.drop_last() =~= Seq::<TokenView>::empty());
        assert(written(tokens.drop_last()) =~= Seq::<char>::empty());
        assert(tokens.last() == tokens[0]);
        assert(written(tokens) =~= spaced(tokens).push(' '));
    } else {
        let front = tokens.drop_last();
        lemma_written_is_spaced(front);
        assert(spaced(front).push(' ') =~= spaced(front) + seq![' ']);
        assert(written(tokens) =~= spaced(tokens).push(' '));
    }
}

/// Tokens written out are the first of them, a space, and the others
/// written out.
pub proof fn lemma_written_front(tokens: Seq<TokenView>)
    requires
        tokens.len() > 0,
    ensures
        written(tokens) == token_source(tokens[0]) + seq![' '] + written(tokens.skip(1)),
    decreases tokens.len(),
{
    if tokens.len() == 1 {
        assert(tokens.drop_last() =~= Seq::<TokenView>::empty());
        assert(tokens.skip(1) =~= Seq::<TokenView>::empty());
    } else {
        lemma_written_front(tokens.drop_last());
        assert(tokens.drop_last().skip(1) =~= tokens.skip(1).drop_last());
    }
}

/// Where the reserved word at place `w` has a space: the two that are
/// made of two words have one, the others none.
pub open spec fn space_of(w: int) -> int {
    if w == 3 {
        6
    } else if w == 6 {
        5
    } else {
        -1
    }
}

/// There are fourteen reserved words, each of two characters or more.
proof fn lemma_keyword_length(w: int)
    requires
        0 <= w < reserved_keywords().len(),
    ensures
        reserved_keywords().len() == 14,
        reserved_keywords()[w].len() >= 2,
        w == 3 ==> reserved_keywords()[w].len() == 11,
        w == 6 ==> reserved_keywords()[w].len() == 8,
{
    lemma_keywords_spelled();
}

/// The characters of a reserved word are upper-case letters, but for the
/// one space of the words that are made of two.
proof fn lemma_keyword_shape(w: int, j: int)
    requires
        0 <= w < reserved_keywords().len(),
        0 <= j < reserved_keywords()[w].len(),
    ensures
        j == space_of(w) ==> reserved_keywords()[w][j] == ' ',
        j != space_of(w) ==> ascii_upper_letter(reserved_keywords()[w][j]),
{
    lemma_keywords_spelled();
}

/// Two reserved words differ in one of their first three characters,
/// but for `OR` and `ORDER BY`, of which the first starts the second.
proof fn lemma_keywords_differ(w: int, v: int) -> (j: int)
    requires
        0 <= w < reserved_keywords().len(),
        0 <= v < reserved_keywords().len(),
        w != v,
        !(w == 12 && v == 6),
        !(w == 6 && v == 12),
    ensures
        0 <= j < 3,
        j < reserved_keywords()[w].len(),
        j < reserved_keywords()[v].len(),
        reserved_keywords()[w][j] != reserved_keywords()[v][j],
{
    lemma_keywords_spelled();
    let a = reserved_keywords()[w];
    let b = reserved_keywords()[v];
    if a[0] != b[0] {
        0
    } else if a[1] != b[1] {
        1
    } else {
        2
    }
}

/// `OR` and the start of `ORDER BY`.
proof fn lemma_or_and_order_by()
    ensures
        reserved_keywords()[12].len() == 2,
        reserved_keywords()[6].len() == 8,
        reserved_keywords()[6][2] == 'D',
{
    lemma_keywords_spelled();
}

/// Every operator is one operator character, or one and `=`.
proof fn lemma_operator_shape(o: int)
    requires
        0 <= o < valid_operators().len(),
    ensures
        valid_operators().len() == 8,
        valid_operators()[o].len() == if o < 5 {
            1nat
        } else {
            2nat
        },
        operator_char(valid_operators()[o][0]),
        o >= 5 ==> valid_operators()[o][1] == '=',
{
    lemma_operators_spelled();
}

/// Two operators of one length differ in their first character.
proof fn lemma_operators_differ(o: int, q: int)
    requires
        0 <= o < valid_operators().len(),
        0 <= q < valid_operators().len(),
        o != q,
        (o < 5) == (q < 5),
    ensures
        valid_operators()[o][0] != valid_operators()[q][0],
{
    lemma_operators_spelled();
}

/// What the classes of characters have in common and what not, as far as
/// writing tokens out needs it.
proof fn lemma_char_classes(c: char)
    ensures
        c == ' ' ==> skippable(c) && !identifier_char(c) && !ascii_digit(c) && !operator_char(c),
        c == '\'' || c == '(' || c == ')' || operator_char(c) ==> !skippable(c) && !ascii_digit(c)
            && !identifier_char(c),
        ascii_digit(c) ==> !skippable(c) && identifier_char(c) && !operator_char(c) && c != '\''
            && c != '(' && c != ')',
        ascii_upper_letter(c) || ascii_lower_letter(c) ==> identifier_char(c) && !ascii_digit(c)
            && !skippable(c),
        identifier_char(c) ==> !skippable(c) && c != ' ' && c != '\'' && c != '(' && c != ')'
            && !operator_char(c),
        ascii_upper_letter(c) ==> ascii_upper(c) == c,
        c == ' ' || operator_char(c) ==> ascii_upper(c) == c,
        ascii_upper(c) == ' ' ==> c == ' ',
        ascii_upper_letter(ascii_upper(c)) ==> ascii_upper_letter(c) || ascii_lower_letter(c),
{
}

/// None of `words` stands at `i` exactly when the search finds none.
proof fn lemma_special_token_none(s: Seq<char>, i: int, words: Seq<Seq<char>>, kind: TokenKind)
    ensures
        special_token(s, i, words, kind) is None <==> forall|w: int|
            0 <= w < words.len() ==> !word_at(s, i, #[trigger] words[w], kind),
    decreases words.len(),
{
    if words.len() > 0 {
        lemma_special_token_none(s, i, words.skip(1), kind);
        if !word_at(s, i, words[0], kind) {
            if special_token(s, i, words.skip(1), kind) is None {
                assert forall|w: int| 0 <= w < words.len() implies !word_at(
                    s,
                    i,
                    #[trigger] words[w],
                    kind,
                ) by {
                    if w > 0 {
                        assert(words.skip(1)[w - 1] == words[w]);
                    }
                }
            } else {
                let w = choose|w: int|
                    0 <= w < words.skip(1).len() && word_at(s, i, #[trigger] words.skip(1)[w], kind);
            }
        }
    }
}

/// The search finds the word at the place `w` where that word stands at
/// `i` and none of the words in front of it does.
proof fn lemma_special_token_first(
    s: Seq<char>,
    i: int,
    words: Seq<Seq<char>>,
    kind: TokenKind,
    w: int,
)
    requires
        0 <= w < words.len(),
        word_at(s, i, words[w], kind),
        forall|v: int| 0 <= v < w ==> !word_at(s, i, #[trigger] words[v], kind),
    ensures
        special_token(s, i, words, kind) == Some(words[w]),
    decreases w,
{
    if w > 0 {
        lemma_special_token_first(s, i, words.skip(1), kind, w - 1);
    }
}

/// A run ends at `e` where every character from `i` up to `e` is of the
/// class and the one at `e` is not.
proof fn lemma_run_end_at(s: Seq<char>, i: int, e: int, kind: TokenKind)
    requires
        0 <= i <= e <= s.len(),
        forall|k: int| i <= k < e ==> in_class(#[trigger] s[k], kind),
        e < s.len() ==> !in_class(s[e], kind),
    ensures
        run_end(s, i, kind) == e,
    decreases e - i,
{
    if i < e {
        lemma_run_end_at(s, i + 1, e, kind);
    }
}

/// The first quote from `i` on is at `e` where there is one and none in
/// front of it.
proof fn lemma_find_quote_at(s: Seq<char>, i: int, e: int)
    requires
        0 <= i <= e < s.len(),
        s[e] == '\'',
        forall|k: int| i <= k < e ==> s[k] != '\'',
    ensures
        find_quote(s, i) == Some(e),
    decreases e - i,
{
    if i < e {
        lemma_find_quote_at(s, i + 1, e);
    }
}

/// Whether `t` is a token as the tokenizer makes them: a keyword is a
/// reserved word and an operator one of the operators; a number is made
/// of digits; an identifier is made of identifier characters, does not
/// start with a digit and is no reserved word in any case; a string
/// literal holds no single quote; a parenthesis is one.
pub open spec fn well_formed(t: TokenView) -> bool {
    match t.kind {
        TokenKind::Keyword => reserved_keywords().contains(t.value),
        TokenKind::Operator => valid_operators().contains(t.value),
        TokenKind::Number => t.value.len() > 0 && forall|j: int|
            0 <= j < t.value.len() ==> ascii_digit(#[trigger] t.value[j]),
        TokenKind::Identifier => {
            &&& t.value.len() > 0
            &&& !ascii_digit(t.value[0])
            &&& forall|j: int| 0 <= j < t.value.len() ==> identifier_char(#[trigger] t.value[j])
            &&& forall|w: int|
                0 <= w < reserved_keywords().len() ==> upper(t.value)
                    != #[trigger] reserved_keywords()[w]
        },
        TokenKind::String => forall|j: int| 0 <= j < t.value.len() ==> #[trigger] t.value[j] != '\'',
        TokenKind::ParenthesisOpen => t.value == seq!['('],
        TokenKind::ParenthesisClose => t.value == seq![')'],
        TokenKind::Unknown => false,
    }
}

/// Whether all of `tokens` are as the tokenizer makes them.
pub open spec fn all_well_formed(tokens: Seq<TokenView>) -> bool {
    forall|k: int| 0 <= k < tokens.len() ==> well_formed(#[trigger] tokens[k])
}

/// The tokenizer makes well-formed tokens.
proof fn lemma_token_well_formed(s: Seq<char>, i: int, state: TokenizerState)
    requires
        0 <= i < s.len(),
        next_state_spec(s[i]) == Some(state),
        state != TokenizerState::Begin,
    ensures
        token_at(s, i, state) matches Ok((t, _)) ==> well_formed(t),
{
    if token_at(s, i, state) is Ok {
        match state {
            TokenizerState::IdentifierOrKeyword => {
                let words = reserved_keywords();
                lemma_special_token_is_word(s, i, words, TokenKind::Identifier);
                if special_token(s, i, words, TokenKind::Identifier) is None {
                    lemma_special_token_none(s, i, words, TokenKind::Identifier);
                    lemma_run_end_stops(s, i, TokenKind::Identifier);
                }
            },
            TokenizerState::NumberLiteral => {
                lemma_run_end_stops(s, i, TokenKind::Number);
            },
            TokenizerState::Operator => {
                lemma_special_token_is_word(s, i, valid_operators(), TokenKind::Operator);
            },
            TokenizerState::StringLiteral => {
                lemma_find_quote_bounds(s, i + 1);
                lemma_find_quote_first(s, i + 1);
            },
            _ => {},
        }
    }
}

/// The tokens of a query are well-formed.
proof fn lemma_lex_well_formed(s: Seq<char>, i: int, depth: int)
    ensures
        lex(s, i, depth) matches Ok(tokens) ==> all_well_formed(tokens),
    decreases s.len() - i,
{
    if 0 <= i < s.len() {
        match next_state_spec(s[i]) {
            None => {},
            Some(TokenizerState::Begin) => {
                lemma_lex_well_formed(s, i + 1, depth);
            },
            Some(state) => {
                if token_at(s, i, state) is Ok {
                    lemma_token_advances(s, i, state);
                    lemma_token_well_formed(s, i, state);
                    let (token, next) = token_at(s, i, state)->Ok_0;
                    let after = depth + depth_change(token.kind);
                    lemma_lex_well_formed(s, next, after);
                }
            },
        }
    }
}

/// The state that reads a token of the given kind.
pub open spec fn state_of(kind: TokenKind) -> TokenizerState {
    match kind {
        TokenKind::Number => TokenizerState::NumberLiteral,
        TokenKind::Operator => TokenizerState::Operator,
        TokenKind::String => TokenizerState::StringLiteral,
        TokenKind::ParenthesisOpen => TokenizerState::OpenParenthesis,
        TokenKind::ParenthesisClose => TokenizerState::CloseParenthesis,
        _ => TokenizerState::IdentifierOrKeyword,
    }
}

/// Whether `t` stands written at `p` in `s`, with a space behind it.
pub open spec fn stands_at(s: Seq<char>, p: int, t: TokenView) -> bool {
    &&& 0 <= p
    &&& p + token_source(t).len() < s.len()
    &&& s.subrange(p, p + token_source(t).len()) == token_source(t)
    &&& s[p + token_source(t).len()] == ' '
}

/// Whether the tokenizer reads `t` at `p` in `s`, up to the space behind
/// it.
pub open spec fn reads_back(s: Seq<char>, p: int, t: TokenView) -> bool {
    &&& next_state_spec(s[p]) == Some(state_of(t.kind))
    &&& token_at(s, p, state_of(t.kind)) == Ok::<(TokenView, int), ErrorView>(
        (t, p + token_source(t).len()),
    )
}

/// The tokenizer reads a number where it is written.
proof fn lemma_reads_number(s: Seq<char>, p: int, t: TokenView)
    requires
        t.kind == TokenKind::Number,
        well_formed(t),
        stands_at(s, p, t),
    ensures
        reads_back(s, p, t),
{
    let n = t.value.len() as int;
    assert forall|k: int| p <= k < p + n implies in_class(#[trigger] s[k], TokenKind::Number) by {
        assert(s[k] == s.subrange(p, p + n)[k - p]);
    }
    lemma_char_classes(s[p]);
    lemma_char_classes(' ');
    lemma_run_end_at(s, p, p + n, TokenKind::Number);
}

/// The tokenizer reads a string literal where it is written.
proof fn lemma_reads_string(s: Seq<char>, p: int, t: TokenView)
    requires
        t.kind == TokenKind::String,
        well_formed(t),
        stands_at(s, p, t),
    ensures
        reads_back(s, p, t),
{
    let source = token_source(t);
    let n = source.len() as int;
    assert(s[p] == source[0]);
    assert(s[p + n - 1] == source[n - 1]);
    lemma_char_classes('\'');
    assert forall|k: int| p + 1 <= k < p + n - 1 implies s[k] != '\'' by {
        assert(s[k] == source[k - p]);
    }
    lemma_find_quote_at(s, p + 1, p + n - 1);
    assert(s.subrange(p + 1, p + n - 1) =~= t.value) by {
        assert forall|k: int| 0 <= k < t.value.len() implies s.subrange(p + 1, p + n - 1)[k]
            == t.value[k] by {
            assert(s[p + 1 + k] == source[1 + k]);
        }
    }
}

/// The tokenizer reads a parenthesis where it is written.
proof fn lemma_reads_parenthesis(s: Seq<char>, p: int, t: TokenView)
    requires
        t.kind == TokenKind::ParenthesisOpen || t.kind == TokenKind::ParenthesisClose,
        well_formed(t),
        stands_at(s, p, t),
    ensures
        reads_back(s, p, t),
{
    assert(s[p] == token_source(t)[0]);
    lemma_char_classes(s[p]);
}

/// The tokenizer reads an operator where it is written.
proof fn lemma_reads_operator(s: Seq<char>, p: int, t: TokenView)
    requires
        t.kind == TokenKind::Operator,
        well_formed(t),
        stands_at(s, p, t),
    ensures
        reads_back(s, p, t),
{
    let words = valid_operators();
    let o = choose|o: int| 0 <= o < words.len() && words[o] == t.value;
    let n = t.value.len() as int;
    lemma_operator_shape(o);
    lemma_char_classes(s[p]);
    lemma_char_classes(' ');
    if n == 2 {
        lemma_char_classes('=');
    }
    assert(upper(s.subrange(p, p + n)) =~= t.value);
    assert forall|q: int| 0 <= q < o implies !word_at(
        s,
        p,
        #[trigger] words[q],
        TokenKind::Operator,
    ) by {
        lemma_operator_shape(q);
        if word_at(s, p, words[q], TokenKind::Operator) {
            if (q < 5) == (o < 5) {
                lemma_operators_differ(o, q);
            }
        }
    }
    lemma_special_token_first(s, p, words, TokenKind::Operator, o);
}

/// A reserved word is its own upper-case form.
proof fn lemma_keyword_is_upper(w: int)
    requires
        0 <= w < reserved_keywords().len(),
    ensures
        upper(reserved_keywords()[w]) == reserved_keywords()[w],
{
    let k = reserved_keywords()[w];
    assert forall|j: int| 0 <= j < k.len() implies upper(k)[j] == k[j] by {
        lemma_keyword_shape(w, j);
        lemma_char_classes(k[j]);
    }
}

/// The tokenizer reads a keyword where it is written.
proof fn lemma_reads_keyword(s: Seq<char>, p: int, t: TokenView)
    requires
        t.kind == TokenKind::Keyword,
        well_formed(t),
        stands_at(s, p, t),
    ensures
        reads_back(s, p, t),
{
    let words = reserved_keywords();
    let w = choose|w: int| 0 <= w < words.len() && words[w] == t.value;
    let k = words[w];
    lemma_keyword_length(w);
    lemma_keyword_shape(w, 0);
    lemma_keyword_is_upper(w);
    lemma_char_classes(s[p]);
    lemma_char_classes(' ');
    assert forall|v: int| 0 <= v < w implies !word_at(
        s,
        p,
        #[trigger] words[v],
        TokenKind::Identifier,
    ) by {
        if word_at(s, p, words[v], TokenKind::Identifier) {
            if w == 12 && v == 6 {
                lemma_or_and_order_by();
            } else {
                let j = lemma_keywords_differ(w, v);
                lemma_keyword_shape(w, j);
                lemma_char_classes(k[j]);
            }
        }
    }
    lemma_special_token_first(s, p, words, TokenKind::Identifier, w);
}

/// Whether two identifiers, with one space between them, spell a
/// reserved word: `ORDER BY` or `INSERT INTO`, in any case.
pub open spec fn spell_keyword(t: TokenView, next: TokenView) -> bool {
    &&& t.kind == TokenKind::Identifier
    &&& next.kind == TokenKind::Identifier
    &&& reserved_keywords().contains(upper(t.value) + seq![' '] + upper(next.value))
}

/// Whether two tokens of `tokens` that follow each other spell a
/// reserved word.
pub open spec fn splits_keyword(tokens: Seq<TokenView>) -> bool {
    exists|k: int| 0 <= k < tokens.len() - 1 && spell_keyword(#[trigger] tokens[k], tokens[k + 1])
}

/// The second word of a reserved word of two words starts no reserved
/// word.
proof fn lemma_second_word_differs(w: int, v: int) -> (j: int)
    requires
        w == 3 || w == 6,
        0 <= v < reserved_keywords().len(),
    ensures
        0 <= j < 3,
        j < reserved_keywords()[v].len(),
        space_of(w) + 1 + j < reserved_keywords()[w].len(),
        reserved_keywords()[v][j] != reserved_keywords()[w][space_of(w) + 1 + j],
{
    lemma_keywords_spelled();
    let a = reserved_keywords()[v];
    let b = reserved_keywords()[w];
    let from = space_of(w) + 1;
    if a[0] != b[from] {
        0
    } else if a[1] != b[from + 1] {
        1
    } else {
        2
    }
}

/// What is written of a token is not empty, and it starts with a letter
/// only where the token is a keyword or an identifier.
proof fn lemma_source_start(t: TokenView)
    requires
        well_formed(t),
    ensures
        token_source(t).len() > 0,
        ascii_upper_letter(token_source(t)[0]) || ascii_lower_letter(token_source(t)[0])
            ==> t.kind == TokenKind::Keyword || t.kind == TokenKind::Identifier,
{
    match t.kind {
        TokenKind::Operator => {
            let o = choose|o: int| 0 <= o < valid_operators().len() && valid_operators()[o] == t.value;
            lemma_operator_shape(o);
            lemma_char_classes(t.value[0]);
        },
        TokenKind::Keyword => {
            let w = choose|w: int|
                0 <= w < reserved_keywords().len() && reserved_keywords()[w] == t.value;
            lemma_keyword_length(w);
        },
        TokenKind::Number => {
            lemma_char_classes(t.value[0]);
        },
        TokenKind::String => {
            lemma_char_classes('\'');
        },
        TokenKind::ParenthesisOpen => {
            lemma_char_classes('(');
        },
        TokenKind::ParenthesisClose => {
            lemma_char_classes(')');
        },
        _ => {},
    }
}

/// No reserved word stands where an identifier is written, with a space
/// behind it and tokens behind that of which the first does not spell a
/// reserved word with it.
proof fn lemma_no_keyword_at(s: Seq<char>, p: int, t: TokenView, rest: Seq<TokenView>, w: int)
    requires
        t.kind == TokenKind::Identifier,
        well_formed(t),
        stands_at(s, p, t),
        s.skip(p + t.value.len() + 1) == written(rest),
        all_well_formed(rest),
        rest.len() > 0 ==> !spell_keyword(t, rest[0]),
        0 <= w < reserved_keywords().len(),
    ensures
        !word_at(s, p, reserved_keywords()[w], TokenKind::Identifier),
{
    let words = reserved_keywords();
    let k = words[w];
    let m = k.len() as int;
    let v = t.value;
    let n = v.len() as int;
    lemma_keyword_length(w);
    if word_at(s, p, k, TokenKind::Identifier) {
        if m < n {
            assert(identifier_char(v[m]));
            assert(false);
        } else if m == n {
            assert(false);
        } else {
            lemma_char_classes(' ');
            lemma_keyword_shape(w, n);
            assert(upper(v) =~= k.take(n));
            let q = p + n + 1;
            let m2 = m - n - 1;
            if rest.len() == 0 {
                assert(s.skip(q).len() == 0);
                assert(false);
            } else {
                let t2 = rest[0];
                lemma_written_front(rest);
                lemma_source_start(t2);
                let src = token_source(t2);
                let n2 = src.len() as int;
                assert(written(rest).len() == n2 + 1 + written(rest.skip(1)).len());
                assert forall|j: int| 0 <= j <= n2 implies s[q + j] == (src + seq![' '])[j] by {
                    assert(s[q + j] == s.skip(q)[j]);
                }
                assert(s[q + n2] == ' ') by {
                    assert(s[q + n2] == (src + seq![' '])[n2]);
                }
                assert forall|j: int| 0 <= j < n2 implies s[q + j] == src[j] by {
                    assert(s[q + j] == (src + seq![' '])[j]);
                }
                lemma_keyword_shape(w, n + 1);
                lemma_char_classes(src[0]);
                if t2.kind == TokenKind::Keyword {
                    let w2 = choose|w2: int| 0 <= w2 < words.len() && words[w2] == t2.value;
                    let j = lemma_second_word_differs(w, w2);
                    lemma_keyword_length(w2);
                    lemma_keyword_shape(w2, j);
                    lemma_char_classes(words[w2][j]);
                    assert(false);
                } else {
                    let v2 = t2.value;
                    if n2 > m2 {
                        assert(s[p + m] == v2[m2]);
                        assert(false);
                    } else if n2 < m2 {
                        lemma_keyword_shape(w, n + 1 + n2);
                        assert(false);
                    } else {
                        assert(upper(v2) =~= k.skip(n + 1));
                        assert(upper(v) + seq![' '] + upper(v2) =~= k);
                        assert(false);
                    }
                }
            }
        }
    }
}

/// The tokenizer reads an identifier where it is written, unless it spells
/// a reserved word with the token behind it.
proof fn lemma_reads_identifier(s: Seq<char>, p: int, t: TokenView, rest: Seq<TokenView>)
    requires
        t.kind == TokenKind::Identifier,
        well_formed(t),
        stands_at(s, p, t),
        s.skip(p + t.value.len() + 1) == written(rest),
        all_well_formed(rest),
        rest.len() > 0 ==> !spell_keyword(t, rest[0]),
    ensures
        reads_back(s, p, t),
{
    let words = reserved_keywords();
    let n = t.value.len() as int;
    assert forall|w: int| 0 <= w < words.len() implies !word_at(
        s,
        p,
        #[trigger] words[w],
        TokenKind::Identifier,
    ) by {
        lemma_no_keyword_at(s, p, t, rest, w);
    }
    lemma_special_token_none(s, p, words, TokenKind::Identifier);
    assert forall|k: int| p <= k < p + n implies in_class(
        #[trigger] s[k],
        TokenKind::Identifier,
    ) by {
        assert(s[k] == s.subrange(p, p + n)[k - p]);
    }
    lemma_char_classes(s[p]);
    lemma_char_classes(' ');
    lemma_run_end_at(s, p, p + n, TokenKind::Identifier);
}

/// The tokenizer reads a well-formed token where it is written with a
/// space behind it, whatever well-formed tokens are written behind that,
/// but for an identifier that spells a reserved word with the next one.
proof fn lemma_reads_token(s: Seq<char>, p: int, t: TokenView, rest: Seq<TokenView>)
    requires
        well_formed(t),
        stands_at(s, p, t),
        s.skip(p + token_source(t).len() + 1) == written(rest),
        all_well_formed(rest),
        rest.len() > 0 ==> !spell_keyword(t, rest[0]),
    ensures
        reads_back(s, p, t),
{
    match t.kind {
        TokenKind::Number => lemma_reads_number(s, p, t),
        TokenKind::String => lemma_reads_string(s, p, t),
        TokenKind::Operator => lemma_reads_operator(s, p, t),
        TokenKind::Keyword => lemma_reads_keyword(s, p, t),
        TokenKind::Identifier => lemma_reads_identifier(s, p, t, rest),
        _ => lemma_reads_parenthesis(s, p, t),
    }
}

/// What the tokens after the first give, with the first in front.
pub open spec fn with_first(t: TokenView, rest: Result<Seq<TokenView>, ErrorView>) -> Result<
    Seq<TokenView>,
    ErrorView,
> {
    match rest {
        Ok(tokens) => Ok(seq![t] + tokens),
        Err(e) => Err(e),
    }
}

/// Where the tokenizer reads `t` at `p` and a space stands behind it, it
/// goes on behind the space.
proof fn lemma_lex_reads_on(s: Seq<char>, p: int, t: TokenView, depth: int)
    requires
        0 <= p,
        p + token_source(t).len() < s.len(),
        token_source(t).len() > 0,
        reads_back(s, p, t),
        s[p + token_source(t).len()] == ' ',
    ensures
        lex(s, p, depth) == with_first(
            t,
            lex(s, p + token_source(t).len() + 1, depth + depth_change(t.kind)),
        ),
{
    let n = token_source(t).len() as int;
    let after = depth + depth_change(t.kind);
    lemma_char_classes(' ');
    assert(lex(s, p + n, after) == lex(s, p + n + 1, after));
}

/// How the first of the tokens stands in what is written of them behind
/// `pre`.
proof fn lemma_first_stands(pre: Seq<char>, tokens: Seq<TokenView>)
    requires
        tokens.len() > 0,
    ensures
        stands_at(pre + written(tokens), pre.len() as int, tokens[0]),
        (pre + written(tokens)).skip(
            pre.len() as int + token_source(tokens[0]).len() as int + 1,
        ) == written(tokens.skip(1)),
        pre + written(tokens) == pre + token_source(tokens[0]) + seq![' '] + written(
            tokens.skip(1),
        ),
{
    let s = pre + written(tokens);
    let p = pre.len() as int;
    let src = token_source(tokens[0]);
    let n = src.len() as int;
    lemma_written_front(tokens);
    assert(s.subrange(p, p + n) =~= src);
}

/// Tokens behind the first are well-formed and split no keyword where
/// all of them are and do.
proof fn lemma_rest_well_formed(tokens: Seq<TokenView>)
    requires
        tokens.len() > 0,
        all_well_formed(tokens),
        !splits_keyword(tokens),
    ensures
        all_well_formed(tokens.skip(1)),
        !splits_keyword(tokens.skip(1)),
        tokens.len() > 1 ==> !spell_keyword(tokens[0], tokens.skip(1)[0]),
{
    let rest = tokens.skip(1);
    if splits_keyword(rest) {
        let k = choose|k: int|
            0 <= k < rest.len() - 1 && spell_keyword(#[trigger] rest[k], rest[k + 1]);
    }
}

/// Behind any text, well-formed tokens that are written out are read as
/// they are, or as unbalanced where their parentheses do not close what
/// is open.
proof fn lemma_written_reads_back(pre: Seq<char>, tokens: Seq<TokenView>, depth: int)
    requires
        all_well_formed(tokens),
        !splits_keyword(tokens),
    ensures
        lex(pre + written(tokens), pre.len() as int, depth) == if depth + depth_of(tokens) == 0 {
            Ok::<Seq<TokenView>, ErrorView>(tokens)
        } else {
            Err::<Seq<TokenView>, ErrorView>(ErrorView::Syntax(open_parentheses_message()))
        },
    decreases tokens.len(),
{
    let s = pre + written(tokens);
    let p = pre.len() as int;
    if tokens.len() == 0 {
        assert(tokens =~= Seq::<TokenView>::empty());
    } else {
        let t = tokens[0];
        let rest = tokens.skip(1);
        let src = token_source(t);
        let after = depth + depth_change(t.kind);
        let before = pre + src + seq![' '];
        lemma_first_stands(pre, tokens);
        lemma_rest_well_formed(tokens);
        lemma_reads_token(s, p, t, rest);
        lemma_source_start(t);
        lemma_lex_reads_on(s, p, t, depth);
        lemma_written_reads_back(before, rest, after);
        assert(seq![t] + rest =~= tokens);
    }
}

/// Well-formed tokens whose parentheses balance come back when they are
/// written out and the query is split into tokens again, unless two
/// identifiers that follow each other spell `ORDER BY` or `INSERT INTO`.
pub proof fn lemma_well_formed_tokens_come_back(tokens: Seq<TokenView>)
    requires
        all_well_formed(tokens),
        depth_of(tokens) == 0,
        !splits_keyword(tokens),
    ensures
        tokenize_spec(written(tokens)) == Ok::<Seq<TokenView>, ErrorView>(tokens),
{
    lemma_written_reads_back(Seq::empty(), tokens, 0);
}

/// The tokens of a query come back when they are written out and the
/// query is split into tokens again, unless two identifiers that follow
/// each other spell `ORDER BY` or `INSERT INTO`.
pub proof fn lemma_written_tokens_come_back(s: Seq<char>)
    requires
        tokenize_spec(s) is Ok,
        !splits_keyword(tokenize_spec(s)->Ok_0),
    ensures
        tokenize_spec(written(tokenize_spec(s)->Ok_0)) == tokenize_spec(s),
{
    lemma_lex_well_formed(s, 0, 0);
    lemma_tokens_balance(s);
    lemma_well_formed_tokens_come_back(tokenize_spec(s)->Ok_0);
}

/// A word that does not end with a space stands at `i` in a text with a
/// space behind it exactly when it stands there in the text alone.
proof fn lemma_word_without_space(s: Seq<char>, i: int, word: Seq<char>, kind: TokenKind)
    requires
        0 <= i <= s.len(),
        word.len() > 0,
        word.last() != ' ',
        kind == TokenKind::Identifier || kind == TokenKind::Operator,
    ensures
        word_at(s.push(' '), i, word, kind) == word_at(s, i, word, kind),
{
    let longer = s.push(' ');
    let m = word.len() as int;
    lemma_char_classes(' ');
    lemma_char_classes('\0');
    if i + m <= s.len() {
        assert(longer.subrange(i, i + m) =~= s.subrange(i, i + m));
    } else if i + m == s.len() + 1 {
        assert(upper(longer.subrange(i, i + m))[m - 1] == ' ');
    }
}

/// The search among words that do not end with a space finds the same in
/// a text with a space behind it as in the text alone.
proof fn lemma_special_token_without_space(
    s: Seq<char>,
    i: int,
    words: Seq<Seq<char>>,
    kind: TokenKind,
)
    requires
        0 <= i <= s.len(),
        forall|w: int| 0 <= w < words.len() ==> (#[trigger] words[w]).len() > 0 && words[w].last()
            != ' ',
        kind == TokenKind::Identifier || kind == TokenKind::Operator,
    ensures
        special_token(s.push(' '), i, words, kind) == special_token(s, i, words, kind),
    decreases words.len(),
{
    if words.len() > 0 {
        assert(words[0].len() > 0 && words[0].last() != ' ');
        lemma_word_without_space(s, i, words[0], kind);
        assert forall|w: int| 0 <= w < words.skip(1).len() implies (#[trigger] words.skip(1)[w]).len()
            > 0 && words.skip(1)[w].last() != ' ' by {
            assert(words.skip(1)[w] == words[w + 1]);
        }
        lemma_special_token_without_space(s, i, words.skip(1), kind);
    }
}

/// No reserved word and no operator ends with a space.
proof fn lemma_words_end_without_space()
    ensures
        forall|w: int|
            0 <= w < reserved_keywords().len() ==> (#[trigger] reserved_keywords()[w]).len() > 0
                && reserved_keywords()[w].last() != ' ',
        forall|w: int|
            0 <= w < valid_operators().len() ==> (#[trigger] valid_operators()[w]).len() > 0
                && valid_operators()[w].last() != ' ',
{
    lemma_keywords_spelled();
    lemma_operators_spelled();
}

/// The token that is read at `i` in a text with a space behind it is read
/// there in the text alone.
proof fn lemma_token_without_space(s: Seq<char>, i: int, state: TokenizerState)
    requires
        0 <= i < s.len(),
        next_state_spec(s[i]) == Some(state),
        state != TokenizerState::Begin,
    ensures
        token_at(s.push(' '), i, state) matches Ok((_, next)) ==> next <= s.len() && token_at(
            s,
            i,
            state,
        ) == token_at(s.push(' '), i, state),
{
    let longer = s.push(' ');
    lemma_char_classes(' ');
    lemma_words_end_without_space();
    match state {
        TokenizerState::IdentifierOrKeyword => {
            lemma_special_token_without_space(s, i, reserved_keywords(), TokenKind::Identifier);
            lemma_special_token_is_word(s, i, reserved_keywords(), TokenKind::Identifier);
            lemma_run_end_stops(s, i, TokenKind::Identifier);
            let e = run_end(s, i, TokenKind::Identifier);
            assert forall|k: int| i <= k < e implies in_class(
                #[trigger] longer[k],
                TokenKind::Identifier,
            ) by {
                assert(longer[k] == s[k]);
            }
            lemma_run_end_at(longer, i, e, TokenKind::Identifier);
            assert(longer.subrange(i, e) =~= s.subrange(i, e));
        },
        TokenizerState::NumberLiteral => {
            lemma_run_end_stops(s, i, TokenKind::Number);
            let e = run_end(s, i, TokenKind::Number);
            assert forall|k: int| i <= k < e implies in_class(
                #[trigger] longer[k],
                TokenKind::Number,
            ) by {
                assert(longer[k] == s[k]);
            }
            lemma_run_end_at(longer, i, e, TokenKind::Number);
            assert(longer.subrange(i, e) =~= s.subrange(i, e));
        },
        TokenizerState::Operator => {
            lemma_special_token_without_space(s, i, valid_operators(), TokenKind::Operator);
            lemma_special_token_is_word(s, i, valid_operators(), TokenKind::Operator);
        },
        TokenizerState::StringLiteral => {
            lemma_find_quote_bounds(longer, i + 1);
            lemma_find_quote_first(longer, i + 1);
            if find_quote(longer, i + 1) is Some {
                let e = find_quote(longer, i + 1)->0;
                assert(longer[s.len() as int] == ' ');
                assert forall|k: int| i + 1 <= k < e implies s[k] != '\'' by {
                    assert(longer[k] == s[k]);
                }
                assert(s[e] == longer[e]);
                lemma_find_quote_at(s, i + 1, e);
                assert(longer.subrange(i + 1, e) =~= s.subrange(i + 1, e));
            }
        },
        _ => {},
    }
}

/// Where a text with a space behind it has tokens from `i` on, the text
/// alone has the same.
proof fn lemma_lex_without_space(s: Seq<char>, i: int, depth: int)
    requires
        0 <= i <= s.len(),
    ensures
        lex(s.push(' '), i, depth) is Ok ==> lex(s, i, depth) == lex(s.push(' '), i, depth),
    decreases s.len() - i,
{
    let longer = s.push(' ');
    lemma_char_classes(' ');
    if i < s.len() {
        assert(longer[i] == s[i]);
        match next_state_spec(s[i]) {
            None => {},
            Some(TokenizerState::Begin) => {
                lemma_lex_without_space(s, i + 1, depth);
            },
            Some(state) => {
                lemma_token_without_space(s, i, state);
                lemma_token_advances(longer, i, state);
                if token_at(longer, i, state) is Ok {
                    let (token, next) = token_at(longer, i, state)->Ok_0;
                    lemma_lex_without_space(s, next, depth + depth_change(token.kind));
                }
            },
        }
    } else {
        assert(longer[i] == ' ');
        assert(lex(longer, i, depth) == lex(longer, i + 1, depth));
    }
}

/// A space at the end of a query that has tokens can be left out: the
/// tokens stay the same.
pub proof fn lemma_trailing_space(s: Seq<char>)
    ensures
        tokenize_spec(s.push(' ')) is Ok ==> tokenize_spec(s) == tokenize_spec(s.push(' ')),
{
    lemma_lex_without_space(s, 0, 0);
}

/// Well-formed tokens whose parentheses balance come back when they are
/// joined with single spaces and the query is split into tokens again,
/// unless two identifiers that follow each other spell `ORDER BY` or
/// `INSERT INTO`.
pub proof fn lemma_well_formed_tokens_join_back(tokens: Seq<TokenView>)
    requires
        all_well_formed(tokens),
        depth_of(tokens) == 0,
        !splits_keyword(tokens),
    ensures
        tokenize_spec(spaced(tokens)) == Ok::<Seq<TokenView>, ErrorView>(tokens),
{
    lemma_well_formed_tokens_come_back(tokens);
    if tokens.len() > 0 {
        lemma_written_is_spaced(tokens);
        lemma_trailing_space(spaced(tokens));
    }
}

/// The tokens of a query come back when they are joined with single
/// spaces and the query is split into tokens again, unless two
/// identifiers that follow each other spell `ORDER BY` or `INSERT INTO`.
pub proof fn lemma_joined_tokens_come_back(s: Seq<char>)
    requires
        tokenize_spec(s) is Ok,
        !splits_keyword(tokenize_spec(s)->Ok_0),
    ensures
        tokenize_spec(spaced(tokenize_spec(s)->Ok_0)) == tokenize_spec(s),
{
    lemma_lex_well_formed(s, 0, 0);
    lemma_tokens_balance(s);
    lemma_well_formed_tokens_join_back(tokenize_spec(s)->Ok_0);
}

} // verus!
