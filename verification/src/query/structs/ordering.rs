use crate::query::structs::token::{Token, TokenKind, TokenView};
use vstd::prelude::*;

verus! {

/// The direction of one sort key.
#[derive(Debug, PartialEq, Eq, Clone, Copy, Structural)]
pub enum OrderKind {
    Asc,
    Desc,
}

/// One sort key of a query: the column and the direction.
#[derive(Debug, PartialEq)]
pub struct OrderBy {
    pub field: Token,
    pub kind: OrderKind,
}

/// An [`OrderBy`] with its column as a [`TokenView`].
pub struct OrderByView {
    pub field: TokenView,
    pub kind: OrderKind,
}

impl View for OrderBy {
    type V = OrderByView;

    open spec fn view(&self) -> OrderByView {
        OrderByView { field: self.field@, kind: self.kind }
    }
}

impl DeepView for OrderBy {
    type V = OrderByView;

    open spec fn deep_view(&self) -> OrderByView {
        self@
    }
}

impl Default for OrderBy {
    /// An ascending key on the empty token.
    fn default() -> (o: OrderBy)
        ensures
            o@.kind == OrderKind::Asc,
            o@.field == (TokenView { value: Seq::<char>::empty(), kind: TokenKind::Unknown }),
    {
        OrderBy { field: Token::default(), kind: OrderKind::Asc }
    }
}

} // verus!
