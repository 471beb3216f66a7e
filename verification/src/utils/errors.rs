//! The error type shared by every stage of the engine.
use vstd::prelude::*;
use vstd::string::*;

verus! {

/// A failed operation, by kind, with a message for the user.
#[derive(Debug)]
pub enum Errored {
    /// The query breaks the grammar, or an expression mixes value types.
    Syntax(String),
    /// A column that the query names is not part of the table.
    Column(String),
    /// A record does not have as many fields as the table's header.
    Table(String),
    /// Any other failure, such as a number that does not fit.
    Default(String),
}

/// An [`Errored`] with its message as a sequence of characters.
pub enum ErrorView {
    Syntax(Seq<char>),
    Column(Seq<char>),
    Table(Seq<char>),
    Default(Seq<char>),
}

impl ErrorView {
    /// The message without its tag.
    pub open spec fn message(self) -> Seq<char> {
        match self {
            ErrorView::Syntax(m) => m,
            ErrorView::Column(m) => m,
            ErrorView::Table(m) => m,
            ErrorView::Default(m) => m,
        }
    }

    /// The tag that is printed in front of the message.
    pub open spec fn tag(self) -> Seq<char> {
        match self {
            ErrorView::Syntax(_) => "[INVALID_SYNTAX]: "@,
            ErrorView::Column(_) => "[INVALID_COLUMN]: "@,
            ErrorView::Table(_) => "[INVALID_TABLE]: "@,
            ErrorView::Default(_) => "[ERROR]: "@,
        }
    }

    /// The line shown to the user: the tag, then the message.
    pub open spec fn rendered(self) -> Seq<char> {
        self.tag() + self.message()
    }
}

impl View for Errored {
    type V = ErrorView;

    open spec fn view(&self) -> ErrorView {
        match self {
            Errored::Syntax(m) => ErrorView::Syntax(m@),
            Errored::Column(m) => ErrorView::Column(m@),
            Errored::Table(m) => ErrorView::Table(m@),
            Errored::Default(m) => ErrorView::Default(m@),
        }
    }
}

impl Errored {
    /// The message without its tag.
    pub fn message(&self) -> (m: &String)
        ensures
            m@ == self@.message(),
    {
        match self {
            Errored::Syntax(m) => m,
            Errored::Column(m) => m,
            Errored::Table(m) => m,
            Errored::Default(m) => m,
        }
    }

    /// The line shown to the user.
    pub fn to_string(&self) -> (s: String)
        ensures
            s@ == self@.rendered(),
    {
        let tag = match self {
            Errored::Syntax(_) => "[INVALID_SYNTAX]: ",
            Errored::Column(_) => "[INVALID_COLUMN]: ",
            Errored::Table(_) => "[INVALID_TABLE]: ",
            Errored::Default(_) => "[ERROR]: ",
        };
        let mut s = String::from_str(tag);
        s.append(self.message().as_str());
        s
    }
}

/// Whether an executable result and a specified one agree: both succeed with
/// the same value, or both fail with the same error.
pub open spec fn agrees<T: DeepView>(r: Result<T, Errored>, expected: Result<T::V, ErrorView>) -> bool {
    match (r, expected) {
        (Ok(v), Ok(e)) => v.deep_view() == e,
        (Err(v), Err(e)) => v@ == e,
        _ => false,
    }
}

/// The items that were produced so far, followed by what the rest of the
/// input gives; or the error of the rest.
pub open spec fn continued<T>(done: Seq<T>, rest: Result<Seq<T>, ErrorView>) -> Result<
    Seq<T>,
    ErrorView,
> {
    match rest {
        Ok(items) => Ok(done + items),
        Err(e) => Err(e),
    }
}

/// Continuing twice is continuing once with both parts.
pub proof fn lemma_continued_twice<T>(
    done: Seq<T>,
    more: Seq<T>,
    rest: Result<Seq<T>, ErrorView>,
)
    ensures
        continued(done, continued(more, rest)) == continued(done + more, rest),
{
    if rest is Ok {
        assert(done + (more + rest->Ok_0) =~= (done + more) + rest->Ok_0);
    }
}

} // verus!
