//! User-facing text before localization.

use vstd::prelude::*;

verus! {

/// Text for the user: either a message of the translation catalog, named by
/// its identifier (optionally with one numeric argument), or literal text.
#[derive(Clone, Debug)]
pub enum Label {
    Message(&'static str),
    Numbered(&'static str, i64),
    Text(String),
}

/// The abstract content of a [`Label`].
pub enum LabelView {
    Message(Seq<char>),
    Numbered(Seq<char>, int),
    Text(Seq<char>),
}

impl View for Label {
    type V = LabelView;

    open spec fn view(&self) -> LabelView {
        match self {
            Label::Message(id) => LabelView::Message(id@),
            Label::Numbered(id, n) => LabelView::Numbered(id@, *n as int),
            Label::Text(t) => LabelView::Text(t@),
        }
    }
}

} // verus!
