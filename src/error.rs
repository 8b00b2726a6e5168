//! Errors of the library.
use vstd::prelude::*;

verus! {

/// A named field of the structured form of a thread.
#[derive(Clone, Copy, Debug, PartialEq, Eq, Structural)]
pub enum RecordField {
    Nom,
    Lien,
    Pole,
    Status,
    LastUpdate,
}

#[derive(Clone, Debug)]
pub enum FilError {
    /// A field of a structured record is absent or of the wrong kind, or a
    /// time that is no valid timestamp.
    MissingField(RecordField),
    /// A category name that names no category.
    UnknownPole(String),
    /// A status name that names no status.
    UnknownStatus(String),
    /// A URL from which no thread identifier can be read.
    UnresolvableUrl(String),
    /// A control identifier that does not follow `f-<id>-<action>`, with the
    /// message the control belongs to.
    InteractionId(String, u64),
    /// No thread with this identifier is in the registry.
    ObjectNotFound(u64),
    /// A feed that cannot be read as RSS.
    BadFeed,
}

pub enum FilErrorView {
    MissingField(RecordField),
    UnknownPole(Seq<char>),
    UnknownStatus(Seq<char>),
    UnresolvableUrl(Seq<char>),
    InteractionId(Seq<char>, u64),
    ObjectNotFound(u64),
    BadFeed,
}

impl View for FilError {
    type V = FilErrorView;

    open spec fn view(&self) -> FilErrorView {
        match self {
            FilError::MissingField(f) => FilErrorView::MissingField(*f),
            FilError::UnknownPole(s) => FilErrorView::UnknownPole(s@),
            FilError::UnknownStatus(s) => FilErrorView::UnknownStatus(s@),
            FilError::UnresolvableUrl(s) => FilErrorView::UnresolvableUrl(s@),
            FilError::InteractionId(s, m) => FilErrorView::InteractionId(s@, *m),
            FilError::ObjectNotFound(id) => FilErrorView::ObjectNotFound(*id),
            FilError::BadFeed => FilErrorView::BadFeed,
        }
    }
}

} // verus!
