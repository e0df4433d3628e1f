//! Builders that links are handed to, part by part.
use vstd::prelude::*;

verus! {

/// Why a link could not be built.
#[derive(Debug, Clone, PartialEq, Eq)]
pub enum LinkBuilderError {
    /// The link has no target.
    MissingTarget,
    /// The builder has already ended.
    AlreadyEnded,
    /// The builder cannot answer this kind of query.
    UnsupportedQuery,
    /// Another failure, with its message.
    Other(String),
}

impl LinkBuilderError {
    /// Another failure, with its message.
    pub fn other(message: String) -> (r: Self)
        ensures
            r == LinkBuilderError::Other(message),
    {
        LinkBuilderError::Other(message)
    }

    /// The message of the error.
    pub fn message(&self) -> (r: String)
        ensures
            self is MissingTarget ==> r@ == "Missing target"@,
            self is AlreadyEnded ==> r@ == "Already ended"@,
            self is UnsupportedQuery ==> r@ == "Unsupported query"@,
            self matches LinkBuilderError::Other(m) ==> r@ == m@,
    {
        match self {
            LinkBuilderError::MissingTarget => "Missing target".to_owned(),
            LinkBuilderError::AlreadyEnded => "Already ended".to_owned(),
            LinkBuilderError::UnsupportedQuery => "Unsupported query".to_owned(),
            LinkBuilderError::Other(m) => m.clone(),
        }
    }
}

/// Takes links part by part: the key, then the target, then `build`; `end` when no
/// more links come. Parts are of type `D`.
pub trait LinkBuilder<D> {
    /// Sets the key of the link being built.
    fn set_key(&mut self, key: D);

    /// Sets the target of the link being built.
    fn set_target(&mut self, target: D);

    /// Finishes the link being built.
    fn build(&mut self) -> Result<(), LinkBuilderError>;

    /// Takes no more links.
    fn end(&mut self) -> Result<(), LinkBuilderError>;
}

} // verus!
