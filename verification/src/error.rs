//! What can go wrong: mistakes in a route's configuration, which end a run
//! before it starts, and failures of one item, which end only that item.

use crate::transform::TransformError;
use vstd::prelude::*;

verus! {

/// A route that cannot be built or cannot be run as it is configured.
#[derive(Debug)]
pub enum ConfigurationError {
    /// The source location is no URL.
    InvalidSource { location: String },
    /// The source location lies outside the local file system.
    SourceNotLocal { location: String },
    /// The source location names no directory that is there.
    SourceNotFound { location: String },
    /// The destination location is no URL.
    InvalidDestination { location: String },
    /// The route that reads from `source` was given no destination.
    MissingDestination { source: String },
}

/// A configuration error as mathematics.
pub enum ConfigurationErrorView {
    InvalidSource { location: Seq<char> },
    SourceNotLocal { location: Seq<char> },
    SourceNotFound { location: Seq<char> },
    InvalidDestination { location: Seq<char> },
    MissingDestination { source: Seq<char> },
}

impl View for ConfigurationError {
    type V = ConfigurationErrorView;

    open spec fn view(&self) -> ConfigurationErrorView {
        match self {
            ConfigurationError::InvalidSource {
                location,
            } => ConfigurationErrorView::InvalidSource { location: location@ },
            ConfigurationError::SourceNotLocal {
                location,
            } => ConfigurationErrorView::SourceNotLocal { location: location@ },
            ConfigurationError::SourceNotFound {
                location,
            } => ConfigurationErrorView::SourceNotFound { location: location@ },
            ConfigurationError::InvalidDestination {
                location,
            } => ConfigurationErrorView::InvalidDestination { location: location@ },
            ConfigurationError::MissingDestination {
                source,
            } => ConfigurationErrorView::MissingDestination { source: source@ },
        }
    }
}

/// Why one item was not delivered. The route goes on with the next item.
#[derive(Debug)]
pub enum ItemError {
    /// A step of the chain failed; nothing of the item reaches the sink.
    Transform(TransformError),
    /// The route has no destination, so there is nowhere to deliver to.
    NoDestination,
}

} // verus!
