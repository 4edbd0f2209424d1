//! Routes: one source, an optional extension filter, a chain of
//! transformers and one destination, put together step by step.

use crate::error::{ConfigurationError, ConfigurationErrorView, ItemError};
use crate::location::{parse_url, parsed_url, Location, LocationView};
use crate::sink::{Delivery, Sink};
use crate::source::{ItemRef, Source, SourceMode, SourceView};
use crate::text::{base_name_of, join_path};
use crate::transform::{chain_maps, run_chain, Step};
use vstd::prelude::*;

verus! {

/// A route that was begun and whose root nobody has confirmed yet. It has
/// a source and nothing else, and it cannot be run.
#[derive(Debug)]
pub struct PendingRoute {
    source: Location,
}

impl View for PendingRoute {
    type V = LocationView;

    /// A pending route is known by its source.
    closed spec fn view(&self) -> LocationView {
        self.source@
    }
}

impl PendingRoute {
    /// A pending route at a source that is already parsed.
    pub fn from_location(source: Location) -> (pending: PendingRoute)
        ensures
            pending@ == source@,
    {
        PendingRoute { source }
    }

    /// Whether the source lies in the local file system.
    pub fn is_local(&self) -> (local: bool)
        ensures
            local == self@.is_local(),
    {
        self.source.is_local()
    }

    /// The path of the source location: the root to look for.
    pub fn source_path(&self) -> (path: &str)
        ensures
            path@ == self@.path,
    {
        self.source.path.as_str()
    }

    /// The source location as a URL.
    pub fn source_text(&self) -> (text: &str)
        ensures
            text@ == self@.text,
    {
        self.source.text.as_str()
    }

    /// Makes a route of a pending one, or refuses it. There is a route
    /// exactly where the source lies in the local file system and
    /// `is_directory` holds, which says whether the path of the source names
    /// a directory that is there; that is for the caller to find out. The
    /// route scans, and has no filter, no steps and no destination yet.
    pub fn confirm_root(self, is_directory: bool) -> (r: Result<Route, ConfigurationError>)
        ensures
            r is Ok <==> self@.is_local() && is_directory,
            match r {
                Ok(route) => {
                    &&& route.source_view() == self@
                    &&& route.mode_view() == SourceMode::Scan
                    &&& route.filter_view() is None
                    &&& route.chain() == Seq::<Step>::empty()
                    &&& route.destination_view() is None
                },
                Err(e) => e@ == if self@.is_local() {
                    ConfigurationErrorView::SourceNotFound { location: self@.text }
                } else {
                    ConfigurationErrorView::SourceNotLocal { location: self@.text }
                },
            },
    {
        if !self.source.is_local() {
            Err(ConfigurationError::SourceNotLocal { location: self.source.text.clone() })
        } else if !is_directory {
            Err(ConfigurationError::SourceNotFound { location: self.source.text.clone() })
        } else {
            Ok(
                Route {
                    source: self.source,
                    mode: SourceMode::Scan,
                    extension: None,
                    transformers: Vec::new(),
                    destination: None,
                },
            )
        }
    }
}

/// A declared pipeline from a source to a destination. There is a route
/// only on a root that was confirmed: its source lies in the local file
/// system.
pub struct Route {
    source: Location,
    mode: SourceMode,
    extension: Option<String>,
    transformers: Vec<Step>,
    destination: Option<Location>,
}

/// What `process` may return for an item at `item` with the contents
/// `contents`, on a route with the chain `chain` and the destination
/// `destination`.
pub open spec fn processed(
    destination: Option<LocationView>,
    chain: Seq<Step>,
    item: Seq<char>,
    contents: Seq<u8>,
    r: Result<Delivery, ItemError>,
) -> bool {
    match destination {
        None => r matches Err(ItemError::NoDestination),
        Some(root) => match r {
            Ok(delivery) => {
                &&& delivery.path@ == join_path(root.path, base_name_of(item))
                &&& chain_maps(chain, contents, Ok(delivery.data@))
            },
            Err(ItemError::Transform(e)) => chain_maps(chain, contents, Err(e)),
            Err(ItemError::NoDestination) => false,
        },
    }
}

/// A route without a destination delivers nothing: whatever the item and
/// its contents, no file is named, and the chain is not even run.
pub proof fn lemma_no_destination_no_delivery(
    chain: Seq<Step>,
    item: Seq<char>,
    contents: Seq<u8>,
    r: Result<Delivery, ItemError>,
)
    requires
        processed(None, chain, item, contents, r),
    ensures
        r matches Err(ItemError::NoDestination),
{
}

impl Route {
    /// Where the route reads from.
    pub closed spec fn source_view(&self) -> LocationView {
        self.source@
    }

    /// Whether the route scans or watches.
    pub closed spec fn mode_view(&self) -> SourceMode {
        self.mode
    }

    /// The extension filter as it was given, where one was.
    pub closed spec fn filter_view(&self) -> Option<Seq<char>> {
        match self.extension {
            Some(ext) => Some(ext@),
            None => None,
        }
    }

    /// The chain, in the order in which its steps were declared.
    pub closed spec fn chain(&self) -> Seq<Step> {
        self.transformers@
    }

    /// Where the route writes to, once that is set.
    pub closed spec fn destination_view(&self) -> Option<LocationView> {
        match self.destination {
            Some(destination) => Some(destination@),
            None => None,
        }
    }

    /// Whether `other` is this route but for its destination.
    pub open spec fn same_but_destination(&self, other: &Route) -> bool {
        &&& self.source_view() == other.source_view()
        &&& self.mode_view() == other.mode_view()
        &&& self.filter_view() == other.filter_view()
        &&& self.chain() == other.chain()
    }

    /// The source that the route reads: its root is the path of the source
    /// location, and the route's filter goes with it.
    pub open spec fn source_spec(&self) -> SourceView {
        SourceView {
            mode: self.mode_view(),
            root: self.source_view().path,
            filter: self.filter_view(),
        }
    }

    #[verifier::type_invariant]
    spec fn rooted(&self) -> bool {
        self.source@.is_local()
    }

    /// Begins a route at the source `location`. A location that is no URL is
    /// refused here, at once. What comes back is no route yet: it becomes
    /// one when its root is confirmed.
    pub fn start(location: &str) -> (r: Result<PendingRoute, ConfigurationError>)
        ensures
            match r {
                Ok(pending) => parsed_url(location@) == Some(pending@),
                Err(e) => {
                    &&& parsed_url(location@) is None
                    &&& e@ == ConfigurationErrorView::InvalidSource { location: location@ }
                },
            },
    {
        match parse_url(location) {
            Ok(source) => Ok(PendingRoute::from_location(source)),
            Err(_) => Err(ConfigurationError::InvalidSource { location: location.to_owned() }),
        }
    }

    /// Sets the extension filter, as it is given.
    pub fn extension(self, ext: &str) -> (route: Route)
        ensures
            route.filter_view() == Some(ext@),
            route.source_view() == self.source_view(),
            route.mode_view() == self.mode_view(),
            route.chain() == self.chain(),
            route.destination_view() == self.destination_view(),
    {
        proof {
            use_type_invariant(&self);
        }
        Route {
            source: self.source,
            mode: self.mode,
            extension: Some(ext.to_owned()),
            transformers: self.transformers,
            destination: self.destination,
        }
    }

    /// Makes the route watch its root as a stream of new files.
    pub fn stream(self) -> (route: Route)
        ensures
            route.mode_view() == SourceMode::Watch,
            route.source_view() == self.source_view(),
            route.filter_view() == self.filter_view(),
            route.chain() == self.chain(),
            route.destination_view() == self.destination_view(),
    {
        proof {
            use_type_invariant(&self);
        }
        Route {
            source: self.source,
            mode: SourceMode::Watch,
            extension: self.extension,
            transformers: self.transformers,
            destination: self.destination,
        }
    }

    /// Adds a step at the end of the chain.
    pub fn then_transform(self, step: Step) -> (route: Route)
        ensures
            route.chain() == self.chain().push(step),
            route.source_view() == self.source_view(),
            route.mode_view() == self.mode_view(),
            route.filter_view() == self.filter_view(),
            route.destination_view() == self.destination_view(),
    {
        proof {
            use_type_invariant(&self);
        }
        let mut transformers = self.transformers;
        transformers.push(step);
        Route {
            source: self.source,
            mode: self.mode,
            extension: self.extension,
            transformers,
            destination: self.destination,
        }
    }

    /// Sets the destination to a location that is already parsed.
    pub fn with_destination(self, destination: Location) -> (route: Route)
        ensures
            route.destination_view() == Some(destination@),
            route.same_but_destination(&self),
    {
        proof {
            use_type_invariant(&self);
        }
        Route {
            source: self.source,
            mode: self.mode,
            extension: self.extension,
            transformers: self.transformers,
            destination: Some(destination),
        }
    }

    /// Sets the destination. A location that is no URL is refused.
    pub fn to(self, location: &str) -> (r: Result<Route, ConfigurationError>)
        ensures
            match r {
                Ok(route) => {
                    &&& parsed_url(location@) is Some
                    &&& route.destination_view() == parsed_url(location@)
                    &&& route.same_but_destination(&self)
                },
                Err(e) => {
                    &&& parsed_url(location@) is None
                    &&& e@ == ConfigurationErrorView::InvalidDestination { location: location@ }
                },
            },
    {
        match parse_url(location) {
            Ok(destination) => Ok(self.with_destination(destination)),
            Err(_) => Err(ConfigurationError::InvalidDestination { location: location.to_owned() }),
        }
    }

    /// Whether a destination is set.
    pub fn has_destination(&self) -> (set: bool)
        ensures
            set == self.destination_view().is_some(),
    {
        self.destination.is_some()
    }

    /// Whether the route scans or watches.
    pub fn mode(&self) -> (mode: SourceMode)
        ensures
            mode == self.mode_view(),
    {
        self.mode
    }

    /// The path of the source location, which lies in the local file
    /// system.
    pub fn source_path(&self) -> (path: &str)
        ensures
            path@ == self.source_view().path,
            self.source_view().is_local(),
    {
        proof {
            use_type_invariant(self);
        }
        self.source.path.as_str()
    }

    /// The source location as a URL.
    pub fn source_text(&self) -> (text: &str)
        ensures
            text@ == self.source_view().text,
    {
        self.source.text.as_str()
    }

    /// The extension filter as it was given, where one was.
    pub fn filter(&self) -> (filter: Option<&str>)
        ensures
            match filter {
                Some(ext) => self.filter_view() == Some(ext@),
                None => self.filter_view() is None,
            },
    {
        match &self.extension {
            Some(ext) => Some(ext.as_str()),
            None => None,
        }
    }

    /// The steps of the chain, in their order.
    pub fn steps(&self) -> (steps: &Vec<Step>)
        ensures
            steps@ == self.chain(),
    {
        &self.transformers
    }

    /// The path of the destination, once one is set.
    pub fn destination_path(&self) -> (path: Option<&str>)
        ensures
            match path {
                Some(p) => self.destination_view() is Some && p@
                    == self.destination_view()->Some_0.path,
                None => self.destination_view() is None,
            },
    {
        match &self.destination {
            Some(destination) => Some(destination.path.as_str()),
            None => None,
        }
    }

    /// Checks that the route can be run: it needs a destination.
    pub fn validate(&self) -> (r: Result<(), ConfigurationError>)
        ensures
            match r {
                Ok(_) => self.destination_view() is Some,
                Err(e) => {
                    &&& self.destination_view() is None
                    &&& e@ == ConfigurationErrorView::MissingDestination {
                        source: self.source_view().text,
                    }
                },
            },
    {
        if self.destination.is_some() {
            Ok(())
        } else {
            Err(ConfigurationError::MissingDestination { source: self.source.text.clone() })
        }
    }

    /// The source of the route, to be handed to what watches or scans.
    pub fn source(&self) -> (source: Source)
        ensures
            source@ == self.source_spec(),
    {
        let root: String = self.source.path.clone();
        let filter: Option<String> = match &self.extension {
            Some(ext) => Some(ext.clone()),
            None => None,
        };
        match self.mode {
            SourceMode::Watch => Source::Watch { root, filter },
            SourceMode::Scan => Source::Scan { root, filter },
        }
    }

    /// The sink of the route: there is one once a destination is set, and
    /// its root is the path of the destination.
    pub fn sink(&self) -> (sink: Option<Sink>)
        ensures
            match sink {
                Some(s) => self.destination_view() is Some && s.root@
                    == self.destination_view()->Some_0.path,
                None => self.destination_view() is None,
            },
    {
        match &self.destination {
            Some(destination) => Some(Sink { root: destination.path.clone() }),
            None => None,
        }
    }

    /// Takes the contents of one item through the chain and says where the
    /// result goes: below the destination root, under the item's base name.
    /// Without a destination nothing is run and nothing is to be written; a
    /// failing step leaves nothing to write either.
    pub fn process(&self, item: &ItemRef, contents: Vec<u8>) -> (r: Result<Delivery, ItemError>)
        ensures
            processed(self.destination_view(), self.chain(), item@, contents@, r),
    {
        match self.sink() {
            None => Err(ItemError::NoDestination),
            Some(sink) => {
                match run_chain(&self.transformers, contents) {
                    Ok(payload) => Ok(sink.deliver(item, payload)),
                    Err(e) => Err(ItemError::Transform(e)),
                }
            },
        }
    }
}

} // verus!
