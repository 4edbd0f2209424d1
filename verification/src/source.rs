//! Sources: what a route takes from its root, either by watching it for new
//! files or by scanning it once.

use crate::text::{admits, base_name, base_name_of, filter_admits};
use vstd::prelude::*;

verus! {

/// A handle on one discovered file: its path, and the base name under which
/// the result will be written.
#[derive(Debug)]
pub struct ItemRef {
    path: String,
    base_name: String,
}

impl View for ItemRef {
    type V = Seq<char>;

    /// An item is known by its path.
    closed spec fn view(&self) -> Seq<char> {
        self.path@
    }
}

impl ItemRef {
    #[verifier::type_invariant]
    spec fn named(&self) -> bool {
        &&& self.base_name@ == base_name_of(self.path@)
        &&& self.base_name@.len() > 0
    }

    /// The item at `path`, unless the path ends in `/` or is empty and so
    /// names no file.
    pub fn from_path(path: &str) -> (r: Option<ItemRef>)
        ensures
            match r {
                Some(item) => item@ == path@ && base_name_of(path@).len() > 0,
                None => base_name_of(path@).len() == 0,
            },
    {
        let name = base_name(path);
        if name.as_str().unicode_len() == 0 {
            None
        } else {
            Some(ItemRef { path: path.to_owned(), base_name: name })
        }
    }

    /// Where the item lies.
    pub fn path(&self) -> (path: &str)
        ensures
            path@ == self@,
    {
        self.path.as_str()
    }

    /// The name under which the item's result is written: what follows the
    /// last `/` of its path, and never empty.
    pub fn base_name(&self) -> (name: &str)
        ensures
            name@ == base_name_of(self@),
            name@.len() > 0,
    {
        proof {
            use_type_invariant(self);
        }
        self.base_name.as_str()
    }
}

/// The kinds of change that a file-system notification reports.
#[derive(Clone, Copy, Debug, PartialEq, Eq, Structural)]
pub enum EventKind {
    Any,
    Access,
    Create,
    Modify,
    Remove,
    Other,
}

/// One notification: its kind and the paths that it concerns.
#[derive(Debug)]
pub struct FsEvent {
    pub kind: EventKind,
    pub paths: Vec<String>,
}

/// One entry of a directory listing.
#[derive(Debug)]
pub struct Entry {
    pub path: String,
    pub is_dir: bool,
}

/// What a source is shown: a notification from the watched root, or an entry
/// found while walking it.
#[derive(Debug)]
pub enum Observation {
    Event(FsEvent),
    Entry(Entry),
}

/// Whether a route reads its root once or keeps watching it.
#[derive(Clone, Copy, Debug, PartialEq, Eq, Structural)]
pub enum SourceMode {
    /// Walk the root once and take the files that are there.
    Scan,
    /// Take the files that are created below the root from now on.
    Watch,
}

/// How a route gets its items.
#[derive(Debug)]
pub enum Source {
    /// Files created below `root`, for as long as the route is active.
    Watch { root: String, filter: Option<String> },
    /// The files that lie below `root` when it is walked, once.
    Scan { root: String, filter: Option<String> },
}

/// What a source is, as mathematics.
pub struct SourceView {
    pub mode: SourceMode,
    pub root: Seq<char>,
    pub filter: Option<Seq<char>>,
}

impl View for Source {
    type V = SourceView;

    open spec fn view(&self) -> SourceView {
        SourceView {
            mode: if self is Watch {
                SourceMode::Watch
            } else {
                SourceMode::Scan
            },
            root: self.root_view(),
            filter: self.filter_view(),
        }
    }
}

/// The views of the items of a list, in its order.
pub open spec fn paths_of(items: Seq<ItemRef>) -> Seq<Seq<char>> {
    items.map_values(|item: ItemRef| item@)
}

impl Source {
    /// The directory that the source reads.
    pub open spec fn root_view(&self) -> Seq<char> {
        match self {
            Source::Watch { root, .. } => root@,
            Source::Scan { root, .. } => root@,
        }
    }

    /// The extension filter, where one is set.
    pub open spec fn filter_view(&self) -> Option<Seq<char>> {
        match self {
            Source::Watch { filter: Some(f), .. } => Some(f@),
            Source::Scan { filter: Some(f), .. } => Some(f@),
            _ => None,
        }
    }

    /// The path that an observation offers to this source: a watch takes the
    /// first path of a creation event and nothing else, a scan takes every
    /// entry that is no directory.
    pub open spec fn offered(&self, seen: &Observation) -> Option<Seq<char>> {
        match (self, seen) {
            (Source::Watch { .. }, Observation::Event(event)) => {
                if event.kind == EventKind::Create && event.paths.len() > 0 {
                    Some(event.paths[0]@)
                } else {
                    None
                }
            },
            (Source::Scan { .. }, Observation::Entry(entry)) => {
                if entry.is_dir {
                    None
                } else {
                    Some(entry.path@)
                }
            },
            _ => None,
        }
    }

    /// The path of the item that the source yields for an observation: the
    /// offered path, if it names a file and the file's name passes the filter.
    pub open spec fn picks(&self, seen: &Observation) -> Option<Seq<char>> {
        match self.offered(seen) {
            Some(path) => {
                if base_name_of(path).len() > 0 && filter_admits(
                    self.filter_view(),
                    base_name_of(path),
                ) {
                    Some(path)
                } else {
                    None
                }
            },
            None => None,
        }
    }

    /// The paths of the items that the source yields for a run of
    /// observations: one for each that it picks, in the order in which they
    /// came, none left out and none merged.
    pub open spec fn picks_all(&self, seen: Seq<Observation>) -> Seq<Seq<char>>
        decreases seen.len(),
    {
        if seen.len() == 0 {
            Seq::empty()
        } else {
            let before = self.picks_all(seen.drop_last());
            match self.picks(&seen.last()) {
                Some(path) => before.push(path),
                None => before,
            }
        }
    }

    /// Nothing but a creation makes an item of a watched root: a change, a
    /// removal, an access or a rename yields none, and neither does an entry
    /// of a listing.
    pub proof fn lemma_watch_takes_creations_only(&self, seen: &Observation)
        requires
            self is Watch,
            !(seen matches Observation::Event(event) && event.kind == EventKind::Create),
        ensures
            self.picks(seen) is None,
    {
    }

    /// A scan takes files only: a directory yields no item, and neither does
    /// a notification.
    pub proof fn lemma_scan_takes_files_only(&self, seen: &Observation)
        requires
            self is Scan,
            !(seen matches Observation::Entry(entry) && !entry.is_dir),
        ensures
            self.picks(seen) is None,
    {
    }

    /// One observation yields one item where the source picks it, and none
    /// where it does not: a created file is processed exactly once for each
    /// time that its creation is reported.
    pub proof fn lemma_one_observation_one_item(&self, seen: Observation)
        ensures
            self.picks_all(seq![seen]) == match self.picks(&seen) {
                Some(path) => seq![path],
                None => Seq::<Seq<char>>::empty(),
            },
    {
        reveal_with_fuel(Source::picks_all, 2);
    }

    /// What a source yields for one run of observations followed by another
    /// is what it yields for the first followed by what it yields for the
    /// second: the order of arrival is kept, and an observation that comes
    /// twice yields its item twice.
    pub proof fn lemma_picks_in_order(&self, first: Seq<Observation>, second: Seq<Observation>)
        ensures
            self.picks_all(first + second) == self.picks_all(first) + self.picks_all(second),
        decreases second.len(),
    {
        if second.len() > 0 {
            assert((first + second).drop_last() =~= first + second.drop_last());
            self.lemma_picks_in_order(first, second.drop_last());
            let before = self.picks_all(first) + self.picks_all(second.drop_last());
            match self.picks(&second.last()) {
                Some(path) => {
                    assert(before.push(path) =~= self.picks_all(first) + self.picks_all(
                        second.drop_last(),
                    ).push(path));
                },
                None => {},
            }
        }
    }

    /// Whether the source watches (and does not scan).
    pub fn is_watch(&self) -> (watch: bool)
        ensures
            watch == (self is Watch),
    {
        match self {
            Source::Watch { .. } => true,
            Source::Scan { .. } => false,
        }
    }

    /// The directory that the source reads.
    pub fn root(&self) -> (root: &str)
        ensures
            root@ == self.root_view(),
    {
        match self {
            Source::Watch { root, .. } => root.as_str(),
            Source::Scan { root, .. } => root.as_str(),
        }
    }

    /// The item that the source yields for one observation, if any. The
    /// filter is applied here, before anything is read.
    pub fn select(&self, seen: &Observation) -> (r: Option<ItemRef>)
        ensures
            match r {
                Some(item) => self.picks(seen) == Some(item@),
                None => self.picks(seen) is None,
            },
    {
        let candidate: Option<&String> = match (self, seen) {
            (Source::Watch { .. }, Observation::Event(event)) => {
                if event.kind == EventKind::Create && event.paths.len() > 0 {
                    Some(&event.paths[0])
                } else {
                    None
                }
            },
            (Source::Scan { .. }, Observation::Entry(entry)) => {
                if entry.is_dir {
                    None
                } else {
                    Some(&entry.path)
                }
            },
            _ => None,
        };
        let filter: &Option<String> = match self {
            Source::Watch { filter, .. } => filter,
            Source::Scan { filter, .. } => filter,
        };
        match candidate {
            Some(path) => {
                match ItemRef::from_path(path.as_str()) {
                    Some(item) => {
                        if admits(filter, item.base_name()) {
                            Some(item)
                        } else {
                            None
                        }
                    },
                    None => None,
                }
            },
            None => None,
        }
    }

    /// The items that the source yields for a run of observations.
    pub fn select_all(&self, seen: &Vec<Observation>) -> (items: Vec<ItemRef>)
        ensures
            paths_of(items@) == self.picks_all(seen@),
    {
        let mut items: Vec<ItemRef> = Vec::new();
        let mut i: usize = 0;
        while i < seen.len()
            invariant
                i <= seen.len(),
                paths_of(items@) == self.picks_all(seen@.take(i as int)),
            decreases seen.len() - i,
        {
            assert(seen@.take(i + 1).drop_last() =~= seen@.take(i as int));
            if let Some(item) = self.select(&seen[i]) {
                items.push(item);
            }
            i = i + 1;
        }
        assert(seen@.take(i as int) =~= seen@);
        items
    }
}

} // verus!
