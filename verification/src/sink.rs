//! Sinks: where the result for an item is written.

use crate::source::ItemRef;
use crate::text::{base_name_of, join, join_path};
use crate::transform::TransformedData;
use vstd::prelude::*;

verus! {

/// One transformed payload and the path at which it is to be written.
#[derive(Debug)]
pub struct Delivery {
    pub path: String,
    pub data: Vec<u8>,
}

/// Where a route delivers: a root directory, which is taken to be there.
#[derive(Debug)]
pub struct Sink {
    pub root: String,
}

impl Sink {
    /// The path at which the result for `item` is written: the item's base
    /// name, right below the root.
    pub fn output_path(&self, item: &ItemRef) -> (path: String)
        ensures
            path@ == join_path(self.root@, base_name_of(item@)),
    {
        join(self.root.as_str(), item.base_name())
    }

    /// The one delivery that is made for `item`: the whole payload, at the
    /// item's output path.
    pub fn deliver(&self, item: &ItemRef, payload: TransformedData) -> (delivery: Delivery)
        ensures
            delivery.path@ == join_path(self.root@, base_name_of(item@)),
            delivery.data@ == payload@,
    {
        Delivery { path: self.output_path(item), data: payload.data }
    }
}

} // verus!
