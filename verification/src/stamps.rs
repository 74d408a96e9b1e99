//! The player's library of coral shapes.
//!
//! Every shape is an [`Asset`]; the library is never empty, since a built-in
//! shape stands in when no shape could be loaded.
use vstd::prelude::*;

use crate::assets::{Asset, asset_lines, max_len, pad_to, rows_view};
use crate::random::random_usize;

verus! {

/// A non-empty collection of coral stamp shapes.
pub struct StampSet {
    /// The stamps, in file-number order.
    stamps: Vec<Asset>,
}

impl StampSet {
    #[verifier::type_invariant]
    spec fn non_empty(self) -> bool {
        self.stamps@.len() > 0
    }

    /// The stamps, in order.
    pub closed spec fn shapes(&self) -> Seq<Asset> {
        self.stamps@
    }

    /// The stamp library made of the shapes that were loaded, in order; when
    /// none was, the one built-in shape read from `fallback`.
    pub fn from_loaded(loaded: Vec<Asset>, fallback: &str) -> (s: StampSet)
        ensures
            loaded@.len() > 0 ==> s.shapes() == loaded@,
            loaded@.len() == 0 ==> s.shapes().len() == 1,
            loaded@.len() == 0 ==> s.shapes()[0].wf(),
            loaded@.len() == 0 ==> s.shapes()[0].width == max_len(asset_lines(fallback@)),
            loaded@.len() == 0 ==> s.shapes()[0].height == asset_lines(fallback@).len(),
            loaded@.len() == 0 ==> rows_view(s.shapes()[0].rows@) == asset_lines(
                fallback@,
            ).map_values(|r: Seq<char>| pad_to(r, max_len(asset_lines(fallback@)))),
    {
        let mut stamps = loaded;
        if stamps.len() == 0 {
            stamps.push(Asset::from_str(fallback));
        }
        StampSet { stamps }
    }

    /// How many distinct stamps are available.
    pub fn len(&self) -> (n: usize)
        ensures
            n == self.shapes().len(),
            n > 0,
    {
        proof {
            use_type_invariant(self);
        }
        self.stamps.len()
    }

    /// The stamp at `index`, wrapped into range so that any index is safe.
    pub fn get(&self, index: usize) -> (a: &Asset)
        ensures
            self.shapes().len() > 0,
            *a == self.shapes()[(index as int) % (self.shapes().len() as int)],
    {
        proof {
            use_type_invariant(self);
        }
        &self.stamps[index % self.stamps.len()]
    }

    /// A random stamp: the stamp at a randomly drawn index, wrapped into
    /// range. Which stamp is drawn is left to chance.
    pub fn random(&self) -> (a: &Asset)
        ensures
            self.shapes().contains(*a),
    {
        let i = random_usize();
        let a = self.get(i);
        assert(self.shapes()[(i as int) % (self.shapes().len() as int)] == *a);
        a
    }
}

} // verus!
