//! The built-in catalog: location patterns grouped by language ecosystem.

use crate::config::{
    eco_matches, loc_view, location_matches_eco, locs_view, LocationPattern, LocationPatternView,
};
use vstd::prelude::*;

verus! {

/// The catalog of built-in location patterns, with the language ecosystems
/// it knows of and the tags each maps to.
#[derive(Debug, Clone)]
pub struct Defaults {
    /// Known language ecosystems, each with its list of tags.
    pub ecosystems: Vec<(String, Vec<String>)>,
    /// The built-in location patterns.
    pub locations: Vec<LocationPattern>,
}

/// The catalog locations selected for one selector, in catalog order: those
/// whose ecosystem tags carry the selector or the wildcard `All`.
pub open spec fn spec_selected_locations(
    locs: Seq<LocationPatternView>,
    eco: Seq<char>,
) -> Seq<LocationPatternView>
    decreases locs.len(),
{
    if locs.len() == 0 {
        locs
    } else {
        let rest = spec_selected_locations(locs.drop_last(), eco);
        if eco_matches(locs.last(), eco) {
            rest.push(locs.last())
        } else {
            rest
        }
    }
}

impl Defaults {
    /// The catalog locations for one language ecosystem selector, as fresh
    /// copies, in catalog order: those tagged with the selector or with the
    /// wildcard `All`.
    pub fn get_locations(&self, ecosystem: &String) -> (r: Vec<LocationPattern>)
        ensures
            locs_view(r@) == spec_selected_locations(locs_view(self.locations@), ecosystem@),
    {
        let mut out: Vec<LocationPattern> = Vec::new();
        let n = self.locations.len();
        let mut i: usize = 0;
        proof {
            assert(locs_view(self.locations@).take(0) =~= Seq::<LocationPatternView>::empty());
            assert(locs_view(out@) =~= spec_selected_locations(
                locs_view(self.locations@).take(0),
                ecosystem@,
            ));
        }
        while i < n
            invariant
                0 <= i <= n,
                n == self.locations@.len(),
                locs_view(out@) == spec_selected_locations(
                    locs_view(self.locations@).take(i as int),
                    ecosystem@,
                ),
            decreases n - i,
        {
            let ghost lv = locs_view(self.locations@);
            let ghost out0 = out@;
            let selected = location_matches_eco(&self.locations[i], ecosystem);
            if selected {
                out.push(self.locations[i].duplicate());
            }
            proof {
                assert(lv.take(i + 1).drop_last() =~= lv.take(i as int));
                assert(lv.take(i + 1).last() == lv[i as int]);
                assert(lv[i as int] == loc_view(self.locations@[i as int]));
                if selected {
                    crate::config::lemma_locs_view_push(out0, out@.last());
                    assert(locs_view(out@) =~= locs_view(out0).push(
                        loc_view(self.locations@[i as int]),
                    ));
                }
            }
            i += 1;
        }
        proof {
            assert(locs_view(self.locations@).take(n as int) =~= locs_view(self.locations@));
        }
        out
    }

    /// The names of the language ecosystems the catalog knows, in catalog
    /// order.
    pub fn get_languages(&self) -> (r: Vec<String>)
        ensures
            r@.len() == self.ecosystems@.len(),
            forall|k: int| 0 <= k < r@.len() ==> #[trigger] r@[k] == self.ecosystems@[k].0,
    {
        let mut out: Vec<String> = Vec::new();
        let n = self.ecosystems.len();
        let mut i: usize = 0;
        while i < n
            invariant
                0 <= i <= n,
                n == self.ecosystems@.len(),
                out@.len() == i,
                forall|k: int| 0 <= k < i ==> #[trigger] out@[k] == self.ecosystems@[k].0,
            decreases n - i,
        {
            out.push(self.ecosystems[i].0.clone());
            i += 1;
        }
        out
    }
}

} // verus!
