//! Pin packages and the chip-pattern lookup that assigns one to a chip.
//!
//! Each mapping entry pairs a chip-name pattern with a package.  In a
//! pattern a lower-case `x` stands for any single character; every other
//! character stands for itself, and the whole pattern must cover the whole
//! chip name.  Entries are tried in order and the first match wins.

use vstd::prelude::*;
use crate::text::str_chars;

verus! {

/// One pin of a package layout.
#[derive(Debug, Clone, PartialEq)]
pub struct Pin {
    pub position: String,
    pub signals: Vec<String>,
}

/// Mathematical value of a [`Pin`].
pub ghost struct PmPinV {
    pub position: Seq<char>,
    pub signals: Seq<Seq<char>>,
}

impl DeepView for Pin {
    type V = PmPinV;

    open spec fn deep_view(&self) -> PmPinV {
        PmPinV { position: self.position@, signals: self.signals.deep_view() }
    }
}

/// One named pin package.
#[derive(Debug, Clone, PartialEq)]
pub struct Package {
    pub name: String,
    pub pins: Vec<Pin>,
}

/// Mathematical value of a [`Package`].
pub ghost struct PmPackageV {
    pub name: Seq<char>,
    pub pins: Seq<PmPinV>,
}

impl DeepView for Package {
    type V = PmPackageV;

    open spec fn deep_view(&self) -> PmPackageV {
        PmPackageV { name: self.name@, pins: self.pins.deep_view() }
    }
}

/// The ordered chip-pattern to package mapping.
#[derive(Debug, PartialEq)]
pub struct PinMappings {
    pub mappings: Vec<(String, Package)>,
}

/// Mathematical value of a [`PinMappings`].
pub ghost struct PinMappingsV {
    pub mappings: Seq<(Seq<char>, PmPackageV)>,
}

impl DeepView for PinMappings {
    type V = PinMappingsV;

    open spec fn deep_view(&self) -> PinMappingsV {
        PinMappingsV { mappings: self.mappings.deep_view() }
    }
}

/// The chip-name pattern matches the name: same length, and each pattern
/// character either is the wildcard `x` or equals the name's character.
pub open spec fn wildcard_matches(pat: Seq<char>, name: Seq<char>) -> bool {
    pat.len() == name.len() && (forall|i: int|
        0 <= i < pat.len() ==> #[trigger] pat[i] == 'x' || pat[i] == name[i])
}

/// The package of the first mapping entry whose pattern matches, if any.
pub open spec fn spec_get_for_chip(maps: Seq<(Seq<char>, PmPackageV)>, name: Seq<char>) -> Option<
    PmPackageV,
>
    decreases maps.len(),
{
    if maps.len() == 0 {
        None
    } else if wildcard_matches(maps[0].0, name) {
        Some(maps[0].1)
    } else {
        spec_get_for_chip(maps.skip(1), name)
    }
}

/// Decide [`wildcard_matches`] for a pattern string and a name.
#[verifier::loop_isolation(false)]
fn wildcard_match(pat: &Vec<char>, name: &Vec<char>) -> (r: bool)
    ensures
        r == wildcard_matches(pat@, name@),
{
    if pat.len() != name.len() {
        return false;
    }
    let n = pat.len();
    let mut i: usize = 0;
    while i < n
        invariant
            i <= n,
            forall|j: int| 0 <= j < i ==> #[trigger] pat@[j] == 'x' || pat@[j] == name@[j],
        decreases n - i,
    {
        let c = pat[i];
        if c != 'x' && c != name[i] {
            return false;
        }
        i = i + 1;
    }
    true
}

impl PinMappings {
    /// The package assigned to the chip: the first entry, in order, whose
    /// pattern matches the chip name.
    #[verifier::loop_isolation(false)]
    pub fn get_for_chip(&self, pn: &str) -> (r: Option<&Package>)
        ensures
            match r {
                Some(p) => spec_get_for_chip(self.deep_view().mappings, pn@) == Some(p.deep_view()),
                None => spec_get_for_chip(self.deep_view().mappings, pn@) is None,
            },
    {
        let name = str_chars(pn);
        let ghost maps = self.deep_view().mappings;
        proof {
            assert(maps.skip(0) =~= maps);
        }
        let n = self.mappings.len();
        let mut i: usize = 0;
        while i < n
            invariant
                i <= n,
                spec_get_for_chip(maps, pn@) == spec_get_for_chip(maps.skip(i as int), pn@),
            decreases n - i,
        {
            let pat = str_chars(self.mappings[i].0.as_str());
            proof {
                assert(maps[i as int] == self.mappings@[i as int].deep_view());
            }
            if wildcard_match(&pat, &name) {
                return Some(&self.mappings[i].1);
            }
            proof {
                assert(maps.skip(i as int)[0] == maps[i as int]);
                assert(maps.skip(i as int).skip(1) =~= maps.skip(i + 1));
            }
            i = i + 1;
        }
        proof {
            assert(maps.skip(n as int).len() == 0);
        }
        None
    }
}

} // verus!
