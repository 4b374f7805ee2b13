//! Selection of the dithering algorithm, as named on the configuration
//! surface.

use vstd::prelude::*;
use vstd::string::StrSliceExecFns;

verus! {

/// The closed set of dithering algorithms the compute stage can be
/// configured with.
#[derive(Clone, Copy, Debug, PartialEq, Eq, Structural)]
pub enum DitherAlgorithm {
    /// Global cutoff at the midpoint of the black and white levels.
    Threshold,
    /// Spatial (Bayer) dithering against a constant threshold matrix.
    Ordered,
    /// Reserved name for a rotating-pattern variant; its semantics are
    /// deliberately undefined and configuring it is rejected.
    Pinwheel,
}

/// Character-by-character string comparison.
fn str_eq(a: &str, b: &str) -> (r: bool)
    ensures
        r == (a@ == b@),
{
    let alen = a.unicode_len();
    let blen = b.unicode_len();
    if alen != blen {
        return false;
    }
    let mut i: usize = 0;
    while i < alen
        invariant
            i <= alen,
            alen == a@.len(),
            alen == b@.len(),
            forall|j: int| 0 <= j < i ==> a@[j] == b@[j],
        decreases alen - i,
    {
        let ca = a.get_char(i);
        let cb = b.get_char(i);
        if ca != cb {
            return false;
        }
        i = i + 1;
    }
    proof {
        assert(a@ =~= b@);
    }
    true
}

impl DitherAlgorithm {
    /// Looks an algorithm up by its configuration name. Exactly the three
    /// names `Threshold`, `Ordered` and `Pinwheel` are recognized; any
    /// other string is rejected with `None`.
    pub fn from_name(s: &str) -> (r: Option<DitherAlgorithm>)
        ensures
            s@ == "Threshold"@ ==> r == Some(DitherAlgorithm::Threshold),
            s@ == "Ordered"@ ==> r == Some(DitherAlgorithm::Ordered),
            s@ == "Pinwheel"@ ==> r == Some(DitherAlgorithm::Pinwheel),
            r is None <==> s@ != "Threshold"@ && s@ != "Ordered"@ && s@ != "Pinwheel"@,
            r == Some(DitherAlgorithm::Threshold) ==> s@ == "Threshold"@,
            r == Some(DitherAlgorithm::Ordered) ==> s@ == "Ordered"@,
            r == Some(DitherAlgorithm::Pinwheel) ==> s@ == "Pinwheel"@,
    {
        proof {
            reveal_strlit("Threshold");
            reveal_strlit("Ordered");
            reveal_strlit("Pinwheel");
            assert("Threshold"@.len() == 9);
            assert("Ordered"@.len() == 7);
            assert("Pinwheel"@.len() == 8);
        }
        if str_eq(s, "Threshold") {
            Some(DitherAlgorithm::Threshold)
        } else if str_eq(s, "Ordered") {
            Some(DitherAlgorithm::Ordered)
        } else if str_eq(s, "Pinwheel") {
            Some(DitherAlgorithm::Pinwheel)
        } else {
            None
        }
    }
}

} // verus!
