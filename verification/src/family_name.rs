//! Family-name preferences, including the CSS generic classes.

use vstd::prelude::*;

verus! {

/// One entry of a caller's family-name preference list: an explicit family
/// name, or one of the CSS generic family classes.  A generic class resolves
/// to a single configured default family name (see
/// [`resolved_family_name`]), not to several families.
#[derive(Debug)]
pub enum FamilyName {
    /// A specific family, by name.
    Title(String),
    Serif,
    SansSerif,
    Monospace,
    Cursive,
    Fantasy,
}

impl Clone for FamilyName {
    fn clone(&self) -> (r: Self)
        ensures
            r == *self,
    {
        match self {
            FamilyName::Title(title) => FamilyName::Title(title.clone()),
            FamilyName::Serif => FamilyName::Serif,
            FamilyName::SansSerif => FamilyName::SansSerif,
            FamilyName::Monospace => FamilyName::Monospace,
            FamilyName::Cursive => FamilyName::Cursive,
            FamilyName::Fantasy => FamilyName::Fantasy,
        }
    }
}

/// The concrete family name a preference stands for: an explicit title
/// itself, or the default family configured for the generic class.
pub open spec fn resolved_family_name(f: FamilyName) -> Seq<char> {
    match f {
        FamilyName::Title(title) => title@,
        FamilyName::Serif => "Times New Roman"@,
        FamilyName::SansSerif => "Arial"@,
        FamilyName::Monospace => "Courier New"@,
        FamilyName::Cursive => "Comic Sans MS"@,
        FamilyName::Fantasy => "Papyrus"@,
    }
}

} // verus!
