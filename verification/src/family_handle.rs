//! An ordered set of font handles belonging to one family.

use vstd::prelude::*;
use crate::handle::{Handle, HandleView};

verus! {

/// The font resources of one resolved family, in the order the catalog
/// listed them.  That order is preserved through matching: when two
/// candidates score equally, the first listed wins.
pub struct FamilyHandle {
    pub fonts: Vec<Handle>,
}

impl View for FamilyHandle {
    type V = Seq<HandleView>;

    open spec fn view(&self) -> Seq<HandleView> {
        self.fonts@.map_values(|h: Handle| h@)
    }
}

impl FamilyHandle {
    /// An empty family.
    pub fn new() -> (r: FamilyHandle)
        ensures
            r@ == Seq::<HandleView>::empty(),
    {
        let fonts: Vec<Handle> = Vec::new();
        proof {
            assert(fonts@.map_values(|h: Handle| h@) =~= Seq::<HandleView>::empty());
        }
        FamilyHandle { fonts }
    }

    /// Bundles the given handles, in order, as one family.
    pub fn from_font_handles(fonts: Vec<Handle>) -> (r: FamilyHandle)
        ensures
            r@ == fonts@.map_values(|h: Handle| h@),
            r.fonts@ == fonts@,
    {
        FamilyHandle { fonts }
    }

    /// The family's handles, in catalog order.
    pub fn fonts(&self) -> (r: &Vec<Handle>)
        ensures
            r@ == self.fonts@,
    {
        &self.fonts
    }

    /// Whether the family holds no fonts.
    pub fn is_empty(&self) -> (r: bool)
        ensures
            r == (self@.len() == 0),
    {
        self.fonts.len() == 0
    }
}

} // verus!
