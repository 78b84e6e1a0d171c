//! The candidate metadata handed to the property-matching policy.

use vstd::prelude::*;
use crate::properties::Properties;

verus! {

/// The mathematical value of a `Description`.
pub struct DescriptionView {
    pub family_name: Seq<char>,
    pub postscript_name: Seq<char>,
    pub properties: Properties,
}

/// What the catalog reports about one font resource: the family it belongs
/// to, its unique PostScript name, and its style properties.  Derived from a
/// handle for the duration of a match and never persisted.
pub struct Description {
    pub family_name: String,
    pub postscript_name: String,
    pub properties: Properties,
}

impl View for Description {
    type V = DescriptionView;

    open spec fn view(&self) -> DescriptionView {
        DescriptionView {
            family_name: self.family_name@,
            postscript_name: self.postscript_name@,
            properties: self.properties,
        }
    }
}

impl Clone for Description {
    fn clone(&self) -> (r: Self)
        ensures
            r@ == self@,
    {
        Description {
            family_name: self.family_name.clone(),
            postscript_name: self.postscript_name.clone(),
            properties: self.properties,
        }
    }
}

/// The views of a sequence of descriptions.
pub open spec fn descriptions_view(s: Seq<Description>) -> Seq<DescriptionView> {
    s.map_values(|d: Description| d@)
}

} // verus!
