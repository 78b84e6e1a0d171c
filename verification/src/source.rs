//! A database of installed fonts that can be queried.
//!
//! [`Source`] is the capability contract a platform font catalog implements:
//! list the installed families, resolve one family by name, describe one
//! resource, and score candidates against desired properties.  The provided
//! methods are the platform-independent matching engine built on those four
//! capabilities: generic-name resolution, CSS Fonts Level 3 best-match
//! selection across a preference list, and the brute-force search by
//! PostScript name.
//!
//! Each capability is modelled by a specification function (`family_model`,
//! `describe_model`, `best_model`); the contracts of the engine speak of the
//! catalog only through those models.

use vstd::prelude::*;
use crate::error::SelectionError;
use crate::family_handle::FamilyHandle;
use crate::family_name::{resolved_family_name, FamilyName};
use crate::handle::{Handle, HandleView};
use crate::matching::{descriptions_view, Description, DescriptionView};
use crate::properties::Properties;

verus! {

/// The descriptions of a family's handles, if the catalog can describe every
/// one of them; `None` as soon as one description is unavailable.
pub open spec fn family_descriptions_model<S: Source>(source: &S, hs: Seq<HandleView>) -> Option<
    Seq<DescriptionView>,
> {
    if forall|j: int| 0 <= j < hs.len() ==> (#[trigger] source.describe_model(hs[j])) is Some {
        Some(Seq::new(hs.len(), |j: int| source.describe_model(hs[j]).unwrap()))
    } else {
        None
    }
}

/// The handle one preference yields: its family must resolve, every font in
/// the family must be describable, and the matching policy must choose one of
/// the candidates.
pub open spec fn preference_match_model<S: Source>(
    source: &S,
    pref: FamilyName,
    desired: Properties,
) -> Option<HandleView> {
    match source.family_model(resolved_family_name(pref)) {
        None => None,
        Some(hs) => match family_descriptions_model(source, hs) {
            None => None,
            Some(ds) => match source.best_model(ds, desired) {
                None => None,
                Some(i) => if 0 <= i < hs.len() {
                    Some(hs[i])
                } else {
                    None
                },
            },
        },
    }
}

/// The catalog describes `h` and reports `name` as its PostScript name.
pub open spec fn postscript_name_matches<S: Source>(
    source: &S,
    h: HandleView,
    name: Seq<char>,
) -> bool {
    match source.describe_model(h) {
        Some(d) => d.postscript_name == name,
        None => false,
    }
}

/// Some family of the catalog contains `h`.
pub open spec fn installed_handle_model<S: Source>(source: &S, h: HandleView) -> bool {
    exists|n: Seq<char>|
        {
            &&& (#[trigger] source.family_model(n)) is Some
            &&& source.family_model(n).unwrap().contains(h)
        }
}

/// A database of installed fonts that can be queried.
///
/// The four required methods are the per-platform capabilities; their
/// contracts tie each successful call to the catalog's model, and an
/// implementation defines the model to match what its platform reports.  A
/// call may fail with `IoFailure` at any time, so the engine's contracts
/// constrain what a returned value is, never that one is owed.
pub trait Source: Sized {
    /// Which family (as its ordered handles) a concrete family name resolves
    /// to, or `None` where the catalog has no such family.  The default model
    /// resolves nothing; an implementation that returns families overrides it.
    open spec fn family_model(&self, name: Seq<char>) -> Option<Seq<HandleView>> {
        None
    }

    /// The metadata `describe` reports for a handle, or `None` where the
    /// catalog cannot describe it.  The default model describes nothing; an
    /// implementation whose `describe` succeeds overrides it.
    open spec fn describe_model(&self, h: HandleView) -> Option<DescriptionView> {
        None
    }

    /// Which candidate the property-matching policy chooses for the desired
    /// properties, or `None` where no candidate is acceptable.  The default
    /// model chooses nothing; an implementation whose policy chooses
    /// overrides it.
    open spec fn best_model(&self, candidates: Seq<DescriptionView>, desired: Properties) -> Option<
        int,
    > {
        None
    }

    /// Returns all families installed on the system, in no particular order.
    fn all_families(&self) -> (r: Result<Vec<String>, SelectionError>);

    /// Looks up a font family by its exact name.  A family that resolves is
    /// never empty: an empty resolution is reported as `NotFound`.
    fn select_family_by_name(&self, family_name: &str) -> (r: Result<FamilyHandle, SelectionError>)
        ensures
            r matches Ok(f) ==> self.family_model(family_name@) == Some(f@) && f@.len() > 0,
    ;

    /// Reports the metadata of one font resource.  Describing never answers
    /// `NotFound`: it must succeed for any handle a resolution returned, and
    /// fails only when the catalog itself cannot be accessed.
    fn describe(&self, handle: &Handle) -> (r: Result<Description, SelectionError>)
        ensures
            r matches Ok(d) ==> self.describe_model(handle@) == Some(d@),
            r matches Err(e) ==> e == SelectionError::IoFailure,
    ;

    /// The property-matching policy: chooses the index of the candidate that
    /// best satisfies `desired`, or `NotFound` where no candidate does.  A
    /// pure decision over the given candidates; it performs no catalog
    /// access.
    fn find_best_match(&self, candidates: &Vec<Description>, desired: &Properties) -> (r: Result<
        usize,
        SelectionError,
    >)
        ensures
            r matches Ok(i) ==> self.best_model(descriptions_view(candidates@), *desired) == Some(
                i as int,
            ) && (i as int) < candidates@.len(),
            r matches Err(e) ==> e == SelectionError::NotFound && self.best_model(
                descriptions_view(candidates@),
                *desired,
            ) is None,
    ;

}

/// Looks up a font family by preference: an explicit title is resolved as
/// given, and a CSS generic class is resolved through its configured default
/// family name.  A generic class resolves to at most one family even though
/// the class conceptually spans several; that single-family resolution is a
/// stated limitation, kept deliberately.
pub fn select_family_by_generic_name<S: Source>(source: &S, family_name: &FamilyName) -> (r: Result<
    FamilyHandle,
    SelectionError,
>)
    ensures
        r matches Ok(f) ==> source.family_model(resolved_family_name(*family_name)) == Some(f@)
            && f@.len() > 0,
{
    match family_name {
        FamilyName::Title(title) => source.select_family_by_name(title.as_str()),
        FamilyName::Serif => source.select_family_by_name("Times New Roman"),
        FamilyName::SansSerif => source.select_family_by_name("Arial"),
        FamilyName::Monospace => source.select_family_by_name("Courier New"),
        FamilyName::Cursive => source.select_family_by_name("Comic Sans MS"),
        FamilyName::Fantasy => source.select_family_by_name("Papyrus"),
    }
}

/// Describes every font of a family, preserving the family's order and
/// length; the first describe failure aborts the whole operation with
/// `IoFailure` rather than returning a partial sequence.
#[verifier::loop_isolation(false)]
pub fn select_descriptions_in_family<S: Source>(source: &S, family: &FamilyHandle) -> (r: Result<
    Vec<Description>,
    SelectionError,
>)
    ensures
        r matches Ok(ds) ==> ds@.len() == family@.len() && (forall|j: int|
            0 <= j < family@.len() ==> source.describe_model(family@[j]) == Some(
                #[trigger] ds@[j]@,
            )) && family_descriptions_model(source, family@) == Some(descriptions_view(ds@)),
        r matches Err(e) ==> e == SelectionError::IoFailure,
{
    let mut fields: Vec<Description> = Vec::new();
    let mut j: usize = 0;
    while j < family.fonts.len()
        invariant
            j <= family.fonts@.len(),
            fields@.len() == j,
            forall|i: int|
                0 <= i < j as int ==> source.describe_model(family@[i]) == Some(
                    #[trigger] fields@[i]@,
                ),
        decreases family.fonts@.len() - j,
    {
        let font_handle: &Handle = &family.fonts[j];
        proof {
            assert(family@[j as int] == font_handle@);
        }
        match source.describe(font_handle) {
            Ok(d) => {
                fields.push(d);
            },
            Err(e) => {
                return Err(e);
            },
        }
        j = j + 1;
    }
    proof {
        assert forall|jj: int|
            0 <= jj < family@.len() implies (#[trigger] source.describe_model(
            family@[jj],
        )) is Some by {
            assert(source.describe_model(family@[jj]) == Some(fields@[jj]@));
        }
        assert(Seq::new(family@.len(), |jj: int| source.describe_model(family@[jj]).unwrap())
            =~= descriptions_view(fields@));
    }
    Ok(fields)
}

/// Performs font matching according to the CSS Fonts Level 3 specification:
/// walks the preference list in the given order and returns the first
/// preference's policy-chosen candidate.  A preference that fails to resolve,
/// or whose family satisfies the policy with no candidate, is skipped; later
/// preferences are never consulted once one yields a candidate.  An empty or
/// fully unresolved preference list yields `NotFound`.
#[verifier::loop_isolation(false)]
pub fn select_best_match<S: Source>(
    source: &S,
    family_names: &[FamilyName],
    properties: &Properties,
) -> (r: Result<Handle, SelectionError>)
    ensures
        r matches Ok(h) ==> exists|k: int|
            0 <= k < family_names@.len() && preference_match_model(
                source,
                #[trigger] family_names@[k],
                *properties,
            ) == Some(h@),
        family_names@.len() == 0 ==> r == Err::<Handle, SelectionError>(SelectionError::NotFound),
        (forall|k: int|
            0 <= k < family_names@.len() ==> source.family_model(
                resolved_family_name(#[trigger] family_names@[k]),
            ) is None) ==> r == Err::<Handle, SelectionError>(SelectionError::NotFound),
{
    let mut k: usize = 0;
    while k < family_names.len()
        invariant
            k <= family_names@.len(),
        decreases family_names@.len() - k,
    {
        match select_family_by_generic_name(source, &family_names[k]) {
            Ok(family_handle) => {
                match select_descriptions_in_family(source, &family_handle) {
                    Ok(candidates) => {
                        match source.find_best_match(&candidates, properties) {
                            Ok(index) => {
                                let chosen = family_handle.fonts[index].clone();
                                proof {
                                    assert(preference_match_model(
                                        source,
                                        family_names@[k as int],
                                        *properties,
                                    ) == Some(chosen@));
                                }
                                return Ok(chosen);
                            },
                            Err(_) => {},
                        }
                    },
                    Err(e) => {
                        return Err(e);
                    },
                }
            },
            Err(_) => {},
        }
        k = k + 1;
    }
    Err(SelectionError::NotFound)
}

/// Selects a font by PostScript name, which should be a unique identifier.
/// Brute force: enumerates every family, describes every resource, and
/// returns the first resource whose PostScript name equals the query.  A
/// family that fails to resolve or describe is skipped; only exhaustion of
/// every family yields `NotFound`.  Cost is linear in the installed
/// inventory; no index is built or cached.
#[verifier::loop_isolation(false)]
pub fn select_by_postscript_name<S: Source>(source: &S, postscript_name: &str) -> (r: Result<
    Handle,
    SelectionError,
>)
    ensures
        r matches Ok(h) ==> postscript_name_matches(source, h@, postscript_name@)
            && installed_handle_model(source, h@),
{
    let query: String = postscript_name.to_owned();
    let families = match source.all_families() {
        Ok(f) => f,
        Err(e) => {
            return Err(e);
        },
    };
    let mut fi: usize = 0;
    while fi < families.len()
        invariant
            fi <= families@.len(),
        decreases families@.len() - fi,
    {
        match source.select_family_by_name(families[fi].as_str()) {
            Ok(family_handle) => {
                match select_descriptions_in_family(source, &family_handle) {
                    Ok(descriptions) => {
                        let mut j: usize = 0;
                        while j < descriptions.len()
                            invariant
                                j <= descriptions@.len(),
                                fi < families@.len(),
                                descriptions@.len() == family_handle@.len(),
                                family_handle@.len() == family_handle.fonts@.len(),
                                forall|i: int|
                                    0 <= i < family_handle@.len() ==> source.describe_model(
                                        family_handle@[i],
                                    ) == Some(#[trigger] descriptions@[i]@),
                                source.family_model(families@[fi as int]@) == Some(family_handle@),
                            decreases descriptions@.len() - j,
                        {
                            let candidate: &Description = &descriptions[j];
                            if candidate.postscript_name.eq(&query) {
                                let found = family_handle.fonts[j].clone();
                                proof {
                                    assert(candidate@ == descriptions@[j as int]@);
                                    assert(candidate@.postscript_name == query@);
                                    assert(query@ == postscript_name@);
                                    assert(found@ == family_handle@[j as int]);
                                    assert(source.describe_model(family_handle@[j as int]) == Some(
                                        descriptions@[j as int]@,
                                    ));
                                    assert(descriptions@[j as int]@.postscript_name
                                        == postscript_name@);
                                    assert(family_handle@.contains(found@));
                                }
                                return Ok(found);
                            }
                            j = j + 1;
                        }
                    },
                    Err(_) => {},
                }
            },
            Err(_) => {},
        }
        fi = fi + 1;
    }
    Err(SelectionError::NotFound)
}

} // verus!
