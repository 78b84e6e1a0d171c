//! Tests of the matching engine, against a small in-memory catalog.

use font_kit::error::SelectionError;
use font_kit::family_handle::FamilyHandle;
use font_kit::family_name::FamilyName;
use font_kit::handle::Handle;
use font_kit::matching::Description;
use font_kit::properties::{Properties, Stretch, Style, Weight};
use font_kit::source::{
    select_best_match, select_by_postscript_name, select_descriptions_in_family,
    select_family_by_generic_name, Source,
};

/// One toy font: its handle and, unless describing it is meant to fail, its
/// metadata.
struct ToyFont {
    handle: Handle,
    description: Option<Description>,
}

/// An in-memory catalog.  The matching policy picks the first candidate whose
/// properties equal the desired ones exactly.
struct ToySource {
    families: Vec<(String, Vec<ToyFont>)>,
}

fn font(family: &str, postscript_name: &str, weight: i64) -> ToyFont {
    ToyFont {
        handle: Handle::Path {
            path: format!("/fonts/{}.ttf", postscript_name),
            font_index: 0,
        },
        description: Some(Description {
            family_name: family.to_string(),
            postscript_name: postscript_name.to_string(),
            properties: Properties {
                weight: Weight(weight),
                stretch: Stretch(1000),
                style: Style::Normal,
            },
        }),
    }
}

fn broken_font(postscript_name: &str) -> ToyFont {
    ToyFont {
        handle: Handle::Path {
            path: format!("/fonts/{}.ttf", postscript_name),
            font_index: 0,
        },
        description: None,
    }
}

impl Source for ToySource {
    fn all_families(&self) -> Result<Vec<String>, SelectionError> {
        Ok(self.families.iter().map(|f| f.0.clone()).collect())
    }

    fn select_family_by_name(&self, family_name: &str) -> Result<FamilyHandle, SelectionError> {
        for (name, fonts) in &self.families {
            if name == family_name {
                if fonts.is_empty() {
                    return Err(SelectionError::NotFound);
                }
                let handles: Vec<Handle> = fonts.iter().map(|f| f.handle.clone()).collect();
                return Ok(FamilyHandle::from_font_handles(handles));
            }
        }
        Err(SelectionError::NotFound)
    }

    fn describe(&self, handle: &Handle) -> Result<Description, SelectionError> {
        for (_, fonts) in &self.families {
            for f in fonts {
                if f.handle == *handle {
                    return f.description.clone().ok_or(SelectionError::IoFailure);
                }
            }
        }
        Err(SelectionError::IoFailure)
    }

    fn find_best_match(
        &self,
        candidates: &Vec<Description>,
        desired: &Properties,
    ) -> Result<usize, SelectionError> {
        for (i, candidate) in candidates.iter().enumerate() {
            if candidate.properties == *desired {
                return Ok(i);
            }
        }
        Err(SelectionError::NotFound)
    }
}

fn desired(weight: i64) -> Properties {
    Properties { weight: Weight(weight), stretch: Stretch(1000), style: Style::Normal }
}

fn toy_catalog() -> ToySource {
    ToySource {
        families: vec![
            (
                "Alpha".to_string(),
                vec![font("Alpha", "Alpha-Regular", 400_000), font("Alpha", "Alpha-Bold", 700_000)],
            ),
            (
                "Beta".to_string(),
                vec![font("Beta", "Beta-Light", 300_000), font("Beta", "Beta-Black", 900_000)],
            ),
            ("Gamma".to_string(), vec![]),
        ],
    }
}

#[test]
fn test_select_best_match_picks_first_family_with_candidate() {
    let source = toy_catalog();
    let preferences = [FamilyName::Title("Alpha".to_string()), FamilyName::Title("Beta".to_string())];
    let handle = select_best_match(&source, &preferences, &desired(700_000)).unwrap();
    assert_eq!(handle, Handle::Path { path: "/fonts/Alpha-Bold.ttf".to_string(), font_index: 0 });
}

#[test]
fn test_select_best_match_falls_back_to_second_family() {
    let source = toy_catalog();
    // Alpha resolves but has no weight-900 candidate; Beta does.
    let preferences = [FamilyName::Title("Alpha".to_string()), FamilyName::Title("Beta".to_string())];
    let handle = select_best_match(&source, &preferences, &desired(900_000)).unwrap();
    assert_eq!(handle, Handle::Path { path: "/fonts/Beta-Black.ttf".to_string(), font_index: 0 });
}

#[test]
fn test_select_best_match_empty_preferences_is_not_found() {
    let source = toy_catalog();
    let preferences: [FamilyName; 0] = [];
    assert_eq!(
        select_best_match(&source, &preferences, &desired(400_000)),
        Err(SelectionError::NotFound)
    );
}

#[test]
fn test_select_best_match_unresolved_preferences_is_not_found() {
    let source = toy_catalog();
    let preferences = [
        FamilyName::Title("NoSuchFamily".to_string()),
        FamilyName::Title("AlsoMissing".to_string()),
    ];
    assert_eq!(
        select_best_match(&source, &preferences, &desired(400_000)),
        Err(SelectionError::NotFound)
    );
}

#[test]
fn test_select_best_match_no_matching_candidate_anywhere_is_not_found() {
    let source = toy_catalog();
    let preferences = [FamilyName::Title("Alpha".to_string()), FamilyName::Title("Beta".to_string())];
    assert_eq!(
        select_best_match(&source, &preferences, &desired(123_000)),
        Err(SelectionError::NotFound)
    );
}

#[test]
fn test_generic_family_resolves_configured_default_name() {
    let source = ToySource {
        families: vec![(
            "Times New Roman".to_string(),
            vec![font("Times New Roman", "Times-Roman", 400_000)],
        )],
    };
    let family = select_family_by_generic_name(&source, &FamilyName::Serif).unwrap();
    assert_eq!(family.fonts().len(), 1);
    assert_eq!(
        family.fonts()[0],
        Handle::Path { path: "/fonts/Times-Roman.ttf".to_string(), font_index: 0 }
    );
    assert!(matches!(
        select_family_by_generic_name(&source, &FamilyName::Monospace),
        Err(SelectionError::NotFound)
    ));
}

#[test]
fn test_select_by_postscript_name_finds_first_match() {
    let source = toy_catalog();
    // The empty family Gamma fails to resolve and is skipped silently.
    let handle = select_by_postscript_name(&source, "Beta-Light").unwrap();
    assert_eq!(handle, Handle::Path { path: "/fonts/Beta-Light.ttf".to_string(), font_index: 0 });
}

#[test]
fn test_select_by_postscript_name_not_found() {
    let source = toy_catalog();
    assert_eq!(
        select_by_postscript_name(&source, "NoSuchFont"),
        Err(SelectionError::NotFound)
    );
}

#[test]
fn test_select_descriptions_preserves_order_and_length() {
    let source = toy_catalog();
    let family = source.select_family_by_name("Beta").unwrap();
    let descriptions = select_descriptions_in_family(&source, &family).unwrap();
    assert_eq!(descriptions.len(), 2);
    assert_eq!(descriptions[0].postscript_name, "Beta-Light");
    assert_eq!(descriptions[1].postscript_name, "Beta-Black");
    assert_eq!(descriptions[0].family_name, "Beta");
    assert_eq!(descriptions[0].properties.weight, Weight(300_000));
}

#[test]
fn test_select_descriptions_fails_fast_on_describe_error() {
    let source = ToySource {
        families: vec![(
            "Delta".to_string(),
            vec![
                font("Delta", "Delta-Regular", 400_000),
                broken_font("Delta-Corrupt"),
                font("Delta", "Delta-Bold", 700_000),
            ],
        )],
    };
    let family = source.select_family_by_name("Delta").unwrap();
    assert!(matches!(
        select_descriptions_in_family(&source, &family),
        Err(SelectionError::IoFailure)
    ));
}

#[test]
fn test_handle_equality_is_by_variant_and_fields() {
    let a = Handle::Path { path: "/a.ttf".to_string(), font_index: 0 };
    let b = Handle::Path { path: "/a.ttf".to_string(), font_index: 0 };
    let c = Handle::Path { path: "/a.ttf".to_string(), font_index: 1 };
    let d = Handle::Memory { bytes: vec![1, 2, 3], font_index: 0 };
    let e = Handle::Memory { bytes: vec![1, 2, 3], font_index: 0 };
    let f = Handle::Memory { bytes: vec![1, 2, 4], font_index: 0 };
    assert_eq!(a, b);
    assert_ne!(a, c);
    assert_ne!(a, d);
    assert_eq!(d, e);
    assert_ne!(d, f);
}
