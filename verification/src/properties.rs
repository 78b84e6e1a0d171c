//! Style properties used to score candidate fonts.
//!
//! Weights and stretch factors are carried in thousandths of a unit, so that
//! every value of interest (CSS weights such as 400, stretch factors such as
//! 1.125) is held exactly: a CSS weight of 400 is `Weight(400_000)` and the
//! normal stretch of 1.0 is `Stretch(1000)`.

use vstd::prelude::*;
use crate::scale::{ascending, lemma_ascending_from_adjacent, table_bounded, table_model};

verus! {

/// Font weight on the CSS scale, in thousandths of a CSS weight unit
/// (100 000 is the CSS weight 100, 900 000 the CSS weight 900).
#[derive(Clone, Copy, Debug, PartialEq, Eq, Structural)]
pub struct Weight(pub i64);

/// Font stretchiness, in thousandths: 500 is ultra-condensed (0.5), 1000 is
/// normal (1.0), 2000 is ultra-expanded (2.0).
#[derive(Clone, Copy, Debug, PartialEq, Eq, Structural)]
pub struct Stretch(pub i64);

/// Whether the face is upright, italic, or oblique.
#[derive(Clone, Copy, Debug, PartialEq, Eq, Structural)]
pub enum Style {
    Normal,
    Italic,
    Oblique,
}

/// The {weight, stretch, style} triple a caller asks for and a candidate
/// font offers.  Compared only by the matching policy, never ordered.
#[derive(Clone, Copy, Debug, PartialEq, Eq, Structural)]
pub struct Properties {
    pub weight: Weight,
    pub stretch: Stretch,
    pub style: Style,
}

impl Weight {
    /// The CSS "normal" weight, 400.
    pub fn normal() -> (r: Weight)
        ensures
            r == (Weight(400_000i64)),
    {
        Weight(400_000)
    }
}

impl Stretch {
    /// The normal stretch factor, 1.0.
    pub fn normal() -> (r: Stretch)
        ensures
            r == (Stretch(1000i64)),
    {
        Stretch(1000)
    }

    /// The breakpoints of the CSS stretch scale, in thousandths: the nine
    /// stretch classes from ultra-condensed (0.5) to ultra-expanded (2.0).
    pub open spec fn mapping_seq() -> Seq<i64> {
        seq![500i64, 625i64, 750i64, 875i64, 1000i64, 1125i64, 1250i64, 1500i64, 2000i64]
    }

    /// Builds the stretch breakpoint table.
    pub fn mapping() -> (r: Vec<i64>)
        ensures
            r@ == Stretch::mapping_seq(),
            ascending(table_model(r@)),
            table_bounded(table_model(r@)),
    {
        let mut v: Vec<i64> = Vec::new();
        v.push(500);
        v.push(625);
        v.push(750);
        v.push(875);
        v.push(1000);
        v.push(1125);
        v.push(1250);
        v.push(1500);
        v.push(2000);
        proof {
            assert(v@ =~= Stretch::mapping_seq());
            let tm = table_model(v@);
            assert forall|k: int| 0 <= k < tm.len() - 1 implies #[trigger] tm[k] < tm[k + 1] by {
                if k == 0 {
                    assert(tm[0] == 500 && tm[1] == 625);
                } else if k == 1 {
                    assert(tm[1] == 625 && tm[2] == 750);
                } else if k == 2 {
                    assert(tm[2] == 750 && tm[3] == 875);
                } else if k == 3 {
                    assert(tm[3] == 875 && tm[4] == 1000);
                } else if k == 4 {
                    assert(tm[4] == 1000 && tm[5] == 1125);
                } else if k == 5 {
                    assert(tm[5] == 1125 && tm[6] == 1250);
                } else if k == 6 {
                    assert(tm[6] == 1250 && tm[7] == 1500);
                } else {
                    assert(tm[7] == 1500 && tm[8] == 2000);
                }
            }
            lemma_ascending_from_adjacent(tm);
            assert forall|i: int| 0 <= i < tm.len() implies -(crate::scale::MAX_SCALE_VALUE as int)
                <= #[trigger] tm[i] <= crate::scale::MAX_SCALE_VALUE as int by {
                if i == 0 {
                    assert(tm[0] == 500);
                } else if i == 1 {
                    assert(tm[1] == 625);
                } else if i == 2 {
                    assert(tm[2] == 750);
                } else if i == 3 {
                    assert(tm[3] == 875);
                } else if i == 4 {
                    assert(tm[4] == 1000);
                } else if i == 5 {
                    assert(tm[5] == 1125);
                } else if i == 6 {
                    assert(tm[6] == 1250);
                } else if i == 7 {
                    assert(tm[7] == 1500);
                } else {
                    assert(tm[8] == 2000);
                }
            }
        }
        v
    }
}

impl Properties {
    /// The default request: normal weight, normal stretch, upright style.
    pub fn new() -> (r: Properties)
        ensures
            r == (Properties {
                weight: Weight(400_000i64),
                stretch: Stretch(1000i64),
                style: Style::Normal,
            }),
    {
        Properties { weight: Weight(400_000), stretch: Stretch(1000), style: Style::Normal }
    }
}

} // verus!
