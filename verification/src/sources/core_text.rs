//! The macOS font catalog adapter.
//!
//! The calls into the operating system's font registry are platform glue and
//! live with the embedding application; this module holds the adapter's
//! platform-independent part, the exact numeric conversions between the CSS
//! property scales and Core Text's native weight and width scales.

use vstd::prelude::*;
use crate::properties::{Stretch, Weight};
use crate::rational::{rat_int, rat_le, Frac, Ratio};
use crate::scale::{
    ascending, forward_spec, inverse_spec, lemma_ascending_from_adjacent,
    piecewise_linear_find_index, piecewise_linear_lookup, table_bounded, table_model,
    MAX_SCALE_VALUE,
};

verus! {

/// A source that contains the installed fonts on macOS.  The registry calls
/// that enumerate and resolve families are made by the embedding
/// application; this type anchors the adapter and its scale conversions.
pub struct CoreTextSource;

impl CoreTextSource {
    /// Creates the adapter.
    #[inline]
    pub fn new() -> (r: CoreTextSource) {
        CoreTextSource
    }
}

/// Core Text's native weight breakpoints, in thousandths: the nine native
/// weights that the CSS weights 100 to 900 map onto.
pub open spec fn font_weight_mapping_seq() -> Seq<i64> {
    seq![-700i64, -500i64, -230i64, 0i64, 200i64, 300i64, 400i64, 600i64, 800i64]
}

/// Builds the Core Text weight breakpoint table.
pub fn font_weight_mapping() -> (r: Vec<i64>)
    ensures
        r@ == font_weight_mapping_seq(),
        ascending(table_model(r@)),
        table_bounded(table_model(r@)),
{
    let mut v: Vec<i64> = Vec::new();
    v.push(-700);
    v.push(-500);
    v.push(-230);
    v.push(0);
    v.push(200);
    v.push(300);
    v.push(400);
    v.push(600);
    v.push(800);
    proof {
        assert(v@ =~= font_weight_mapping_seq());
        let tm = table_model(v@);
        assert forall|k: int| 0 <= k < tm.len() - 1 implies #[trigger] tm[k] < tm[k + 1] by {
            if k == 0 {
                assert(tm[0] == -700 && tm[1] == -500);
            } else if k == 1 {
                assert(tm[1] == -500 && tm[2] == -230);
            } else if k == 2 {
                assert(tm[2] == -230 && tm[3] == 0);
            } else if k == 3 {
                assert(tm[3] == 0 && tm[4] == 200);
            } else if k == 4 {
                assert(tm[4] == 200 && tm[5] == 300);
            } else if k == 5 {
                assert(tm[5] == 300 && tm[6] == 400);
            } else if k == 6 {
                assert(tm[6] == 400 && tm[7] == 600);
            } else {
                assert(tm[7] == 600 && tm[8] == 800);
            }
        }
        lemma_ascending_from_adjacent(tm);
        assert forall|i: int| 0 <= i < tm.len() implies -(MAX_SCALE_VALUE as int) <= #[trigger] tm[i]
            <= MAX_SCALE_VALUE as int by {
            if i == 0 {
                assert(tm[0] == -700);
            } else if i == 1 {
                assert(tm[1] == -500);
            } else if i == 2 {
                assert(tm[2] == -230);
            } else if i == 3 {
                assert(tm[3] == 0);
            } else if i == 4 {
                assert(tm[4] == 200);
            } else if i == 5 {
                assert(tm[5] == 300);
            } else if i == 6 {
                assert(tm[6] == 400);
            } else if i == 7 {
                assert(tm[7] == 600);
            } else {
                assert(tm[8] == 800);
            }
        }
    }
    v
}

/// The fractional weight-table index a CSS weight addresses:
/// `max(100, weight) / 100 - 1` on the CSS unit scale, as an exact rational
/// over the thousandths representation.
pub open spec fn css_weight_index(w: int) -> Ratio {
    Ratio {
        num: if w < 100_000 {
            0
        } else {
            w - 100_000
        },
        den: 100_000,
    }
}

/// Converts a CSS weight to Core Text's native weight scale: the weight's
/// fractional index in the weight table is interpolated, and the thousandths
/// entry rescaled to a native unit.  Weights above 900 address no table
/// entry, so they are excluded.
pub fn css_to_core_text_font_weight(css_weight: Weight) -> (r: Frac)
    requires
        css_weight.0 <= 900_000,
    ensures
        ({
            let fwd = forward_spec(
                css_weight_index(css_weight.0 as int),
                table_model(font_weight_mapping_seq()),
            );
            r@.num == fwd.num && r@.den == 1000 * fwd.den
        }),
{
    let mapping = font_weight_mapping();
    let w: i64 = css_weight.0;
    let clamped: i64 = if w < 100_000 {
        100_000
    } else {
        w
    };
    let index = Frac::new(clamped as i128 - 100_000, 100_000);
    let fwd = piecewise_linear_lookup(&index, &mapping);
    Frac::new(fwd.num(), fwd.den() * 1000)
}

/// A CSS stretchiness value clamped to the stretch table's span, 0.5 to 2.0.
pub open spec fn css_stretch_clamped(s: int) -> int {
    if s < 500 {
        500
    } else if s > 2000 {
        2000
    } else {
        s
    }
}

/// Converts a CSS stretchiness factor to Core Text's native width scale: the
/// factor is clamped to [0.5, 2.0], its fractional index in the stretch
/// table is located, and the index rescaled by a quarter and recentred on
/// the normal stretch — `0.25 * index - 1`.
pub fn css_stretchiness_to_core_text_width(css_stretchiness: Stretch) -> (r: Frac)
    ensures
        ({
            let inv = inverse_spec(
                Ratio { num: css_stretch_clamped(css_stretchiness.0 as int), den: 1 },
                table_model(Stretch::mapping_seq()),
            );
            r@.num == inv.num - 4 * inv.den && r@.den == 4 * inv.den
        }),
{
    let mapping = Stretch::mapping();
    let s: i64 = css_stretchiness.0;
    let clamped: i64 = if s < 500 {
        500
    } else if s > 2000 {
        2000
    } else {
        s
    };
    let query = Frac::new(clamped as i128, 1);
    proof {
        let bound = rat_int(table_model(mapping@)[mapping@.len() - 1]);
        assert(bound.num == 2000 && bound.den == 1);
        assert(query@.num * bound.den <= bound.num * query@.den) by (nonlinear_arith)
            requires
                query@.num <= 2000,
                query@.den == 1,
                bound.num == 2000,
                bound.den == 1,
        ;
        assert(rat_le(query@, rat_int(table_model(mapping@)[mapping@.len() - 1])));
    }
    let idx = piecewise_linear_find_index(&query, &mapping);
    Frac::new(idx.num() - 4 * idx.den(), 4 * idx.den())
}

} // verus!
