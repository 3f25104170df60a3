//! Rotary knobs.

use vstd::prelude::*;
use vstd::string::*;

use crate::level;
use crate::level::Level;
use crate::reading;
use crate::text;

verus! {

/// Pixels of vertical drag that sweep the whole range.
pub const DRAG_FULL_PX: u32 = 200;

/// Number of line segments of an arc.
pub const ARC_SEGMENTS: usize = 48;

/// A knob and its range.
#[derive(Clone, Copy)]
pub struct Knob {
    pub value: Level,
    pub min: Level,
    pub max: Level,
    /// Value after a double click.
    pub default_value: Level,
}

/// What turning a knob does.
pub open spec fn after_turn(a: &Knob, wanted: Level, n: &Knob) -> bool {
    &&& *n == (Knob {
        value: wanted.within(a.min, a.max),
        ..*a
    })
    &&& n.wf()
    &&& !wanted.is_nan() ==> n.value.reaches(a.min) && a.max.reaches(n.value)
}

/// What a double click on a knob does.
pub open spec fn after_reset(a: &Knob, n: &Knob) -> bool {
    &&& *n == (Knob {
        value: a.default_value.within(a.min, a.max),
        ..*a
    })
    &&& n.wf()
}

impl Knob {
    /// The range is not empty.
    pub open spec fn wf(self) -> bool {
        self.max.reaches(self.min)
    }

    /// Turns the knob to a value, as far as the range goes. Drags and scrolls end here.
    pub fn turn_to(&mut self, wanted: Level)
        requires
            old(self).wf(),
        ensures
            after_turn(old(self), wanted, final(self)),
    {
        self.value = wanted.clamp(self.min, self.max);
    }

    /// A double click.
    pub fn reset(&mut self)
        requires
            old(self).wf(),
        ensures
            after_reset(old(self), final(self)),
    {
        self.value = self.default_value.clamp(self.min, self.max);
    }
}

/// Height that a knob needs below its arc, in points.
pub open spec fn extra_height_spec(label: bool, bound: bool) -> int {
    (if label {
        14int
    } else {
        0
    }) + (if bound {
        12int
    } else {
        0
    }) + 4
}

/// Height that a knob needs below its arc, in points: a row for a label, a row for a bound
/// controller, and a margin.
pub fn extra_height(label: bool, bound: bool) -> (r: u32)
    ensures
        r == extra_height_spec(label, bound),
{
    let label_h: u32 = if label {
        14
    } else {
        0
    };
    let cc_h: u32 = if bound {
        12
    } else {
        0
    };
    label_h + cc_h + 4
}

/// The caption of a bound controller.
pub fn cc_label(cc: u8) -> (r: String)
    ensures
        r@ == "CC "@ + text::dec(cc as nat),
{
    let mut s: String = text::owned("CC ");
    text::push_dec(&mut s, cc as u64);
    s
}

/// What hovering over a knob tells.
pub open spec fn tooltip_text(value: Level, unit: Seq<char>) -> Seq<char> {
    if unit.len() == 0 {
        reading::level_text(value, 1)
    } else {
        reading::level_text(value, 1) + " "@ + unit
    }
}

/// What hovering over a knob tells: its value with one decimal, and the unit where there is one.
pub fn tooltip(value: Level, unit: &str) -> (r: String)
    ensures
        r@ == tooltip_text(value, unit@),
{
    let mut s: String = String::new();
    reading::push_level(&mut s, value, 1);
    assert(s@ =~= reading::level_text(value, 1));
    if unit.unicode_len() > 0 {
        s.append(" ");
        s.append(unit);
    }
    s
}

/// A knob turns to the value asked for, or to the end of its range beyond which that lies; a double
/// click turns it to its default. Its range and its default stay.
pub proof fn law_knob_turns(k: Knob, wanted: Level, b: Knob, c: Knob)
    requires
        k.wf(),
        !wanted.is_nan(),
        after_turn(&k, wanted, &b),
        after_reset(&k, &c),
    ensures
        ({
            let at = level::number_of(wanted.bits);
            let low = level::number_of(k.min.bits);
            let high = level::number_of(k.max.bits);
            level::number_of(b.value.bits) == (if at < low {
                low
            } else if at > high {
                high
            } else {
                at
            })
        }),
        b.min == k.min && b.max == k.max && b.default_value == k.default_value,
        k.default_value.reaches(k.min) && k.max.reaches(k.default_value) ==> c == (Knob {
            value: k.default_value,
            ..k
        }),
{
    level::law_order_is_numeric(wanted, k.min);
    level::law_order_is_numeric(k.max, wanted);
    level::law_order_is_numeric(k.max, k.min);
}

/// A knob needs a margin of 4 points, 14 more for a label and 12 more for a bound controller.
pub proof fn law_knob_height(label: bool, bound: bool)
    ensures
        extra_height_spec(false, false) == 4,
        extra_height_spec(true, bound) == extra_height_spec(false, bound) + 14,
        extra_height_spec(label, true) == extra_height_spec(label, false) + 12,
{
}

/// Hovering over a knob tells its value and, behind a blank, its unit where it has one.
pub proof fn law_knob_tooltip(value: Level, unit: Seq<char>)
    ensures
        text::starts_with(tooltip_text(value, unit), reading::level_text(value, 1)),
        unit.len() == 0 ==> tooltip_text(value, unit) == reading::level_text(value, 1),
        unit.len() > 0 ==> text::ends_with(tooltip_text(value, unit), seq![' '] + unit),
{
    reveal_strlit(" ");
    let s = tooltip_text(value, unit);
    let v = reading::level_text(value, 1);
    assert(s.take(v.len() as int) =~= v);
    if unit.len() > 0 {
        assert(s.skip(s.len() - 1 - unit.len()) =~= seq![' '] + unit);
    }
}

} // verus!
