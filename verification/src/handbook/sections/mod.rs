//! The sections of the handbook.

use vstd::prelude::*;

use crate::handbook::content::HandbookSection;

pub mod controls;
pub mod layout;
pub mod midi_shortcuts;
pub mod welcome;

verus! {

/// How many sections the handbook has.
pub const SECTION_COUNT: usize = 6;

/// `v` holds the sections in the order of their tabs: two of them, on the first signal and on the
/// signals to be heard, come from outside.
pub open spec fn is_handbook(
    v: Seq<HandbookSection>,
    first_signal: HandbookSection,
    signals: HandbookSection,
) -> bool {
    &&& v.len() == SECTION_COUNT
    &&& v[0]@ == welcome::section_text()
    &&& v[1]@ == layout::section_text()
    &&& v[2] == first_signal
    &&& v[3] == signals
    &&& v[4]@ == controls::section_text()
    &&& v[5]@ == midi_shortcuts::section_text()
}

/// All sections of the handbook.
pub fn all_sections(first_signal: HandbookSection, signals: HandbookSection) -> (v: Vec<
    HandbookSection,
>)
    ensures
        is_handbook(v@, first_signal, signals),
        v@[0].pages.len() == 3,
        v@[1].pages.len() == 5,
        v@[4].pages.len() == 6,
        v@[5].pages.len() == 4,
{
    let v: Vec<HandbookSection> = vec![
        welcome::section(),
        layout::section(),
        first_signal,
        signals,
        controls::section(),
        midi_shortcuts::section(),
    ];
    assert(v@[0]@.pages.len() == 3);
    assert(v@[1]@.pages.len() == 5);
    assert(v@[4]@.pages.len() == 6);
    assert(v@[5]@.pages.len() == 4);
    v
}

} // verus!
