//! The MIDI part of a knob: its context menu and the bind-by-click mode.

use vstd::prelude::*;
use vstd::std_specs::hash::*;
use vstd::string::*;

use crate::app::SdrApp;
use crate::bindings;
use crate::receiver::SharedState;
use crate::text;

verus! {

broadcast use group_hash_axioms;

/// A choice from the context menu of a knob.
#[derive(Clone, Copy, PartialEq, Eq, Structural, Debug)]
pub enum KnobMenu {
    /// "Assign MIDI CC": the next controller moved is bound.
    Learn,
    /// "Cancel MIDI Learn".
    Cancel,
    /// "Clear CC binding" of a controller.
    Clear(u8),
    /// The knob was clicked while a controller waits for one.
    Bind,
}

/// Whether a knob waits for a controller.
pub open spec fn is_learning(shared: SharedState, knob: Seq<char>) -> bool {
    shared.midi_learn_target is Some && shared.midi_learn_target->0@ == knob
}

/// What a knob shows of its MIDI state.
pub struct KnobMidi {
    /// The knob waits for a controller.
    pub learning: bool,
    /// The controller that moves the knob.
    pub cc: Option<u8>,
}

pub fn knob_midi(shared: &SharedState, knob: &str) -> (r: KnobMidi)
    ensures
        r.learning == is_learning(*shared, knob@),
        bindings::is_cc_of(r.cc, shared.midi_cc_to_knob@, knob@),
{
    let learning: bool = match &shared.midi_learn_target {
        Some(t) => text::same_text(t.as_str(), knob),
        None => false,
    };
    KnobMidi { learning, cc: bindings::find_cc(&shared.midi_cc_to_knob, knob) }
}

/// What a choice from the context menu of a knob does.
pub open spec fn after_menu(
    a: &SdrApp,
    shared: &SharedState,
    knob: Seq<char>,
    choice: KnobMenu,
    n: &SdrApp,
    shared_after: &SharedState,
) -> bool {
    &&& *shared_after == (SharedState {
        midi_learn_target: shared_after.midi_learn_target,
        midi_map_pending: shared_after.midi_map_pending,
        midi_cc_to_knob: shared_after.midi_cc_to_knob,
        ..*shared
    })
    &&& *n == (SdrApp { config_dirty: n.config_dirty, ..*a })
    &&& match choice {
        KnobMenu::Learn => {
            &&& is_learning(*shared_after, knob)
            &&& shared_after.midi_map_pending == shared.midi_map_pending
            &&& shared_after.midi_cc_to_knob == shared.midi_cc_to_knob
            &&& n.config_dirty == a.config_dirty
        },
        KnobMenu::Cancel => {
            &&& shared_after.midi_learn_target is None
            &&& shared_after.midi_map_pending == shared.midi_map_pending
            &&& shared_after.midi_cc_to_knob == shared.midi_cc_to_knob
            &&& n.config_dirty == a.config_dirty
        },
        KnobMenu::Clear(cc) => {
            &&& shared_after.midi_learn_target == shared.midi_learn_target
            &&& shared_after.midi_map_pending == shared.midi_map_pending
            &&& shared_after.midi_cc_to_knob@ == shared.midi_cc_to_knob@.remove(cc)
            &&& n.config_dirty
        },
        KnobMenu::Bind => {
            &&& shared_after.midi_learn_target == shared.midi_learn_target
            &&& shared_after.midi_map_pending is None
            &&& match shared.midi_map_pending {
                Some(cc) => {
                    &&& n.config_dirty
                    &&& bindings::moves(shared_after.midi_cc_to_knob@, cc, knob)
                    &&& shared_after.midi_cc_to_knob@ == shared.midi_cc_to_knob@.insert(cc, shared_after.midi_cc_to_knob@[cc])
                },
                None => {
                    &&& n.config_dirty == a.config_dirty
                    &&& shared_after.midi_cc_to_knob == shared.midi_cc_to_knob
                },
            }
        },
    }
}

impl SdrApp {
    /// Acts on a choice from the context menu of `knob`.
    pub fn knob_menu(&mut self, shared: &mut SharedState, knob: &str, choice: KnobMenu)
        ensures
            after_menu(old(self), old(shared), knob@, choice, final(self), final(shared)),
    {
        match choice {
            KnobMenu::Learn => {
                shared.midi_learn_target = Some(text::owned(knob));
            },
            KnobMenu::Cancel => {
                shared.midi_learn_target = None;
            },
            KnobMenu::Clear(cc) => {
                shared.midi_cc_to_knob.remove(&cc);
                self.config_dirty = true;
            },
            KnobMenu::Bind => {
                if let Some(cc) = shared.midi_map_pending.take() {
                    shared.midi_cc_to_knob.insert(cc, text::owned(knob));
                    self.config_dirty = true;
                }
            },
        }
    }
}

/// A controller that was bound to a knob no longer moves it once its binding is cleared.
pub proof fn law_cleared_binding_is_gone(map: Map<u8, String>, cc: u8, knob: Seq<char>)
    ensures
        !bindings::moves(map.remove(cc), cc, knob),
        forall|c: u8|
            c != cc ==> (bindings::moves(map.remove(cc), c, knob) == bindings::moves(map, c, knob)),
{
}

/// The context menu: learning makes the knob wait for a controller and cancelling ends the wait;
/// clearing unbinds just the controller; clicking the knob while a controller waits binds that
/// controller to it, keeps all other bindings and ends the wait.
pub proof fn law_menu_binds(
    a: SdrApp,
    before: SharedState,
    knob: Seq<char>,
    choice: KnobMenu,
    n: SdrApp,
    after: SharedState,
    other: u8,
    name: Seq<char>,
)
    requires
        after_menu(&a, &before, knob, choice, &n, &after),
    ensures
        choice == KnobMenu::Learn ==> is_learning(after, knob),
        choice == KnobMenu::Cancel ==> !is_learning(after, knob) && !is_learning(after, name),
        choice == KnobMenu::Learn || choice == KnobMenu::Cancel ==> after.midi_cc_to_knob
            == before.midi_cc_to_knob && n == a,
        choice matches KnobMenu::Clear(cc) ==> {
            &&& !after.midi_cc_to_knob@.dom().contains(cc)
            &&& other != cc ==> bindings::moves(after.midi_cc_to_knob@, other, name)
                == bindings::moves(before.midi_cc_to_knob@, other, name)
            &&& n.config_dirty
        },
        choice == KnobMenu::Bind ==> after.midi_map_pending is None,
        choice == KnobMenu::Bind && before.midi_map_pending is Some ==> {
            let cc = before.midi_map_pending->0;
            &&& bindings::moves(after.midi_cc_to_knob@, cc, knob)
            &&& other != cc ==> bindings::moves(after.midi_cc_to_knob@, other, name)
                == bindings::moves(before.midi_cc_to_knob@, other, name)
            &&& n.config_dirty
        },
        choice == KnobMenu::Bind && before.midi_map_pending is None ==> after.midi_cc_to_knob
            == before.midi_cc_to_knob && n == a,
        n.config == a.config && n.outbox == a.outbox,
{
}

/// The knob that waits for a controller is the one named, and no other.
pub proof fn law_one_knob_learns(s: SharedState, knob: Seq<char>, other: Seq<char>)
    ensures
        s.midi_learn_target is None ==> !is_learning(s, knob),
        s.midi_learn_target is Some && s.midi_learn_target->0@ == knob ==> is_learning(s, knob) && (
        other != knob ==> !is_learning(s, other)),
{
}

} // verus!
