//! The MIDI mapper window: the diagram of the controller, the bindings shown in it, and their
//! export and import.

use std::collections::HashMap;

use vstd::prelude::*;
use vstd::std_specs::hash::*;
use vstd::string::*;

use crate::bindings;
use crate::bindings::Binding;
use crate::receiver::SharedState;
use crate::text;
use crate::theme;
use crate::theme::Color;

verus! {

broadcast use group_hash_axioms;

// ── Controls ────────────────────────────────────────────────────────────────

/// What a control sends.
#[derive(Clone, Copy, PartialEq, Eq, Structural, Debug)]
pub enum MidiKeyKind {
    ControlChange,
    NoteOn,
}

/// The message of a control.
#[derive(Clone, Copy, PartialEq, Eq, Structural, Debug)]
pub struct MidiKey {
    pub kind: MidiKeyKind,
    pub number: u8,
}

/// A control of the diagram.
pub struct ControlDef {
    pub id: String,
    pub label: String,
    pub midi_key: MidiKey,
}

/// An action of the controller profile: what `key` does on a page.
pub struct ActionBinding {
    pub page: usize,
    pub key: String,
    pub action: String,
}

/// The name of a key in the controller profile.
pub open spec fn key_text(key: MidiKey) -> Seq<char> {
    match key.kind {
        MidiKeyKind::ControlChange => "CC "@ + text::dec(key.number as nat),
        MidiKeyKind::NoteOn => "Note "@ + text::dec(key.number as nat),
    }
}

pub fn key_name(key: MidiKey) -> (r: String)
    ensures
        r@ == key_text(key),
{
    let mut s: String = match key.kind {
        MidiKeyKind::ControlChange => text::owned("CC "),
        MidiKeyKind::NoteOn => text::owned("Note "),
    };
    text::push_dec(&mut s, key.number as u64);
    s
}

/// The entry `b` gives `key` an action on `page`.
pub open spec fn acts(b: ActionBinding, key: MidiKey, page: int) -> bool {
    b.page == page && b.key@ == key_text(key)
}

/// The action of a key on a page: that of the first entry for it.
pub open spec fn is_action_of(
    r: Option<String>,
    key: MidiKey,
    page: int,
    table: Seq<ActionBinding>,
) -> bool {
    match r {
        Some(a) => exists|i: int|
            {
                &&& 0 <= i < table.len()
                &&& acts(#[trigger] table[i], key, page)
                &&& table[i].action@ == a@
                &&& forall|j: int| 0 <= j < i ==> !acts(#[trigger] table[j], key, page)
            },
        None => forall|i: int| 0 <= i < table.len() ==> !acts(#[trigger] table[i], key, page),
    }
}

pub fn find_action(key: MidiKey, page: usize, table: &Vec<ActionBinding>) -> (r: Option<String>)
    ensures
        is_action_of(r, key, page as int, table@),
{
    let name: String = key_name(key);
    let mut i: usize = 0;
    while i < table.len()
        invariant
            i <= table.len(),
            name@ == key_text(key),
            forall|j: int| 0 <= j < i ==> !acts(#[trigger] table@[j], key, page as int),
        decreases table.len() - i,
    {
        if table[i].page == page && text::same_text(table[i].key.as_str(), name.as_str()) {
            let action: String = table[i].action.clone();
            assert(acts(table@[i as int], key, page as int));
            return Some(action);
        }
        i += 1;
    }
    None
}

/// The hover text of a control: a line each for its name, its message, its action on the page and
/// the knob bound to it.
pub open spec fn tooltip_text(
    ctrl: ControlDef,
    action: Option<String>,
    knob: Option<String>,
    page: nat,
) -> Seq<char> {
    ctrl.id@ + " ("@ + ctrl.label@ + ")"@ + "\nMIDI: ch0 "@ + key_text(ctrl.midi_key) + (
    match action {
        Some(a) => "\nAction (page "@ + text::dec(page) + "): "@ + a@,
        None => Seq::<char>::empty(),
    }) + (match knob {
        Some(k) => "\nUI knob binding: "@ + k@,
        None => Seq::<char>::empty(),
    })
}

pub fn build_tooltip(
    ctrl: &ControlDef,
    action: &Option<String>,
    knob: &Option<String>,
    page: usize,
) -> (r: String)
    ensures
        r@ == tooltip_text(*ctrl, *action, *knob, page as nat),
{
    let mut s: String = ctrl.id.clone();
    s.append(" (");
    s.append(ctrl.label.as_str());
    s.append(")");
    s.append("\nMIDI: ch0 ");
    let key: String = key_name(ctrl.midi_key);
    s.append(key.as_str());
    if let Some(a) = action {
        s.append("\nAction (page ");
        text::push_dec(&mut s, page as u64);
        s.append("): ");
        s.append(a.as_str());
    }
    if let Some(k) = knob {
        s.append("\nUI knob binding: ");
        s.append(k.as_str());
    }
    assert(s@ =~= tooltip_text(*ctrl, *action, *knob, page as nat));
    s
}

/// The first characters of the name of an action.
pub open spec fn short_action_text(action: Seq<char>, max: usize) -> Seq<char> {
    if action.len() <= max {
        action
    } else {
        action.take(max as int)
    }
}

/// The first `max` characters of an action's name.
pub fn short_action(action: &str, max: usize) -> (r: String)
    ensures
        r@ == short_action_text(action@, max),
{
    let v: Vec<char> = text::to_chars(action);
    if v.len() <= max {
        text::owned(action)
    } else {
        let s: String = text::from_chars(&v, 0, max);
        assert(s@ =~= action@.take(max as int));
        s
    }
}

// ── State of a control ──────────────────────────────────────────────────────

#[derive(Clone, Copy, PartialEq, Eq, Structural, Debug)]
pub enum ControlState {
    Idle,
    /// The profile gives the control an action on this page.
    ActionBound,
    /// The control moves a knob.
    Mapped,
}

pub open spec fn state_of(key: MidiKey, map: Map<u8, String>, has_action: bool) -> ControlState {
    if key.kind == MidiKeyKind::ControlChange && map.dom().contains(key.number) {
        ControlState::Mapped
    } else if has_action {
        ControlState::ActionBound
    } else {
        ControlState::Idle
    }
}

pub fn derive_state(key: MidiKey, map: &HashMap<u8, String>, has_action: bool) -> (r: ControlState)
    ensures
        r == state_of(key, map@, has_action),
{
    if key.kind == MidiKeyKind::ControlChange && map.contains_key(&key.number) {
        ControlState::Mapped
    } else if has_action {
        ControlState::ActionBound
    } else {
        ControlState::Idle
    }
}

/// The colours of a control; the width of its border is in tenths of a point.
#[derive(Clone, Copy, PartialEq, Eq, Structural, Debug)]
pub struct ControlColors {
    pub fill: Color,
    pub border: Color,
    pub width: u8,
}

/// The alpha values that pulse: of the fill of a control that waits for a knob, and of the border
/// of an idle control while a knob waits for one.
#[derive(Clone, Copy)]
pub struct Pulse {
    pub pending: u8,
    pub learn: u8,
}

pub open spec fn control_colors(
    state: ControlState,
    learn_active: bool,
    is_pending: bool,
    pulse: Pulse,
) -> ControlColors {
    if is_pending {
        ControlColors {
            fill: Color { r: 80, g: 60, b: 0, a: pulse.pending },
            border: theme::rgb(theme::AMBER),
            width: 20,
        }
    } else {
        match state {
            ControlState::Mapped => ControlColors {
                fill: theme::rgb(theme::ACCENT_DIM),
                border: theme::rgb(theme::ACCENT),
                width: 15,
            },
            ControlState::ActionBound => ControlColors {
                fill: Color { r: 30, g: 70, b: 50, a: 255 },
                border: theme::rgb(theme::STATUS_OK),
                width: 15,
            },
            ControlState::Idle => if learn_active {
                ControlColors {
                    fill: theme::rgb(theme::WIDGET_BG),
                    border: Color {
                        r: 255,
                        g: 190,
                        b: 40,
                        a: if pulse.learn < 60 {
                            60
                        } else {
                            pulse.learn
                        },
                    },
                    width: 15,
                }
            } else {
                ControlColors {
                    fill: theme::rgb(theme::WIDGET_BG),
                    border: theme::rgb(theme::BORDER),
                    width: 10,
                }
            },
        }
    }
}

pub fn colors_for_state(
    state: ControlState,
    learn_active: bool,
    is_pending: bool,
    pulse: Pulse,
) -> (r: ControlColors)
    ensures
        r == control_colors(state, learn_active, is_pending, pulse),
{
    if is_pending {
        return ControlColors {
            fill: Color { r: 80, g: 60, b: 0, a: pulse.pending },
            border: theme::rgb(theme::AMBER),
            width: 20,
        };
    }
    match state {
        ControlState::Mapped => ControlColors {
            fill: theme::rgb(theme::ACCENT_DIM),
            border: theme::rgb(theme::ACCENT),
            width: 15,
        },
        ControlState::ActionBound => ControlColors {
            fill: Color { r: 30, g: 70, b: 50, a: 255 },
            border: theme::rgb(theme::STATUS_OK),
            width: 15,
        },
        ControlState::Idle => if learn_active {
            let a: u8 = if pulse.learn < 60 {
                60
            } else {
                pulse.learn
            };
            ControlColors {
                fill: theme::rgb(theme::WIDGET_BG),
                border: Color { r: 255, g: 190, b: 40, a },
                width: 15,
            }
        } else {
            ControlColors {
                fill: theme::rgb(theme::WIDGET_BG),
                border: theme::rgb(theme::BORDER),
                width: 10,
            }
        },
    }
}

/// What the diagram shows of a control.
pub struct ControlFace {
    pub action: Option<String>,
    pub knob: Option<String>,
    pub colors: ControlColors,
    pub tooltip: String,
}

/// The knob bound to a control.
pub open spec fn is_knob_of(r: Option<String>, key: MidiKey, map: Map<u8, String>) -> bool {
    match r {
        Some(k) => key.kind == MidiKeyKind::ControlChange && bindings::moves(map, key.number, k@),
        None => key.kind != MidiKeyKind::ControlChange || !map.dom().contains(key.number),
    }
}

pub fn control_face(
    ctrl: &ControlDef,
    page: usize,
    table: &Vec<ActionBinding>,
    shared: &SharedState,
    pulse: Pulse,
) -> (f: ControlFace)
    ensures
        is_action_of(f.action, ctrl.midi_key, page as int, table@),
        is_knob_of(f.knob, ctrl.midi_key, shared.midi_cc_to_knob@),
        f.colors == control_colors(
            state_of(ctrl.midi_key, shared.midi_cc_to_knob@, f.action is Some),
            shared.midi_learn_target is Some,
            shared.midi_map_pending == Some(ctrl.midi_key.number),
            pulse,
        ),
        f.tooltip@ == tooltip_text(*ctrl, f.action, f.knob, page as nat),
{
    let key: MidiKey = ctrl.midi_key;
    let action: Option<String> = find_action(key, page, table);
    let knob: Option<String> = if key.kind == MidiKeyKind::ControlChange {
        match shared.midi_cc_to_knob.get(&key.number) {
            Some(k) => Some(k.clone()),
            None => None,
        }
    } else {
        None
    };
    let is_pending: bool = match shared.midi_map_pending {
        Some(cc) => cc == key.number,
        None => false,
    };
    let state: ControlState = derive_state(key, &shared.midi_cc_to_knob, action.is_some());
    let colors: ControlColors = colors_for_state(
        state,
        shared.midi_learn_target.is_some(),
        is_pending,
        pulse,
    );
    let tooltip: String = build_tooltip(ctrl, &action, &knob, page);
    ControlFace { action, knob, colors, tooltip }
}

/// What the user does with a control.
#[derive(Clone, Copy, PartialEq, Eq, Structural, Debug)]
pub enum ControlGesture {
    /// Left click: the next knob clicked is bound.
    Click,
    /// "Map to UI control…" or, while the control waits for a knob, "Cancel pending bind".
    ToggleBind,
    /// "Unmap (MIDI learn)".
    Unmap,
}

/// The caption of the menu entry that starts or cancels a bind.
pub open spec fn bind_caption_text(pending: Option<u8>, cc: u8) -> Seq<char> {
    if pending == Some(cc) {
        "Cancel pending bind"@
    } else {
        "Map to UI control…"@
    }
}

/// The caption of the menu entry that starts or cancels a bind.
pub fn bind_caption(pending: Option<u8>, cc: u8) -> (r: &'static str)
    ensures
        r@ == bind_caption_text(pending, cc),
{
    match pending {
        Some(c) if c == cc => "Cancel pending bind",
        _ => "Map to UI control…",
    }
}

/// What a gesture on a control does.
pub open spec fn after_gesture(
    s: SharedState,
    cc: u8,
    gesture: ControlGesture,
    n: SharedState,
) -> bool {
    &&& n == (SharedState {
        midi_map_pending: match gesture {
            ControlGesture::Click => Some(cc),
            ControlGesture::ToggleBind => if s.midi_map_pending == Some(cc) {
                None
            } else {
                Some(cc)
            },
            ControlGesture::Unmap => s.midi_map_pending,
        },
        midi_cc_to_knob: n.midi_cc_to_knob,
        ..s
    })
    &&& gesture == ControlGesture::Unmap ==> n.midi_cc_to_knob@ == s.midi_cc_to_knob@.remove(cc)
    &&& gesture != ControlGesture::Unmap ==> n.midi_cc_to_knob == s.midi_cc_to_knob
}

/// Acts on the gesture on the control that sends controller `cc`.
pub fn control_gesture(shared: &mut SharedState, cc: u8, gesture: ControlGesture)
    ensures
        after_gesture(*old(shared), cc, gesture, *final(shared)),
{
    match gesture {
        ControlGesture::Click => {
            shared.midi_map_pending = Some(cc);
        },
        ControlGesture::ToggleBind => {
            let waits: bool = match shared.midi_map_pending {
                Some(c) => c == cc,
                None => false,
            };
            shared.midi_map_pending = if waits {
                None
            } else {
                Some(cc)
            };
        },
        ControlGesture::Unmap => {
            shared.midi_cc_to_knob.remove(&cc);
        },
    }
}

// ── Storage ─────────────────────────────────────────────────────────────────

/// What `serde_json::from_str` makes of a text as a JSON object from strings to bytes: the object,
/// or the message of the error.
pub uninterp spec fn parsed_bindings(s: Seq<char>) -> Result<Map<Seq<char>, u8>, Seq<char>>;

/// `v` lists each entry of `m` once.
pub open spec fn lists(v: Seq<Binding>, m: Map<Seq<char>, u8>) -> bool {
    &&& forall|i: int, j: int|
        0 <= i < j < v.len() ==> (#[trigger] v[i]).knob@ != (#[trigger] v[j]).knob@
    &&& forall|i: int|
        0 <= i < v.len() ==> m.dom().contains((#[trigger] v[i]).knob@) && m[v[i].knob@] == v[i].cc
    &&& forall|k: Seq<char>| #[trigger]
        m.dom().contains(k) ==> exists|i: int| 0 <= i < v.len() && (#[trigger] v[i]).knob@ == k
}

/// Calls `serde_json::from_str` for a `HashMap<String, u8>` and lists the entries of the map, in
/// no particular order. The result is that named `parsed_bindings`; of an error the message
/// (`to_string`) is kept.
#[verifier::external_body]
fn parse_json(s: &str) -> (r: Result<Vec<Binding>, String>)
    ensures
        match r {
            Ok(v) => parsed_bindings(s@) is Ok && lists(v@, parsed_bindings(s@)->Ok_0),
            Err(e) => parsed_bindings(s@) is Err && e@ == parsed_bindings(s@)->Err_0,
        },
{
    match serde_json::from_str::<HashMap<String, u8>>(s) {
        Ok(m) => Ok(m.into_iter().map(|(knob, cc)| Binding { knob, cc }).collect()),
        Err(e) => Err(e.to_string()),
    }
}

/// Calls `serde_json::to_string_pretty` on the `HashMap<String, u8>` with the entries of `v`. It
/// fails only for a value that refuses to be serialised or a map with keys that are not strings,
/// so not here. Its text is a JSON object with those entries, which `serde_json::from_str` reads
/// back; their order in the text is left open.
#[verifier::external_body]
fn print_json(v: &Vec<Binding>) -> (r: Result<String, String>)
    requires
        forall|i: int, j: int|
            0 <= i < j < v@.len() ==> (#[trigger] v@[i]).knob@ != (#[trigger] v@[j]).knob@,
    ensures
        r is Ok,
        parsed_bindings(r->Ok_0@) is Ok,
        lists(v@, parsed_bindings(r->Ok_0@)->Ok_0),
{
    let m: HashMap<String, u8> = v.iter().map(|b| (b.knob.clone(), b.cc)).collect();
    serde_json::to_string_pretty(&m).map_err(|e| e.to_string())
}

/// `m` holds the bindings of `map` turned round: each bound knob, with a controller that moves it.
pub open spec fn exports(map: Map<u8, String>, m: Map<Seq<char>, u8>) -> bool {
    &&& forall|k: Seq<char>| #[trigger] m.dom().contains(k) ==> bindings::moves(map, m[k], k)
    &&& forall|c: u8| #[trigger] map.dom().contains(c) ==> m.dom().contains(map[c]@)
}

/// The text of the export file.
pub fn export_text(map: &HashMap<u8, String>) -> (r: Result<String, String>)
    ensures
        r is Ok,
        parsed_bindings(r->Ok_0@) is Ok,
        exports(map@, parsed_bindings(r->Ok_0@)->Ok_0),
{
    let v: Vec<Binding> = bindings::invert(map);
    let r: Result<String, String> = print_json(&v);
    proof {
        let m = parsed_bindings(r->Ok_0@)->Ok_0;
        assert forall|k: Seq<char>| #[trigger] m.dom().contains(k) implies bindings::moves(
            map@,
            m[k],
            k,
        ) by {
            let i = choose|i: int| 0 <= i < v@.len() && (#[trigger] v@[i]).knob@ == k;
            assert(bindings::moves(map@, v@[i].cc, v@[i].knob@));
        }
        assert forall|c: u8| #[trigger] map@.dom().contains(c) implies m.dom().contains(
            map@[c]@,
        ) by {
            let i = choose|i: int| 0 <= i < v@.len() && (#[trigger] v@[i]).knob@ == map@[c]@;
            assert(m.dom().contains(v@[i].knob@));
        }
    }
    r
}

/// `map` holds the bindings of a list turned round: each controller listed, with a knob listed
/// for it.
pub open spec fn loads(v: Seq<Binding>, map: Map<u8, String>) -> bool {
    &&& forall|c: u8| #[trigger]
        map.dom().contains(c) ==> exists|i: int|
            0 <= i < v.len() && (#[trigger] v[i]).cc == c && v[i].knob@ == map[c]@
    &&& forall|i: int| 0 <= i < v.len() ==> map.dom().contains((#[trigger] v[i]).cc)
}

/// Turns a list of bindings round.
pub fn load_bindings(v: &Vec<Binding>) -> (map: HashMap<u8, String>)
    ensures
        loads(v@, map@),
{
    let mut map: HashMap<u8, String> = HashMap::new();
    let mut n: usize = 0;
    while n < v.len()
        invariant
            n <= v.len(),
            forall|c: u8| #[trigger]
                map@.dom().contains(c) ==> exists|i: int|
                    0 <= i < n && (#[trigger] v@[i]).cc == c && v@[i].knob@ == map@[c]@,
            forall|i: int| 0 <= i < n ==> map@.dom().contains((#[trigger] v@[i]).cc),
        decreases v.len() - n,
    {
        let ghost before = map@;
        map.insert(v[n].cc, v[n].knob.clone());
        proof {
            assert forall|c: u8| #[trigger] map@.dom().contains(c) implies exists|i: int|
                0 <= i < n + 1 && (#[trigger] v@[i]).cc == c && v@[i].knob@ == map@[c]@ by {
                if c == v@[n as int].cc {
                    assert(v@[n as int].knob@ == map@[c]@);
                } else {
                    assert(before.dom().contains(c));
                }
            }
        }
        n += 1;
    }
    map
}

/// `map` holds the bindings of `m` turned round: each controller of `m`, with a knob that it
/// moves in `m`.
pub open spec fn imports(m: Map<Seq<char>, u8>, map: Map<u8, String>) -> bool {
    &&& forall|c: u8| #[trigger]
        map.dom().contains(c) ==> m.dom().contains(map[c]@) && m[map[c]@] == c
    &&& forall|k: Seq<char>| #[trigger] m.dom().contains(k) ==> map.dom().contains(m[k])
}

proof fn lemma_imports(v: Seq<Binding>, m: Map<Seq<char>, u8>, map: Map<u8, String>)
    requires
        lists(v, m),
        loads(v, map),
    ensures
        imports(m, map),
{
    assert forall|c: u8| #[trigger] map.dom().contains(c) implies m.dom().contains(map[c]@)
        && m[map[c]@] == c by {
        let i = choose|i: int|
            0 <= i < v.len() && (#[trigger] v[i]).cc == c && v[i].knob@ == map[c]@;
        assert(m.dom().contains(v[i].knob@));
    }
    assert forall|k: Seq<char>| #[trigger] m.dom().contains(k) implies map.dom().contains(m[k]) by {
        let i = choose|i: int| 0 <= i < v.len() && (#[trigger] v[i]).knob@ == k;
        assert(map.dom().contains(v[i].cc));
    }
}

/// Each knob is moved by one controller at most.
pub open spec fn one_each(map: Map<u8, String>) -> bool {
    forall|c: u8, d: u8|
        #![trigger map.dom().contains(c), map.dom().contains(d)]
        map.dom().contains(c) && map.dom().contains(d) && map[c]@ == map[d]@ ==> c == d
}

/// Bindings that are exported and imported again move the same knobs; where each knob is moved by
/// one controller at most, they are the same bindings. In any case none is added.
pub proof fn law_export_import(
    before: Map<u8, String>,
    m: Map<Seq<char>, u8>,
    after: Map<u8, String>,
)
    requires
        exports(before, m),
        imports(m, after),
    ensures
        forall|c: u8| #[trigger]
            after.dom().contains(c) ==> before.dom().contains(c) && after[c]@ == before[c]@,
        forall|c: u8| #[trigger]
            before.dom().contains(c) ==> exists|d: u8|
                #[trigger] after.dom().contains(d) && after[d]@ == before[c]@,
        one_each(before) ==> after.dom() == before.dom(),
{
    assert forall|c: u8| #[trigger] after.dom().contains(c) implies before.dom().contains(c)
        && after[c]@ == before[c]@ by {
        assert(bindings::moves(before, m[after[c]@], after[c]@));
    }
    assert forall|c: u8| #[trigger] before.dom().contains(c) implies exists|d: u8|
        #[trigger] after.dom().contains(d) && after[d]@ == before[c]@ by {
        let k = before[c]@;
        assert(m.dom().contains(k));
        let d = m[k];
        assert(after.dom().contains(d));
        assert(bindings::moves(before, d, k));
    }
    if one_each(before) {
        assert forall|c: u8| #[trigger] before.dom().contains(c) implies after.dom().contains(c) by {
            let d = choose|d: u8| #[trigger] after.dom().contains(d) && after[d]@ == before[c]@;
            assert(before.dom().contains(d));
        }
        assert(after.dom() =~= before.dom());
    }
}

// ── Window ──────────────────────────────────────────────────────────────────

/// The outcome of a reset, an export or an import.
pub struct IoStatus {
    pub message: String,
    pub is_error: bool,
}

impl IoStatus {
    pub open spec fn says(self, message: Seq<char>, is_error: bool) -> bool {
        self.message@ == message && self.is_error == is_error
    }
}

pub struct MidiMapperWindow {
    /// The page whose actions are shown.
    pub selected_page: usize,
    /// The user is asked whether to clear the bindings.
    pub confirm_reset: bool,
    pub export_path: String,
    pub import_path: String,
    pub io_status: Option<IoStatus>,
}

fn status(message: String, is_error: bool) -> (r: Option<IoStatus>)
    ensures
        r is Some,
        r->0.says(message@, is_error),
{
    Some(IoStatus { message, is_error })
}

/// `head` followed by `tail`.
fn joined(head: &str, tail: &str) -> (r: String)
    ensures
        r@ == head@ + tail@,
{
    let mut s: String = text::owned(head);
    s.append(tail);
    s
}

/// What asking to clear the bindings does.
pub open spec fn after_ask(a: &MidiMapperWindow, n: &MidiMapperWindow) -> bool {
    *n == (MidiMapperWindow {
        confirm_reset: true,
        io_status: None,
        ..*a
    })
}

/// What the answer to that does.
pub open spec fn after_reset(
    a: &MidiMapperWindow,
    shared: &SharedState,
    yes: bool,
    n: &MidiMapperWindow,
    shared_after: &SharedState,
) -> bool {
    &&& *n == (MidiMapperWindow {
        confirm_reset: false,
        io_status: n.io_status,
        ..*a
    })
    &&& !yes ==> *shared_after == *shared && n.io_status == a.io_status
    &&& yes ==> {
        &&& *shared_after == (SharedState {
            midi_cc_to_knob: shared_after.midi_cc_to_knob,
            midi_map_pending: None,
            ..*shared
        })
        &&& shared_after.midi_cc_to_knob@ == Map::<u8, String>::empty()
        &&& n.io_status is Some
        &&& n.io_status->0.says("MIDI-learn bindings cleared."@, false)
    }
}

/// What is shown of an export.
pub open spec fn after_export(
    a: &MidiMapperWindow,
    outcome: Result<(), String>,
    n: &MidiMapperWindow,
) -> bool {
    &&& *n == (MidiMapperWindow { io_status: n.io_status, ..*a })
    &&& n.io_status is Some
    &&& match outcome {
        Ok(_) => n.io_status->0.says("Saved to "@ + a.export_path@, false),
        Err(e) => n.io_status->0.says("Save failed: "@ + e@, true),
    }
}

/// What taking over bindings does.
pub open spec fn after_bindings(
    a: &MidiMapperWindow,
    shared: &SharedState,
    parsed: Result<Vec<Binding>, String>,
    n: &MidiMapperWindow,
    shared_after: &SharedState,
) -> bool {
    &&& *n == (MidiMapperWindow { io_status: n.io_status, ..*a })
    &&& n.io_status is Some
    &&& match parsed {
        Ok(v) => {
            &&& *shared_after == (SharedState {
                midi_cc_to_knob: shared_after.midi_cc_to_knob,
                ..*shared
            })
            &&& loads(v@, shared_after.midi_cc_to_knob@)
            &&& n.io_status->0.says("Bindings loaded."@, false)
        },
        Err(e) => {
            &&& *shared_after == *shared
            &&& n.io_status->0.says("Invalid JSON: "@ + e@, true)
        },
    }
}

/// What importing does.
pub open spec fn after_import(
    a: &MidiMapperWindow,
    shared: &SharedState,
    file: Result<String, String>,
    n: &MidiMapperWindow,
    shared_after: &SharedState,
) -> bool {
    &&& *n == (MidiMapperWindow { io_status: n.io_status, ..*a })
    &&& n.io_status is Some
    &&& match file {
        Err(e) => {
            &&& *shared_after == *shared
            &&& n.io_status->0.says("Read failed: "@ + e@, true)
        },
        Ok(s) => match parsed_bindings(s@) {
            Ok(m) => {
                &&& *shared_after == (SharedState {
                    midi_cc_to_knob: shared_after.midi_cc_to_knob,
                    ..*shared
                })
                &&& imports(m, shared_after.midi_cc_to_knob@)
                &&& n.io_status->0.says("Bindings loaded."@, false)
            },
            Err(e) => {
                &&& *shared_after == *shared
                &&& n.io_status->0.says("Invalid JSON: "@ + e, true)
            },
        },
    }
}

impl MidiMapperWindow {
    /// A window whose files are at `path` in the beginning.
    pub fn new_nanokontrol2(path: &str) -> (w: MidiMapperWindow)
        ensures
            w.selected_page == 0,
            !w.confirm_reset,
            w.export_path@ == path@,
            w.import_path@ == path@,
            w.io_status is None,
    {
        MidiMapperWindow {
            selected_page: 0,
            confirm_reset: false,
            export_path: text::owned(path),
            import_path: text::owned(path),
            io_status: None,
        }
    }

    /// "Reset bindings": asks for confirmation.
    pub fn ask_reset(&mut self)
        ensures
            after_ask(old(self), final(self)),
    {
        self.confirm_reset = true;
        self.io_status = None;
    }

    /// The answer to the question whether to clear the bindings.
    pub fn answer_reset(&mut self, shared: &mut SharedState, yes: bool)
        ensures
            after_reset(old(self), old(shared), yes, final(self), final(shared)),
    {
        if yes {
            shared.midi_cc_to_knob.clear();
            shared.midi_map_pending = None;
            self.io_status = status(text::owned("MIDI-learn bindings cleared."), false);
        }
        self.confirm_reset = false;
    }

    /// "Save": the text to write to `export_path`, or the reason why there is none, shown.
    pub fn begin_export(&mut self, shared: &SharedState) -> (r: Option<String>)
        ensures
            *final(self) == *old(self),
            r is Some,
            parsed_bindings(r->0@) is Ok,
            exports(shared.midi_cc_to_knob@, parsed_bindings(r->0@)->Ok_0),
    {
        match export_text(&shared.midi_cc_to_knob) {
            Ok(s) => Some(s),
            Err(e) => {
                self.io_status = status(joined("Serialize error: ", e.as_str()), true);
                None
            },
        }
    }

    /// Shows whether the export file was written; an error comes with its message.
    pub fn finish_export(&mut self, outcome: Result<(), String>)
        ensures
            after_export(old(self), outcome, final(self)),
    {
        self.io_status = match outcome {
            Ok(_) => status(joined("Saved to ", self.export_path.as_str()), false),
            Err(e) => status(joined("Save failed: ", e.as_str()), true),
        };
    }

    /// Takes over the bindings read from a file, or shows why the file is no good.
    pub fn take_bindings(&mut self, shared: &mut SharedState, parsed: Result<Vec<Binding>, String>)
        ensures
            after_bindings(old(self), old(shared), parsed, final(self), final(shared)),
    {
        match parsed {
            Ok(v) => {
                shared.midi_cc_to_knob = load_bindings(&v);
                self.io_status = status(text::owned("Bindings loaded."), false);
            },
            Err(e) => {
                self.io_status = status(joined("Invalid JSON: ", e.as_str()), true);
            },
        }
    }

    /// "Load": takes the text of the file at `import_path`, or the message of the error met when
    /// reading it.
    pub fn import(&mut self, shared: &mut SharedState, file: Result<String, String>)
        ensures
            after_import(old(self), old(shared), file, final(self), final(shared)),
    {
        match file {
            Err(e) => {
                self.io_status = status(joined("Read failed: ", e.as_str()), true);
            },
            Ok(s) => {
                let parsed: Result<Vec<Binding>, String> = parse_json(s.as_str());
                let ghost listed = parsed;
                self.take_bindings(shared, parsed);
                proof {
                    if let Ok(v) = listed {
                        lemma_imports(
                            v@,
                            parsed_bindings(s@)->Ok_0,
                            shared.midi_cc_to_knob@,
                        );
                    }
                }
            },
        }
    }
}

// ── Laws ────────────────────────────────────────────────────────────────────

/// A click on a control makes its controller wait for a knob; the menu entry does the same, and
/// ends the wait of a controller that waits already; unmapping unbinds the controller and no other.
pub proof fn law_gestures_bind(
    s: SharedState,
    cc: u8,
    a: SharedState,
    b: SharedState,
    c: SharedState,
    d: SharedState,
    other: u8,
    knob: Seq<char>,
)
    requires
        after_gesture(s, cc, ControlGesture::Click, a),
        after_gesture(s, cc, ControlGesture::ToggleBind, b),
        after_gesture(b, cc, ControlGesture::ToggleBind, c),
        after_gesture(s, cc, ControlGesture::Unmap, d),
    ensures
        a.midi_map_pending == Some(cc),
        s.midi_map_pending != Some(cc) ==> b.midi_map_pending == Some(cc) && c.midi_map_pending
            is None,
        s.midi_map_pending == Some(cc) ==> b.midi_map_pending is None,
        a.midi_cc_to_knob == s.midi_cc_to_knob && b.midi_cc_to_knob == s.midi_cc_to_knob,
        !bindings::moves(d.midi_cc_to_knob@, cc, knob),
        other != cc ==> bindings::moves(d.midi_cc_to_knob@, other, knob) == bindings::moves(
            s.midi_cc_to_knob@,
            other,
            knob,
        ),
        d.midi_map_pending == s.midi_map_pending,
        bind_caption_text(a.midi_map_pending, cc) == "Cancel pending bind"@,
        s.midi_map_pending is None ==> bind_caption_text(s.midi_map_pending, cc)
            == "Map to UI control…"@,
{
}

/// A control that moves a knob is shown as mapped, whatever else it does; a button never is, since
/// only controllers are bound. The others are shown as bound if the profile has an action for them.
pub proof fn law_control_states(number: u8, map: Map<u8, String>, has_action: bool)
    ensures
        ({
            let cc = MidiKey { kind: MidiKeyKind::ControlChange, number };
            let note = MidiKey { kind: MidiKeyKind::NoteOn, number };
            let unmapped = if has_action {
                ControlState::ActionBound
            } else {
                ControlState::Idle
            };
            &&& map.dom().contains(number) ==> state_of(cc, map, has_action)
                == ControlState::Mapped
            &&& !map.dom().contains(number) ==> state_of(cc, map, has_action) == unmapped
            &&& state_of(note, map, has_action) == unmapped
        }),
{
}

/// The control that waits for a knob stands out from all others by the widest border, and an idle
/// one has the narrowest; a learning knob widens the borders of idle controls, whose pulse never
/// fades out.
pub proof fn law_control_colours(state: ControlState, learn: bool, pulse: Pulse)
    ensures
        control_colors(state, learn, true, pulse).width == 20,
        control_colors(state, learn, true, pulse).border == theme::rgb(0xFFBE28),
        control_colors(state, learn, true, pulse).fill.a == pulse.pending,
        control_colors(ControlState::Mapped, learn, false, pulse) == (ControlColors {
            fill: theme::rgb(0x0078A0),
            border: theme::rgb(0x00D2FF),
            width: 15,
        }),
        control_colors(ControlState::ActionBound, learn, false, pulse).border == theme::rgb(
            0x32DC50,
        ),
        control_colors(ControlState::ActionBound, learn, false, pulse).width == 15,
        control_colors(ControlState::Idle, false, false, pulse).width == 10,
        control_colors(ControlState::Idle, true, false, pulse).width == 15,
        control_colors(ControlState::Idle, true, false, pulse).border.a >= 60,
        pulse.learn >= 60 ==> control_colors(ControlState::Idle, true, false, pulse).border.a
            == pulse.learn,
{
}

/// The name of a key tells its kind and its number.
pub proof fn law_key_names(number: u8)
    ensures
        key_text(MidiKey { kind: MidiKeyKind::ControlChange, number }) == "CC "@ + text::dec(
            number as nat,
        ),
        key_text(MidiKey { kind: MidiKeyKind::NoteOn, number }) == "Note "@ + text::dec(
            number as nat,
        ),
{
}

/// The hover text of a control has a line for its action and one for its knob only if it has them,
/// and starts with its name.
pub proof fn law_control_tooltip(c: ControlDef, action: String, knob: String, page: nat)
    ensures
        ({
            let plain = tooltip_text(c, None, None, page);
            let act = "\nAction (page "@ + text::dec(page) + "): "@ + action@;
            let bound = "\nUI knob binding: "@ + knob@;
            &&& plain == c.id@ + " ("@ + c.label@ + ")"@ + "\nMIDI: ch0 "@ + key_text(c.midi_key)
            &&& tooltip_text(c, Some(action), None, page) == plain + act
            &&& tooltip_text(c, None, Some(knob), page) == plain + bound
            &&& tooltip_text(c, Some(action), Some(knob), page) == plain + act + bound
        }),
{
    let plain = tooltip_text(c, None, None, page);
    let base = c.id@ + " ("@ + c.label@ + ")"@ + "\nMIDI: ch0 "@ + key_text(c.midi_key);
    assert(plain =~= base);
    let act = "\nAction (page "@ + text::dec(page) + "): "@ + action@;
    let bound = "\nUI knob binding: "@ + knob@;
    assert(tooltip_text(c, Some(action), None, page) =~= plain + act);
    assert(tooltip_text(c, None, Some(knob), page) =~= plain + bound);
    assert(tooltip_text(c, Some(action), Some(knob), page) =~= plain + act + bound);
}

/// The short name of an action is its beginning, at most so many characters long.
pub proof fn law_short_action(action: Seq<char>, max: usize)
    ensures
        short_action_text(action, max).len() <= max,
        short_action_text(action, max).is_prefix_of(action),
        action.len() <= max ==> short_action_text(action, max) == action,
        action.len() > max ==> short_action_text(action, max).len() == max,
{
}

/// Clearing the bindings is asked for first; only the answer yes clears them, all of them, and
/// either answer ends the question.
pub proof fn law_reset_asks_first(
    w: MidiMapperWindow,
    asked: MidiMapperWindow,
    s: SharedState,
    yes: bool,
    n: MidiMapperWindow,
    after: SharedState,
    cc: u8,
)
    requires
        after_ask(&w, &asked),
        after_reset(&asked, &s, yes, &n, &after),
    ensures
        asked.confirm_reset && asked.io_status is None,
        !n.confirm_reset,
        yes ==> !after.midi_cc_to_knob@.dom().contains(cc) && after.midi_map_pending is None,
        yes ==> n.io_status is Some && !n.io_status->0.is_error,
        !yes ==> after == s && n.io_status is None,
        n.export_path == w.export_path && n.import_path == w.import_path,
{
}

/// Loading bindings never does half of it: a file that cannot be read or is not understood leaves the
/// bindings as they were and shows an error; one that is understood replaces them all.
pub proof fn law_load_all_or_nothing(
    w: MidiMapperWindow,
    s: SharedState,
    file: Result<String, String>,
    n: MidiMapperWindow,
    after: SharedState,
)
    requires
        after_import(&w, &s, file, &n, &after),
    ensures
        n.io_status is Some,
        file is Err || parsed_bindings(file->Ok_0@) is Err ==> after == s && n.io_status->0.is_error,
        file is Ok && parsed_bindings(file->Ok_0@) is Ok ==> {
            let m = parsed_bindings(file->Ok_0@)->Ok_0;
            &&& !n.io_status->0.is_error
            &&& forall|k: Seq<char>| #[trigger]
                m.dom().contains(k) ==> after.midi_cc_to_knob@.dom().contains(m[k])
            &&& forall|c: u8| #[trigger]
                after.midi_cc_to_knob@.dom().contains(c) ==> m.dom().contains(
                    after.midi_cc_to_knob@[c]@,
                ) && m[after.midi_cc_to_knob@[c]@] == c
        },
{
}

/// What is shown of an export tells where it went, or why it failed.
pub proof fn law_export_outcome(
    w: MidiMapperWindow,
    outcome: Result<(), String>,
    n: MidiMapperWindow,
)
    requires
        after_export(&w, outcome, &n),
    ensures
        n.io_status is Some,
        n.io_status->0.is_error == outcome is Err,
        outcome is Ok ==> text::ends_with(n.io_status->0.message@, w.export_path@),
        outcome is Err ==> text::ends_with(n.io_status->0.message@, outcome->Err_0@),
{
    match outcome {
        Ok(_) => {
            let m = n.io_status->0.message@;
            assert(m.skip(m.len() - w.export_path@.len()) =~= w.export_path@);
        },
        Err(e) => {
            let m = n.io_status->0.message@;
            assert(m.skip(m.len() - e@.len()) =~= e@);
        },
    }
}

/// The action of a key on a page is that of the first entry of the profile for this key and this
/// page; a key without an entry on the page has none there.
pub proof fn law_first_entry_counts(
    r: Option<String>,
    key: MidiKey,
    page: int,
    table: Seq<ActionBinding>,
    i: int,
)
    requires
        is_action_of(r, key, page, table),
        0 <= i < table.len(),
    ensures
        table[i].page == page && table[i].key@ == key_text(key) && (forall|j: int|
            0 <= j < i ==> (#[trigger] table[j]).page != page || table[j].key@ != key_text(key))
            ==> r is Some && r->0@ == table[i].action@,
        (forall|j: int|
            0 <= j < table.len() ==> (#[trigger] table[j]).page != page || table[j].key@
                != key_text(key)) ==> r is None,
{
    if table[i].page == page && table[i].key@ == key_text(key) && (forall|j: int|
        0 <= j < i ==> (#[trigger] table[j]).page != page || table[j].key@ != key_text(key)) {
        assert(acts(table[i], key, page));
        let k = choose|k: int|
            {
                &&& 0 <= k < table.len()
                &&& acts(#[trigger] table[k], key, page)
                &&& table[k].action@ == r->0@
                &&& forall|j: int| 0 <= j < k ==> !acts(#[trigger] table[j], key, page)
            };
        if i < k {
            assert(!acts(table[i], key, page));
        }
    }
    if r is Some {
        let k = choose|k: int|
            0 <= k < table.len() && acts(#[trigger] table[k], key, page) && table[k].action@
                == r->0@;
        assert(table[k].page == page);
    }
}

/// The knob shown of a control is the one that its controller moves; a button moves none.
pub proof fn law_knob_of_a_control(r: Option<String>, key: MidiKey, map: Map<u8, String>)
    requires
        is_knob_of(r, key, map),
    ensures
        key.kind == MidiKeyKind::NoteOn ==> r is None,
        key.kind == MidiKeyKind::ControlChange && map.dom().contains(key.number) ==> r is Some
            && r->0@ == map[key.number]@,
        !map.dom().contains(key.number) ==> r is None,
{
}

/// Bindings that were stored and are loaded again bind no controller otherwise than before, and leave
/// no knob without one that had one.
pub proof fn law_stored_bindings_reload(
    before: Map<u8, String>,
    v: Seq<Binding>,
    after: Map<u8, String>,
    cc: u8,
)
    requires
        bindings::inverts(before, v),
        loads(v, after),
    ensures
        after.dom().contains(cc) ==> before.dom().contains(cc) && after[cc]@ == before[cc]@,
        before.dom().contains(cc) ==> exists|d: u8|
            #[trigger] after.dom().contains(d) && after[d]@ == before[cc]@,
{
    if after.dom().contains(cc) {
        let i = choose|i: int|
            0 <= i < v.len() && (#[trigger] v[i]).cc == cc && v[i].knob@ == after[cc]@;
        assert(bindings::moves(before, v[i].cc, v[i].knob@));
    }
    if before.dom().contains(cc) {
        let i = choose|i: int| 0 <= i < v.len() && (#[trigger] v[i]).knob@ == before[cc]@;
        let d = v[i].cc;
        assert(after.dom().contains(d));
        let j = choose|j: int|
            0 <= j < v.len() && (#[trigger] v[j]).cc == d && v[j].knob@ == after[d]@;
        assert(bindings::moves(before, v[i].cc, v[i].knob@));
        assert(bindings::moves(before, v[j].cc, v[j].knob@));
    }
}

/// Taking over a list of bindings replaces all bindings by it; a list that could not be read leaves
/// them and shows the reason.
pub proof fn law_list_is_taken_over(
    w: MidiMapperWindow,
    s: SharedState,
    parsed: Result<Vec<Binding>, String>,
    n: MidiMapperWindow,
    after: SharedState,
)
    requires
        after_bindings(&w, &s, parsed, &n, &after),
    ensures
        n.io_status is Some,
        n.io_status->0.is_error == parsed is Err,
        parsed is Err ==> after == s,
        parsed is Ok ==> forall|i: int|
            0 <= i < parsed->Ok_0@.len() ==> after.midi_cc_to_knob@.dom().contains(
                (#[trigger] parsed->Ok_0@[i]).cc,
            ),
        n.export_path == w.export_path && n.import_path == w.import_path,
{
}

} // verus!
