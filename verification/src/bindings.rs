//! MIDI controller bindings: which controller moves which knob.
//!
//! At run time the bindings map a controller number to a knob. For storage they are turned round,
//! from knob to controller; when several controllers move one knob, one of them is kept.

use std::collections::HashMap;

use vstd::prelude::*;
use vstd::std_specs::hash::*;
use vstd::string::*;

use crate::text;

verus! {

broadcast use group_hash_axioms;

/// A knob and the controller that moves it.
pub struct Binding {
    pub knob: String,
    pub cc: u8,
}

/// Controller `cc` moves `knob`.
pub open spec fn moves(map: Map<u8, String>, cc: u8, knob: Seq<char>) -> bool {
    map.dom().contains(cc) && map[cc]@ == knob
}

/// `r` is the lowest controller that moves `knob`, if any does.
pub open spec fn is_cc_of(r: Option<u8>, map: Map<u8, String>, knob: Seq<char>) -> bool {
    match r {
        Some(cc) => moves(map, cc, knob) && forall|c: u8| c < cc ==> !moves(map, c, knob),
        None => forall|c: u8| !moves(map, c, knob),
    }
}

/// The controller that moves `knob`: the lowest one when there are several.
pub fn find_cc(map: &HashMap<u8, String>, knob: &str) -> (r: Option<u8>)
    ensures
        is_cc_of(r, map@, knob@),
{
    let mut i: u16 = 0;
    while i < 256
        invariant
            i <= 256,
            forall|c: u8| c < i ==> !moves(map@, c, knob@),
        decreases 256 - i,
    {
        let cc: u8 = i as u8;
        if let Some(id) = map.get(&cc) {
            if text::same_text(id.as_str(), knob) {
                return Some(cc);
            }
        }
        i += 1;
    }
    None
}

/// The knob names that occur once each, every pair taken from `map`, every knob of `map` present.
pub open spec fn inverts(map: Map<u8, String>, v: Seq<Binding>) -> bool {
    &&& forall|i: int| 0 <= i < v.len() ==> moves(map, (#[trigger] v[i]).cc, v[i].knob@)
    &&& forall|i: int, j: int|
        0 <= i < j < v.len() ==> (#[trigger] v[i]).knob@ != (#[trigger] v[j]).knob@
    &&& forall|c: u8| #[trigger]
        map.dom().contains(c) ==> exists|i: int|
            0 <= i < v.len() && (#[trigger] v[i]).knob@ == map[c]@
}

/// The position of `knob` in `v`.
fn position_of(v: &Vec<Binding>, knob: &str) -> (r: Option<usize>)
    ensures
        match r {
            Some(i) => i < v@.len() && v@[i as int].knob@ == knob@,
            None => forall|i: int| 0 <= i < v@.len() ==> (#[trigger] v@[i]).knob@ != knob@,
        },
{
    let mut i: usize = 0;
    while i < v.len()
        invariant
            i <= v.len(),
            forall|j: int| 0 <= j < i ==> (#[trigger] v@[j]).knob@ != knob@,
        decreases v.len() - i,
    {
        if text::same_text(v[i].knob.as_str(), knob) {
            return Some(i);
        }
        i += 1;
    }
    None
}

/// Whether `v` is `map` turned round.
pub fn is_inverse(map: &HashMap<u8, String>, v: &Vec<Binding>) -> (r: bool)
    ensures
        r == inverts(map@, v@),
{
    let mut i: usize = 0;
    while i < v.len()
        invariant
            i <= v.len(),
            forall|k: int| 0 <= k < i ==> moves(map@, (#[trigger] v@[k]).cc, v@[k].knob@),
            forall|k: int, j: int|
                0 <= k < j < i ==> (#[trigger] v@[k]).knob@ != (#[trigger] v@[j]).knob@,
        decreases v.len() - i,
    {
        let found: bool = match map.get(&v[i].cc) {
            Some(id) => text::same_text(id.as_str(), v[i].knob.as_str()),
            None => false,
        };
        if !found {
            assert(!moves(map@, v@[i as int].cc, v@[i as int].knob@));
            return false;
        }
        let mut j: usize = 0;
        while j < i
            invariant
                j <= i < v.len(),
                forall|k: int| 0 <= k < j ==> (#[trigger] v@[k]).knob@ != v@[i as int].knob@,
            decreases i - j,
        {
            if text::same_text(v[j].knob.as_str(), v[i].knob.as_str()) {
                assert(v@[j as int].knob@ == v@[i as int].knob@);
                return false;
            }
            j += 1;
        }
        i += 1;
    }
    let mut c: u16 = 0;
    while c < 256
        invariant
            c <= 256,
            forall|d: u8| #[trigger]
                map@.dom().contains(d) && d < c ==> exists|k: int|
                    0 <= k < v@.len() && (#[trigger] v@[k]).knob@ == map@[d]@,
        decreases 256 - c,
    {
        let cc: u8 = c as u8;
        if let Some(id) = map.get(&cc) {
            if position_of(v, id.as_str()).is_none() {
                assert(map@.dom().contains(cc));
                return false;
            }
        }
        c += 1;
    }
    true
}

/// Turns the bindings round: each knob once, with one of the controllers that move it.
pub fn invert(map: &HashMap<u8, String>) -> (v: Vec<Binding>)
    ensures
        inverts(map@, v@),
{
    let mut v: Vec<Binding> = Vec::new();
    let mut i: u16 = 0;
    while i < 256
        invariant
            i <= 256,
            forall|k: int| 0 <= k < v@.len() ==> moves(map@, (#[trigger] v@[k]).cc, v@[k].knob@),
            forall|k: int, j: int|
                0 <= k < j < v@.len() ==> (#[trigger] v@[k]).knob@ != (#[trigger] v@[j]).knob@,
            forall|c: u8| #[trigger]
                map@.dom().contains(c) && c < i ==> exists|k: int|
                    0 <= k < v@.len() && (#[trigger] v@[k]).knob@ == map@[c]@,
        decreases 256 - i,
    {
        let cc: u8 = i as u8;
        let ghost before = v@;
        if let Some(id) = map.get(&cc) {
            if position_of(&v, id.as_str()).is_none() {
                v.push(Binding { knob: id.clone(), cc });
                assert(v@[v@.len() - 1].knob@ == map@[cc]@);
                assert(forall|k: int| 0 <= k < before.len() ==> v@[k] == before[k]);
            }
        }
        proof {
            assert forall|c: u8| #[trigger] map@.dom().contains(c) && c < i + 1 implies exists|
                k: int,
            |
                0 <= k < v@.len() && (#[trigger] v@[k]).knob@ == map@[c]@ by {
                if c < i {
                    let k = choose|k: int|
                        0 <= k < before.len() && (#[trigger] before[k]).knob@ == map@[c]@;
                    assert(v@[k].knob@ == map@[c]@);
                } else {
                    assert(c == cc);
                }
            }
        }
        i += 1;
    }
    v
}

/// Turned round, the bindings hold each bound knob exactly once, with a controller that moves it, and
/// nothing that was not bound.
pub proof fn law_each_knob_once(map: Map<u8, String>, v: Seq<Binding>, cc: u8)
    requires
        inverts(map, v),
    ensures
        map.dom().contains(cc) ==> exists|i: int|
            0 <= i < v.len() && (#[trigger] v[i]).knob@ == map[cc]@ && map.dom().contains(v[i].cc)
                && map[v[i].cc]@ == map[cc]@,
        forall|i: int|
            0 <= i < v.len() ==> map.dom().contains((#[trigger] v[i]).cc) && map[v[i].cc]@
                == v[i].knob@,
        forall|i: int, j: int|
            0 <= i < v.len() && 0 <= j < v.len() && (#[trigger] v[i]).knob@ == (
            #[trigger] v[j]).knob@ ==> i == j,
        map.dom() == Set::<u8>::empty() ==> v.len() == 0,
{
    if map.dom().contains(cc) {
        let i = choose|i: int| 0 <= i < v.len() && (#[trigger] v[i]).knob@ == map[cc]@;
        assert(moves(map, v[i].cc, v[i].knob@));
    }
    if map.dom() == Set::<u8>::empty() && v.len() > 0 {
        assert(moves(map, v[0].cc, v[0].knob@));
    }
}

/// A controller moves one knob at most, the one it is bound to.
pub proof fn law_one_knob_each(map: Map<u8, String>, cc: u8, knob: String, other: Seq<char>)
    ensures
        moves(map.insert(cc, knob), cc, other) == (other == knob@),
        moves(map, cc, other) ==> map.dom().contains(cc),
{
}

/// Of several controllers that move a knob the one with the lowest number is shown, and none for a
/// knob that no controller moves.
pub proof fn law_lowest_controller(r: Option<u8>, map: Map<u8, String>, knob: Seq<char>, cc: u8)
    requires
        is_cc_of(r, map, knob),
    ensures
        moves(map, cc, knob) ==> r is Some && r->0 <= cc,
        r is Some ==> moves(map, r->0, knob),
{
}

} // verus!
