//! Cue-slot enumeration for the Presentation region.
//!
//! | Slot | `attach` legal | `anim` legal |
//! |---|---|---|
//! | `on_cast` | no (world-anchored) | yes |
//! | `on_window_{id}` | yes | no |
//! | `on_end_{id}` | no (world-anchored) | no |
//! | `emit_{id}` | yes | no |
//! | `on_hit` | no (world-anchored) | no |
//!
//! Order: `on_cast`; then, for every collision window in order (scheduled and template alike),
//! `on_window_{id}` then `on_end_{id}`; then, walking the windows again, each emitter-carrying
//! window's `emit_{target}` (a target emitted by two windows is listed once, at its first
//! emitter); finally `on_hit`.
use vstd::prelude::*;

use crate::model::{CastTimeline, CollisionWindow};
use crate::text::{concat, contains_str};

verus! {

/// One cue slot the Presentation region renders a row for.
#[derive(Debug, PartialEq, Eq)]
pub struct CueSlot {
    /// The `cues` map key this slot binds (`"on_cast"`, `"on_window_bolt"`, ...).
    pub slot_id: String,
    /// Human-readable row label.
    pub label: String,
    pub attach_legal: bool,
    pub anim_legal: bool,
    /// Whether a bone attachment is offered (caster-anchored slots only).
    pub bone_legal: bool,
}

impl Clone for CueSlot {
    fn clone(&self) -> (r: Self)
        ensures
            r == *self,
    {
        CueSlot {
            slot_id: self.slot_id.clone(),
            label: self.label.clone(),
            attach_legal: self.attach_legal,
            anim_legal: self.anim_legal,
            bone_legal: self.bone_legal,
        }
    }
}

/// A slot as plain values: `(slot_id, label, attach_legal, anim_legal, bone_legal)`.
pub type SlotView = (Seq<char>, Seq<char>, bool, bool, bool);

pub open spec fn slot_view(s: CueSlot) -> SlotView {
    (s.slot_id@, s.label@, s.attach_legal, s.anim_legal, s.bone_legal)
}

pub open spec fn on_cast_view() -> SlotView {
    ("on_cast"@, "On Cast"@, false, true, true)
}

pub open spec fn on_window_view(id: Seq<char>) -> SlotView {
    ("on_window_"@ + id, "On Window: "@ + id, true, false, false)
}

pub open spec fn on_end_view(id: Seq<char>) -> SlotView {
    ("on_end_"@ + id, "On End: "@ + id, false, false, false)
}

pub open spec fn emit_view(id: Seq<char>) -> SlotView {
    ("emit_"@ + id, "Emit: "@ + id, true, false, false)
}

pub open spec fn on_hit_view() -> SlotView {
    ("on_hit"@, "On Hit"@, false, false, false)
}

/// The `on_window_`/`on_end_` pair of every window, in window order.
pub open spec fn window_pair_views(ws: Seq<CollisionWindow>) -> Seq<SlotView>
    decreases ws.len(),
{
    if ws.len() == 0 {
        seq![]
    } else {
        window_pair_views(ws.drop_last()) + seq![on_window_view(ws.last().id@), on_end_view(ws.last().id@)]
    }
}

/// Distinct emitter targets, in order of first emitter.
pub open spec fn emit_targets(ws: Seq<CollisionWindow>) -> Seq<Seq<char>>
    decreases ws.len(),
{
    if ws.len() == 0 {
        seq![]
    } else {
        let prev = emit_targets(ws.drop_last());
        match ws.last().emitter {
            Some(em) => if prev.contains(em.window@) {
                prev
            } else {
                prev.push(em.window@)
            },
            None => prev,
        }
    }
}

/// Every slot `tl` offers, in order.
pub open spec fn expected_slots(tl: CastTimeline) -> Seq<SlotView> {
    seq![on_cast_view()] + window_pair_views(tl.collision_windows@) + emit_targets(
        tl.collision_windows@,
    ).map_values(|t: Seq<char>| emit_view(t)) + seq![on_hit_view()]
}

fn on_cast_slot() -> (r: CueSlot)
    ensures
        slot_view(r) == on_cast_view(),
{
    CueSlot {
        slot_id: String::from_str("on_cast"),
        label: String::from_str("On Cast"),
        attach_legal: false,
        anim_legal: true,
        bone_legal: true,
    }
}

fn on_window_slot(id: &str) -> (r: CueSlot)
    ensures
        slot_view(r) == on_window_view(id@),
{
    CueSlot {
        slot_id: concat("on_window_", id),
        label: concat("On Window: ", id),
        attach_legal: true,
        anim_legal: false,
        bone_legal: false,
    }
}

fn on_end_slot(id: &str) -> (r: CueSlot)
    ensures
        slot_view(r) == on_end_view(id@),
{
    CueSlot {
        slot_id: concat("on_end_", id),
        label: concat("On End: ", id),
        attach_legal: false,
        anim_legal: false,
        bone_legal: false,
    }
}

fn emit_slot(id: &str) -> (r: CueSlot)
    ensures
        slot_view(r) == emit_view(id@),
{
    CueSlot {
        slot_id: concat("emit_", id),
        label: concat("Emit: ", id),
        attach_legal: true,
        anim_legal: false,
        bone_legal: false,
    }
}

fn on_hit_slot() -> (r: CueSlot)
    ensures
        slot_view(r) == on_hit_view(),
{
    CueSlot {
        slot_id: String::from_str("on_hit"),
        label: String::from_str("On Hit"),
        attach_legal: false,
        anim_legal: false,
        bone_legal: false,
    }
}

/// The ordered cue slots `timeline` offers for presentation binding — see the module doc for
/// order and legality. Reads only the windows, never the existing bindings.
pub fn cue_slots(timeline: &CastTimeline) -> (r: Vec<CueSlot>)
    ensures
        r@.map_values(|s: CueSlot| slot_view(s)) == expected_slots(*timeline),
{
    let ws = &timeline.collision_windows;
    let n = ws.len();
    let mut slots: Vec<CueSlot> = Vec::new();
    slots.push(on_cast_slot());
    let mut i: usize = 0;
    while i < n
        invariant
            n == ws@.len(),
            ws == &timeline.collision_windows,
            i <= n,
            slots@.map_values(|s: CueSlot| slot_view(s)) == seq![on_cast_view()] + window_pair_views(
                ws@.take(i as int),
            ),
        decreases n - i,
    {
        let ghost before = slots@;
        slots.push(on_window_slot(ws[i].id.as_str()));
        slots.push(on_end_slot(ws[i].id.as_str()));
        proof {
            assert(ws@.take(i + 1).drop_last() =~= ws@.take(i as int));
            assert(ws@.take(i + 1).last() == ws@[i as int]);
            assert(slots@.map_values(|s: CueSlot| slot_view(s)) =~= before.map_values(
                |s: CueSlot| slot_view(s),
            ) + seq![on_window_view(ws@[i as int].id@), on_end_view(ws@[i as int].id@)]);
            assert(slots@.map_values(|s: CueSlot| slot_view(s)) =~= seq![on_cast_view()]
                + window_pair_views(ws@.take(i + 1)));
        }
        i = i + 1;
    }
    proof {
        assert(ws@.take(n as int) =~= ws@);
    }
    let ghost head = slots@.map_values(|s: CueSlot| slot_view(s));
    let mut seen: Vec<String> = Vec::new();
    let mut j: usize = 0;
    while j < n
        invariant
            n == ws@.len(),
            ws == &timeline.collision_windows,
            j <= n,
            head == seq![on_cast_view()] + window_pair_views(ws@),
            seen@.map_values(|s: String| s@) == emit_targets(ws@.take(j as int)),
            slots@.map_values(|s: CueSlot| slot_view(s)) == head + emit_targets(
                ws@.take(j as int),
            ).map_values(|t: Seq<char>| emit_view(t)),
        decreases n - j,
    {
        proof {
            assert(ws@.take(j + 1).drop_last() =~= ws@.take(j as int));
            assert(ws@.take(j + 1).last() == ws@[j as int]);
        }
        match &ws[j].emitter {
            Some(em) => {
                let already = contains_str(&seen, em.window.as_str());
                proof {
                    let prev = emit_targets(ws@.take(j as int));
                    if already {
                        let k = choose|k: int| 0 <= k < seen@.len() && #[trigger] seen@[k]@ == em.window@;
                        assert(prev[k] == em.window@);
                        assert(prev.contains(em.window@));
                    } else {
                        assert forall|k: int| 0 <= k < prev.len() implies prev[k] != em.window@ by {
                            assert(seen@[k]@ == prev[k]);
                        }
                        assert(!prev.contains(em.window@));
                    }
                }
                if !already {
                    let ghost before = slots@;
                    seen.push(em.window.clone());
                    slots.push(emit_slot(em.window.as_str()));
                    proof {
                        assert(slots@.map_values(|s: CueSlot| slot_view(s)) =~= before.map_values(
                            |s: CueSlot| slot_view(s),
                        ).push(emit_view(em.window@)));
                        assert(emit_targets(ws@.take(j + 1)) == emit_targets(ws@.take(j as int)).push(
                            em.window@,
                        ));
                        assert(emit_targets(ws@.take(j + 1)).map_values(|t: Seq<char>| emit_view(t))
                            =~= emit_targets(ws@.take(j as int)).map_values(
                            |t: Seq<char>| emit_view(t),
                        ).push(emit_view(em.window@)));
                    }
                }
            },
            None => {},
        }
        proof {
            assert(seen@.map_values(|s: String| s@) =~= emit_targets(ws@.take(j + 1)));
            assert(slots@.map_values(|s: CueSlot| slot_view(s)) =~= head + emit_targets(
                ws@.take(j + 1),
            ).map_values(|t: Seq<char>| emit_view(t)));
        }
        j = j + 1;
    }
    slots.push(on_hit_slot());
    proof {
        assert(ws@.take(n as int) =~= ws@);
        assert(slots@.map_values(|s: CueSlot| slot_view(s)) =~= expected_slots(*timeline));
    }
    slots
}

/// Window `w` carries an emitter targeting `t`.
pub open spec fn emits(w: CollisionWindow, t: Seq<char>) -> bool {
    match w.emitter {
        Some(em) => em.window@ == t,
        None => false,
    }
}

/// The emit slots name each emitter target exactly once: the targets are distinct, every one is
/// some window's emitter target, and every window's emitter target is among them.
pub proof fn lemma_emit_targets_distinct_and_complete(ws: Seq<CollisionWindow>)
    ensures
        emit_targets(ws).no_duplicates(),
        forall|k: int|
            #![trigger emit_targets(ws)[k]]
            0 <= k < emit_targets(ws).len() ==> exists|i: int|
                0 <= i < ws.len() && emits(#[trigger] ws[i], emit_targets(ws)[k]),
        forall|i: int, t: Seq<char>|
            0 <= i < ws.len() && #[trigger] emits(ws[i], t) ==> emit_targets(ws).contains(t),
    decreases ws.len(),
{
    if ws.len() > 0 {
        let init = ws.drop_last();
        lemma_emit_targets_distinct_and_complete(init);
        let prev = emit_targets(init);
        assert forall|k: int|
            #![trigger emit_targets(ws)[k]]
            0 <= k < emit_targets(ws).len() implies exists|i: int|
            0 <= i < ws.len() && emits(#[trigger] ws[i], emit_targets(ws)[k]) by {
            if k < prev.len() {
                let i = choose|i: int| 0 <= i < init.len() && emits(#[trigger] init[i], prev[k]);
                assert(ws[i] == init[i]);
            } else {
                assert(ws[ws.len() - 1] == ws.last());
            }
        }
        assert forall|i: int, t: Seq<char>|
            0 <= i < ws.len() && #[trigger] emits(ws[i], t) implies emit_targets(ws).contains(t) by {
            if i < init.len() {
                assert(ws[i] == init[i]);
                let k = choose|k: int| 0 <= k < prev.len() && prev[k] == t;
                assert(emit_targets(ws)[k] == prev[k]);
            } else {
                if prev.contains(t) {
                    let k = choose|k: int| 0 <= k < prev.len() && prev[k] == t;
                    assert(emit_targets(ws)[k] == prev[k]);
                } else {
                    assert(emit_targets(ws)[prev.len() as int] == t);
                }
            }
        }
    }
}

} // verus!
