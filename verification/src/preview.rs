//! The preview's pure lookups: which cue id each slot fires, the motion of the window a fired
//! window cue belongs to, and the deduplicated list of staged pre-paints.
use vstd::prelude::*;

use crate::floatbits::{f32_eq, f32_eq_exec, f32_le, f32_le_exec, F32Bits};
use crate::model::{CastTimeline, ChargeTier, CollisionWindow, CueEntry, Vec3Bits, VfxCueEntry, VolumeMotion};
use crate::text::{str_eq, strip_prefix};

verus! {

pub open spec fn vfx_entry_view(e: VfxCueEntry) -> (Seq<char>, Seq<char>) {
    (e.slot@, e.cue_id@)
}

pub open spec fn vfx_entry_views(s: Seq<VfxCueEntry>) -> Seq<(Seq<char>, Seq<char>)> {
    s.map_values(|e: VfxCueEntry| vfx_entry_view(e))
}

/// Some binding of `cues` is for `slot`.
pub open spec fn has_cue_slot(cues: Seq<CueEntry>, slot: Seq<char>) -> bool {
    exists|k: int| 0 <= k < cues.len() && #[trigger] cues[k].slot@ == slot
}

/// The slot-to-cue-id entries the preview fires by: every bound slot fires under its own name,
/// then every authored `vfx_cues` entry whose slot has no binding (a bound slot's own name wins).
pub open spec fn derived_vfx_cues(tl: CastTimeline) -> Seq<(Seq<char>, Seq<char>)> {
    tl.cues@.map_values(|c: CueEntry| (c.slot@, c.slot@)) + vfx_entry_views(
        tl.vfx_cues@.filter(|e: VfxCueEntry| !has_cue_slot(tl.cues@, e.slot@)),
    )
}

fn has_cue_slot_exec(cues: &Vec<CueEntry>, slot: &str) -> (r: bool)
    ensures
        r == has_cue_slot(cues@, slot@),
{
    let n = cues.len();
    let mut k: usize = 0;
    while k < n
        invariant
            n == cues@.len(),
            k <= n,
            forall|j: int| 0 <= j < k ==> (#[trigger] cues@[j]).slot@ != slot@,
        decreases n - k,
    {
        if str_eq(cues[k].slot.as_str(), slot) {
            return true;
        }
        k = k + 1;
    }
    false
}

/// The slot-to-cue-id map the preview's cue firing reads (see [`derived_vfx_cues`]).
pub fn derive_vfx_cues(tl: &CastTimeline) -> (r: Vec<VfxCueEntry>)
    ensures
        vfx_entry_views(r@) == derived_vfx_cues(*tl),
{
    let mut out: Vec<VfxCueEntry> = Vec::new();
    let n = tl.cues.len();
    let mut i: usize = 0;
    while i < n
        invariant
            n == tl.cues@.len(),
            i <= n,
            vfx_entry_views(out@) == tl.cues@.take(i as int).map_values(|c: CueEntry| (c.slot@, c.slot@)),
        decreases n - i,
    {
        let ghost before = out@;
        out.push(VfxCueEntry { slot: tl.cues[i].slot.clone(), cue_id: tl.cues[i].slot.clone() });
        proof {
            assert(tl.cues@.take(i + 1) =~= tl.cues@.take(i as int).push(tl.cues@[i as int]));
            assert(vfx_entry_views(out@) =~= vfx_entry_views(before).push(vfx_entry_view(out@.last())));
            assert(vfx_entry_views(out@) =~= tl.cues@.take(i + 1).map_values(|c: CueEntry| (c.slot@, c.slot@)));
        }
        i = i + 1;
    }
    assert(tl.cues@.take(n as int) =~= tl.cues@);
    let ghost head = vfx_entry_views(out@);
    let ghost keep = |e: VfxCueEntry| !has_cue_slot(tl.cues@, e.slot@);
    let m = tl.vfx_cues.len();
    let mut j: usize = 0;
    while j < m
        invariant
            m == tl.vfx_cues@.len(),
            j <= m,
            keep == (|e: VfxCueEntry| !has_cue_slot(tl.cues@, e.slot@)),
            vfx_entry_views(out@) == head + vfx_entry_views(tl.vfx_cues@.take(j as int).filter(keep)),
        decreases m - j,
    {
        let e = &tl.vfx_cues[j];
        let ghost before = out@;
        proof {
            assert(tl.vfx_cues@.take(j + 1).drop_last() =~= tl.vfx_cues@.take(j as int));
            assert(tl.vfx_cues@.take(j + 1).last() == tl.vfx_cues@[j as int]);
            reveal(Seq::filter);
        }
        if !has_cue_slot_exec(&tl.cues, e.slot.as_str()) {
            out.push(VfxCueEntry { slot: e.slot.clone(), cue_id: e.cue_id.clone() });
            proof {
                assert(vfx_entry_views(out@) =~= vfx_entry_views(before).push(vfx_entry_view(out@.last())));
                assert(tl.vfx_cues@.take(j + 1).filter(keep) =~= tl.vfx_cues@.take(j as int).filter(keep).push(*e));
                assert(vfx_entry_views(out@) =~= head + vfx_entry_views(tl.vfx_cues@.take(j + 1).filter(keep)));
            }
        } else {
            proof {
                assert(tl.vfx_cues@.take(j + 1).filter(keep) =~= tl.vfx_cues@.take(j as int).filter(keep));
            }
        }
        j = j + 1;
    }
    assert(tl.vfx_cues@.take(m as int) =~= tl.vfx_cues@);
    out
}

/// The window id a window cue names: the rest of `on_window_{id}`, else of `emit_{id}`.
pub open spec fn cue_window_id(cue_id: Seq<char>) -> Option<Seq<char>> {
    let a = "on_window_"@;
    let b = "emit_"@;
    if cue_id.len() >= a.len() && cue_id.subrange(0, a.len() as int) == a {
        Some(cue_id.subrange(a.len() as int, cue_id.len() as int))
    } else if cue_id.len() >= b.len() && cue_id.subrange(0, b.len() as int) == b {
        Some(cue_id.subrange(b.len() as int, cue_id.len() as int))
    } else {
        None
    }
}

/// `ws[k]` is the first window named `id`.
pub open spec fn first_window(ws: Seq<CollisionWindow>, id: Seq<char>, k: int) -> bool {
    &&& 0 <= k < ws.len()
    &&& ws[k].id@ == id
    &&& forall|j: int| 0 <= j < k ==> (#[trigger] ws[j]).id@ != id
}

/// The motion of the window a fired `on_window_{id}` / `emit_{id}` cue belongs to.
pub fn window_motion_for_cue(tl: &CastTimeline, cue_id: &str) -> (r: Option<VolumeMotion>)
    ensures
        match cue_window_id(cue_id@) {
            None => r is None,
            Some(id) => if exists|k: int| first_window(tl.collision_windows@, id, k) {
                r == Some(tl.collision_windows@[choose|k: int| first_window(tl.collision_windows@, id, k)].motion)
            } else {
                r is None
            },
        },
{
    let window_id = match strip_prefix(cue_id, "on_window_") {
        Some(rest) => rest,
        None => match strip_prefix(cue_id, "emit_") {
            Some(rest) => rest,
            None => {
                return None;
            },
        },
    };
    proof {
        assert(cue_id@.skip("on_window_"@.len() as int) =~= cue_id@.subrange("on_window_"@.len() as int, cue_id@.len() as int));
        assert(cue_id@.skip("emit_"@.len() as int) =~= cue_id@.subrange("emit_"@.len() as int, cue_id@.len() as int));
        assert(cue_window_id(cue_id@) == Some(window_id@));
    }
    let ws = &tl.collision_windows;
    let n = ws.len();
    let mut k: usize = 0;
    while k < n
        invariant
            n == ws@.len(),
            k <= n,
            ws == &tl.collision_windows,
            cue_window_id(cue_id@) == Some(window_id@),
            forall|j: int| 0 <= j < k ==> (#[trigger] ws@[j]).id@ != window_id@,
        decreases n - k,
    {
        if str_eq(ws[k].id.as_str(), window_id.as_str()) {
            proof {
                assert(first_window(ws@, window_id@, k as int));
                let kk = choose|kk: int| first_window(ws@, window_id@, kk);
                if kk < k {
                } else if kk > k {
                    assert(ws@[k as int].id@ != window_id@);
                }
            }
            return Some(ws[k].motion);
        }
        k = k + 1;
    }
    None
}

/// A staged pre-paint: a surface at a position.
#[derive(Debug)]
pub struct StagedPaint {
    pub surface: String,
    pub position: Vec3Bits,
}

/// `Vec3 == Vec3`: every component equal as a float.
pub open spec fn vec3_eq(a: Vec3Bits, b: Vec3Bits) -> bool {
    f32_eq(a.x, b.x) && f32_eq(a.y, b.y) && f32_eq(a.z, b.z)
}

/// Some staged paint is `surface` at `pos`.
pub open spec fn is_staged(staged: Seq<StagedPaint>, surface: Seq<char>, pos: Vec3Bits) -> bool {
    exists|k: int| 0 <= k < staged.len() && #[trigger] staged[k].surface@ == surface && vec3_eq(staged[k].position, pos)
}

/// The staged paints as plain values.
pub open spec fn staged_view(staged: Seq<StagedPaint>) -> Seq<(Seq<char>, Vec3Bits)> {
    staged.map_values(|p: StagedPaint| (p.surface@, p.position))
}

/// Some staged paint (as plain values) is `surface` at `pos`.
pub open spec fn is_staged_view(v: Seq<(Seq<char>, Vec3Bits)>, surface: Seq<char>, pos: Vec3Bits) -> bool {
    exists|k: int| 0 <= k < v.len() && (#[trigger] v[k]).0 == surface && vec3_eq(v[k].1, pos)
}

/// The staged list after staging `surface` at `pos`: unchanged when an identical paint is
/// already staged, else with it appended.
pub open spec fn after_staging(v: Seq<(Seq<char>, Vec3Bits)>, surface: Seq<char>, pos: Vec3Bits) -> Seq<(Seq<char>, Vec3Bits)> {
    if is_staged_view(v, surface, pos) {
        v
    } else {
        v.push((surface, pos))
    }
}

/// Stage a pre-paint unless an identical one is already staged; `true` when it was added.
pub fn push_staged_dedup(staged: &mut Vec<StagedPaint>, surface: &str, pos: Vec3Bits) -> (r: bool)
    ensures
        r == !is_staged(old(staged)@, surface@, pos),
        staged_view(final(staged)@) == after_staging(staged_view(old(staged)@), surface@, pos),
        r ==> final(staged)@.drop_last() == old(staged)@,
        !r ==> final(staged)@ == old(staged)@,
{
    let n = staged.len();
    let mut k: usize = 0;
    while k < n
        invariant
            n == staged@.len(),
            k <= n,
            forall|j: int| 0 <= j < k ==> !((#[trigger] staged@[j]).surface@ == surface@ && vec3_eq(staged@[j].position, pos)),
        decreases n - k,
    {
        let s = &staged[k];
        if str_eq(s.surface.as_str(), surface) && f32_eq_exec(s.position.x, pos.x) && f32_eq_exec(s.position.y, pos.y)
            && f32_eq_exec(s.position.z, pos.z) {
            proof {
                assert(staged_view(staged@)[k as int] == (staged@[k as int].surface@, staged@[k as int].position));
                assert(is_staged_view(staged_view(staged@), surface@, pos));
            }
            return false;
        }
        k = k + 1;
    }
    let ghost before = staged@;
    proof {
        assert forall|k: int| 0 <= k < staged_view(before).len() implies !((#[trigger] staged_view(before)[k]).0 == surface@
            && vec3_eq(staged_view(before)[k].1, pos)) by {
            assert(!(staged@[k].surface@ == surface@ && vec3_eq(staged@[k].position, pos)));
        }
    }
    staged.push(StagedPaint { surface: String::from_str(surface), position: pos });
    assert(staged@.drop_last() =~= before);
    assert(staged_view(staged@) =~= staged_view(before).push((surface@, pos)));
    true
}

/// `tiers[k]` is the active charge tier at charge fraction `frac`: the last tier whose threshold
/// is at most `frac` (as floats).
pub open spec fn is_active_tier(tiers: Seq<ChargeTier>, frac: F32Bits, k: int) -> bool {
    &&& 0 <= k < tiers.len()
    &&& f32_le(tiers[k].threshold, frac)
    &&& forall|j: int| k < j < tiers.len() ==> !f32_le(#[trigger] tiers[j].threshold, frac)
}

/// The active charge tier at charge fraction `frac` (see [`is_active_tier`]); none when no
/// threshold is reached.
pub fn active_tier(tiers: &Vec<ChargeTier>, frac: F32Bits) -> (r: Option<usize>)
    ensures
        match r {
            Some(k) => is_active_tier(tiers@, frac, k as int),
            None => forall|j: int| 0 <= j < tiers@.len() ==> !f32_le(#[trigger] tiers@[j].threshold, frac),
        },
{
    let mut k: usize = tiers.len();
    while k > 0
        invariant
            k <= tiers@.len(),
            forall|j: int| k <= j < tiers@.len() ==> !f32_le(#[trigger] tiers@[j].threshold, frac),
        decreases k,
    {
        if f32_le_exec(tiers[k - 1].threshold, frac) {
            return Some(k - 1);
        }
        k = k - 1;
    }
    None
}

/// The tier preview currently shown: which skill's tier, and the quantized charge last applied.
#[derive(Debug)]
pub struct ShownTier {
    pub skill: String,
    pub tier: usize,
    pub applied_step: i32,
}

/// What the tier preview does this frame.
#[derive(Debug, Clone, Copy, PartialEq, Eq, Structural)]
pub enum TierAction {
    /// Nothing shown, nothing to show.
    Idle,
    /// Remove the shown preview: no tier is reached.
    Clear,
    /// Remove any shown preview and show tier `t` afresh.
    Show(usize),
    /// Keep tier `t`, re-applying its params for the new charge step.
    Restream(usize),
    /// Keep tier `t` as it is.
    Keep(usize),
}

/// The tier preview's decision, from what is shown, the open skill, the active tier and the
/// quantized charge step.
pub open spec fn tier_action(shown: Option<ShownTier>, skill: Seq<char>, target: Option<usize>, step: i32) -> TierAction {
    match target {
        None => match shown {
            None => TierAction::Idle,
            Some(_) => TierAction::Clear,
        },
        Some(t) => match shown {
            Some(s) => if s.skill@ != skill || s.tier != t {
                TierAction::Show(t)
            } else if s.applied_step != step {
                TierAction::Restream(t)
            } else {
                TierAction::Keep(t)
            },
            None => TierAction::Show(t),
        },
    }
}

/// Decide the tier preview's action (see [`tier_action`]).
pub fn tier_preview_action(shown: &Option<ShownTier>, skill: &str, target: Option<usize>, step: i32) -> (r: TierAction)
    ensures
        r == tier_action(*shown, skill@, target, step),
{
    match target {
        None => match shown {
            None => TierAction::Idle,
            Some(_) => TierAction::Clear,
        },
        Some(t) => match shown {
            Some(s) => if !str_eq(s.skill.as_str(), skill) || s.tier != t {
                TierAction::Show(t)
            } else if s.applied_step != step {
                TierAction::Restream(t)
            } else {
                TierAction::Keep(t)
            },
            None => TierAction::Show(t),
        },
    }
}

} // verus!
