//! Behavior-region timeline mutations: add a window from an archetype, wire or clear an
//! emitter, remove, rename, flip a window between scheduled and template.
//!
//! Every mutation either succeeds or refuses with a message naming the blocker (leaving the
//! timeline untouched). Each one that succeeds keeps the emitter structure resolving (every
//! emitter targets an existing template window; no template carries an emitter) — see
//! [`emitters_resolve`] — and every one but `add_emitter`, `set_spawn_kind(.., true)` and
//! `remove_emitter` also keeps every template referenced by some emitter. `remove_emitter` is the
//! deliberate exception: it is the only way to sever an emitter reference without deleting a
//! window, so it may leave the former target unreferenced until the author removes it, flips it
//! back to scheduled, or points another emitter at it.
use vstd::prelude::*;

use crate::cue_slots::emits;
use crate::model::{
    CastTimeline, CollisionShape, CollisionWindow, Emitter, HitFilter, HitMode, VolumeMotion,
    Vec3Bits, WindowAnchor, WindowPhase, WindowSpawn,
};
use crate::text::{concat, concat3, concat5, decimal, decimal_string, fresh_id, fresh_in, str_eq, taken_has, taken_set};

verus! {

// ---------------------------------------------------------------------------
// Structural invariants
// ---------------------------------------------------------------------------

/// Every emitter targets an existing template window, and no template window carries one.
pub open spec fn emitters_resolve(ws: Seq<CollisionWindow>) -> bool {
    forall|i: int|
        #![trigger ws[i].emitter]
        0 <= i < ws.len() && ws[i].emitter is Some ==> {
            &&& !(ws[i].spawn is Template)
            &&& exists|j: int|
                0 <= j < ws.len() && #[trigger] ws[j].id@ == ws[i].emitter->0.window@
                    && ws[j].spawn is Template
        }
}

/// Every template window is the target of some emitter.
pub open spec fn templates_referenced(ws: Seq<CollisionWindow>) -> bool {
    forall|j: int|
        #![trigger ws[j].spawn]
        0 <= j < ws.len() && ws[j].spawn is Template ==> exists|i: int|
            0 <= i < ws.len() && #[trigger] emits(ws[i], ws[j].id@)
}

/// No two windows share an id.
pub open spec fn ids_unique(ws: Seq<CollisionWindow>) -> bool {
    forall|i: int, j: int|
        0 <= i < ws.len() && 0 <= j < ws.len() && i != j ==> #[trigger] ws[i].id@ != #[trigger] ws[j].id@
}

/// The windows' ids, as a set.
pub open spec fn id_set(ws: Seq<CollisionWindow>) -> Set<Seq<char>> {
    Set::new(|s: Seq<char>| exists|k: int| 0 <= k < ws.len() && #[trigger] ws[k].id@ == s)
}

/// `a` and `b` agree on everything but their windows.
pub open spec fn same_except_windows(a: CastTimeline, b: CastTimeline) -> bool {
    &&& a.skill_id == b.skill_id
    &&& a.phase_durations == b.phase_durations
    &&& a.acquisition == b.acquisition
    &&& a.vfx_cues == b.vfx_cues
    &&& a.chain_radius == b.chain_radius
    &&& a.chargeable == b.chargeable
    &&& a.max_hold == b.max_hold
    &&& a.cues == b.cues
    &&& a.charge_cues == b.charge_cues
}

/// `j` is the first window of `ws` named `id`.
pub open spec fn first_named(ws: Seq<CollisionWindow>, id: Seq<char>, j: int) -> bool {
    0 <= j < ws.len() && ws[j].id@ == id && forall|k: int| 0 <= k < j ==> #[trigger] ws[k].id@ != id
}

/// `j` is the first window of `ws` whose emitter targets `id`.
pub open spec fn first_referrer(ws: Seq<CollisionWindow>, id: Seq<char>, j: int) -> bool {
    0 <= j < ws.len() && emits(ws[j], id) && forall|k: int| 0 <= k < j ==> !#[trigger] emits(ws[k], id)
}

/// Some window of `ws` has an emitter targeting `id`.
pub open spec fn referenced(ws: Seq<CollisionWindow>, id: Seq<char>) -> bool {
    exists|k: int| 0 <= k < ws.len() && #[trigger] emits(ws[k], id)
}

fn find_window(ws: &Vec<CollisionWindow>, id: &str) -> (r: Option<usize>)
    ensures
        match r {
            Some(j) => first_named(ws@, id@, j as int),
            None => forall|k: int| 0 <= k < ws@.len() ==> #[trigger] ws@[k].id@ != id@,
        },
{
    let n = ws.len();
    let mut k: usize = 0;
    while k < n
        invariant
            n == ws@.len(),
            k <= n,
            forall|m: int| 0 <= m < k ==> #[trigger] ws@[m].id@ != id@,
        decreases n - k,
    {
        if str_eq(ws[k].id.as_str(), id) {
            return Some(k);
        }
        k = k + 1;
    }
    None
}

fn window_emits(w: &CollisionWindow, id: &str) -> (r: bool)
    ensures
        r == emits(*w, id@),
{
    match &w.emitter {
        Some(em) => str_eq(em.window.as_str(), id),
        None => false,
    }
}

fn find_referrer(ws: &Vec<CollisionWindow>, id: &str) -> (r: Option<usize>)
    ensures
        match r {
            Some(j) => first_referrer(ws@, id@, j as int),
            None => !referenced(ws@, id@),
        },
{
    let n = ws.len();
    let mut k: usize = 0;
    while k < n
        invariant
            n == ws@.len(),
            k <= n,
            forall|m: int| 0 <= m < k ==> !#[trigger] emits(ws@[m], id@),
        decreases n - k,
    {
        if window_emits(&ws[k], id) {
            return Some(k);
        }
        k = k + 1;
    }
    None
}

fn window_ids(ws: &Vec<CollisionWindow>) -> (r: Vec<String>)
    ensures
        taken_set(r@) == id_set(ws@),
{
    let mut r: Vec<String> = Vec::new();
    let n = ws.len();
    let mut i: usize = 0;
    while i < n
        invariant
            n == ws@.len(),
            i <= n,
            r@.len() == i,
            forall|j: int| 0 <= j < i ==> #[trigger] r@[j]@ == ws@[j].id@,
        decreases n - i,
    {
        r.push(ws[i].id.clone());
        i = i + 1;
    }
    assert forall|s: Seq<char>| taken_set(r@).contains(s) <==> id_set(ws@).contains(s) by {
        if taken_has(r@, s) {
            let k = choose|k: int| 0 <= k < r@.len() && #[trigger] r@[k]@ == s;
            assert(ws@[k].id@ == s);
        }
        if id_set(ws@).contains(s) {
            let k = choose|k: int| 0 <= k < ws@.len() && #[trigger] ws@[k].id@ == s;
            assert(r@[k]@ == s);
        }
    }
    assert(taken_set(r@) =~= id_set(ws@));
    r
}

/// The ids of the template windows of `ws`, in window order: what an emitter can aim at.
pub open spec fn template_ids_of(ws: Seq<CollisionWindow>) -> Seq<Seq<char>>
    decreases ws.len(),
{
    if ws.len() == 0 {
        seq![]
    } else if ws.last().spawn is Template {
        template_ids_of(ws.drop_last()).push(ws.last().id@)
    } else {
        template_ids_of(ws.drop_last())
    }
}

/// The ids of `tl`'s template windows, in window order.
pub fn template_window_ids(tl: &CastTimeline) -> (r: Vec<String>)
    ensures
        r@.map_values(|s: String| s@) == template_ids_of(tl.collision_windows@),
{
    let ws = &tl.collision_windows;
    let mut r: Vec<String> = Vec::new();
    let n = ws.len();
    let mut i: usize = 0;
    while i < n
        invariant
            n == ws@.len(),
            i <= n,
            r@.map_values(|s: String| s@) == template_ids_of(ws@.take(i as int)),
        decreases n - i,
    {
        proof {
            assert(ws@.take(i + 1).drop_last() =~= ws@.take(i as int));
        }
        match ws[i].spawn {
            WindowSpawn::Template => {
                let ghost before = r@;
                r.push(ws[i].id.clone());
                proof {
                    assert(r@.map_values(|s: String| s@) =~= before.map_values(|s: String| s@).push(ws@[i as int].id@));
                }
            },
            WindowSpawn::Scheduled { .. } => {},
        }
        i = i + 1;
    }
    proof {
        assert(ws@.take(n as int) =~= ws@);
    }
    r
}

// ---------------------------------------------------------------------------
// Messages
// ---------------------------------------------------------------------------

/// `r` is an error carrying message `m`.
pub open spec fn err_is<T>(r: Result<T, String>, m: Seq<char>) -> bool {
    match r {
        Err(e) => e@ == m,
        Ok(_) => false,
    }
}

pub open spec fn msg_no_window_at(idx: nat) -> Seq<char> {
    "no window at index "@ + decimal(idx)
}

pub open spec fn msg_template_carries(id: Seq<char>) -> Seq<char> {
    "'"@ + id + "' is a Template and may not itself carry an emitter"@
}

pub open spec fn msg_no_window_named(id: Seq<char>) -> Seq<char> {
    "no window named '"@ + id + "'"@
}

pub open spec fn msg_not_template(id: Seq<char>) -> Seq<char> {
    "'"@ + id + "' is not a Template \u{2014} an emitter may only instantiate a Template window"@
}

pub open spec fn msg_no_emitter(id: Seq<char>) -> Seq<char> {
    "'"@ + id + "' has no emitter to remove"@
}

pub open spec fn msg_template_referenced(id: Seq<char>, referrer: Seq<char>) -> Seq<char> {
    "'"@ + id + "' is a Template referenced by '"@ + referrer
        + "'s emitter \u{2014} remove or repoint that emitter first"@
}

pub open spec fn msg_carries_emitter(id: Seq<char>) -> Seq<char> {
    "'"@ + id + "' carries an emitter \u{2014} remove the emitter (or the Template window it targets) first"@
}

pub open spec fn msg_empty_id() -> Seq<char> {
    "window id can't be empty"@
}

pub open spec fn msg_id_exists(id: Seq<char>) -> Seq<char> {
    "a window named '"@ + id + "' already exists"@
}

pub open spec fn msg_cannot_be_template(id: Seq<char>) -> Seq<char> {
    "'"@ + id + "' carries an emitter \u{2014} a Template window may not itself carry one; remove it first"@
}

pub open spec fn msg_still_referenced(id: Seq<char>, referrer: Seq<char>) -> Seq<char> {
    "'"@ + id + "' is referenced by '"@ + referrer
        + "'s emitter \u{2014} repoint or remove that emitter before making it Scheduled"@
}

fn no_window_at(idx: usize) -> (r: String)
    ensures
        r@ == msg_no_window_at(idx as nat),
{
    let d = decimal_string(idx as u128);
    concat("no window at index ", d.as_str())
}

// ---------------------------------------------------------------------------
// Window archetypes
// ---------------------------------------------------------------------------

/// The four window archetypes the "+ window" picker offers — the same shapes the skill
/// templates author.
#[derive(Debug, Clone, Copy, PartialEq, Eq, Structural)]
pub enum WindowArchetype {
    Strike,
    Projectile,
    Zone,
    Beam,
}

/// Bit pattern of `0.15`.
pub const F32_0_15: u32 = 0x3E19_999Au32;
/// Bit pattern of `2.0`.
pub const F32_2: u32 = 0x4000_0000u32;
/// Bit pattern of `1.5`.
pub const F32_1_5: u32 = 0x3FC0_0000u32;
/// Bit pattern of `0.4`.
pub const F32_0_4: u32 = 0x3ECC_CCCDu32;
/// Bit pattern of `25.0`.
pub const F32_25: u32 = 0x41C8_0000u32;
/// Bit pattern of `3.0`.
pub const F32_3: u32 = 0x4040_0000u32;
/// Bit pattern of `0.5`.
pub const F32_0_5: u32 = 0x3F00_0000u32;
/// Bit pattern of `0.1`.
pub const F32_0_1: u32 = 0x3DCC_CCCDu32;
/// Bit pattern of `1.0`.
pub const F32_1: u32 = 0x3F80_0000u32;
/// Bit pattern of `10.0`.
pub const F32_10: u32 = 0x4120_0000u32;

/// The window every archetype builds, before its id: `(anchor, anchor_offset, active_duration,
/// shape, motion, hit_mode, rehit_interval)`.
pub open spec fn archetype_shape(a: WindowArchetype) -> (
    WindowAnchor,
    Vec3Bits,
    u32,
    CollisionShape,
    VolumeMotion,
    HitMode,
    Option<u32>,
) {
    match a {
        WindowArchetype::Strike => (
            WindowAnchor::Caster,
            Vec3Bits { x: 0, y: F32_1, z: F32_1_5 },
            F32_0_15,
            CollisionShape::Sphere { radius: F32_1_5 },
            VolumeMotion::Static,
            HitMode::OncePerTarget,
            None,
        ),
        WindowArchetype::Projectile => (
            WindowAnchor::Caster,
            Vec3Bits { x: 0, y: 0, z: 0 },
            F32_2,
            CollisionShape::Sphere { radius: F32_0_4 },
            VolumeMotion::Linear { speed: F32_25 },
            HitMode::FirstOnly,
            None,
        ),
        WindowArchetype::Zone => (
            WindowAnchor::CastPoint,
            Vec3Bits { x: 0, y: 0, z: 0 },
            F32_2,
            CollisionShape::Sphere { radius: F32_3 },
            VolumeMotion::Static,
            HitMode::EveryTick,
            Some(F32_0_5),
        ),
        WindowArchetype::Beam => (
            WindowAnchor::Caster,
            Vec3Bits { x: 0, y: 0, z: 0 },
            F32_0_1,
            CollisionShape::Sphere { radius: F32_0_5 },
            VolumeMotion::Beam,
            HitMode::FirstOnly,
            None,
        ),
    }
}

/// `w` is archetype `a`'s window named `id`: scheduled at `Active + 0`, striking, hitting
/// enemies, no emitter, no paint.
pub open spec fn is_archetype_window(w: CollisionWindow, a: WindowArchetype, id: Seq<char>) -> bool {
    let (anchor, offset, duration, shape, motion, hit_mode, rehit) = archetype_shape(a);
    &&& w.id@ == id
    &&& w.spawn == WindowSpawn::Scheduled { phase: WindowPhase::Active, offset: 0 }
    &&& w.anchor == anchor
    &&& w.anchor_offset == offset
    &&& w.strikes
    &&& w.active_duration == duration
    &&& w.shape == shape
    &&& w.motion == motion
    &&& w.hit_filter == HitFilter::Enemies
    &&& w.hit_mode == hit_mode
    &&& w.rehit_interval == rehit
    &&& w.emitter is None
    &&& w.paints is None
}

pub open spec fn archetype_label(a: WindowArchetype) -> Seq<char> {
    match a {
        WindowArchetype::Strike => "Strike (melee sweep)"@,
        WindowArchetype::Projectile => "Projectile (flying bolt)"@,
        WindowArchetype::Zone => "Zone (damage field)"@,
        WindowArchetype::Beam => "Beam (hitscan strike)"@,
    }
}

pub open spec fn archetype_id_base(a: WindowArchetype) -> Seq<char> {
    match a {
        WindowArchetype::Strike => "strike"@,
        WindowArchetype::Projectile => "bolt"@,
        WindowArchetype::Zone => "zone"@,
        WindowArchetype::Beam => "beam"@,
    }
}

impl WindowArchetype {
    /// Every archetype, in picker order.
    pub fn all() -> (r: [WindowArchetype; 4])
        ensures
            r@ == seq![WindowArchetype::Strike, WindowArchetype::Projectile, WindowArchetype::Zone, WindowArchetype::Beam],
    {
        [WindowArchetype::Strike, WindowArchetype::Projectile, WindowArchetype::Zone, WindowArchetype::Beam]
    }

    /// The picker label.
    pub fn label(&self) -> (r: &'static str)
        ensures
            r@ == archetype_label(*self),
    {
        match self {
            WindowArchetype::Strike => "Strike (melee sweep)",
            WindowArchetype::Projectile => "Projectile (flying bolt)",
            WindowArchetype::Zone => "Zone (damage field)",
            WindowArchetype::Beam => "Beam (hitscan strike)",
        }
    }

    /// The id a new window of this archetype starts from.
    pub fn id_base(&self) -> (r: &'static str)
        ensures
            r@ == archetype_id_base(*self),
    {
        match self {
            WindowArchetype::Strike => "strike",
            WindowArchetype::Projectile => "bolt",
            WindowArchetype::Zone => "zone",
            WindowArchetype::Beam => "beam",
        }
    }

    /// This archetype's window, named `id`.
    pub fn build(&self, id: String) -> (r: CollisionWindow)
        ensures
            is_archetype_window(r, *self, id@),
    {
        let spawn = WindowSpawn::Scheduled { phase: WindowPhase::Active, offset: 0 };
        match self {
            WindowArchetype::Strike => CollisionWindow {
                id,
                spawn,
                anchor: WindowAnchor::Caster,
                anchor_offset: Vec3Bits::new(0, F32_1, F32_1_5),
                strikes: true,
                active_duration: F32_0_15,
                shape: CollisionShape::Sphere { radius: F32_1_5 },
                motion: VolumeMotion::Static,
                hit_filter: HitFilter::Enemies,
                hit_mode: HitMode::OncePerTarget,
                rehit_interval: None,
                emitter: None,
                paints: None,
            },
            WindowArchetype::Projectile => CollisionWindow {
                id,
                spawn,
                anchor: WindowAnchor::Caster,
                anchor_offset: Vec3Bits::zero(),
                strikes: true,
                active_duration: F32_2,
                shape: CollisionShape::Sphere { radius: F32_0_4 },
                motion: VolumeMotion::Linear { speed: F32_25 },
                hit_filter: HitFilter::Enemies,
                hit_mode: HitMode::FirstOnly,
                rehit_interval: None,
                emitter: None,
                paints: None,
            },
            WindowArchetype::Zone => CollisionWindow {
                id,
                spawn,
                anchor: WindowAnchor::CastPoint,
                anchor_offset: Vec3Bits::zero(),
                strikes: true,
                active_duration: F32_2,
                shape: CollisionShape::Sphere { radius: F32_3 },
                motion: VolumeMotion::Static,
                hit_filter: HitFilter::Enemies,
                hit_mode: HitMode::EveryTick,
                rehit_interval: Some(F32_0_5),
                emitter: None,
                paints: None,
            },
            WindowArchetype::Beam => CollisionWindow {
                id,
                spawn,
                anchor: WindowAnchor::Caster,
                anchor_offset: Vec3Bits::zero(),
                strikes: true,
                active_duration: F32_0_1,
                shape: CollisionShape::Sphere { radius: F32_0_5 },
                motion: VolumeMotion::Beam,
                hit_filter: HitFilter::Enemies,
                hit_mode: HitMode::FirstOnly,
                rehit_interval: None,
                emitter: None,
                paints: None,
            },
        }
    }
}

/// Pick a window id not already used in `tl`, starting from `base` and appending `_2`, `_3`, ...
/// on collision.
pub fn unique_window_id(tl: &CastTimeline, base: &str) -> (r: String)
    ensures
        fresh_in(id_set(tl.collision_windows@), base@, r@),
{
    let ids = window_ids(&tl.collision_windows);
    fresh_id(base, &ids)
}

/// Append a new scheduled window built from `archetype`, given an id not yet used in `tl`.
/// Returns its index.
pub fn add_window_from_archetype(tl: &mut CastTimeline, archetype: WindowArchetype) -> (r: usize)
    ensures
        same_except_windows(*final(tl), *old(tl)),
        r == old(tl).collision_windows@.len(),
        final(tl).collision_windows@.len() == r + 1,
        final(tl).collision_windows@.take(r as int) == old(tl).collision_windows@,
        fresh_in(
            id_set(old(tl).collision_windows@),
            archetype_id_base(archetype),
            final(tl).collision_windows@[r as int].id@,
        ),
        is_archetype_window(
            final(tl).collision_windows@[r as int],
            archetype,
            final(tl).collision_windows@[r as int].id@,
        ),
        ids_unique(old(tl).collision_windows@) ==> ids_unique(final(tl).collision_windows@),
        emitters_resolve(old(tl).collision_windows@) ==> emitters_resolve(final(tl).collision_windows@),
        templates_referenced(old(tl).collision_windows@) ==> templates_referenced(
            final(tl).collision_windows@,
        ),
{
    let ghost ws = tl.collision_windows@;
    let id = unique_window_id(tl, archetype.id_base());
    let w = archetype.build(id);
    tl.collision_windows.push(w);
    let r = tl.collision_windows.len() - 1;
    proof {
        let t = tl.collision_windows@;
        assert(t.take(r as int) =~= ws);
        let new_id = t[r as int].id@;
        assert(!id_set(ws).contains(new_id));
        if ids_unique(ws) {
            assert forall|i: int, j: int|
                0 <= i < t.len() && 0 <= j < t.len() && i != j implies #[trigger] t[i].id@
                    != #[trigger] t[j].id@ by {
                if i == r {
                    assert(t[j] == ws[j]);
                } else if j == r {
                    assert(t[i] == ws[i]);
                } else {
                    assert(t[i] == ws[i] && t[j] == ws[j]);
                }
            }
        }
        if emitters_resolve(ws) {
            assert forall|i: int|
                #![trigger t[i].emitter]
                0 <= i < t.len() && t[i].emitter is Some implies {
                    &&& !(t[i].spawn is Template)
                    &&& exists|j: int|
                        0 <= j < t.len() && #[trigger] t[j].id@ == t[i].emitter->0.window@
                            && t[j].spawn is Template
                } by {
                assert(t[i] == ws[i]);
                assert(ws[i].emitter is Some);
                let j = choose|j: int|
                    0 <= j < ws.len() && #[trigger] ws[j].id@ == ws[i].emitter->0.window@
                        && ws[j].spawn is Template;
                assert(t[j] == ws[j]);
            }
        }
        if templates_referenced(ws) {
            assert forall|j: int|
                #![trigger t[j].spawn]
                0 <= j < t.len() && t[j].spawn is Template implies exists|i: int|
                    0 <= i < t.len() && #[trigger] emits(t[i], t[j].id@) by {
                assert(t[j] == ws[j]);
                assert(ws[j].spawn is Template);
                let i = choose|i: int| 0 <= i < ws.len() && #[trigger] emits(ws[i], ws[j].id@);
                assert(t[i] == ws[i]);
            }
        }
    }
    r
}

// ---------------------------------------------------------------------------
// Emitters
// ---------------------------------------------------------------------------

/// `w2` is `w` with its emitter set to rain `target` at rate `10.0`, jitter `0.5`.
pub open spec fn with_default_emitter(w2: CollisionWindow, w: CollisionWindow, target: Seq<char>) -> bool {
    &&& w2.id == w.id
    &&& w2.spawn == w.spawn
    &&& w2.anchor == w.anchor
    &&& w2.anchor_offset == w.anchor_offset
    &&& w2.strikes == w.strikes
    &&& w2.active_duration == w.active_duration
    &&& w2.shape == w.shape
    &&& w2.motion == w.motion
    &&& w2.hit_filter == w.hit_filter
    &&& w2.hit_mode == w.hit_mode
    &&& w2.rehit_interval == w.rehit_interval
    &&& w2.paints == w.paints
    &&& w2.emitter matches Some(em) && em.rate == F32_10 && em.jitter == F32_0_5 && em.window@
        == target
}

/// `t` is `s` with only window `idx` changed, to satisfy `p`.
pub open spec fn only_window_changed(t: Seq<CollisionWindow>, s: Seq<CollisionWindow>, idx: int) -> bool {
    &&& t.len() == s.len()
    &&& forall|k: int| 0 <= k < s.len() && k != idx ==> #[trigger] t[k] == s[k]
}

fn set_default_emitter(tl: &mut CastTimeline, idx: usize, target: String)
    requires
        idx < old(tl).collision_windows@.len(),
    ensures
        same_except_windows(*final(tl), *old(tl)),
        only_window_changed(final(tl).collision_windows@, old(tl).collision_windows@, idx as int),
        with_default_emitter(
            final(tl).collision_windows@[idx as int],
            old(tl).collision_windows@[idx as int],
            target@,
        ),
{
    let mut w = tl.collision_windows[idx].clone();
    w.emitter = Some(Emitter { rate: F32_10, jitter: F32_0_5, window: target });
    tl.collision_windows.set(idx, w);
}

/// Wire window `window_idx` to emit into the existing template window `target_window_id` at a
/// default rate (`10.0`) and jitter (`0.5`). Refused if the index is out of range, the source is
/// itself a template, or the first window named `target_window_id` does not exist or is not a
/// template.
pub fn add_emitter(tl: &mut CastTimeline, window_idx: usize, target_window_id: &str) -> (r: Result<(), String>)
    ensures
        same_except_windows(*final(tl), *old(tl)),
        ({
            let ws = old(tl).collision_windows@;
            let t = target_window_id@;
            if window_idx >= ws.len() {
                err_is(r, msg_no_window_at(window_idx as nat)) && *final(tl) == *old(tl)
            } else if ws[window_idx as int].spawn is Template {
                err_is(r, msg_template_carries(ws[window_idx as int].id@)) && *final(tl) == *old(tl)
            } else if !id_set(ws).contains(t) {
                err_is(r, msg_no_window_named(t)) && *final(tl) == *old(tl)
            } else if exists|j: int| first_named(ws, t, j) && !(ws[j].spawn is Template) {
                err_is(r, msg_not_template(t)) && *final(tl) == *old(tl)
            } else {
                &&& r is Ok
                &&& only_window_changed(final(tl).collision_windows@, ws, window_idx as int)
                &&& with_default_emitter(final(tl).collision_windows@[window_idx as int], ws[window_idx as int], t)
            }
        }),
        r is Ok && emitters_resolve(old(tl).collision_windows@) ==> emitters_resolve(final(tl).collision_windows@),
        ids_unique(final(tl).collision_windows@) == ids_unique(old(tl).collision_windows@),
{
    let ghost ws = tl.collision_windows@;
    if window_idx >= tl.collision_windows.len() {
        return Err(no_window_at(window_idx));
    }
    let is_template = match tl.collision_windows[window_idx].spawn {
        WindowSpawn::Template => true,
        _ => false,
    };
    if is_template {
        return Err(concat3("'", tl.collision_windows[window_idx].id.as_str(), "' is a Template and may not itself carry an emitter"));
    }
    let target_idx = match find_window(&tl.collision_windows, target_window_id) {
        Some(j) => j,
        None => {
            proof {
                assert(!id_set(ws).contains(target_window_id@));
            }
            return Err(concat3("no window named '", target_window_id, "'"));
        },
    };
    proof {
        assert(id_set(ws).contains(target_window_id@));
        assert forall|j: int| first_named(ws, target_window_id@, j) implies j == target_idx by {
            if j < target_idx {
            } else if j > target_idx {
                assert(ws[target_idx as int].id@ == target_window_id@);
            }
        }
    }
    let target_is_template = match tl.collision_windows[target_idx].spawn {
        WindowSpawn::Template => true,
        _ => false,
    };
    if !target_is_template {
        return Err(concat3("'", target_window_id, "' is not a Template \u{2014} an emitter may only instantiate a Template window"));
    }
    set_default_emitter(tl, window_idx, String::from_str(target_window_id));
    proof {
        let t = tl.collision_windows@;
        assert(!(exists|j: int| first_named(ws, target_window_id@, j) && !(ws[j].spawn is Template)));
        assert forall|i: int, j: int|
            0 <= i < t.len() && 0 <= j < t.len() && i != j implies (#[trigger] t[i].id@ != #[trigger] t[j].id@) == (ws[i].id@ != ws[j].id@) by {
            if i != window_idx { assert(t[i] == ws[i]); }
            if j != window_idx { assert(t[j] == ws[j]); }
        }
        if ids_unique(t) {
            assert forall|i: int, j: int| 0 <= i < ws.len() && 0 <= j < ws.len() && i != j implies #[trigger] ws[i].id@ != #[trigger] ws[j].id@ by {
                assert(t[i].id@ != t[j].id@);
            }
        }
        if ids_unique(ws) {
            assert forall|i: int, j: int| 0 <= i < t.len() && 0 <= j < t.len() && i != j implies #[trigger] t[i].id@ != #[trigger] t[j].id@ by {
                assert(ws[i].id@ != ws[j].id@);
            }
        }
        if emitters_resolve(ws) {
            assert forall|i: int|
                #![trigger t[i].emitter]
                0 <= i < t.len() && t[i].emitter is Some implies {
                    &&& !(t[i].spawn is Template)
                    &&& exists|j: int|
                        0 <= j < t.len() && #[trigger] t[j].id@ == t[i].emitter->0.window@
                            && t[j].spawn is Template
                } by {
                if i == window_idx {
                    assert(t[target_idx as int].id@ == target_window_id@);
                    if target_idx != window_idx {
                        assert(t[target_idx as int] == ws[target_idx as int]);
                    }
                } else {
                    assert(t[i] == ws[i]);
                    assert(ws[i].emitter is Some);
                    let j = choose|j: int|
                        0 <= j < ws.len() && #[trigger] ws[j].id@ == ws[i].emitter->0.window@
                            && ws[j].spawn is Template;
                    if j != window_idx {
                        assert(t[j] == ws[j]);
                    } else {
                        assert(t[j].id@ == ws[j].id@);
                    }
                }
            }
        }
    }
    Ok(())
}

/// `w2` is `w` renamed to `id`, turned into a template with no emitter: the shard a window
/// emits.
pub open spec fn is_shard_of(w2: CollisionWindow, w: CollisionWindow, id: Seq<char>) -> bool {
    &&& w2.id@ == id
    &&& w2.spawn == WindowSpawn::Template
    &&& w2.anchor == w.anchor
    &&& w2.anchor_offset == w.anchor_offset
    &&& w2.strikes == w.strikes
    &&& w2.active_duration == w.active_duration
    &&& w2.shape == w.shape
    &&& w2.motion == w.motion
    &&& w2.hit_filter == w.hit_filter
    &&& w2.hit_mode == w.hit_mode
    &&& w2.rehit_interval == w.rehit_interval
    &&& w2.paints == w.paints
    &&& w2.emitter is None
}

/// Create a fresh template window — a copy of window `window_idx`'s shape named
/// `{id}_shard` (uniqued), with no emitter — and wire `window_idx` to emit into it at the
/// default rate and jitter. Returns the new window's index.
pub fn add_emitter_with_new_template(tl: &mut CastTimeline, window_idx: usize) -> (r: usize)
    requires
        window_idx < old(tl).collision_windows@.len(),
    ensures
        same_except_windows(*final(tl), *old(tl)),
        ({
            let ws = old(tl).collision_windows@;
            let t = final(tl).collision_windows@;
            &&& r == ws.len()
            &&& t.len() == ws.len() + 1
            &&& fresh_in(id_set(ws), ws[window_idx as int].id@ + "_shard"@, t[r as int].id@)
            &&& is_shard_of(t[r as int], ws[window_idx as int], t[r as int].id@)
            &&& only_window_changed(t.take(r as int), ws, window_idx as int)
            &&& with_default_emitter(t[window_idx as int], ws[window_idx as int], t[r as int].id@)
            &&& ids_unique(ws) ==> ids_unique(t)
            &&& emitters_resolve(ws) && !(ws[window_idx as int].spawn is Template) ==> emitters_resolve(t)
            &&& templates_referenced(ws) && ws[window_idx as int].emitter is None ==> templates_referenced(t)
        }),
{
    let ghost ws = tl.collision_windows@;
    let base = concat(tl.collision_windows[window_idx].id.as_str(), "_shard");
    let new_id = unique_window_id(tl, base.as_str());
    let mut shard = tl.collision_windows[window_idx].clone();
    shard.id = new_id.clone();
    shard.spawn = WindowSpawn::Template;
    shard.emitter = None;
    tl.collision_windows.push(shard);
    let new_idx = tl.collision_windows.len() - 1;
    let ghost mid = tl.collision_windows@;
    set_default_emitter(tl, window_idx, new_id);
    proof {
        let t = tl.collision_windows@;
        let nid = t[new_idx as int].id@;
        assert(t[new_idx as int] == mid[new_idx as int]);
        assert(!id_set(ws).contains(nid));
        assert forall|k: int| 0 <= k < ws.len() && k != window_idx implies #[trigger] t.take(new_idx as int)[k] == ws[k] by {
            assert(t[k] == mid[k]);
        }
        assert forall|k: int| 0 <= k < ws.len() implies #[trigger] t[k].id@ == ws[k].id@ by {
            assert(mid[k] == ws[k]);
        }
        if ids_unique(ws) {
            assert forall|i: int, j: int|
                0 <= i < t.len() && 0 <= j < t.len() && i != j implies #[trigger] t[i].id@
                    != #[trigger] t[j].id@ by {
                if i == new_idx {
                    assert(t[j].id@ == ws[j].id@);
                } else if j == new_idx {
                    assert(t[i].id@ == ws[i].id@);
                } else {
                    assert(t[i].id@ == ws[i].id@ && t[j].id@ == ws[j].id@);
                }
            }
        }
        if emitters_resolve(ws) && !(ws[window_idx as int].spawn is Template) {
            assert forall|i: int|
                #![trigger t[i].emitter]
                0 <= i < t.len() && t[i].emitter is Some implies {
                    &&& !(t[i].spawn is Template)
                    &&& exists|j: int|
                        0 <= j < t.len() && #[trigger] t[j].id@ == t[i].emitter->0.window@
                            && t[j].spawn is Template
                } by {
                if i == window_idx {
                    assert(t[new_idx as int].id@ == nid);
                } else if i == new_idx {
                } else {
                    assert(t[i] == ws[i]) by { assert(mid[i] == ws[i]); }
                    assert(ws[i].emitter is Some);
                    let j = choose|j: int|
                        0 <= j < ws.len() && #[trigger] ws[j].id@ == ws[i].emitter->0.window@
                            && ws[j].spawn is Template;
                    assert(j != window_idx);
                    assert(t[j] == ws[j]) by { assert(mid[j] == ws[j]); }
                }
            }
        }
        if templates_referenced(ws) && ws[window_idx as int].emitter is None {
            assert forall|j: int|
                #![trigger t[j].spawn]
                0 <= j < t.len() && t[j].spawn is Template implies exists|i: int|
                    0 <= i < t.len() && #[trigger] emits(t[i], t[j].id@) by {
                if j == new_idx {
                    assert(emits(t[window_idx as int], t[j].id@));
                } else {
                    if j == window_idx {
                        assert(t[j].spawn == ws[j].spawn);
                    } else {
                        assert(t[j] == ws[j]) by { assert(mid[j] == ws[j]); }
                    }
                    assert(ws[j].spawn is Template);
                    let i = choose|i: int| 0 <= i < ws.len() && #[trigger] emits(ws[i], ws[j].id@);
                    assert(i != window_idx);
                    assert(t[i] == ws[i]) by { assert(mid[i] == ws[i]); }
                }
            }
        }
    }
    new_idx
}

fn replace_window(tl: &mut CastTimeline, idx: usize, w: CollisionWindow)
    requires
        idx < old(tl).collision_windows@.len(),
    ensures
        same_except_windows(*final(tl), *old(tl)),
        final(tl).collision_windows@ == old(tl).collision_windows@.update(idx as int, w),
{
    tl.collision_windows.set(idx, w);
}

/// Clear window `window_idx`'s emitter. Refused if the index is out of range or the window
/// carries no emitter. May leave the former target template unreferenced (see the module doc).
pub fn remove_emitter(tl: &mut CastTimeline, window_idx: usize) -> (r: Result<(), String>)
    ensures
        same_except_windows(*final(tl), *old(tl)),
        ({
            let ws = old(tl).collision_windows@;
            if window_idx >= ws.len() {
                err_is(r, msg_no_window_at(window_idx as nat)) && *final(tl) == *old(tl)
            } else if ws[window_idx as int].emitter is None {
                err_is(r, msg_no_emitter(ws[window_idx as int].id@)) && *final(tl) == *old(tl)
            } else {
                &&& r is Ok
                &&& final(tl).collision_windows@ == ws.update(
                    window_idx as int,
                    CollisionWindow { emitter: None, ..ws[window_idx as int] },
                )
            }
        }),
        ids_unique(old(tl).collision_windows@) ==> ids_unique(final(tl).collision_windows@),
        emitters_resolve(old(tl).collision_windows@) ==> emitters_resolve(final(tl).collision_windows@),
{
    let ghost ws = tl.collision_windows@;
    if window_idx >= tl.collision_windows.len() {
        return Err(no_window_at(window_idx));
    }
    if tl.collision_windows[window_idx].emitter.is_none() {
        return Err(concat3("'", tl.collision_windows[window_idx].id.as_str(), "' has no emitter to remove"));
    }
    let mut w = tl.collision_windows[window_idx].clone();
    w.emitter = None;
    replace_window(tl, window_idx, w);
    proof {
        let t = tl.collision_windows@;
        if ids_unique(ws) {
            assert forall|i: int, j: int|
                0 <= i < t.len() && 0 <= j < t.len() && i != j implies #[trigger] t[i].id@
                    != #[trigger] t[j].id@ by {
                assert(t[i].id@ == ws[i].id@ && t[j].id@ == ws[j].id@);
            }
        }
        if emitters_resolve(ws) {
            assert forall|i: int|
                #![trigger t[i].emitter]
                0 <= i < t.len() && t[i].emitter is Some implies {
                    &&& !(t[i].spawn is Template)
                    &&& exists|j: int|
                        0 <= j < t.len() && #[trigger] t[j].id@ == t[i].emitter->0.window@
                            && t[j].spawn is Template
                } by {
                assert(t[i] == ws[i]);
                assert(ws[i].emitter is Some);
                let j = choose|j: int|
                    0 <= j < ws.len() && #[trigger] ws[j].id@ == ws[i].emitter->0.window@
                        && ws[j].spawn is Template;
                assert(t[j].id@ == ws[j].id@ && t[j].spawn == ws[j].spawn);
            }
        }
    }
    Ok(())
}

// ---------------------------------------------------------------------------
// Remove / rename / spawn-kind flip
// ---------------------------------------------------------------------------

/// Remove window `idx`. Refused if the index is out of range; if the window is a template some
/// emitter targets (naming the first such window); or if the window itself carries an emitter.
pub fn remove_window(tl: &mut CastTimeline, idx: usize) -> (r: Result<(), String>)
    ensures
        same_except_windows(*final(tl), *old(tl)),
        ({
            let ws = old(tl).collision_windows@;
            if idx >= ws.len() {
                err_is(r, msg_no_window_at(idx as nat)) && *final(tl) == *old(tl)
            } else if ws[idx as int].spawn is Template && referenced(ws, ws[idx as int].id@) {
                (exists|j: int|
                    first_referrer(ws, ws[idx as int].id@, j) && err_is(
                        r,
                        msg_template_referenced(ws[idx as int].id@, ws[j].id@),
                    )) && *final(tl) == *old(tl)
            } else if ws[idx as int].emitter is Some {
                err_is(r, msg_carries_emitter(ws[idx as int].id@)) && *final(tl) == *old(tl)
            } else {
                r is Ok && final(tl).collision_windows@ == ws.remove(idx as int)
            }
        }),
        r is Ok && ids_unique(old(tl).collision_windows@) ==> ids_unique(final(tl).collision_windows@),
        r is Ok && emitters_resolve(old(tl).collision_windows@) ==> emitters_resolve(final(tl).collision_windows@),
        r is Ok && templates_referenced(old(tl).collision_windows@) ==> templates_referenced(
            final(tl).collision_windows@,
        ),
{
    let ghost ws = tl.collision_windows@;
    if idx >= tl.collision_windows.len() {
        return Err(no_window_at(idx));
    }
    let id = tl.collision_windows[idx].id.clone();
    let is_template = match tl.collision_windows[idx].spawn {
        WindowSpawn::Template => true,
        _ => false,
    };
    if is_template {
        match find_referrer(&tl.collision_windows, id.as_str()) {
            Some(j) => {
                return Err(concat5(
                    "'",
                    id.as_str(),
                    "' is a Template referenced by '",
                    tl.collision_windows[j].id.as_str(),
                    "'s emitter \u{2014} remove or repoint that emitter first",
                ));
            },
            None => {},
        }
    }
    if tl.collision_windows[idx].emitter.is_some() {
        return Err(concat3("'", id.as_str(), "' carries an emitter \u{2014} remove the emitter (or the Template window it targets) first"));
    }
    tl.collision_windows.remove(idx);
    proof {
        let t = tl.collision_windows@;
        let gone = ws[idx as int];
        assert forall|k: int| 0 <= k < t.len() implies #[trigger] t[k] == ws[if k < idx { k } else { k + 1 }] by {}
        if ids_unique(ws) {
            assert forall|i: int, j: int|
                0 <= i < t.len() && 0 <= j < t.len() && i != j implies #[trigger] t[i].id@
                    != #[trigger] t[j].id@ by {
                let i2 = if i < idx { i } else { i + 1 };
                let j2 = if j < idx { j } else { j + 1 };
                assert(t[i] == ws[i2] && t[j] == ws[j2]);
            }
        }
        if emitters_resolve(ws) {
            assert forall|i: int|
                #![trigger t[i].emitter]
                0 <= i < t.len() && t[i].emitter is Some implies {
                    &&& !(t[i].spawn is Template)
                    &&& exists|j: int|
                        0 <= j < t.len() && #[trigger] t[j].id@ == t[i].emitter->0.window@
                            && t[j].spawn is Template
                } by {
                let i2 = if i < idx { i } else { i + 1 };
                assert(t[i] == ws[i2]);
                assert(ws[i2].emitter is Some);
                let j2 = choose|j: int|
                    0 <= j < ws.len() && #[trigger] ws[j].id@ == ws[i2].emitter->0.window@
                        && ws[j].spawn is Template;
                if j2 == idx {
                    assert(emits(ws[i2], gone.id@));
                    assert(referenced(ws, gone.id@));
                } else {
                    let j = if j2 < idx { j2 } else { j2 - 1 };
                    assert(t[j] == ws[j2]);
                }
            }
        }
        if templates_referenced(ws) {
            assert forall|j: int|
                #![trigger t[j].spawn]
                0 <= j < t.len() && t[j].spawn is Template implies exists|i: int|
                    0 <= i < t.len() && #[trigger] emits(t[i], t[j].id@) by {
                let j2 = if j < idx { j } else { j + 1 };
                assert(t[j] == ws[j2]);
                assert(ws[j2].spawn is Template);
                let i2 = choose|i: int| 0 <= i < ws.len() && #[trigger] emits(ws[i], ws[j2].id@);
                assert(i2 != idx);
                let i = if i2 < idx { i2 } else { i2 - 1 };
                assert(t[i] == ws[i2]);
            }
        }
    }
    Ok(())
}

/// `w2` is `w` after renaming window id `old_id` to `new_id`: its own id replaced when
/// `is_target`, and its emitter repointed when it targeted `old_id`.
pub open spec fn renamed_window(
    w2: CollisionWindow,
    w: CollisionWindow,
    is_target: bool,
    old_id: Seq<char>,
    new_id: Seq<char>,
) -> bool {
    &&& (if is_target { w2.id@ == new_id } else { w2.id == w.id })
    &&& w2.spawn == w.spawn
    &&& w2.anchor == w.anchor
    &&& w2.anchor_offset == w.anchor_offset
    &&& w2.strikes == w.strikes
    &&& w2.active_duration == w.active_duration
    &&& w2.shape == w.shape
    &&& w2.motion == w.motion
    &&& w2.hit_filter == w.hit_filter
    &&& w2.hit_mode == w.hit_mode
    &&& w2.rehit_interval == w.rehit_interval
    &&& w2.paints == w.paints
    &&& match w.emitter {
        None => w2.emitter is None,
        Some(em) => w2.emitter matches Some(em2) && em2.rate == em.rate && em2.jitter == em.jitter && (
        if em.window@ == old_id {
            em2.window@ == new_id
        } else {
            em2.window == em.window
        }),
    }
}

fn repoint(w: &CollisionWindow, old_id: &str, new_id: &str, is_target: bool) -> (r: CollisionWindow)
    ensures
        renamed_window(r, *w, is_target, old_id@, new_id@),
{
    let mut r = w.clone();
    if is_target {
        r.id = String::from_str(new_id);
    }
    match &w.emitter {
        Some(em) => {
            if str_eq(em.window.as_str(), old_id) {
                r.emitter = Some(Emitter { rate: em.rate, jitter: em.jitter, window: String::from_str(new_id) });
            }
        },
        None => {},
    }
    r
}

/// Rename window `idx` to `new_id`, repointing every emitter that targeted the old id. Refused
/// if `new_id` is empty, the index is out of range, or another window already has that id; a
/// no-op success when `new_id` is the window's current id.
pub fn rename_window(tl: &mut CastTimeline, idx: usize, new_id: &str) -> (r: Result<(), String>)
    ensures
        same_except_windows(*final(tl), *old(tl)),
        ({
            let ws = old(tl).collision_windows@;
            let t = final(tl).collision_windows@;
            if new_id@.len() == 0 {
                err_is(r, msg_empty_id()) && *final(tl) == *old(tl)
            } else if idx >= ws.len() {
                err_is(r, msg_no_window_at(idx as nat)) && *final(tl) == *old(tl)
            } else if ws[idx as int].id@ == new_id@ {
                r is Ok && *final(tl) == *old(tl)
            } else if id_set(ws).contains(new_id@) {
                err_is(r, msg_id_exists(new_id@)) && *final(tl) == *old(tl)
            } else {
                &&& r is Ok
                &&& t.len() == ws.len()
                &&& forall|k: int|
                    0 <= k < ws.len() ==> renamed_window(#[trigger] t[k], ws[k], k == idx, ws[idx as int].id@, new_id@)
            }
        }),
        r is Ok && ids_unique(old(tl).collision_windows@) ==> ids_unique(final(tl).collision_windows@),
        r is Ok && ids_unique(old(tl).collision_windows@) && emitters_resolve(old(tl).collision_windows@)
            ==> emitters_resolve(final(tl).collision_windows@),
        r is Ok && ids_unique(old(tl).collision_windows@) && templates_referenced(old(tl).collision_windows@)
            ==> templates_referenced(final(tl).collision_windows@),
{
    let ghost ws = tl.collision_windows@;
    if new_id.unicode_len() == 0 {
        return Err(String::from_str("window id can't be empty"));
    }
    if idx >= tl.collision_windows.len() {
        return Err(no_window_at(idx));
    }
    let old_id = tl.collision_windows[idx].id.clone();
    if str_eq(old_id.as_str(), new_id) {
        return Ok(());
    }
    match find_window(&tl.collision_windows, new_id) {
        Some(_) => {
            return Err(concat3("a window named '", new_id, "' already exists"));
        },
        None => {
            proof {
                assert(!id_set(ws).contains(new_id@));
            }
        },
    }
    let n = tl.collision_windows.len();
    let mut k: usize = 0;
    while k < n
        invariant
            n == ws.len(),
            tl.collision_windows@.len() == n,
            idx < n,
            old_id@ == ws[idx as int].id@,
            same_except_windows(*tl, *old(tl)),
            ws == old(tl).collision_windows@,
            k <= n,
            forall|m: int| 0 <= m < k ==> renamed_window(#[trigger] tl.collision_windows@[m], ws[m], m == idx, old_id@, new_id@),
            forall|m: int| k <= m < n ==> #[trigger] tl.collision_windows@[m] == ws[m],
        decreases n - k,
    {
        let w = repoint(&tl.collision_windows[k], old_id.as_str(), new_id, k == idx);
        replace_window(tl, k, w);
        k = k + 1;
    }
    proof {
        let t = tl.collision_windows@;
        let o = old_id@;
        let nw = new_id@;
        assert(forall|m: int| 0 <= m < n ==> #[trigger] t[m].id@ == (if m == idx { nw } else { ws[m].id@ }));
        if ids_unique(ws) {
            assert forall|i: int, j: int|
                0 <= i < t.len() && 0 <= j < t.len() && i != j implies #[trigger] t[i].id@
                    != #[trigger] t[j].id@ by {
                if i == idx {
                    assert(id_set(ws).contains(ws[j].id@));
                } else if j == idx {
                    assert(id_set(ws).contains(ws[i].id@));
                }
            }
            // the only window named `o` was `idx`
            assert forall|m: int| 0 <= m < n && #[trigger] ws[m].id@ == o implies m == idx by {}
            if emitters_resolve(ws) {
                assert forall|i: int|
                    #![trigger t[i].emitter]
                    0 <= i < t.len() && t[i].emitter is Some implies {
                        &&& !(t[i].spawn is Template)
                        &&& exists|j: int|
                            0 <= j < t.len() && #[trigger] t[j].id@ == t[i].emitter->0.window@
                                && t[j].spawn is Template
                    } by {
                    assert(renamed_window(t[i], ws[i], i == idx, o, nw));
                    assert(ws[i].emitter is Some);
                    let j = choose|j: int|
                        0 <= j < ws.len() && #[trigger] ws[j].id@ == ws[i].emitter->0.window@
                            && ws[j].spawn is Template;
                    assert(renamed_window(t[j], ws[j], j == idx, o, nw));
                    if ws[i].emitter->0.window@ == o {
                        assert(j == idx);
                    } else {
                        assert(j != idx);
                    }
                }
            }
            if templates_referenced(ws) {
                assert forall|j: int|
                    #![trigger t[j].spawn]
                    0 <= j < t.len() && t[j].spawn is Template implies exists|i: int|
                        0 <= i < t.len() && #[trigger] emits(t[i], t[j].id@) by {
                    assert(renamed_window(t[j], ws[j], j == idx, o, nw));
                    assert(ws[j].spawn is Template);
                    let i = choose|i: int| 0 <= i < ws.len() && #[trigger] emits(ws[i], ws[j].id@);
                    assert(renamed_window(t[i], ws[i], i == idx, o, nw));
                    if j == idx {
                        assert(emits(t[i], nw));
                    } else {
                        assert(ws[j].id@ != o);
                        assert(emits(t[i], t[j].id@));
                    }
                }
            }
        }
    }
    Ok(())
}

/// Flip window `idx` to a template (`to_template`) or back to scheduled at `Active + 0`.
/// Refused if the index is out of range; flipping to a template while the window carries an
/// emitter; or flipping back while some emitter still targets it (naming the first such window).
pub fn set_spawn_kind(tl: &mut CastTimeline, idx: usize, to_template: bool) -> (r: Result<(), String>)
    ensures
        same_except_windows(*final(tl), *old(tl)),
        ({
            let ws = old(tl).collision_windows@;
            if idx >= ws.len() {
                err_is(r, msg_no_window_at(idx as nat)) && *final(tl) == *old(tl)
            } else if to_template {
                if ws[idx as int].emitter is Some {
                    err_is(r, msg_cannot_be_template(ws[idx as int].id@)) && *final(tl) == *old(tl)
                } else {
                    r is Ok && final(tl).collision_windows@ == ws.update(
                        idx as int,
                        CollisionWindow { spawn: WindowSpawn::Template, ..ws[idx as int] },
                    )
                }
            } else if referenced(ws, ws[idx as int].id@) {
                (exists|j: int|
                    first_referrer(ws, ws[idx as int].id@, j) && err_is(
                        r,
                        msg_still_referenced(ws[idx as int].id@, ws[j].id@),
                    )) && *final(tl) == *old(tl)
            } else {
                r is Ok && final(tl).collision_windows@ == ws.update(
                    idx as int,
                    CollisionWindow {
                        spawn: WindowSpawn::Scheduled { phase: WindowPhase::Active, offset: 0 },
                        ..ws[idx as int]
                    },
                )
            }
        }),
        ids_unique(final(tl).collision_windows@) == ids_unique(old(tl).collision_windows@),
        r is Ok && emitters_resolve(old(tl).collision_windows@) ==> emitters_resolve(final(tl).collision_windows@),
        r is Ok && !to_template && templates_referenced(old(tl).collision_windows@) ==> templates_referenced(
            final(tl).collision_windows@,
        ),
{
    let ghost ws = tl.collision_windows@;
    if idx >= tl.collision_windows.len() {
        return Err(no_window_at(idx));
    }
    let id = tl.collision_windows[idx].id.clone();
    if to_template {
        if tl.collision_windows[idx].emitter.is_some() {
            return Err(concat3("'", id.as_str(), "' carries an emitter \u{2014} a Template window may not itself carry one; remove it first"));
        }
        let mut w = tl.collision_windows[idx].clone();
        w.spawn = WindowSpawn::Template;
        replace_window(tl, idx, w);
    } else {
        match find_referrer(&tl.collision_windows, id.as_str()) {
            Some(j) => {
                return Err(concat5(
                    "'",
                    id.as_str(),
                    "' is referenced by '",
                    tl.collision_windows[j].id.as_str(),
                    "'s emitter \u{2014} repoint or remove that emitter before making it Scheduled",
                ));
            },
            None => {},
        }
        let mut w = tl.collision_windows[idx].clone();
        w.spawn = WindowSpawn::Scheduled { phase: WindowPhase::Active, offset: 0 };
        replace_window(tl, idx, w);
    }
    proof {
        let t = tl.collision_windows@;
        assert forall|k: int| 0 <= k < t.len() implies #[trigger] t[k].id@ == ws[k].id@ && t[k].emitter
            == ws[k].emitter by {}
        assert(ids_unique(t) == ids_unique(ws)) by {
            if ids_unique(t) {
                assert forall|i: int, j: int| 0 <= i < ws.len() && 0 <= j < ws.len() && i != j implies #[trigger] ws[i].id@ != #[trigger] ws[j].id@ by {
                    assert(t[i].id@ != t[j].id@);
                }
            }
            if ids_unique(ws) {
                assert forall|i: int, j: int| 0 <= i < t.len() && 0 <= j < t.len() && i != j implies #[trigger] t[i].id@ != #[trigger] t[j].id@ by {
                    assert(ws[i].id@ != ws[j].id@);
                }
            }
        }
        if emitters_resolve(ws) {
            assert forall|i: int|
                #![trigger t[i].emitter]
                0 <= i < t.len() && t[i].emitter is Some implies {
                    &&& !(t[i].spawn is Template)
                    &&& exists|j: int|
                        0 <= j < t.len() && #[trigger] t[j].id@ == t[i].emitter->0.window@
                            && t[j].spawn is Template
                } by {
                assert(ws[i].emitter is Some);
                let j = choose|j: int|
                    0 <= j < ws.len() && #[trigger] ws[j].id@ == ws[i].emitter->0.window@
                        && ws[j].spawn is Template;
                if j == idx && !to_template {
                    assert(emits(ws[i], ws[idx as int].id@));
                    assert(referenced(ws, ws[idx as int].id@));
                }
                assert(t[j].id@ == ws[j].id@);
            }
        }
        if !to_template && templates_referenced(ws) {
            assert forall|j: int|
                #![trigger t[j].spawn]
                0 <= j < t.len() && t[j].spawn is Template implies exists|i: int|
                    0 <= i < t.len() && #[trigger] emits(t[i], t[j].id@) by {
                assert(j != idx);
                assert(ws[j].spawn is Template);
                let i = choose|i: int| 0 <= i < ws.len() && #[trigger] emits(ws[i], ws[j].id@);
                assert(t[i].emitter == ws[i].emitter);
                assert(t[j].id@ == ws[j].id@);
                assert(emits(t[i], t[j].id@));
            }
        }
    }
    Ok(())
}

} // verus!
