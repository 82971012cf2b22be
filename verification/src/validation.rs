//! `validate_skill`: every authoring rule run against one skill entry (the currently edited
//! copy) and its cross-reference libraries. Each problem is tagged blocking (gates Save) or not
//! (a warning).
//!
//! Rules, in report order:
//! - trigger conditions: a target naming no skill (blocking); a lifecycle trigger
//!   (`OnImpact`/`OnExpire`) whose target has no real timeline (blocking); a hit-phase trigger
//!   whose target has no real timeline (warning — it resolves as an inline packet); a target
//!   with a real timeline that is not `additional` (blocking); `EveryNthHit` on a target with a
//!   real timeline (blocking);
//! - cue bindings naming an unknown effect preset, or an unknown animation clip when an
//!   animation library is loaded (blocking);
//! - charge tiers: threshold outside `[0, 1]`, not above the previous tier's, `Follow` attach,
//!   a bone attach with no socket, unknown effect or clip (blocking); tiers authored on a
//!   non-chargeable timeline (warning);
//! - surface paints: empty or unknown surface, radius, trail step or lifetime override not
//!   `> 0` (blocking); a ground-point `on_surface` gate naming an unknown surface, at any depth
//!   of the fallback chain (blocking);
//! - template windows authoring a non-default anchor or offset (warning);
//! - a trigger graph reaching deeper than 8 hops from this skill (blocking);
//! - the structural timeline check's error, verbatim (blocking), tagged to the first window whose
//!   quoted id the message names.
//!
//! "Real timeline" means the CURRENT timeline has at least one collision window — this entry's
//! own live copy for itself, the library's copy for every other skill.
use vstd::prelude::*;

use crate::floatbits::{f32_eq, f32_eq_zero, f32_in_unit_range, f32_le, f32_le_exec, f32_le_zero, F32_ONE, F32_ZERO};
use crate::library::{SkillEntry, SkillLibrary};
use crate::model::{
    AcqFallback, Acquisition, CueAttach, CueEntry, ChargeTier, CollisionWindow,
    ConditionPhase, PaintMode, PaintSpec, SkillCondition, SkillRules, Vec3Bits, WindowAnchor, WindowSpawn,
};
use crate::text::{concat, concat3, concat5, contains_str, contains_sub, str_contains, decimal, decimal_string, str_eq, taken_has};

verus! {

/// Hard cap on the trigger-graph walk depth: a skill reachable more than this many hops away is
/// blocking.
pub const MAX_TRIGGER_DEPTH: u32 = 8;

/// One validation problem. `target` names what it is about: `"condition:{index}"`,
/// `"window:{window_id}"`, `"cue:{slot_key}"` (`"cue:charge"` for charge tiers),
/// `"acquisition"`, or `"skill"`.
#[derive(Debug, PartialEq)]
pub struct Problem {
    pub target: String,
    pub message: String,
    pub blocking: bool,
}

impl Clone for Problem {
    fn clone(&self) -> (r: Self)
        ensures
            r == *self,
    {
        Problem { target: self.target.clone(), message: self.message.clone(), blocking: self.blocking }
    }
}

/// A problem as plain values `(target, message, blocking)`.
pub type ProblemView = (Seq<char>, Seq<char>, bool);

pub open spec fn problem_view(p: Problem) -> ProblemView {
    (p.target@, p.message@, p.blocking)
}

pub open spec fn views(ps: Seq<Problem>) -> Seq<ProblemView> {
    ps.map_values(|p: Problem| problem_view(p))
}

/// One skill's validation problems.
#[derive(Debug, Default, PartialEq)]
pub struct ValidationReport {
    pub problems: Vec<Problem>,
}

/// The problems of `ps` whose target is `t`, in order.
pub open spec fn with_target(ps: Seq<Problem>, t: Seq<char>) -> Seq<Problem>
    decreases ps.len(),
{
    if ps.len() == 0 {
        seq![]
    } else if ps.last().target@ == t {
        with_target(ps.drop_last(), t).push(ps.last())
    } else {
        with_target(ps.drop_last(), t)
    }
}

/// The messages of the blocking problems of `ps`, in order.
pub open spec fn blocking_msgs(ps: Seq<Problem>) -> Seq<Seq<char>>
    decreases ps.len(),
{
    if ps.len() == 0 {
        seq![]
    } else if ps.last().blocking {
        blocking_msgs(ps.drop_last()).push(ps.last().message@)
    } else {
        blocking_msgs(ps.drop_last())
    }
}

pub open spec fn condition_target(index: nat) -> Seq<char> {
    "condition:"@ + decimal(index)
}

pub open spec fn window_target(id: Seq<char>) -> Seq<char> {
    "window:"@ + id
}

pub open spec fn cue_target(slot: Seq<char>) -> Seq<char> {
    "cue:"@ + slot
}

impl ValidationReport {
    fn with_target_exec(&self, t: &str) -> (r: Vec<Problem>)
        ensures
            r@ == with_target(self.problems@, t@),
    {
        let ps = &self.problems;
        let n = ps.len();
        let mut out: Vec<Problem> = Vec::new();
        let mut i: usize = 0;
        while i < n
            invariant
                n == ps@.len(),
                ps == &self.problems,
                i <= n,
                out@ == with_target(ps@.take(i as int), t@),
            decreases n - i,
        {
            proof {
                assert(ps@.take(i + 1).drop_last() =~= ps@.take(i as int));
                assert(ps@.take(i + 1).last() == ps@[i as int]);
            }
            if str_eq(ps[i].target.as_str(), t) {
                out.push(ps[i].clone());
            }
            i = i + 1;
        }
        proof {
            assert(ps@.take(n as int) =~= ps@);
        }
        out
    }

    /// Problems whose target is `"condition:{index}"`.
    pub fn for_condition(&self, index: usize) -> (r: Vec<Problem>)
        ensures
            r@ == with_target(self.problems@, condition_target(index as nat)),
    {
        let d = decimal_string(index as u128);
        let t = concat("condition:", d.as_str());
        self.with_target_exec(t.as_str())
    }

    /// Problems whose target is `"window:{window_id}"`.
    pub fn for_window(&self, window_id: &str) -> (r: Vec<Problem>)
        ensures
            r@ == with_target(self.problems@, window_target(window_id@)),
    {
        let t = concat("window:", window_id);
        self.with_target_exec(t.as_str())
    }

    /// Problems whose target is `"cue:{slot_key}"`.
    pub fn for_cue(&self, slot_key: &str) -> (r: Vec<Problem>)
        ensures
            r@ == with_target(self.problems@, cue_target(slot_key@)),
    {
        let t = concat("cue:", slot_key);
        self.with_target_exec(t.as_str())
    }

    /// `true` when any problem is blocking — gates Save.
    pub fn has_blocking(&self) -> (r: bool)
        ensures
            r == exists|i: int| 0 <= i < self.problems@.len() && (#[trigger] self.problems@[i]).blocking,
    {
        let n = self.problems.len();
        let mut i: usize = 0;
        while i < n
            invariant
                n == self.problems@.len(),
                i <= n,
                forall|j: int| 0 <= j < i ==> !(#[trigger] self.problems@[j]).blocking,
            decreases n - i,
        {
            if self.problems[i].blocking {
                return true;
            }
            i = i + 1;
        }
        false
    }

    /// Every blocking problem's message, in order — the Save button's disabled tooltip.
    pub fn blocking_messages(&self) -> (r: Vec<String>)
        ensures
            r@.map_values(|s: String| s@) == blocking_msgs(self.problems@),
    {
        let ps = &self.problems;
        let n = ps.len();
        let mut out: Vec<String> = Vec::new();
        let mut i: usize = 0;
        while i < n
            invariant
                n == ps@.len(),
                ps == &self.problems,
                i <= n,
                out@.map_values(|s: String| s@) == blocking_msgs(ps@.take(i as int)),
            decreases n - i,
        {
            proof {
                assert(ps@.take(i + 1).drop_last() =~= ps@.take(i as int));
                assert(ps@.take(i + 1).last() == ps@[i as int]);
            }
            if ps[i].blocking {
                out.push(ps[i].message.clone());
            }
            proof {
                assert(out@.map_values(|s: String| s@) =~= blocking_msgs(ps@.take(i + 1)));
            }
            i = i + 1;
        }
        proof {
            assert(ps@.take(n as int) =~= ps@);
        }
        out
    }
}

/// A blocking report has a blocking message, and only then.
pub proof fn lemma_blocking_iff_messages(ps: Seq<Problem>)
    ensures
        (exists|i: int| 0 <= i < ps.len() && (#[trigger] ps[i]).blocking) <==> blocking_msgs(ps).len() > 0,
    decreases ps.len(),
{
    if ps.len() > 0 {
        lemma_blocking_iff_messages(ps.drop_last());
        if exists|i: int| 0 <= i < ps.drop_last().len() && (#[trigger] ps.drop_last()[i]).blocking {
            let i = choose|i: int| 0 <= i < ps.drop_last().len() && (#[trigger] ps.drop_last()[i]).blocking;
            assert(ps[i] == ps.drop_last()[i]);
        }
        if exists|i: int| 0 <= i < ps.len() && (#[trigger] ps[i]).blocking {
            let i = choose|i: int| 0 <= i < ps.len() && (#[trigger] ps[i]).blocking;
            if i < ps.len() - 1 {
                assert(ps.drop_last()[i] == ps[i]);
            }
        }
    }
}

// ---------------------------------------------------------------------------
// What the rules consult
// ---------------------------------------------------------------------------

/// The names validation resolves cue bindings and paints against.
pub struct KnownNames {
    /// Effect-library preset names.
    pub effects: Vec<String>,
    /// Vfx-library preset names.
    pub vfx: Vec<String>,
    /// Loaded surface type ids.
    pub surfaces: Vec<String>,
    /// Animation clip keys, when an animation library is loaded.
    pub anim_clips: Option<Vec<String>>,
}

/// `t` names a skill with a real timeline: this entry itself when `t` is its id, else the
/// library's entry.
pub open spec fn has_handle(entry: SkillEntry, library: SkillLibrary, t: Seq<char>) -> bool {
    if t == entry.key() {
        entry.timeline.collision_windows@.len() > 0
    } else {
        library.map().dom().contains(t) && library.map()[t].timeline.collision_windows@.len() > 0
    }
}

/// `t` names a skill at all: this entry or one in the library.
pub open spec fn target_known(entry: SkillEntry, library: SkillLibrary, t: Seq<char>) -> bool {
    t == entry.key() || library.map().dom().contains(t)
}

/// A lifecycle trigger whose target has no real timeline.
pub open spec fn is_invalid_lifecycle_target(c: SkillCondition, handle: bool) -> bool {
    c.condition.spec_phase() == ConditionPhase::Lifecycle && !handle
}

/// A trigger whose target has a real timeline but which is not `additional`.
pub open spec fn is_invalid_timeline_target(c: SkillCondition, handle: bool) -> bool {
    handle && !c.additional
}

/// `EveryNthHit` on a trigger whose target has a real timeline.
pub open spec fn is_unsupported_timeline_condition(c: SkillCondition, handle: bool) -> bool {
    handle && c.condition is EveryNthHit
}

pub open spec fn blocking(t: Seq<char>, m: Seq<char>) -> ProblemView {
    (t, m, true)
}

pub open spec fn warning(t: Seq<char>, m: Seq<char>) -> ProblemView {
    (t, m, false)
}

pub open spec fn msg_no_target() -> Seq<char> {
    "trigger has no target skill selected"@
}

pub open spec fn msg_dangling(t: Seq<char>) -> Seq<char> {
    "trigger_skill '"@ + t + "' does not exist"@
}

pub open spec fn msg_lifecycle(t: Seq<char>) -> Seq<char> {
    "'"@ + t
        + "' is triggered on Lifecycle, but has no timeline \u{2014} OnImpact/OnExpire triggers require the target to have a real timeline"@
}

pub open spec fn msg_inline_packet() -> Seq<char> {
    "has no timeline \u{2014} this trigger resolves as an inline packet (legal), not a spatial cast"@
}

pub open spec fn msg_not_additional() -> Seq<char> {
    "has a timeline \u{2014} timeline-target triggers must be additional = true"@
}

pub open spec fn msg_every_nth() -> Seq<char> {
    "EveryNthHit is not supported on timeline-target triggers (its counter lives inside stat_core's calc path, which a timeline-target trigger never reaches)"@
}

/// The problems of condition `i`.
pub open spec fn condition_problems(entry: SkillEntry, library: SkillLibrary, c: SkillCondition, i: nat) -> Seq<ProblemView> {
    let target = condition_target(i);
    let t = c.trigger_skill@;
    let handle = has_handle(entry, library, t);
    if !target_known(entry, library, t) {
        seq![blocking(target, if t.len() == 0 { msg_no_target() } else { msg_dangling(t) })]
    } else {
        (if is_invalid_lifecycle_target(c, handle) {
            seq![blocking(target, msg_lifecycle(t))]
        } else if c.condition.spec_phase() != ConditionPhase::Lifecycle && !handle {
            seq![warning(target, msg_inline_packet())]
        } else {
            seq![]
        }) + (if is_invalid_timeline_target(c, handle) {
            seq![blocking(target, msg_not_additional())]
        } else {
            seq![]
        }) + (if is_unsupported_timeline_condition(c, handle) {
            seq![blocking(target, msg_every_nth())]
        } else {
            seq![]
        })
    }
}

/// The problems of the first `n` conditions.
pub open spec fn conditions_problems(entry: SkillEntry, library: SkillLibrary, n: nat) -> Seq<ProblemView>
    decreases n,
{
    if n == 0 {
        seq![]
    } else {
        conditions_problems(entry, library, (n - 1) as nat) + condition_problems(
            entry,
            library,
            entry.rules.conditions@[n - 1],
            (n - 1) as nat,
        )
    }
}

pub open spec fn known_effect(names: KnownNames, e: Seq<char>) -> bool {
    taken_has(names.effects@, e) || taken_has(names.vfx@, e)
}

/// An animation clip the loaded library lacks (never, when no library is loaded).
pub open spec fn unknown_clip(names: KnownNames, a: Seq<char>) -> bool {
    match names.anim_clips {
        Some(clips) => !taken_has(clips@, a),
        None => false,
    }
}

pub open spec fn msg_cue_effect(slot: Seq<char>, e: Seq<char>) -> Seq<char> {
    "cue '"@ + slot + "' references unknown Effect preset '"@ + e + "'"@
}

pub open spec fn msg_cue_anim(slot: Seq<char>, a: Seq<char>) -> Seq<char> {
    "cue '"@ + slot + "' references unknown animation clip '"@ + a + "'"@
}

/// The problems of one cue binding.
pub open spec fn cue_problems(names: KnownNames, c: CueEntry) -> Seq<ProblemView> {
    let target = cue_target(c.slot@);
    (match c.binding.effect {
        Some(e) => if known_effect(names, e@) {
            seq![]
        } else {
            seq![blocking(target, msg_cue_effect(c.slot@, e@))]
        },
        None => seq![],
    }) + (match c.binding.anim {
        Some(a) => if unknown_clip(names, a@) {
            seq![blocking(target, msg_cue_anim(c.slot@, a@))]
        } else {
            seq![]
        },
        None => seq![],
    })
}

pub open spec fn cues_problems(names: KnownNames, cues: Seq<CueEntry>) -> Seq<ProblemView>
    decreases cues.len(),
{
    if cues.len() == 0 {
        seq![]
    } else {
        cues_problems(names, cues.drop_last()) + cue_problems(names, cues.last())
    }
}

pub open spec fn msg_tier_range(i: nat) -> Seq<char> {
    "charge tier "@ + decimal(i) + " threshold must be within 0-100%"@
}

pub open spec fn msg_tier_order(i: nat) -> Seq<char> {
    "charge tier "@ + decimal(i) + " threshold must be greater than tier "@ + decimal((i - 1) as nat) + "'s"@
}

pub open spec fn msg_tier_follow(i: nat) -> Seq<char> {
    "charge tier "@ + decimal(i) + " may not use Follow attach"@
}

pub open spec fn msg_tier_socket(i: nat) -> Seq<char> {
    "charge tier "@ + decimal(i) + " Bone attach needs a socket name"@
}

pub open spec fn msg_tier_effect(i: nat, e: Seq<char>) -> Seq<char> {
    "charge tier "@ + decimal(i) + " references unknown Effect preset '"@ + e + "'"@
}

pub open spec fn msg_tier_anim(i: nat, a: Seq<char>) -> Seq<char> {
    "charge tier "@ + decimal(i) + " references unknown animation clip '"@ + a + "'"@
}

pub open spec fn msg_tiers_unplayed() -> Seq<char> {
    "charge tiers are authored but Chargeable is off - they never play"@
}

pub open spec fn charge_target() -> Seq<char> {
    "cue:charge"@
}

/// A threshold outside `[0, 1]`.
pub open spec fn tier_range_problems(tiers: Seq<ChargeTier>, i: nat) -> Seq<ProblemView> {
    let th = tiers[i as int].threshold;
    if !(f32_le(F32_ZERO, th) && f32_le(th, F32_ONE)) {
        seq![blocking(charge_target(), msg_tier_range(i))]
    } else {
        seq![]
    }
}

/// A threshold not above the previous tier's.
pub open spec fn tier_order_problems(tiers: Seq<ChargeTier>, i: nat) -> Seq<ProblemView> {
    if i > 0 && f32_le(tiers[i as int].threshold, tiers[i - 1].threshold) {
        seq![blocking(charge_target(), msg_tier_order(i))]
    } else {
        seq![]
    }
}

/// A `Follow` attach, or a bone attach with no socket.
pub open spec fn tier_attach_problems(tier: ChargeTier, i: nat) -> Seq<ProblemView> {
    match tier.cue.attach {
        CueAttach::Follow => seq![blocking(charge_target(), msg_tier_follow(i))],
        CueAttach::Bone { socket } => if socket@.len() == 0 {
            seq![blocking(charge_target(), msg_tier_socket(i))]
        } else {
            seq![]
        },
        CueAttach::World => seq![],
    }
}

/// An unknown effect preset.
pub open spec fn tier_effect_problems(names: KnownNames, tier: ChargeTier, i: nat) -> Seq<ProblemView> {
    match tier.cue.effect {
        Some(e) => if known_effect(names, e@) {
            seq![]
        } else {
            seq![blocking(charge_target(), msg_tier_effect(i, e@))]
        },
        None => seq![],
    }
}

/// An animation clip the loaded library lacks.
pub open spec fn tier_anim_problems(names: KnownNames, tier: ChargeTier, i: nat) -> Seq<ProblemView> {
    match tier.cue.anim {
        Some(a) => if unknown_clip(names, a@) {
            seq![blocking(charge_target(), msg_tier_anim(i, a@))]
        } else {
            seq![]
        },
        None => seq![],
    }
}

/// The problems of charge tier `i` (`tiers[i]`).
pub open spec fn tier_problems(names: KnownNames, tiers: Seq<ChargeTier>, i: nat) -> Seq<ProblemView> {
    tier_range_problems(tiers, i) + tier_order_problems(tiers, i) + tier_attach_problems(tiers[i as int], i)
        + tier_effect_problems(names, tiers[i as int], i) + tier_anim_problems(names, tiers[i as int], i)
}

pub open spec fn tiers_problems(names: KnownNames, tiers: Seq<ChargeTier>, n: nat) -> Seq<ProblemView>
    decreases n,
{
    if n == 0 {
        seq![]
    } else {
        tiers_problems(names, tiers, (n - 1) as nat) + tier_problems(names, tiers, (n - 1) as nat)
    }
}

/// Every charge problem of `entry`, including the "never plays" warning.
pub open spec fn charge_problems(names: KnownNames, entry: SkillEntry) -> Seq<ProblemView> {
    let tiers = entry.timeline.charge_cues@;
    tiers_problems(names, tiers, tiers.len()) + (if tiers.len() > 0 && !entry.timeline.chargeable {
        seq![warning(charge_target(), msg_tiers_unplayed())]
    } else {
        seq![]
    })
}

pub open spec fn msg_paint_empty(w: Seq<char>) -> Seq<char> {
    "window '"@ + w + "' paints an empty surface id"@
}

pub open spec fn msg_paint_unknown(w: Seq<char>, s: Seq<char>) -> Seq<char> {
    "window '"@ + w + "' paints unknown surface '"@ + s + "' (not a loaded surface type)"@
}

pub open spec fn msg_paint_radius(w: Seq<char>) -> Seq<char> {
    "window '"@ + w + "' paints radius must be > 0"@
}

pub open spec fn msg_paint_step(w: Seq<char>) -> Seq<char> {
    "window '"@ + w + "' paints Trail step must be > 0"@
}

pub open spec fn msg_paint_lifetime(w: Seq<char>) -> Seq<char> {
    "window '"@ + w + "' paints lifetime override must be > 0"@
}

/// An empty or unknown painted surface.
pub open spec fn paint_surface_problems(names: KnownNames, id: Seq<char>, p: PaintSpec) -> Seq<ProblemView> {
    if p.surface@.len() == 0 {
        seq![blocking(window_target(id), msg_paint_empty(id))]
    } else if !taken_has(names.surfaces@, p.surface@) {
        seq![blocking(window_target(id), msg_paint_unknown(id, p.surface@))]
    } else {
        seq![]
    }
}

/// Radius, trail step or lifetime override not `> 0`.
pub open spec fn paint_numeric_problems(id: Seq<char>, p: PaintSpec) -> Seq<ProblemView> {
    (if f32_le(p.radius, F32_ZERO) {
        seq![blocking(window_target(id), msg_paint_radius(id))]
    } else {
        seq![]
    }) + (match p.mode {
        PaintMode::Trail { step } => if f32_le(step, F32_ZERO) {
            seq![blocking(window_target(id), msg_paint_step(id))]
        } else {
            seq![]
        },
        PaintMode::OnEnd => seq![],
    }) + (match p.lifetime {
        Some(lt) => if f32_le(lt, F32_ZERO) {
            seq![blocking(window_target(id), msg_paint_lifetime(id))]
        } else {
            seq![]
        },
        None => seq![],
    })
}

/// The paint problems of one window.
pub open spec fn paint_problems(names: KnownNames, w: CollisionWindow) -> Seq<ProblemView> {
    match w.paints {
        None => seq![],
        Some(p) => paint_surface_problems(names, w.id@, p) + paint_numeric_problems(w.id@, p),
    }
}

pub open spec fn paints_problems(names: KnownNames, ws: Seq<CollisionWindow>) -> Seq<ProblemView>
    decreases ws.len(),
{
    if ws.len() == 0 {
        seq![]
    } else {
        paints_problems(names, ws.drop_last()) + paint_problems(names, ws.last())
    }
}

pub open spec fn msg_on_surface(s: Seq<char>) -> Seq<char> {
    "acquisition requires surface '"@ + s + "' (on_surface), which is not a loaded surface type"@
}

/// Unknown `on_surface` gates along `acq` and its fallback chain, outermost first.
pub open spec fn on_surface_problems(names: KnownNames, acq: Acquisition) -> Seq<ProblemView>
    decreases acq,
{
    match acq {
        Acquisition::GroundPoint { on_surface, fallback, .. } => (match on_surface {
            Some(req) => if taken_has(names.surfaces@, req.surface@) {
                seq![]
            } else {
                seq![blocking("acquisition"@, msg_on_surface(req.surface@))]
            },
            None => seq![],
        }) + (match fallback {
            AcqFallback::Then(inner) => on_surface_problems(names, *inner),
            AcqFallback::Fizzle => seq![],
        }),
        Acquisition::HitscanEntity { fallback, .. } => match fallback {
            AcqFallback::Then(inner) => on_surface_problems(names, *inner),
            AcqFallback::Fizzle => seq![],
        },
        _ => seq![],
    }
}

/// `Vec3 != Vec3::ZERO`: some component is not `== 0.0`.
pub open spec fn vec3_nonzero(v: Vec3Bits) -> bool {
    !f32_eq(v.x, F32_ZERO) || !f32_eq(v.y, F32_ZERO) || !f32_eq(v.z, F32_ZERO)
}

pub open spec fn msg_template_anchor(w: Seq<char>) -> Seq<char> {
    "window '"@ + w
        + "' is a Template \u{2014} its anchor/anchor_offset are never read (emitted instances spawn at the emitting hitbox's position); author them on the Scheduled window that emits it instead"@
}

pub open spec fn anchor_problems(ws: Seq<CollisionWindow>) -> Seq<ProblemView>
    decreases ws.len(),
{
    if ws.len() == 0 {
        seq![]
    } else {
        let w = ws.last();
        anchor_problems(ws.drop_last()) + (if w.spawn is Template && (w.anchor != WindowAnchor::Caster
            || vec3_nonzero(w.anchor_offset)) {
            seq![warning(window_target(w.id@), msg_template_anchor(w.id@))]
        } else {
            seq![]
        })
    }
}

/// The rules of skill `id` as this validation sees them: the entry's own live copy for itself,
/// the library's for every other skill.
pub open spec fn rules_of(entry: SkillEntry, library: SkillLibrary, id: Seq<char>) -> Option<SkillRules> {
    if id == entry.key() {
        Some(entry.rules)
    } else if library.map().dom().contains(id) {
        Some(library.map()[id].rules)
    } else {
        None
    }
}

/// The deepest hop count reachable from `id` along trigger edges, where `depth` is `id`'s own
/// hop count; the walk stops one past the cap.
pub open spec fn max_depth(entry: SkillEntry, library: SkillLibrary, id: Seq<char>, depth: nat) -> nat
    decreases MAX_TRIGGER_DEPTH + 1 - depth, 1nat, 0nat,
{
    if depth > MAX_TRIGGER_DEPTH {
        depth
    } else {
        match rules_of(entry, library, id) {
            None => depth,
            Some(r) => max_over(entry, library, r.conditions@, depth),
        }
    }
}

/// `depth` when `conds` is empty, else the largest `max_depth` of their targets one hop further.
pub open spec fn max_over(entry: SkillEntry, library: SkillLibrary, conds: Seq<SkillCondition>, depth: nat) -> nat
    decreases MAX_TRIGGER_DEPTH + 1 - depth, 0nat, conds.len(),
{
    if depth > MAX_TRIGGER_DEPTH || conds.len() == 0 {
        depth
    } else {
        let rest = max_over(entry, library, conds.drop_last(), depth);
        let last = max_depth(entry, library, conds.last().trigger_skill@, depth + 1);
        if conds.len() == 1 {
            last
        } else if rest >= last {
            rest
        } else {
            last
        }
    }
}

pub open spec fn msg_depth() -> Seq<char> {
    "trigger graph exceeds depth 8 from this skill (possible cycle)"@
}

pub open spec fn depth_problems(entry: SkillEntry, library: SkillLibrary) -> Seq<ProblemView> {
    if max_depth(entry, library, entry.key(), 0) > MAX_TRIGGER_DEPTH {
        seq![blocking("skill"@, msg_depth())]
    } else {
        seq![]
    }
}

/// The first window whose quoted id `'{id}'` the message names.
pub open spec fn first_named_in(ws: Seq<CollisionWindow>, m: Seq<char>, j: int) -> bool {
    &&& 0 <= j < ws.len()
    &&& contains_sub(m, "'"@ + ws[j].id@ + "'"@)
    &&& forall|k: int| 0 <= k < j ==> !contains_sub(m, "'"@ + (#[trigger] ws[k]).id@ + "'"@)
}

/// The structural check's error, if any, tagged to the first window its message names (else the
/// whole skill).
pub open spec fn structural_problems(ws: Seq<CollisionWindow>, check: Result<(), String>) -> Seq<ProblemView> {
    match check {
        Ok(_) => seq![],
        Err(m) => if exists|j: int| first_named_in(ws, m@, j) {
            let j = choose|j: int| first_named_in(ws, m@, j);
            seq![blocking(window_target(ws[j].id@), m@)]
        } else {
            seq![blocking("skill"@, m@)]
        },
    }
}

/// Every problem `validate_skill` reports, in order.
pub open spec fn expected_problems(
    entry: SkillEntry,
    library: SkillLibrary,
    names: KnownNames,
    structural_check: Result<(), String>,
) -> Seq<ProblemView> {
    let ws = entry.timeline.collision_windows@;
    conditions_problems(entry, library, entry.rules.conditions@.len())
        + cues_problems(names, entry.timeline.cues@)
        + charge_problems(names, entry)
        + paints_problems(names, ws)
        + on_surface_problems(names, entry.timeline.acquisition)
        + anchor_problems(ws)
        + depth_problems(entry, library)
        + structural_problems(ws, structural_check)
}

// ---------------------------------------------------------------------------
// The sweep
// ---------------------------------------------------------------------------

fn push_problem(problems: &mut Vec<Problem>, target: String, message: String, blocking: bool)
    ensures
        views(final(problems)@) == views(old(problems)@).push((target@, message@, blocking)),
{
    let ghost before = problems@;
    let ghost tv = target@;
    let ghost mv = message@;
    problems.push(Problem { target, message, blocking });
    proof {
        assert(views(problems@) =~= views(before).push((tv, mv, blocking)));
    }
}

fn has_handle_exec(entry: &SkillEntry, library: &SkillLibrary, t: &str) -> (r: bool)
    requires
        library.wf(),
    ensures
        r == has_handle(*entry, *library, t@),
{
    if str_eq(t, entry.rules.id.as_str()) {
        entry.timeline.collision_windows.len() > 0
    } else {
        match library.get(t) {
            Some(e) => e.timeline.collision_windows.len() > 0,
            None => false,
        }
    }
}

fn check_condition(
    entry: &SkillEntry,
    library: &SkillLibrary,
    c: &SkillCondition,
    i: usize,
    problems: &mut Vec<Problem>,
)
    requires
        library.wf(),
    ensures
        views(final(problems)@) == views(old(problems)@) + condition_problems(*entry, *library, *c, i as nat),
{
    let ghost before = views(problems@);
    let t = c.trigger_skill.as_str();
    let d = decimal_string(i as u128);
    let known = str_eq(t, entry.rules.id.as_str()) || library.contains_key(t);
    if !known {
        let message = if t.is_empty() {
            String::from_str("trigger has no target skill selected")
        } else {
            concat3("trigger_skill '", t, "' does not exist")
        };
        push_problem(problems, concat("condition:", d.as_str()), message, true);
        proof {
            assert(views(problems@) =~= before + condition_problems(*entry, *library, *c, i as nat));
        }
        return;
    }
    let handle = has_handle_exec(entry, library, t);
    let lifecycle = match c.condition.phase() {
        ConditionPhase::Lifecycle => true,
        _ => false,
    };
    let ghost first: Seq<ProblemView> = if is_invalid_lifecycle_target(*c, handle) {
        seq![blocking(condition_target(i as nat), msg_lifecycle(t@))]
    } else if c.condition.spec_phase() != ConditionPhase::Lifecycle && !handle {
        seq![warning(condition_target(i as nat), msg_inline_packet())]
    } else {
        seq![]
    };
    if lifecycle && !handle {
        push_problem(
            problems,
            concat("condition:", d.as_str()),
            concat3("'", t, "' is triggered on Lifecycle, but has no timeline \u{2014} OnImpact/OnExpire triggers require the target to have a real timeline"),
            true,
        );
    } else if !lifecycle && !handle {
        push_problem(
            problems,
            concat("condition:", d.as_str()),
            String::from_str("has no timeline \u{2014} this trigger resolves as an inline packet (legal), not a spatial cast"),
            false,
        );
    }
    assert(views(problems@) =~= before + first);
    let ghost mid = views(problems@);
    let ghost second: Seq<ProblemView> = if is_invalid_timeline_target(*c, handle) {
        seq![blocking(condition_target(i as nat), msg_not_additional())]
    } else {
        seq![]
    };
    if handle && !c.additional {
        push_problem(
            problems,
            concat("condition:", d.as_str()),
            String::from_str("has a timeline \u{2014} timeline-target triggers must be additional = true"),
            true,
        );
    }
    assert(views(problems@) =~= mid + second);
    let ghost mid2 = views(problems@);
    let ghost third: Seq<ProblemView> = if is_unsupported_timeline_condition(*c, handle) {
        seq![blocking(condition_target(i as nat), msg_every_nth())]
    } else {
        seq![]
    };
    if handle && c.condition.is_every_nth_hit() {
        push_problem(
            problems,
            concat("condition:", d.as_str()),
            String::from_str("EveryNthHit is not supported on timeline-target triggers (its counter lives inside stat_core's calc path, which a timeline-target trigger never reaches)"),
            true,
        );
    }
    assert(views(problems@) =~= mid2 + third);
    assert(views(problems@) =~= before + condition_problems(*entry, *library, *c, i as nat));
}

fn check_conditions(entry: &SkillEntry, library: &SkillLibrary, problems: &mut Vec<Problem>)
    requires
        library.wf(),
    ensures
        views(final(problems)@) == views(old(problems)@) + conditions_problems(
            *entry,
            *library,
            entry.rules.conditions@.len(),
        ),
{
    let ghost before = views(problems@);
    let conds = &entry.rules.conditions;
    let n = conds.len();
    let mut i: usize = 0;
    assert(views(problems@) =~= before + conditions_problems(*entry, *library, 0));
    while i < n
        invariant
            n == conds@.len(),
            conds == &entry.rules.conditions,
            library.wf(),
            i <= n,
            views(problems@) == before + conditions_problems(*entry, *library, i as nat),
        decreases n - i,
    {
        check_condition(entry, library, &conds[i], i, problems);
        assert(views(problems@) =~= before + conditions_problems(*entry, *library, (i + 1) as nat));
        i = i + 1;
    }
}

fn known_effect_exec(names: &KnownNames, e: &str) -> (r: bool)
    ensures
        r == known_effect(*names, e@),
{
    contains_str(&names.effects, e) || contains_str(&names.vfx, e)
}

fn unknown_clip_exec(names: &KnownNames, a: &str) -> (r: bool)
    ensures
        r == unknown_clip(*names, a@),
{
    match &names.anim_clips {
        Some(clips) => !contains_str(clips, a),
        None => false,
    }
}

fn check_cue(names: &KnownNames, c: &CueEntry, problems: &mut Vec<Problem>)
    ensures
        views(final(problems)@) == views(old(problems)@) + cue_problems(*names, *c),
{
    let ghost before = views(problems@);
    let slot = c.slot.as_str();
    let ghost first: Seq<ProblemView> = match &c.binding.effect {
        Some(e) => if known_effect(*names, e@) {
            seq![]
        } else {
            seq![blocking(cue_target(slot@), msg_cue_effect(slot@, e@))]
        },
        None => seq![],
    };
    if let Some(e) = &c.binding.effect {
        if !known_effect_exec(names, e.as_str()) {
            push_problem(
                problems,
                concat("cue:", slot),
                concat5("cue '", slot, "' references unknown Effect preset '", e.as_str(), "'"),
                true,
            );
        }
    }
    assert(views(problems@) =~= before + first);
    let ghost mid = views(problems@);
    let ghost second: Seq<ProblemView> = match &c.binding.anim {
        Some(a) => if unknown_clip(*names, a@) {
            seq![blocking(cue_target(slot@), msg_cue_anim(slot@, a@))]
        } else {
            seq![]
        },
        None => seq![],
    };
    if let Some(a) = &c.binding.anim {
        if unknown_clip_exec(names, a.as_str()) {
            push_problem(
                problems,
                concat("cue:", slot),
                concat5("cue '", slot, "' references unknown animation clip '", a.as_str(), "'"),
                true,
            );
        }
    }
    assert(views(problems@) =~= mid + second);
    assert(views(problems@) =~= before + cue_problems(*names, *c));
}

fn check_cues(names: &KnownNames, cues: &Vec<CueEntry>, problems: &mut Vec<Problem>)
    ensures
        views(final(problems)@) == views(old(problems)@) + cues_problems(*names, cues@),
{
    let ghost before = views(problems@);
    let n = cues.len();
    let mut i: usize = 0;
    assert(cues@.take(0) =~= Seq::<CueEntry>::empty());
    assert(views(problems@) =~= before + cues_problems(*names, cues@.take(0)));
    while i < n
        invariant
            n == cues@.len(),
            i <= n,
            views(problems@) == before + cues_problems(*names, cues@.take(i as int)),
        decreases n - i,
    {
        check_cue(names, &cues[i], problems);
        assert(cues@.take(i + 1).drop_last() =~= cues@.take(i as int));
        assert(cues@.take(i + 1).last() == cues@[i as int]);
        assert(views(problems@) =~= before + cues_problems(*names, cues@.take(i + 1)));
        i = i + 1;
    }
    assert(cues@.take(n as int) =~= cues@);
}

fn check_tier_range(tiers: &Vec<ChargeTier>, i: usize, d: &str, problems: &mut Vec<Problem>)
    requires
        i < tiers@.len(),
        d@ == decimal(i as nat),
    ensures
        views(final(problems)@) == views(old(problems)@) + tier_range_problems(tiers@, i as nat),
{
    let ghost before = views(problems@);
    if !f32_in_unit_range(tiers[i].threshold) {
        push_problem(
            problems,
            String::from_str("cue:charge"),
            concat3("charge tier ", d, " threshold must be within 0-100%"),
            true,
        );
    }
    assert(views(problems@) =~= before + tier_range_problems(tiers@, i as nat));
}

fn check_tier_order(tiers: &Vec<ChargeTier>, i: usize, d: &str, problems: &mut Vec<Problem>)
    requires
        i < tiers@.len(),
        d@ == decimal(i as nat),
    ensures
        views(final(problems)@) == views(old(problems)@) + tier_order_problems(tiers@, i as nat),
{
    let ghost before = views(problems@);
    if i > 0 && f32_le_exec(tiers[i].threshold, tiers[i - 1].threshold) {
        let prev = decimal_string((i - 1) as u128);
        push_problem(
            problems,
            String::from_str("cue:charge"),
            concat5("charge tier ", d, " threshold must be greater than tier ", prev.as_str(), "'s"),
            true,
        );
    }
    assert(views(problems@) =~= before + tier_order_problems(tiers@, i as nat));
}

fn check_tier_attach(tier: &ChargeTier, i: usize, d: &str, problems: &mut Vec<Problem>)
    requires
        d@ == decimal(i as nat),
    ensures
        views(final(problems)@) == views(old(problems)@) + tier_attach_problems(*tier, i as nat),
{
    let ghost before = views(problems@);
    match &tier.cue.attach {
        CueAttach::Follow => {
            push_problem(
                problems,
                String::from_str("cue:charge"),
                concat3("charge tier ", d, " may not use Follow attach"),
                true,
            );
        },
        CueAttach::Bone { socket } => {
            if socket.as_str().is_empty() {
                push_problem(
                    problems,
                    String::from_str("cue:charge"),
                    concat3("charge tier ", d, " Bone attach needs a socket name"),
                    true,
                );
            }
        },
        CueAttach::World => {},
    }
    assert(views(problems@) =~= before + tier_attach_problems(*tier, i as nat));
}

fn check_tier_lookups(names: &KnownNames, tier: &ChargeTier, i: usize, d: &str, problems: &mut Vec<Problem>)
    requires
        d@ == decimal(i as nat),
    ensures
        views(final(problems)@) == views(old(problems)@) + tier_effect_problems(*names, *tier, i as nat)
            + tier_anim_problems(*names, *tier, i as nat),
{
    let ghost before = views(problems@);
    if let Some(e) = &tier.cue.effect {
        if !known_effect_exec(names, e.as_str()) {
            push_problem(
                problems,
                String::from_str("cue:charge"),
                concat5("charge tier ", d, " references unknown Effect preset '", e.as_str(), "'"),
                true,
            );
        }
    }
    assert(views(problems@) =~= before + tier_effect_problems(*names, *tier, i as nat));
    let ghost mid = views(problems@);
    if let Some(a) = &tier.cue.anim {
        if unknown_clip_exec(names, a.as_str()) {
            push_problem(
                problems,
                String::from_str("cue:charge"),
                concat5("charge tier ", d, " references unknown animation clip '", a.as_str(), "'"),
                true,
            );
        }
    }
    assert(views(problems@) =~= mid + tier_anim_problems(*names, *tier, i as nat));
    assert(views(problems@) =~= before + tier_effect_problems(*names, *tier, i as nat)
        + tier_anim_problems(*names, *tier, i as nat));
}

fn check_tier(names: &KnownNames, tiers: &Vec<ChargeTier>, i: usize, problems: &mut Vec<Problem>)
    requires
        i < tiers@.len(),
    ensures
        views(final(problems)@) == views(old(problems)@) + tier_problems(*names, tiers@, i as nat),
{
    let ghost before = views(problems@);
    let d = decimal_string(i as u128);
    check_tier_range(tiers, i, d.as_str(), problems);
    let ghost s1 = views(problems@);
    check_tier_order(tiers, i, d.as_str(), problems);
    let ghost s2 = views(problems@);
    check_tier_attach(&tiers[i], i, d.as_str(), problems);
    let ghost s3 = views(problems@);
    check_tier_lookups(names, &tiers[i], i, d.as_str(), problems);
    let ghost t = tiers@[i as int];
    assert(views(problems@) =~= before + (tier_range_problems(tiers@, i as nat) + tier_order_problems(tiers@, i as nat)
        + tier_attach_problems(t, i as nat) + tier_effect_problems(*names, t, i as nat)
        + tier_anim_problems(*names, t, i as nat)));
}

fn check_charge(names: &KnownNames, entry: &SkillEntry, problems: &mut Vec<Problem>)
    ensures
        views(final(problems)@) == views(old(problems)@) + charge_problems(*names, *entry),
{
    let ghost before = views(problems@);
    let tiers = &entry.timeline.charge_cues;
    let n = tiers.len();
    let mut i: usize = 0;
    assert(views(problems@) =~= before + tiers_problems(*names, tiers@, 0));
    while i < n
        invariant
            n == tiers@.len(),
            tiers == &entry.timeline.charge_cues,
            i <= n,
            views(problems@) == before + tiers_problems(*names, tiers@, i as nat),
        decreases n - i,
    {
        check_tier(names, tiers, i, problems);
        assert(views(problems@) =~= before + tiers_problems(*names, tiers@, (i + 1) as nat));
        i = i + 1;
    }
    let ghost mid = views(problems@);
    if n > 0 && !entry.timeline.chargeable {
        push_problem(
            problems,
            String::from_str("cue:charge"),
            String::from_str("charge tiers are authored but Chargeable is off - they never play"),
            false,
        );
    }
    assert(views(problems@) =~= before + charge_problems(*names, *entry));
}

fn check_paint_surface(names: &KnownNames, id: &str, p: &PaintSpec, problems: &mut Vec<Problem>)
    ensures
        views(final(problems)@) == views(old(problems)@) + paint_surface_problems(*names, id@, *p),
{
    let ghost before = views(problems@);
    let surface = p.surface.as_str();
    if surface.is_empty() {
        push_problem(problems, concat("window:", id), concat3("window '", id, "' paints an empty surface id"), true);
    } else if !contains_str(&names.surfaces, surface) {
        push_problem(
            problems,
            concat("window:", id),
            concat5("window '", id, "' paints unknown surface '", surface, "' (not a loaded surface type)"),
            true,
        );
    }
    assert(views(problems@) =~= before + paint_surface_problems(*names, id@, *p));
}

fn check_paint_numerics(id: &str, p: &PaintSpec, problems: &mut Vec<Problem>)
    ensures
        views(final(problems)@) == views(old(problems)@) + paint_numeric_problems(id@, *p),
{
    let ghost before = views(problems@);
    let ghost p1: Seq<ProblemView> = if f32_le(p.radius, F32_ZERO) {
        seq![blocking(window_target(id@), msg_paint_radius(id@))]
    } else {
        seq![]
    };
    if f32_le_zero(p.radius) {
        push_problem(problems, concat("window:", id), concat3("window '", id, "' paints radius must be > 0"), true);
    }
    assert(views(problems@) =~= before + p1);
    let ghost s1 = views(problems@);
    let ghost p2: Seq<ProblemView> = match p.mode {
        PaintMode::Trail { step } => if f32_le(step, F32_ZERO) {
            seq![blocking(window_target(id@), msg_paint_step(id@))]
        } else {
            seq![]
        },
        PaintMode::OnEnd => seq![],
    };
    if let PaintMode::Trail { step } = p.mode {
        if f32_le_zero(step) {
            push_problem(problems, concat("window:", id), concat3("window '", id, "' paints Trail step must be > 0"), true);
        }
    }
    assert(views(problems@) =~= s1 + p2);
    let ghost s2 = views(problems@);
    let ghost p3: Seq<ProblemView> = match p.lifetime {
        Some(lt) => if f32_le(lt, F32_ZERO) {
            seq![blocking(window_target(id@), msg_paint_lifetime(id@))]
        } else {
            seq![]
        },
        None => seq![],
    };
    if let Some(lt) = p.lifetime {
        if f32_le_zero(lt) {
            push_problem(
                problems,
                concat("window:", id),
                concat3("window '", id, "' paints lifetime override must be > 0"),
                true,
            );
        }
    }
    assert(views(problems@) =~= s2 + p3);
    assert(views(problems@) =~= before + paint_numeric_problems(id@, *p));
}

fn check_paints(names: &KnownNames, ws: &Vec<CollisionWindow>, problems: &mut Vec<Problem>)
    ensures
        views(final(problems)@) == views(old(problems)@) + paints_problems(*names, ws@),
{
    let ghost before = views(problems@);
    let n = ws.len();
    let mut i: usize = 0;
    assert(ws@.take(0) =~= Seq::<CollisionWindow>::empty());
    assert(views(problems@) =~= before + paints_problems(*names, ws@.take(0)));
    while i < n
        invariant
            n == ws@.len(),
            i <= n,
            views(problems@) == before + paints_problems(*names, ws@.take(i as int)),
        decreases n - i,
    {
        let w = &ws[i];
        let ghost pre = views(problems@);
        if let Some(p) = &w.paints {
            check_paint_surface(names, w.id.as_str(), p, problems);
            check_paint_numerics(w.id.as_str(), p, problems);
        }
        assert(views(problems@) =~= pre + paint_problems(*names, ws@[i as int]));
        assert(ws@.take(i + 1).drop_last() =~= ws@.take(i as int));
        assert(ws@.take(i + 1).last() == ws@[i as int]);
        assert(views(problems@) =~= before + paints_problems(*names, ws@.take(i + 1)));
        i = i + 1;
    }
    assert(ws@.take(n as int) =~= ws@);
}

fn check_on_surface(names: &KnownNames, acq: &Acquisition, problems: &mut Vec<Problem>)
    ensures
        views(final(problems)@) == views(old(problems)@) + on_surface_problems(*names, *acq),
    decreases acq,
{
    let ghost before = views(problems@);
    match acq {
        Acquisition::GroundPoint { on_surface, fallback, .. } => {
            if let Some(req) = on_surface {
                if !contains_str(&names.surfaces, req.surface.as_str()) {
                    push_problem(
                        problems,
                        String::from_str("acquisition"),
                        concat3(
                            "acquisition requires surface '",
                            req.surface.as_str(),
                            "' (on_surface), which is not a loaded surface type",
                        ),
                        true,
                    );
                }
            }
            let ghost mid = views(problems@);
            if let AcqFallback::Then(inner) = fallback {
                check_on_surface(names, &**inner, problems);
            }
            assert(views(problems@) =~= before + on_surface_problems(*names, *acq));
        },
        Acquisition::HitscanEntity { fallback, .. } => {
            if let AcqFallback::Then(inner) = fallback {
                check_on_surface(names, &**inner, problems);
            }
            assert(views(problems@) =~= before + on_surface_problems(*names, *acq));
        },
        _ => {
            assert(views(problems@) =~= before + on_surface_problems(*names, *acq));
        },
    }
}

fn vec3_nonzero_exec(v: Vec3Bits) -> (r: bool)
    ensures
        r == vec3_nonzero(v),
{
    !f32_eq_zero(v.x) || !f32_eq_zero(v.y) || !f32_eq_zero(v.z)
}

fn check_anchors(ws: &Vec<CollisionWindow>, problems: &mut Vec<Problem>)
    ensures
        views(final(problems)@) == views(old(problems)@) + anchor_problems(ws@),
{
    let ghost before = views(problems@);
    let n = ws.len();
    let mut i: usize = 0;
    assert(ws@.take(0) =~= Seq::<CollisionWindow>::empty());
    assert(views(problems@) =~= before + anchor_problems(ws@.take(0)));
    while i < n
        invariant
            n == ws@.len(),
            i <= n,
            views(problems@) == before + anchor_problems(ws@.take(i as int)),
        decreases n - i,
    {
        let w = &ws[i];
        let template = match w.spawn {
            WindowSpawn::Template => true,
            _ => false,
        };
        let moved = match w.anchor {
            WindowAnchor::Caster => false,
            _ => true,
        };
        if template && (moved || vec3_nonzero_exec(w.anchor_offset)) {
            let id = w.id.as_str();
            push_problem(
                problems,
                concat("window:", id),
                concat3(
                    "window '",
                    id,
                    "' is a Template \u{2014} its anchor/anchor_offset are never read (emitted instances spawn at the emitting hitbox's position); author them on the Scheduled window that emits it instead",
                ),
                false,
            );
        }
        assert(ws@.take(i + 1).drop_last() =~= ws@.take(i as int));
        assert(ws@.take(i + 1).last() == ws@[i as int]);
        assert(views(problems@) =~= before + anchor_problems(ws@.take(i + 1)));
        i = i + 1;
    }
    assert(ws@.take(n as int) =~= ws@);
}

/// The deepest hop count reachable from `id` along trigger edges (`depth` is `id`'s own), one
/// past the cap at most.
fn max_trigger_depth(entry: &SkillEntry, library: &SkillLibrary, id: &str, depth: u32) -> (r: u32)
    requires
        library.wf(),
        depth <= MAX_TRIGGER_DEPTH + 1,
    ensures
        r == max_depth(*entry, *library, id@, depth as nat),
    decreases MAX_TRIGGER_DEPTH + 1 - depth,
{
    if depth > MAX_TRIGGER_DEPTH {
        return depth;
    }
    let rules: &SkillRules = if str_eq(id, entry.rules.id.as_str()) {
        &entry.rules
    } else {
        match library.get(id) {
            Some(e) => &e.rules,
            None => {
                return depth;
            },
        }
    };
    assert(rules_of(*entry, *library, id@) == Some(*rules));
    let conds = &rules.conditions;
    let n = conds.len();
    let mut m: u32 = depth;
    let mut i: usize = 0;
    assert(conds@.take(0) =~= Seq::<SkillCondition>::empty());
    while i < n
        invariant
            n == conds@.len(),
            library.wf(),
            depth <= MAX_TRIGGER_DEPTH,
            i <= n,
            m == max_over(*entry, *library, conds@.take(i as int), depth as nat),
        decreases n - i,
    {
        let v = max_trigger_depth(entry, library, conds[i].trigger_skill.as_str(), depth + 1);
        assert(conds@.take(i + 1).drop_last() =~= conds@.take(i as int));
        assert(conds@.take(i + 1).last() == conds@[i as int]);
        if i == 0 || v > m {
            m = v;
        }
        i = i + 1;
    }
    assert(conds@.take(n as int) =~= conds@);
    m
}

fn check_depth(entry: &SkillEntry, library: &SkillLibrary, problems: &mut Vec<Problem>)
    requires
        library.wf(),
    ensures
        views(final(problems)@) == views(old(problems)@) + depth_problems(*entry, *library),
{
    let ghost before = views(problems@);
    if max_trigger_depth(entry, library, entry.rules.id.as_str(), 0) > MAX_TRIGGER_DEPTH {
        push_problem(
            problems,
            String::from_str("skill"),
            String::from_str("trigger graph exceeds depth 8 from this skill (possible cycle)"),
            true,
        );
    }
    assert(views(problems@) =~= before + depth_problems(*entry, *library));
}

fn check_structural(ws: &Vec<CollisionWindow>, check: &Result<(), String>, problems: &mut Vec<Problem>)
    ensures
        views(final(problems)@) == views(old(problems)@) + structural_problems(ws@, *check),
{
    let ghost before = views(problems@);
    match check {
        Ok(_) => {
            assert(views(problems@) =~= before + structural_problems(ws@, *check));
        },
        Err(m) => {
            let n = ws.len();
            let mut j: usize = 0;
            while j < n
                invariant
                    n == ws@.len(),
                    j <= n,
                    views(problems@) == before,
                    before == views(old(problems)@),
                    *check == Result::<(), String>::Err(*m),
                    forall|k: int| 0 <= k < j ==> !contains_sub(m@, "'"@ + (#[trigger] ws@[k]).id@ + "'"@),
                decreases n - j,
            {
                let q = concat3("'", ws[j].id.as_str(), "'");
                if str_contains(m.as_str(), q.as_str()) {
                    proof {
                        assert(first_named_in(ws@, m@, j as int));
                        let jj = choose|jj: int| first_named_in(ws@, m@, jj);
                        if jj < j {
                        } else if jj > j {
                            assert(!contains_sub(m@, "'"@ + ws@[j as int].id@ + "'"@));
                        }
                        assert(jj == j);
                    }
                    push_problem(problems, concat("window:", ws[j].id.as_str()), m.clone(), true);
                    assert(views(problems@) =~= before + structural_problems(ws@, *check));
                    return;
                }
                j = j + 1;
            }
            assert(!exists|jj: int| first_named_in(ws@, m@, jj));
            push_problem(problems, String::from_str("skill"), m.clone(), true);
            assert(views(problems@) =~= before + structural_problems(ws@, *check));
        },
    }
}

/// Run every validation rule against `entry` (the edited copy) and its cross-reference
/// libraries. `structural_check` is the outcome of the game runtime's structural timeline check
/// on `entry.timeline`, surfaced verbatim.
pub fn validate_skill(
    entry: &SkillEntry,
    library: &SkillLibrary,
    names: &KnownNames,
    structural_check: &Result<(), String>,
) -> (r: ValidationReport)
    requires
        library.wf(),
    ensures
        views(r.problems@) == expected_problems(*entry, *library, *names, *structural_check),
{
    let mut problems: Vec<Problem> = Vec::new();
    assert(views(problems@) =~= Seq::<ProblemView>::empty());
    check_conditions(entry, library, &mut problems);
    check_cues(names, &entry.timeline.cues, &mut problems);
    check_charge(names, entry, &mut problems);
    check_paints(names, &entry.timeline.collision_windows, &mut problems);
    check_on_surface(names, &entry.timeline.acquisition, &mut problems);
    check_anchors(&entry.timeline.collision_windows, &mut problems);
    check_depth(entry, library, &mut problems);
    check_structural(&entry.timeline.collision_windows, structural_check, &mut problems);
    let ghost ws = entry.timeline.collision_windows@;
    assert(views(problems@) =~= conditions_problems(*entry, *library, entry.rules.conditions@.len())
        + cues_problems(*names, entry.timeline.cues@) + charge_problems(*names, *entry)
        + paints_problems(*names, ws) + on_surface_problems(*names, entry.timeline.acquisition)
        + anchor_problems(ws) + depth_problems(*entry, *library) + structural_problems(ws, *structural_check));
    ValidationReport { problems }
}

// ---------------------------------------------------------------------------
// Library-wide sweep
// ---------------------------------------------------------------------------

/// How a library-wide message is shown.
#[derive(Debug, Clone, Copy, PartialEq, Eq, Structural)]
pub enum Severity {
    Error,
    Warning,
}

/// One library-wide validation message: `"skill '{id}': {problem message}"`.
#[derive(Debug)]
pub struct SkillMessage {
    pub severity: Severity,
    pub message: String,
}

pub open spec fn severity_of(blocking: bool) -> Severity {
    if blocking {
        Severity::Error
    } else {
        Severity::Warning
    }
}

pub open spec fn message_view(m: SkillMessage) -> (Severity, Seq<char>) {
    (m.severity, m.message@)
}

pub open spec fn message_views(ms: Seq<SkillMessage>) -> Seq<(Severity, Seq<char>)> {
    ms.map_values(|m: SkillMessage| message_view(m))
}

/// The messages for skill `id`'s problems, in order.
pub open spec fn entry_messages(id: Seq<char>, ps: Seq<ProblemView>) -> Seq<(Severity, Seq<char>)> {
    ps.map_values(|p: ProblemView| (severity_of(p.2), "skill '"@ + id + "': "@ + p.1))
}

/// The messages for the first `n` skills of the library, in id order; skill `i` is checked
/// against `checks[i]`, its structural check outcome.
pub open spec fn library_messages(
    library: SkillLibrary,
    names: KnownNames,
    checks: Seq<Result<(), String>>,
    n: nat,
) -> Seq<(Severity, Seq<char>)>
    decreases n,
{
    if n == 0 {
        seq![]
    } else {
        let e = library.entries()[n - 1];
        library_messages(library, names, checks, (n - 1) as nat) + entry_messages(
            e.key(),
            expected_problems(e, library, names, checks[n - 1]),
        )
    }
}

/// Validate every skill of the library (not just the open one), one message per problem, so
/// problems surface even for skills nobody has open. `checks[i]` is the structural check
/// outcome of `library.entry_at(i)`'s timeline.
pub fn library_validation_messages(
    library: &SkillLibrary,
    names: &KnownNames,
    checks: &Vec<Result<(), String>>,
) -> (r: Vec<SkillMessage>)
    requires
        library.wf(),
        checks@.len() == library.entries().len(),
    ensures
        message_views(r@) == library_messages(*library, *names, checks@, library.entries().len()),
{
    let n = library.len();
    let mut out: Vec<SkillMessage> = Vec::new();
    let mut i: usize = 0;
    assert(message_views(out@) =~= library_messages(*library, *names, checks@, 0));
    while i < n
        invariant
            n == library.entries().len(),
            checks@.len() == n,
            library.wf(),
            i <= n,
            message_views(out@) == library_messages(*library, *names, checks@, i as nat),
        decreases n - i,
    {
        let e = library.entry_at(i);
        let report = validate_skill(e, library, names, &checks[i]);
        let ps = &report.problems;
        let m = ps.len();
        let ghost base = message_views(out@);
        let ghost pv = views(ps@);
        let mut k: usize = 0;
        assert(entry_messages(e.key(), pv.take(0)) =~= Seq::<(Severity, Seq<char>)>::empty());
        assert(message_views(out@) =~= base + entry_messages(e.key(), pv.take(0)));
        while k < m
            invariant
                m == ps@.len(),
                pv == views(ps@),
                k <= m,
                message_views(out@) == base + entry_messages(e.key(), pv.take(k as int)),
            decreases m - k,
        {
            let p = &ps[k];
            let severity = if p.blocking {
                Severity::Error
            } else {
                Severity::Warning
            };
            let message = concat3("skill '", e.rules.id.as_str(), "': ");
            let message = concat(message.as_str(), p.message.as_str());
            let ghost before = out@;
            out.push(SkillMessage { severity, message });
            proof {
                assert(pv.take(k + 1) =~= pv.take(k as int).push(pv[k as int]));
                assert(entry_messages(e.key(), pv.take(k + 1)) =~= entry_messages(e.key(), pv.take(k as int)).push(
                    (severity_of(p.blocking), "skill '"@ + e.key() + "': "@ + p.message@),
                ));
                assert(message_views(out@) =~= message_views(before).push(message_view(out@.last())));
                assert(message_views(out@) =~= base + entry_messages(e.key(), pv.take(k + 1)));
            }
            k = k + 1;
        }
        assert(pv.take(m as int) =~= pv);
        i = i + 1;
    }
    out
}

} // verus!
