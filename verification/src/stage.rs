//! The preview stage's rules: how many dummies stand for the open skill, what they are named,
//! which target a cast on the stage resolves its acquisition to (walking fallback chains when a
//! branch's requirement cannot be met), and where a resting window preview is anchored. Positions and distances are the caller's (float geometry);
//! distances come in as `f32` bit patterns and are compared with IEEE semantics.
use vstd::prelude::*;

use crate::floatbits::{f32_le, f32_le_exec, F32Bits};
use crate::library::SkillEntry;
use crate::model::{AcqFallback, Acquisition, CollisionWindow, HitFilter, WindowAnchor};
use crate::text::{concat, decimal, decimal_string};

verus! {

/// How many dummies the stage shows for the open skill: a chaining skill with a positive chain
/// count gets one per hop plus the first victim; anything else, and no open skill, gets one.
pub open spec fn spec_dummy_count(entry: Option<SkillEntry>) -> nat {
    match entry {
        Some(e) => if e.rules.can_chain && e.rules.chain_count > 0 {
            e.rules.chain_count as nat + 1
        } else {
            1
        },
        None => 1,
    }
}

/// The number of dummies the stage shows for `entry` (the open skill, if any).
pub fn dummy_count(entry: Option<&SkillEntry>) -> (r: u64)
    ensures
        r == spec_dummy_count(
            match entry {
                Some(e) => Some(*e),
                None => None,
            },
        ),
{
    match entry {
        Some(e) => {
            if e.rules.can_chain && e.rules.chain_count > 0 {
                e.rules.chain_count as u64 + 1
            } else {
                1
            }
        },
        None => 1,
    }
}

/// The name of dummy `i` (from 0): `preview_dummy`, then `preview_dummy_2`, `preview_dummy_3`...
pub fn dummy_name(i: u64) -> (r: String)
    requires
        i < u64::MAX,
    ensures
        r@ == (if i == 0 { "preview_dummy"@ } else { "preview_dummy_"@ + decimal((i + 1) as nat) }),
{
    if i == 0 {
        String::from_str("preview_dummy")
    } else {
        let n = decimal_string((i + 1) as u128);
        concat("preview_dummy_", n.as_str())
    }
}

/// The first dummy as a cast on the stage sees it.
pub struct StageDummy {
    /// The dummy entity's bits.
    pub entity: u64,
    /// Its distance from the caster.
    pub distance: F32Bits,
    /// The hit filters that accept it as a target of the stage's caster.
    pub admitted_by: Vec<HitFilter>,
}

/// What the stage knows when it resolves an acquisition.
pub struct StageAimContext {
    /// The first dummy, if one stands.
    pub dummy: Option<StageDummy>,
    /// The ground marker's distance from the caster.
    pub marker_distance: F32Bits,
}

/// Where a cast on the stage goes.
#[derive(Debug, Clone, Copy, PartialEq, Eq, Structural)]
pub enum StageAim {
    /// Aimed along the lofted direction toward the first dummy (the ground marker without one).
    AimDirection,
    /// At the caster's own position.
    CasterPoint,
    /// At the ground marker.
    GroundMarker,
    /// At the dummy entity with these bits.
    Dummy(u64),
}

/// The target `acq` resolves to on the stage `ctx`: `Aim` aims, `SelfPoint` takes the caster's
/// position, `HitscanEntity` takes the first dummy when it is within `range` and its filter
/// accepts it, `GroundPoint` takes the ground marker when it is within `range`; a branch that
/// finds nothing goes to its fallback, and `Fizzle` resolves to nothing.
pub open spec fn resolved_aim(acq: Acquisition, ctx: StageAimContext) -> Option<StageAim>
    decreases acq,
{
    match acq {
        Acquisition::Aim => Some(StageAim::AimDirection),
        Acquisition::SelfPoint => Some(StageAim::CasterPoint),
        Acquisition::HitscanEntity { range, filter, fallback } => {
            let hit = match ctx.dummy {
                Some(d) => f32_le(d.distance, range) && d.admitted_by@.contains(filter),
                None => false,
            };
            if hit {
                Some(StageAim::Dummy(ctx.dummy->0.entity))
            } else {
                match fallback {
                    AcqFallback::Fizzle => None,
                    AcqFallback::Then(next) => resolved_aim(*next, ctx),
                }
            }
        },
        Acquisition::GroundPoint { range, fallback, .. } => {
            if f32_le(ctx.marker_distance, range) {
                Some(StageAim::GroundMarker)
            } else {
                match fallback {
                    AcqFallback::Fizzle => None,
                    AcqFallback::Then(next) => resolved_aim(*next, ctx),
                }
            }
        },
    }
}

fn admits(filters: &Vec<HitFilter>, filter: HitFilter) -> (r: bool)
    ensures
        r == filters@.contains(filter),
{
    let mut k: usize = 0;
    while k < filters.len()
        invariant
            k <= filters@.len(),
            forall|j: int| 0 <= j < k ==> filters@[j] != filter,
        decreases filters@.len() - k,
    {
        if filters[k] == filter {
            return true;
        }
        k = k + 1;
    }
    false
}

/// The target a cast of `acq` resolves to on the stage, or none when every branch fizzles.
pub fn resolve_stage_acquisition(acq: &Acquisition, ctx: &StageAimContext) -> (r: Option<StageAim>)
    ensures
        r == resolved_aim(*acq, *ctx),
    decreases acq,
{
    match acq {
        Acquisition::Aim => Some(StageAim::AimDirection),
        Acquisition::SelfPoint => Some(StageAim::CasterPoint),
        Acquisition::HitscanEntity { range, filter, fallback } => {
            let hit = match &ctx.dummy {
                Some(d) => f32_le_exec(d.distance, *range) && admits(&d.admitted_by, *filter),
                None => false,
            };
            if hit {
                match &ctx.dummy {
                    Some(d) => Some(StageAim::Dummy(d.entity)),
                    None => None,
                }
            } else {
                match fallback {
                    AcqFallback::Fizzle => None,
                    AcqFallback::Then(next) => resolve_stage_acquisition(&**next, ctx),
                }
            }
        },
        Acquisition::GroundPoint { range, fallback, .. } => {
            if f32_le_exec(ctx.marker_distance, *range) {
                Some(StageAim::GroundMarker)
            } else {
                match fallback {
                    AcqFallback::Fizzle => None,
                    AcqFallback::Then(next) => resolve_stage_acquisition(&**next, ctx),
                }
            }
        },
    }
}

/// The stage point a resting window preview is anchored at (before its offset).
#[derive(Debug, Clone, Copy, PartialEq, Eq, Structural)]
pub enum AnchorPoint {
    Caster,
    Dummy,
    GroundMarker,
}

/// Where window `w` of a timeline with acquisition `acq` rests on the stage `ctx`: a caster
/// anchor at the caster; a cast-point anchor where the acquisition resolves, falling back to the
/// caster when it yields no point (it aims a direction or fizzles).
pub open spec fn spec_anchor_point(w: CollisionWindow, acq: Acquisition, ctx: StageAimContext) -> AnchorPoint {
    match w.anchor {
        WindowAnchor::Caster => AnchorPoint::Caster,
        WindowAnchor::CastPoint => match resolved_aim(acq, ctx) {
            Some(StageAim::GroundMarker) => AnchorPoint::GroundMarker,
            Some(StageAim::Dummy(_)) => AnchorPoint::Dummy,
            _ => AnchorPoint::Caster,
        },
    }
}

/// The stage point window `w` rests at, for a timeline whose acquisition is `acq`.
pub fn window_anchor_point(w: &CollisionWindow, acq: &Acquisition, ctx: &StageAimContext) -> (r: AnchorPoint)
    ensures
        r == spec_anchor_point(*w, *acq, *ctx),
{
    match w.anchor {
        WindowAnchor::Caster => AnchorPoint::Caster,
        WindowAnchor::CastPoint => match resolve_stage_acquisition(acq, ctx) {
            Some(StageAim::GroundMarker) => AnchorPoint::GroundMarker,
            Some(StageAim::Dummy(_)) => AnchorPoint::Dummy,
            _ => AnchorPoint::Caster,
        },
    }
}

} // verus!
