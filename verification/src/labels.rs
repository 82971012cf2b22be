//! The plain-language labels the Skill panel shows for trigger conditions, acquisitions,
//! collision shapes, volume motions and hit modes, and the names of the primitive shapes.
use vstd::prelude::*;

use crate::model::{Acquisition, CollisionShape, HitMode, TriggerCondition, VolumeMotion};

verus! {

pub open spec fn spec_condition_label(c: TriggerCondition) -> Seq<char> {
    match c {
        TriggerCondition::Always => "Always"@,
        TriggerCondition::PlayerFullLife => "Player Full Life"@,
        TriggerCondition::PlayerLowLife { .. } => "Player Low Life"@,
        TriggerCondition::PlayerFullMana => "Player Full Mana"@,
        TriggerCondition::PlayerLowMana { .. } => "Player Low Mana"@,
        TriggerCondition::PlayerHasBarrier => "Player Has Barrier"@,
        TriggerCondition::PlayerNoBarrier => "Player No Barrier"@,
        TriggerCondition::SelfHasEffect { .. } => "Self Has Effect"@,
        TriggerCondition::SelfEffectStacks { .. } => "Self Effect Stacks"@,
        TriggerCondition::TargetFullLife => "Target Full Life"@,
        TriggerCondition::TargetLowLife { .. } => "Target Low Life"@,
        TriggerCondition::TargetHasEffect { .. } => "Target Has Effect"@,
        TriggerCondition::TargetEffectStacks { .. } => "Target Effect Stacks"@,
        TriggerCondition::TargetNoEffect { .. } => "Target No Effect"@,
        TriggerCondition::TargetHasBarrier => "Target Has Barrier"@,
        TriggerCondition::TargetNoBarrier => "Target No Barrier"@,
        TriggerCondition::EveryNthHit { .. } => "Every Nth Hit"@,
        TriggerCondition::OnCrit => "On Crit"@,
        TriggerCondition::OnNonCrit => "On Non-Crit"@,
        TriggerCondition::DamageTypeDealt { .. } => "Damage Type Dealt"@,
        TriggerCondition::DamageOverThreshold { .. } => "Damage Over Threshold"@,
        TriggerCondition::MultipleDamageTypes => "Multiple Damage Types"@,
        TriggerCondition::OnKill => "On Kill"@,
        TriggerCondition::OnBarrierBroken => "On Barrier Broken"@,
        TriggerCondition::OnOverkill { .. } => "On Overkill"@,
        TriggerCondition::OnDamageTaken => "On Damage Taken"@,
        TriggerCondition::OnDamageTakenOfType { .. } => "On Damage Taken (Type)"@,
        TriggerCondition::OnEffectConsumed { .. } => "On Effect Consumed"@,
        TriggerCondition::OnEffectChargeUsed { .. } => "On Effect Charge Used"@,
        TriggerCondition::OnDodge => "On Dodge"@,
        TriggerCondition::OnEvasionCap => "On Evasion Cap"@,
        TriggerCondition::OnHitTaken => "On Hit Taken"@,
        TriggerCondition::OnBarrierDepleted => "On Barrier Depleted"@,
        TriggerCondition::OnLowLifeReached { .. } => "On Low Life Reached"@,
        TriggerCondition::OnImpact => "On World Impact"@,
        TriggerCondition::OnExpire => "On Expire"@,
    }
}

/// A trigger condition's card label.
pub fn condition_label(cond: &TriggerCondition) -> (r: &'static str)
    ensures
        r@ == spec_condition_label(*cond),
{
    match cond {
        TriggerCondition::Always => "Always",
        TriggerCondition::PlayerFullLife => "Player Full Life",
        TriggerCondition::PlayerLowLife { .. } => "Player Low Life",
        TriggerCondition::PlayerFullMana => "Player Full Mana",
        TriggerCondition::PlayerLowMana { .. } => "Player Low Mana",
        TriggerCondition::PlayerHasBarrier => "Player Has Barrier",
        TriggerCondition::PlayerNoBarrier => "Player No Barrier",
        TriggerCondition::SelfHasEffect { .. } => "Self Has Effect",
        TriggerCondition::SelfEffectStacks { .. } => "Self Effect Stacks",
        TriggerCondition::TargetFullLife => "Target Full Life",
        TriggerCondition::TargetLowLife { .. } => "Target Low Life",
        TriggerCondition::TargetHasEffect { .. } => "Target Has Effect",
        TriggerCondition::TargetEffectStacks { .. } => "Target Effect Stacks",
        TriggerCondition::TargetNoEffect { .. } => "Target No Effect",
        TriggerCondition::TargetHasBarrier => "Target Has Barrier",
        TriggerCondition::TargetNoBarrier => "Target No Barrier",
        TriggerCondition::EveryNthHit { .. } => "Every Nth Hit",
        TriggerCondition::OnCrit => "On Crit",
        TriggerCondition::OnNonCrit => "On Non-Crit",
        TriggerCondition::DamageTypeDealt { .. } => "Damage Type Dealt",
        TriggerCondition::DamageOverThreshold { .. } => "Damage Over Threshold",
        TriggerCondition::MultipleDamageTypes => "Multiple Damage Types",
        TriggerCondition::OnKill => "On Kill",
        TriggerCondition::OnBarrierBroken => "On Barrier Broken",
        TriggerCondition::OnOverkill { .. } => "On Overkill",
        TriggerCondition::OnDamageTaken => "On Damage Taken",
        TriggerCondition::OnDamageTakenOfType { .. } => "On Damage Taken (Type)",
        TriggerCondition::OnEffectConsumed { .. } => "On Effect Consumed",
        TriggerCondition::OnEffectChargeUsed { .. } => "On Effect Charge Used",
        TriggerCondition::OnDodge => "On Dodge",
        TriggerCondition::OnEvasionCap => "On Evasion Cap",
        TriggerCondition::OnHitTaken => "On Hit Taken",
        TriggerCondition::OnBarrierDepleted => "On Barrier Depleted",
        TriggerCondition::OnLowLifeReached { .. } => "On Low Life Reached",
        TriggerCondition::OnImpact => "On World Impact",
        TriggerCondition::OnExpire => "On Expire",
    }
}

pub open spec fn spec_acquisition_label(a: Acquisition) -> Seq<char> {
    match a {
        Acquisition::Aim => "Free aim"@,
        Acquisition::SelfPoint => "Self"@,
        Acquisition::HitscanEntity { .. } => "Hitscan target"@,
        Acquisition::GroundPoint { .. } => "Ground point"@,
    }
}

/// An acquisition's picker label.
pub fn acquisition_label(acq: &Acquisition) -> (r: &'static str)
    ensures
        r@ == spec_acquisition_label(*acq),
{
    match acq {
        Acquisition::Aim => "Free aim",
        Acquisition::SelfPoint => "Self",
        Acquisition::HitscanEntity { .. } => "Hitscan target",
        Acquisition::GroundPoint { .. } => "Ground point",
    }
}

pub open spec fn spec_hit_mode_label(m: HitMode) -> Seq<char> {
    match m {
        HitMode::OncePerTarget => "Once per target"@,
        HitMode::FirstOnly => "First hit only"@,
        HitMode::EveryTick => "Every tick"@,
    }
}

/// A hit mode's picker label.
pub fn hit_mode_label(mode: &HitMode) -> (r: &'static str)
    ensures
        r@ == spec_hit_mode_label(*mode),
{
    match mode {
        HitMode::OncePerTarget => "Once per target",
        HitMode::FirstOnly => "First hit only",
        HitMode::EveryTick => "Every tick",
    }
}

pub open spec fn spec_shape_label(s: CollisionShape) -> Seq<char> {
    match s {
        CollisionShape::Sphere { .. } => "Sphere"@,
        CollisionShape::Capsule { .. } => "Capsule"@,
        CollisionShape::Cone { .. } => "Cone"@,
    }
}

/// A collision shape's picker label.
pub fn shape_label(shape: &CollisionShape) -> (r: &'static str)
    ensures
        r@ == spec_shape_label(*shape),
{
    match shape {
        CollisionShape::Sphere { .. } => "Sphere",
        CollisionShape::Capsule { .. } => "Capsule",
        CollisionShape::Cone { .. } => "Cone",
    }
}

pub open spec fn spec_motion_label(m: VolumeMotion) -> Seq<char> {
    match m {
        VolumeMotion::Static => "Static"@,
        VolumeMotion::Linear { .. } => "Linear"@,
        VolumeMotion::Ballistic { .. } => "Ballistic"@,
        VolumeMotion::Beam => "Beam"@,
    }
}

/// A volume motion's picker label.
pub fn motion_label(motion: &VolumeMotion) -> (r: &'static str)
    ensures
        r@ == spec_motion_label(*motion),
{
    match motion {
        VolumeMotion::Static => "Static",
        VolumeMotion::Linear { .. } => "Linear",
        VolumeMotion::Ballistic { .. } => "Ballistic",
        VolumeMotion::Beam => "Beam",
    }
}

/// A primitive shape an effect can spawn.
#[derive(Debug, Clone, Copy, PartialEq, Eq, Structural)]
pub enum PrimitiveShape {
    Cube,
    Sphere,
    Cylinder,
    Capsule,
    Plane,
}

pub open spec fn spec_primitive_name(s: PrimitiveShape) -> Seq<char> {
    match s {
        PrimitiveShape::Cube => "Cube"@,
        PrimitiveShape::Sphere => "Sphere"@,
        PrimitiveShape::Cylinder => "Cylinder"@,
        PrimitiveShape::Capsule => "Capsule"@,
        PrimitiveShape::Plane => "Plane"@,
    }
}

impl PrimitiveShape {
    /// The shape's display name.
    pub fn display_name(&self) -> (r: &'static str)
        ensures
            r@ == spec_primitive_name(*self),
    {
        match self {
            PrimitiveShape::Cube => "Cube",
            PrimitiveShape::Sphere => "Sphere",
            PrimitiveShape::Cylinder => "Cylinder",
            PrimitiveShape::Capsule => "Capsule",
            PrimitiveShape::Plane => "Plane",
        }
    }
}

impl Default for PrimitiveShape {
    /// A cube.
    fn default() -> (r: Self)
        ensures
            r == PrimitiveShape::Cube,
    {
        PrimitiveShape::Cube
    }
}

} // verus!
