//! The skill data the editor works on: a skill's behavior timeline (collision windows, cue
//! bindings, charge tiers, acquisition) and the parts of its rules the editor's logic reads
//! (id, name, delivery, damage, chaining, trigger conditions).
//!
//! Authored scalars are kept as `f32` bit patterns (see `floatbits`); every type has a `Clone`
//! whose result equals the value it copies.
use vstd::prelude::*;

use crate::floatbits::F32Bits;
use crate::text::seq_lt;

verus! {

/// A vector of three authored scalars (`Vec3`), as bit patterns.
#[derive(Debug, Clone, Copy, PartialEq, Eq, Structural)]
pub struct Vec3Bits {
    pub x: F32Bits,
    pub y: F32Bits,
    pub z: F32Bits,
}

impl Vec3Bits {
    /// `Vec3::ZERO`.
    pub fn zero() -> (r: Self)
        ensures
            r.x == 0 && r.y == 0 && r.z == 0,
    {
        Vec3Bits { x: 0, y: 0, z: 0 }
    }

    pub fn new(x: F32Bits, y: F32Bits, z: F32Bits) -> (r: Self)
        ensures
            r == (Vec3Bits { x, y, z }),
    {
        Vec3Bits { x, y, z }
    }
}

/// The cast phase a scheduled window opens in.
#[derive(Debug, Clone, Copy, PartialEq, Eq, Structural)]
pub enum WindowPhase {
    Windup,
    Active,
    Recovery,
}

/// How a collision window comes into existence: on the phase schedule, or only when an emitter
/// instantiates it.
#[derive(Debug, Clone, Copy, PartialEq, Eq, Structural)]
pub enum WindowSpawn {
    Scheduled { phase: WindowPhase, offset: F32Bits },
    Template,
}

/// Where a window is anchored.
#[derive(Debug, Clone, Copy, PartialEq, Eq, Structural)]
pub enum WindowAnchor {
    Caster,
    CastPoint,
}

/// The volume a window sweeps.
#[derive(Debug, Clone, Copy, PartialEq, Eq, Structural)]
pub enum CollisionShape {
    Sphere { radius: F32Bits },
    Capsule { radius: F32Bits, height: F32Bits },
    Cone { angle: F32Bits, range: F32Bits },
}

/// How a window's volume moves while alive.
#[derive(Debug, Clone, Copy, PartialEq, Eq, Structural)]
pub enum VolumeMotion {
    Static,
    Linear { speed: F32Bits },
    Ballistic { speed: F32Bits, gravity: F32Bits },
    Beam,
}

/// Which entities a volume may hit.
#[derive(Debug, Clone, Copy, PartialEq, Eq, Structural)]
pub enum HitFilter {
    Caster,
    Allies,
    Enemies,
    All,
}

/// How often a volume may hit the same target.
#[derive(Debug, Clone, Copy, PartialEq, Eq, Structural)]
pub enum HitMode {
    OncePerTarget,
    FirstOnly,
    EveryTick,
}

/// A window's emitter: rains instances of the `Template` window named `window`.
#[derive(Debug)]
pub struct Emitter {
    pub rate: F32Bits,
    pub jitter: F32Bits,
    pub window: String,
}

impl Clone for Emitter {
    fn clone(&self) -> (r: Self)
        ensures
            r == *self,
    {
        Emitter { rate: self.rate, jitter: self.jitter, window: self.window.clone() }
    }
}

/// When a painting window lays down surface patches.
#[derive(Debug, Clone, Copy, PartialEq, Eq, Structural)]
pub enum PaintMode {
    OnEnd,
    Trail { step: F32Bits },
}

/// A window's surface paint.
#[derive(Debug)]
pub struct PaintSpec {
    pub surface: String,
    pub radius: F32Bits,
    pub mode: PaintMode,
    pub lifetime: Option<F32Bits>,
}

impl Clone for PaintSpec {
    fn clone(&self) -> (r: Self)
        ensures
            r == *self,
    {
        PaintSpec {
            surface: self.surface.clone(),
            radius: self.radius,
            mode: self.mode,
            lifetime: self.lifetime,
        }
    }
}

/// One collision window of a cast timeline.
#[derive(Debug)]
pub struct CollisionWindow {
    pub id: String,
    pub spawn: WindowSpawn,
    pub anchor: WindowAnchor,
    pub anchor_offset: Vec3Bits,
    pub strikes: bool,
    pub active_duration: F32Bits,
    pub shape: CollisionShape,
    pub motion: VolumeMotion,
    pub hit_filter: HitFilter,
    pub hit_mode: HitMode,
    pub rehit_interval: Option<F32Bits>,
    pub emitter: Option<Emitter>,
    pub paints: Option<PaintSpec>,
}

impl Clone for CollisionWindow {
    fn clone(&self) -> (r: Self)
        ensures
            r == *self,
    {
        let emitter = match &self.emitter {
            Some(e) => Some(e.clone()),
            None => None,
        };
        let paints = match &self.paints {
            Some(p) => Some(p.clone()),
            None => None,
        };
        CollisionWindow {
            id: self.id.clone(),
            spawn: self.spawn,
            anchor: self.anchor,
            anchor_offset: self.anchor_offset,
            strikes: self.strikes,
            active_duration: self.active_duration,
            shape: self.shape,
            motion: self.motion,
            hit_filter: self.hit_filter,
            hit_mode: self.hit_mode,
            rehit_interval: self.rehit_interval,
            emitter,
            paints,
        }
    }
}

/// How a cue effect is attached.
#[derive(Debug)]
pub enum CueAttach {
    World,
    Follow,
    Bone { socket: String },
}

impl Clone for CueAttach {
    fn clone(&self) -> (r: Self)
        ensures
            r == *self,
    {
        match self {
            CueAttach::World => CueAttach::World,
            CueAttach::Follow => CueAttach::Follow,
            CueAttach::Bone { socket } => CueAttach::Bone { socket: socket.clone() },
        }
    }
}

/// Where a cue param's value comes from.
#[derive(Debug, Clone, Copy, PartialEq, Eq, Structural)]
pub enum ParamSource {
    Charge,
}

/// A cue param binding.
#[derive(Debug)]
pub struct CueParam {
    pub param: String,
    pub source: ParamSource,
}

impl Clone for CueParam {
    fn clone(&self) -> (r: Self)
        ensures
            r == *self,
    {
        CueParam { param: self.param.clone(), source: self.source }
    }
}

/// What a cue slot plays.
#[derive(Debug)]
pub struct CueBinding {
    pub effect: Option<String>,
    pub attach: CueAttach,
    pub anim: Option<String>,
    pub params: Vec<CueParam>,
    pub duration: Option<F32Bits>,
}

pub fn clone_opt_string(s: &Option<String>) -> (r: Option<String>)
    ensures
        r == *s,
{
    match s {
        Some(v) => Some(v.clone()),
        None => None,
    }
}

impl CueBinding {
    /// Field-wise equality, with `params` compared by content.
    pub open spec fn same_as(self, o: CueBinding) -> bool {
        &&& self.effect == o.effect
        &&& self.attach == o.attach
        &&& self.anim == o.anim
        &&& self.params@ == o.params@
        &&& self.duration == o.duration
    }
}

impl Clone for CueBinding {
    fn clone(&self) -> (r: Self)
        ensures
            r.same_as(*self),
    {
        let params = self.params.clone();
        proof {
            assert(params@ =~= self.params@);
        }
        CueBinding {
            effect: clone_opt_string(&self.effect),
            attach: self.attach.clone(),
            anim: clone_opt_string(&self.anim),
            params,
            duration: self.duration,
        }
    }
}

/// One `cues` map entry: slot key and binding.
#[derive(Debug)]
pub struct CueEntry {
    pub slot: String,
    pub binding: CueBinding,
}

impl CueEntry {
    pub open spec fn same_as(self, o: CueEntry) -> bool {
        self.slot == o.slot && self.binding.same_as(o.binding)
    }
}

impl Clone for CueEntry {
    fn clone(&self) -> (r: Self)
        ensures
            r.same_as(*self),
    {
        CueEntry { slot: self.slot.clone(), binding: self.binding.clone() }
    }
}

/// One charge tier: the cue to play once the held charge passes `threshold`.
#[derive(Debug)]
pub struct ChargeTier {
    pub threshold: F32Bits,
    pub cue: CueBinding,
}

impl ChargeTier {
    pub open spec fn same_as(self, o: ChargeTier) -> bool {
        self.threshold == o.threshold && self.cue.same_as(o.cue)
    }
}

impl Clone for ChargeTier {
    fn clone(&self) -> (r: Self)
        ensures
            r.same_as(*self),
    {
        ChargeTier { threshold: self.threshold, cue: self.cue.clone() }
    }
}

/// A ground-point acquisition's surface gate.
#[derive(Debug)]
pub struct SurfaceRequirement {
    pub surface: String,
    pub snap: bool,
    pub consume: bool,
}

impl Clone for SurfaceRequirement {
    fn clone(&self) -> (r: Self)
        ensures
            r == *self,
    {
        SurfaceRequirement { surface: self.surface.clone(), snap: self.snap, consume: self.consume }
    }
}

/// How a cast acquires its point or target.
#[derive(Debug)]
pub enum Acquisition {
    Aim,
    SelfPoint,
    GroundPoint { range: F32Bits, fallback: AcqFallback, on_surface: Option<SurfaceRequirement> },
    HitscanEntity { range: F32Bits, filter: HitFilter, fallback: AcqFallback },
}

/// What an acquisition falls back to when it finds nothing.
#[derive(Debug)]
pub enum AcqFallback {
    Fizzle,
    Then(Box<Acquisition>),
}

impl Clone for Acquisition {
    fn clone(&self) -> (r: Self)
        ensures
            r == *self,
        decreases self,
    {
        match self {
            Acquisition::Aim => Acquisition::Aim,
            Acquisition::SelfPoint => Acquisition::SelfPoint,
            Acquisition::GroundPoint { range, fallback, on_surface } => {
                let on_surface = match on_surface {
                    Some(req) => Some(req.clone()),
                    None => None,
                };
                Acquisition::GroundPoint { range: *range, fallback: fallback.clone(), on_surface }
            },
            Acquisition::HitscanEntity { range, filter, fallback } => {
                Acquisition::HitscanEntity { range: *range, filter: *filter, fallback: fallback.clone() }
            },
        }
    }
}

impl Clone for AcqFallback {
    fn clone(&self) -> (r: Self)
        ensures
            r == *self,
        decreases self,
    {
        match self {
            AcqFallback::Fizzle => AcqFallback::Fizzle,
            AcqFallback::Then(inner) => {
                let a: &Acquisition = &**inner;
                AcqFallback::Then(Box::new(a.clone()))
            },
        }
    }
}

/// The three phase durations.
#[derive(Debug, Clone, Copy, PartialEq, Eq, Structural)]
pub struct PhaseDurations {
    pub windup: F32Bits,
    pub active: F32Bits,
    pub recovery: F32Bits,
}

/// One `vfx_cues` map entry.
#[derive(Debug)]
pub struct VfxCueEntry {
    pub slot: String,
    pub cue_id: String,
}

impl Clone for VfxCueEntry {
    fn clone(&self) -> (r: Self)
        ensures
            r == *self,
    {
        VfxCueEntry { slot: self.slot.clone(), cue_id: self.cue_id.clone() }
    }
}

/// A skill's behavior timeline. `cues` and `vfx_cues` are maps keyed by slot, kept in slot
/// order: see [`cues_in_slot_order`].
#[derive(Debug)]
pub struct CastTimeline {
    pub skill_id: String,
    pub phase_durations: PhaseDurations,
    pub collision_windows: Vec<CollisionWindow>,
    pub acquisition: Acquisition,
    pub vfx_cues: Vec<VfxCueEntry>,
    pub chain_radius: F32Bits,
    pub chargeable: bool,
    pub max_hold: F32Bits,
    pub cues: Vec<CueEntry>,
    pub charge_cues: Vec<ChargeTier>,
}

impl CastTimeline {
    /// Field-wise equality, with every list compared by content.
    pub open spec fn same_as(self, o: CastTimeline) -> bool {
        &&& self.skill_id == o.skill_id
        &&& self.phase_durations == o.phase_durations
        &&& self.collision_windows@ == o.collision_windows@
        &&& self.acquisition == o.acquisition
        &&& self.vfx_cues@ == o.vfx_cues@
        &&& self.chain_radius == o.chain_radius
        &&& self.chargeable == o.chargeable
        &&& self.max_hold == o.max_hold
        &&& self.cues@.len() == o.cues@.len()
        &&& forall|i: int| 0 <= i < self.cues@.len() ==> #[trigger] self.cues@[i].same_as(o.cues@[i])
        &&& self.charge_cues@.len() == o.charge_cues@.len()
        &&& forall|i: int|
            0 <= i < self.charge_cues@.len() ==> #[trigger] self.charge_cues@[i].same_as(
                o.charge_cues@[i],
            )
    }
}

impl Clone for CastTimeline {
    fn clone(&self) -> (r: Self)
        ensures
            r.same_as(*self),
    {
        let collision_windows = self.collision_windows.clone();
        let vfx_cues = self.vfx_cues.clone();
        let cues = self.cues.clone();
        let charge_cues = self.charge_cues.clone();
        proof {
            assert(collision_windows@ =~= self.collision_windows@);
            assert(vfx_cues@ =~= self.vfx_cues@);
        }
        CastTimeline {
            skill_id: self.skill_id.clone(),
            phase_durations: self.phase_durations,
            collision_windows,
            acquisition: self.acquisition.clone(),
            vfx_cues,
            chain_radius: self.chain_radius,
            chargeable: self.chargeable,
            max_hold: self.max_hold,
            cues,
            charge_cues,
        }
    }
}

/// The `cues` and `vfx_cues` maps list their slots in ascending order, so each slot at most once.
pub open spec fn cues_in_slot_order(tl: CastTimeline) -> bool {
    &&& forall|i: int, j: int|
        0 <= i < j < tl.cues@.len() ==> seq_lt(#[trigger] tl.cues@[i].slot@, #[trigger] tl.cues@[j].slot@)
    &&& forall|i: int, j: int|
        0 <= i < j < tl.vfx_cues@.len() ==> seq_lt(#[trigger] tl.vfx_cues@[i].slot@, #[trigger] tl.vfx_cues@[j].slot@)
}

/// The ids of a timeline's windows, in order.
pub open spec fn window_ids(tl: CastTimeline) -> Seq<Seq<char>> {
    tl.collision_windows@.map_values(|w: CollisionWindow| w.id@)
}

// ---------------------------------------------------------------------------
// Rules
// ---------------------------------------------------------------------------

/// The damage type a condition can name.
#[derive(Debug, Clone, Copy, PartialEq, Eq, Structural)]
pub enum DamageType {
    Physical,
    Fire,
    Cold,
    Lightning,
    Chaos,
}

/// When a trigger condition is evaluated.
#[derive(Debug, Clone, Copy, PartialEq, Eq, Structural)]
pub enum ConditionPhase {
    PreCalculation,
    PostCalculation,
    PostResolution,
    DefensiveResolution,
    Lifecycle,
}

/// What makes a rules trigger fire. Thresholds are `f64` bit patterns.
#[derive(Debug)]
pub enum TriggerCondition {
    Always,
    PlayerFullLife,
    PlayerLowLife { threshold: u64 },
    PlayerFullMana,
    PlayerLowMana { threshold: u64 },
    PlayerHasBarrier,
    PlayerNoBarrier,
    SelfHasEffect { id: String },
    SelfEffectStacks { id: String, min_stacks: u32 },
    TargetFullLife,
    TargetLowLife { threshold: u64 },
    TargetHasEffect { id: String },
    TargetEffectStacks { id: String, min_stacks: u32 },
    TargetNoEffect { id: String },
    TargetHasBarrier,
    TargetNoBarrier,
    EveryNthHit { n: u32 },
    OnCrit,
    OnNonCrit,
    DamageTypeDealt { damage_type: DamageType },
    DamageOverThreshold { threshold: u64 },
    MultipleDamageTypes,
    OnKill,
    OnBarrierBroken,
    OnOverkill { threshold: u64 },
    OnDamageTaken,
    OnDamageTakenOfType { damage_type: DamageType },
    OnEffectConsumed { id: String },
    OnEffectChargeUsed { id: String },
    OnDodge,
    OnEvasionCap,
    OnHitTaken,
    OnBarrierDepleted,
    OnLowLifeReached { threshold: u64 },
    OnImpact,
    OnExpire,
}

impl TriggerCondition {
    /// The condition's evaluation phase.
    pub open spec fn spec_phase(&self) -> ConditionPhase {
        match self {
            TriggerCondition::OnCrit | TriggerCondition::OnNonCrit
            | TriggerCondition::DamageTypeDealt { .. } | TriggerCondition::DamageOverThreshold { .. }
            | TriggerCondition::MultipleDamageTypes => ConditionPhase::PostCalculation,
            TriggerCondition::OnKill | TriggerCondition::OnBarrierBroken
            | TriggerCondition::OnOverkill { .. } => ConditionPhase::PostResolution,
            TriggerCondition::OnDamageTaken | TriggerCondition::OnDamageTakenOfType { .. }
            | TriggerCondition::OnEffectConsumed { .. } | TriggerCondition::OnEffectChargeUsed { .. }
            | TriggerCondition::OnDodge | TriggerCondition::OnEvasionCap | TriggerCondition::OnHitTaken
            | TriggerCondition::OnBarrierDepleted
            | TriggerCondition::OnLowLifeReached { .. } => ConditionPhase::DefensiveResolution,
            TriggerCondition::OnImpact | TriggerCondition::OnExpire => ConditionPhase::Lifecycle,
            _ => ConditionPhase::PreCalculation,
        }
    }

    /// The condition's evaluation phase.
    #[verifier::when_used_as_spec(spec_phase)]
    pub fn phase(&self) -> (r: ConditionPhase)
        ensures
            r == self.spec_phase(),
    {
        match self {
            TriggerCondition::OnCrit | TriggerCondition::OnNonCrit
            | TriggerCondition::DamageTypeDealt { .. } | TriggerCondition::DamageOverThreshold { .. }
            | TriggerCondition::MultipleDamageTypes => ConditionPhase::PostCalculation,
            TriggerCondition::OnKill | TriggerCondition::OnBarrierBroken
            | TriggerCondition::OnOverkill { .. } => ConditionPhase::PostResolution,
            TriggerCondition::OnDamageTaken | TriggerCondition::OnDamageTakenOfType { .. }
            | TriggerCondition::OnEffectConsumed { .. } | TriggerCondition::OnEffectChargeUsed { .. }
            | TriggerCondition::OnDodge | TriggerCondition::OnEvasionCap | TriggerCondition::OnHitTaken
            | TriggerCondition::OnBarrierDepleted
            | TriggerCondition::OnLowLifeReached { .. } => ConditionPhase::DefensiveResolution,
            TriggerCondition::OnImpact | TriggerCondition::OnExpire => ConditionPhase::Lifecycle,
            _ => ConditionPhase::PreCalculation,
        }
    }

    /// `true` for `EveryNthHit`.
    pub fn is_every_nth_hit(&self) -> (r: bool)
        ensures
            r == (*self is EveryNthHit),
    {
        match self {
            TriggerCondition::EveryNthHit { .. } => true,
            _ => false,
        }
    }
}

impl Clone for TriggerCondition {
    fn clone(&self) -> (r: Self)
        ensures
            r == *self,
    {
        match self {
            TriggerCondition::Always => TriggerCondition::Always,
            TriggerCondition::PlayerFullLife => TriggerCondition::PlayerFullLife,
            TriggerCondition::PlayerLowLife { threshold } => TriggerCondition::PlayerLowLife { threshold: *threshold },
            TriggerCondition::PlayerFullMana => TriggerCondition::PlayerFullMana,
            TriggerCondition::PlayerLowMana { threshold } => TriggerCondition::PlayerLowMana { threshold: *threshold },
            TriggerCondition::PlayerHasBarrier => TriggerCondition::PlayerHasBarrier,
            TriggerCondition::PlayerNoBarrier => TriggerCondition::PlayerNoBarrier,
            TriggerCondition::SelfHasEffect { id } => TriggerCondition::SelfHasEffect { id: id.clone() },
            TriggerCondition::SelfEffectStacks { id, min_stacks } => TriggerCondition::SelfEffectStacks { id: id.clone(), min_stacks: *min_stacks },
            TriggerCondition::TargetFullLife => TriggerCondition::TargetFullLife,
            TriggerCondition::TargetLowLife { threshold } => TriggerCondition::TargetLowLife { threshold: *threshold },
            TriggerCondition::TargetHasEffect { id } => TriggerCondition::TargetHasEffect { id: id.clone() },
            TriggerCondition::TargetEffectStacks { id, min_stacks } => TriggerCondition::TargetEffectStacks { id: id.clone(), min_stacks: *min_stacks },
            TriggerCondition::TargetNoEffect { id } => TriggerCondition::TargetNoEffect { id: id.clone() },
            TriggerCondition::TargetHasBarrier => TriggerCondition::TargetHasBarrier,
            TriggerCondition::TargetNoBarrier => TriggerCondition::TargetNoBarrier,
            TriggerCondition::EveryNthHit { n } => TriggerCondition::EveryNthHit { n: *n },
            TriggerCondition::OnCrit => TriggerCondition::OnCrit,
            TriggerCondition::OnNonCrit => TriggerCondition::OnNonCrit,
            TriggerCondition::DamageTypeDealt { damage_type } => TriggerCondition::DamageTypeDealt { damage_type: *damage_type },
            TriggerCondition::DamageOverThreshold { threshold } => TriggerCondition::DamageOverThreshold { threshold: *threshold },
            TriggerCondition::MultipleDamageTypes => TriggerCondition::MultipleDamageTypes,
            TriggerCondition::OnKill => TriggerCondition::OnKill,
            TriggerCondition::OnBarrierBroken => TriggerCondition::OnBarrierBroken,
            TriggerCondition::OnOverkill { threshold } => TriggerCondition::OnOverkill { threshold: *threshold },
            TriggerCondition::OnDamageTaken => TriggerCondition::OnDamageTaken,
            TriggerCondition::OnDamageTakenOfType { damage_type } => TriggerCondition::OnDamageTakenOfType { damage_type: *damage_type },
            TriggerCondition::OnEffectConsumed { id } => TriggerCondition::OnEffectConsumed { id: id.clone() },
            TriggerCondition::OnEffectChargeUsed { id } => TriggerCondition::OnEffectChargeUsed { id: id.clone() },
            TriggerCondition::OnDodge => TriggerCondition::OnDodge,
            TriggerCondition::OnEvasionCap => TriggerCondition::OnEvasionCap,
            TriggerCondition::OnHitTaken => TriggerCondition::OnHitTaken,
            TriggerCondition::OnBarrierDepleted => TriggerCondition::OnBarrierDepleted,
            TriggerCondition::OnLowLifeReached { threshold } => TriggerCondition::OnLowLifeReached { threshold: *threshold },
            TriggerCondition::OnImpact => TriggerCondition::OnImpact,
            TriggerCondition::OnExpire => TriggerCondition::OnExpire,
        }
    }
}

/// One rules trigger: when `condition` holds, `trigger_skill` fires.
#[derive(Debug)]
pub struct SkillCondition {
    pub trigger_skill: String,
    pub additional: bool,
    pub condition: TriggerCondition,
}

impl Clone for SkillCondition {
    fn clone(&self) -> (r: Self)
        ensures
            r == *self,
    {
        SkillCondition {
            trigger_skill: self.trigger_skill.clone(),
            additional: self.additional,
            condition: self.condition.clone(),
        }
    }
}

/// How a skill is delivered.
#[derive(Debug, Clone, Copy, PartialEq, Eq, Structural)]
pub enum Delivery {
    Instant,
    Melee,
    Projectile,
}

/// One base damage line: a damage type and its `[min, max]` roll (`f64` bit patterns).
#[derive(Debug, Clone, Copy, PartialEq, Eq, Structural)]
pub struct BaseDamage {
    pub damage_type: DamageType,
    pub min: u64,
    pub max: u64,
}

/// A skill's damage: its base lines, effectiveness factors and crit settings (`f64` bit
/// patterns).
#[derive(Debug)]
pub struct DamageConfig {
    pub base_damages: Vec<BaseDamage>,
    pub weapon_effectiveness: u64,
    pub damage_effectiveness: u64,
    pub base_crit_chance: u64,
    pub crit_multiplier_bonus: u64,
}

impl DamageConfig {
    /// Field-wise equality, with `base_damages` compared by content.
    pub open spec fn same_as(self, o: DamageConfig) -> bool {
        &&& self.base_damages@ == o.base_damages@
        &&& self.weapon_effectiveness == o.weapon_effectiveness
        &&& self.damage_effectiveness == o.damage_effectiveness
        &&& self.base_crit_chance == o.base_crit_chance
        &&& self.crit_multiplier_bonus == o.crit_multiplier_bonus
    }
}

impl Clone for DamageConfig {
    fn clone(&self) -> (r: Self)
        ensures
            r.same_as(*self),
    {
        let base_damages = self.base_damages.clone();
        proof {
            assert(base_damages@ =~= self.base_damages@);
        }
        DamageConfig {
            base_damages,
            weapon_effectiveness: self.weapon_effectiveness,
            damage_effectiveness: self.damage_effectiveness,
            base_crit_chance: self.base_crit_chance,
            crit_multiplier_bonus: self.crit_multiplier_bonus,
        }
    }
}

/// A skill's rules: what the rules file holds of it. `mana_cost` and `cooldown` are `f64` bit
/// patterns; each effect application is kept as the TOML text of its table.
#[derive(Debug)]
pub struct SkillRules {
    pub id: String,
    pub name: String,
    pub mana_cost: u64,
    pub cooldown: u64,
    pub delivery: Delivery,
    pub damage: DamageConfig,
    pub can_chain: bool,
    pub chain_count: u32,
    pub conditions: Vec<SkillCondition>,
    pub effect_applications: Vec<String>,
}

impl SkillRules {
    /// Field-wise equality, with lists compared by content.
    pub open spec fn same_as(self, o: SkillRules) -> bool {
        &&& self.id == o.id
        &&& self.name == o.name
        &&& self.mana_cost == o.mana_cost
        &&& self.cooldown == o.cooldown
        &&& self.delivery == o.delivery
        &&& self.damage.same_as(o.damage)
        &&& self.can_chain == o.can_chain
        &&& self.chain_count == o.chain_count
        &&& self.conditions@ == o.conditions@
        &&& self.effect_applications@ == o.effect_applications@
    }
}

impl Clone for SkillRules {
    fn clone(&self) -> (r: Self)
        ensures
            r.same_as(*self),
    {
        let conditions = self.conditions.clone();
        let effect_applications = self.effect_applications.clone();
        proof {
            assert(conditions@ =~= self.conditions@);
            assert(effect_applications@ =~= self.effect_applications@);
        }
        SkillRules {
            id: self.id.clone(),
            name: self.name.clone(),
            mana_cost: self.mana_cost,
            cooldown: self.cooldown,
            delivery: self.delivery,
            damage: self.damage.clone(),
            can_chain: self.can_chain,
            chain_count: self.chain_count,
            conditions,
            effect_applications,
        }
    }
}

} // verus!
