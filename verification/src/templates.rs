//! Archetype skill templates (strike, projectile, zone, beam): a playable timeline paired with
//! minimal rules (one physical damage line). Their cue bindings name only the two starter effect
//! presets, so a fresh install never authors a dangling cue.
use vstd::prelude::*;

use crate::edits::{archetype_id_base, is_archetype_window, WindowArchetype};
use crate::floatbits::{F32Bits, F32_ONE};
use crate::model::{
    cues_in_slot_order, AcqFallback, Acquisition, BaseDamage, CastTimeline, CueAttach, CueBinding, CueEntry, DamageConfig,
    DamageType, Delivery, HitFilter, PhaseDurations, SkillRules,
};
use crate::text::seq_lt;

verus! {

/// The starter "cast" cue effect preset every template's `on_cast` binding names.
pub const STARTER_MUZZLE_EFFECT: &'static str = "Skill Muzzle";

/// The starter "hit" cue effect preset every template's `on_hit` binding names.
pub const STARTER_IMPACT_EFFECT: &'static str = "Skill Impact";

/// Bit pattern of `0.2`.
pub const F32_0_2: F32Bits = 0x3E4C_CCCDu32;
/// Bit pattern of `0.3`.
pub const F32_0_3: F32Bits = 0x3E99_999Au32;
/// Bit pattern of `6.0`.
pub const F32_6: F32Bits = 0x40C0_0000u32;
/// Bit pattern of `20.0`.
pub const F32_20: F32Bits = 0x41A0_0000u32;
/// Bit pattern of `30.0`.
pub const F32_30: F32Bits = 0x41F0_0000u32;
/// `f64` bit pattern of `10.0`.
pub const F64_10: u64 = 0x4024_0000_0000_0000u64;
/// `f64` bit pattern of `20.0`.
pub const F64_20: u64 = 0x4034_0000_0000_0000u64;
/// `f64` bit pattern of `1.0`.
pub const F64_1: u64 = 0x3FF0_0000_0000_0000u64;

/// The four skill archetypes the "New Skill" palette offers.
#[derive(Debug, Clone, Copy, PartialEq, Eq, Structural)]
pub enum SkillArchetype {
    Strike,
    Projectile,
    Zone,
    Beam,
}

pub open spec fn skill_archetype_label(a: SkillArchetype) -> Seq<char> {
    match a {
        SkillArchetype::Strike => "Strike"@,
        SkillArchetype::Projectile => "Projectile"@,
        SkillArchetype::Zone => "Zone"@,
        SkillArchetype::Beam => "Beam"@,
    }
}

/// The window archetype an archetype's single window has.
pub open spec fn window_archetype_of(a: SkillArchetype) -> WindowArchetype {
    match a {
        SkillArchetype::Strike => WindowArchetype::Strike,
        SkillArchetype::Projectile => WindowArchetype::Projectile,
        SkillArchetype::Zone => WindowArchetype::Zone,
        SkillArchetype::Beam => WindowArchetype::Beam,
    }
}

pub open spec fn template_name(a: SkillArchetype) -> Seq<char> {
    match a {
        SkillArchetype::Strike => "New Strike"@,
        SkillArchetype::Projectile => "New Projectile"@,
        SkillArchetype::Zone => "New Zone"@,
        SkillArchetype::Beam => "New Beam"@,
    }
}

pub open spec fn template_delivery(a: SkillArchetype) -> Delivery {
    match a {
        SkillArchetype::Strike => Delivery::Melee,
        SkillArchetype::Projectile => Delivery::Projectile,
        SkillArchetype::Zone => Delivery::Instant,
        SkillArchetype::Beam => Delivery::Projectile,
    }
}

/// Strike and projectile aim; a zone is ground-targeted (range 20) falling back to the caster's
/// own point; a beam designates a hitscan enemy (range 30) and fizzles without one.
pub open spec fn template_acquisition(a: SkillArchetype) -> Acquisition {
    match a {
        SkillArchetype::Zone => Acquisition::GroundPoint {
            range: F32_20,
            fallback: AcqFallback::Then(Box::new(Acquisition::SelfPoint)),
            on_surface: None,
        },
        SkillArchetype::Beam => Acquisition::HitscanEntity {
            range: F32_30,
            filter: HitFilter::Enemies,
            fallback: AcqFallback::Fizzle,
        },
        _ => Acquisition::Aim,
    }
}

/// Rules named `name` for skill `id`: the given delivery, one physical `10..20` damage line with
/// weapon effectiveness `0` and damage effectiveness `1`; no mana cost, cooldown or crit (all
/// `0.0`), no chaining, no triggers and no effect applications.
pub open spec fn is_basic_rules(r: SkillRules, id: Seq<char>, name: Seq<char>, delivery: Delivery) -> bool {
    &&& r.id@ == id
    &&& r.name@ == name
    &&& r.delivery == delivery
    &&& r.damage.base_damages@ == seq![BaseDamage { damage_type: DamageType::Physical, min: F64_10, max: F64_20 }]
    &&& r.damage.weapon_effectiveness == 0
    &&& r.damage.damage_effectiveness == F64_1
    &&& r.damage.base_crit_chance == 0
    &&& r.damage.crit_multiplier_bonus == 0
    &&& r.mana_cost == 0
    &&& r.cooldown == 0
    &&& !r.can_chain
    &&& r.chain_count == 0
    &&& r.conditions@.len() == 0
    &&& r.effect_applications@.len() == 0
}

/// `c` binds `slot` to the starter preset `effect`, world-attached, with nothing else set.
pub open spec fn is_starter_cue(c: CueEntry, slot: Seq<char>, effect: Seq<char>) -> bool {
    &&& c.slot@ == slot
    &&& c.binding.effect matches Some(e) && e@ == effect
    &&& c.binding.attach == CueAttach::World
    &&& c.binding.anim is None
    &&& c.binding.params@.len() == 0
    &&& c.binding.duration is None
}

/// Archetype `a`'s timeline for skill `id`: phases `0.2 / 0.3 / 0.3`, the archetype's one
/// window, its acquisition, chain radius `6`, not chargeable, max hold `1`, `on_cast` and
/// `on_hit` bound to the starter presets (in slot order), no vfx cues and no charge tiers.
pub open spec fn is_template_timeline(tl: CastTimeline, a: SkillArchetype, id: Seq<char>) -> bool {
    let wa = window_archetype_of(a);
    &&& tl.skill_id@ == id
    &&& tl.phase_durations == PhaseDurations { windup: F32_0_2, active: F32_0_3, recovery: F32_0_3 }
    &&& tl.collision_windows@.len() == 1
    &&& is_archetype_window(tl.collision_windows@[0], wa, archetype_id_base(wa))
    &&& tl.acquisition == template_acquisition(a)
    &&& tl.vfx_cues@.len() == 0
    &&& tl.chain_radius == F32_6
    &&& !tl.chargeable
    &&& tl.max_hold == F32_ONE
    &&& tl.cues@.len() == 2
    &&& is_starter_cue(tl.cues@[0], "on_cast"@, STARTER_MUZZLE_EFFECT@)
    &&& is_starter_cue(tl.cues@[1], "on_hit"@, STARTER_IMPACT_EFFECT@)
    &&& cues_in_slot_order(tl)
    &&& tl.charge_cues@.len() == 0
}

/// Archetype `a`'s `(rules, timeline)` pair for skill `id`.
pub open spec fn is_template(t: (SkillRules, CastTimeline), a: SkillArchetype, id: Seq<char>) -> bool {
    is_basic_rules(t.0, id, template_name(a), template_delivery(a)) && is_template_timeline(t.1, a, id)
}

fn starter_cue(slot: &str, effect: &str) -> (r: CueEntry)
    ensures
        is_starter_cue(r, slot@, effect@),
{
    CueEntry {
        slot: String::from_str(slot),
        binding: CueBinding {
            effect: Some(String::from_str(effect)),
            attach: CueAttach::World,
            anim: None,
            params: Vec::new(),
            duration: None,
        },
    }
}

fn basic_rules(id: &str, name: &str, delivery: Delivery) -> (r: SkillRules)
    ensures
        is_basic_rules(r, id@, name@, delivery),
{
    let mut base_damages: Vec<BaseDamage> = Vec::new();
    base_damages.push(BaseDamage { damage_type: DamageType::Physical, min: F64_10, max: F64_20 });
    SkillRules {
        id: String::from_str(id),
        name: String::from_str(name),
        mana_cost: 0,
        cooldown: 0,
        delivery,
        damage: DamageConfig {
            base_damages,
            weapon_effectiveness: 0,
            damage_effectiveness: F64_1,
            base_crit_chance: 0,
            crit_multiplier_bonus: 0,
        },
        can_chain: false,
        chain_count: 0,
        conditions: Vec::new(),
        effect_applications: Vec::new(),
    }
}

fn template_timeline(a: SkillArchetype, id: &str, acquisition: Acquisition) -> (r: CastTimeline)
    requires
        acquisition == template_acquisition(a),
    ensures
        is_template_timeline(r, a, id@),
{
    let wa = match a {
        SkillArchetype::Strike => WindowArchetype::Strike,
        SkillArchetype::Projectile => WindowArchetype::Projectile,
        SkillArchetype::Zone => WindowArchetype::Zone,
        SkillArchetype::Beam => WindowArchetype::Beam,
    };
    let mut collision_windows = Vec::new();
    collision_windows.push(wa.build(String::from_str(wa.id_base())));
    let mut cues = Vec::new();
    cues.push(starter_cue("on_cast", STARTER_MUZZLE_EFFECT));
    cues.push(starter_cue("on_hit", STARTER_IMPACT_EFFECT));
    proof {
        reveal_strlit("on_cast");
        reveal_strlit("on_hit");
        reveal_with_fuel(seq_lt, 4);
        assert(seq_lt("on_cast"@, "on_hit"@));
    }
    CastTimeline {
        skill_id: String::from_str(id),
        phase_durations: PhaseDurations { windup: F32_0_2, active: F32_0_3, recovery: F32_0_3 },
        collision_windows,
        acquisition,
        vfx_cues: Vec::new(),
        chain_radius: F32_6,
        chargeable: false,
        max_hold: F32_ONE,
        cues,
        charge_cues: Vec::new(),
    }
}

/// Melee strike: one short-lived sphere at the caster, aimed.
pub fn strike_template(id: &str) -> (r: (SkillRules, CastTimeline))
    ensures
        is_template(r, SkillArchetype::Strike, id@),
{
    (basic_rules(id, "New Strike", Delivery::Melee), template_timeline(SkillArchetype::Strike, id, Acquisition::Aim))
}

/// Projectile: a sphere that flies forward from the caster, aimed.
pub fn projectile_template(id: &str) -> (r: (SkillRules, CastTimeline))
    ensures
        is_template(r, SkillArchetype::Projectile, id@),
{
    (
        basic_rules(id, "New Projectile", Delivery::Projectile),
        template_timeline(SkillArchetype::Projectile, id, Acquisition::Aim),
    )
}

/// Ground-targeted zone: a static sphere at the acquired cast point; an unaimed cast falls back
/// to the caster's own point.
pub fn zone_template(id: &str) -> (r: (SkillRules, CastTimeline))
    ensures
        is_template(r, SkillArchetype::Zone, id@),
{
    let acquisition = Acquisition::GroundPoint {
        range: F32_20,
        fallback: AcqFallback::Then(Box::new(Acquisition::SelfPoint)),
        on_surface: None,
    };
    (basic_rules(id, "New Zone", Delivery::Instant), template_timeline(SkillArchetype::Zone, id, acquisition))
}

/// Beam: an instantaneous link to the designated hitscan enemy; fizzles with no target.
pub fn beam_template(id: &str) -> (r: (SkillRules, CastTimeline))
    ensures
        is_template(r, SkillArchetype::Beam, id@),
{
    let acquisition = Acquisition::HitscanEntity {
        range: F32_30,
        filter: HitFilter::Enemies,
        fallback: AcqFallback::Fizzle,
    };
    (basic_rules(id, "New Beam", Delivery::Projectile), template_timeline(SkillArchetype::Beam, id, acquisition))
}

impl SkillArchetype {
    /// Every archetype, in palette order.
    pub fn all() -> (r: [SkillArchetype; 4])
        ensures
            r@ == seq![SkillArchetype::Strike, SkillArchetype::Projectile, SkillArchetype::Zone, SkillArchetype::Beam],
    {
        [SkillArchetype::Strike, SkillArchetype::Projectile, SkillArchetype::Zone, SkillArchetype::Beam]
    }

    /// The palette label.
    pub fn label(&self) -> (r: &'static str)
        ensures
            r@ == skill_archetype_label(*self),
    {
        match self {
            SkillArchetype::Strike => "Strike",
            SkillArchetype::Projectile => "Projectile",
            SkillArchetype::Zone => "Zone",
            SkillArchetype::Beam => "Beam",
        }
    }

    /// This archetype's `(rules, timeline)` pair for a fresh skill named `id`.
    pub fn build(&self, id: &str) -> (r: (SkillRules, CastTimeline))
        ensures
            is_template(r, *self, id@),
    {
        match self {
            SkillArchetype::Strike => strike_template(id),
            SkillArchetype::Projectile => projectile_template(id),
            SkillArchetype::Zone => zone_template(id),
            SkillArchetype::Beam => beam_template(id),
        }
    }
}

} // verus!
