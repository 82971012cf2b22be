//! The Rules region's trigger cards: the condition dropdown's catalog (every trigger condition
//! kind, grouped by the phase it is evaluated in, with the condition an author starts from when
//! picking it; each entry's label is the one `condition_label` gives the conditions it makes, and
//! every kind has an entry), a card's heading, whether its target runs a timeline of its own, and
//! the trigger a new card starts as.
use vstd::prelude::*;

use crate::labels::{condition_label, spec_condition_label};
use crate::library::{SkillEntry, SkillLibrary};
use crate::model::{ConditionPhase, DamageType, SkillCondition, TriggerCondition};
use crate::text::{concat, str_eq};

verus! {

/// How many entries the catalog has.
pub const CONDITION_CATALOG_LEN: usize = 36;

/// The group heading entry `k` is listed under.
pub open spec fn catalog_group(k: int) -> Seq<char> {
    if k < 0 {
        seq![]
    } else if k <= 16 {
        "Pre-Calc"@
    } else if k <= 21 {
        "Post-Calc"@
    } else if k <= 24 {
        "Post-Res"@
    } else if k <= 33 {
        "Defensive"@
    } else if k <= 35 {
        "Lifecycle"@
    } else {
        seq![]
    }
}

/// The label of entry `k`.
pub open spec fn catalog_label(k: int) -> Seq<char> {
    if k == 0 {
        "Always"@
    } else if k == 1 {
        "Player Full Life"@
    } else if k == 2 {
        "Player Low Life"@
    } else if k == 3 {
        "Player Full Mana"@
    } else if k == 4 {
        "Player Low Mana"@
    } else if k == 5 {
        "Player Has Barrier"@
    } else if k == 6 {
        "Player No Barrier"@
    } else if k == 7 {
        "Self Has Effect"@
    } else if k == 8 {
        "Self Effect Stacks"@
    } else if k == 9 {
        "Target Full Life"@
    } else if k == 10 {
        "Target Low Life"@
    } else if k == 11 {
        "Target Has Effect"@
    } else if k == 12 {
        "Target Effect Stacks"@
    } else if k == 13 {
        "Target No Effect"@
    } else if k == 14 {
        "Target Has Barrier"@
    } else if k == 15 {
        "Target No Barrier"@
    } else if k == 16 {
        "Every Nth Hit"@
    } else if k == 17 {
        "On Crit"@
    } else if k == 18 {
        "On Non-Crit"@
    } else if k == 19 {
        "Damage Type Dealt"@
    } else if k == 20 {
        "Damage Over Threshold"@
    } else if k == 21 {
        "Multiple Damage Types"@
    } else if k == 22 {
        "On Kill"@
    } else if k == 23 {
        "On Barrier Broken"@
    } else if k == 24 {
        "On Overkill"@
    } else if k == 25 {
        "On Damage Taken"@
    } else if k == 26 {
        "On Damage Taken (Type)"@
    } else if k == 27 {
        "On Effect Consumed"@
    } else if k == 28 {
        "On Effect Charge Used"@
    } else if k == 29 {
        "On Dodge"@
    } else if k == 30 {
        "On Evasion Cap"@
    } else if k == 31 {
        "On Hit Taken"@
    } else if k == 32 {
        "On Barrier Depleted"@
    } else if k == 33 {
        "On Low Life Reached"@
    } else if k == 34 {
        "On World Impact"@
    } else if k == 35 {
        "On Expire"@
    } else {
        seq![]
    }
}

/// `c` is the condition entry `k` starts an author from: its kind, with the default payload.
pub open spec fn is_catalog_default(k: int, c: TriggerCondition) -> bool {
    if k == 0 {
        c matches TriggerCondition::Always
    } else if k == 1 {
        c matches TriggerCondition::PlayerFullLife
    } else if k == 2 {
        c matches TriggerCondition::PlayerLowLife { threshold } && threshold == 0x3FD6_6666_6666_6666u64
    } else if k == 3 {
        c matches TriggerCondition::PlayerFullMana
    } else if k == 4 {
        c matches TriggerCondition::PlayerLowMana { threshold } && threshold == 0x3FD6_6666_6666_6666u64
    } else if k == 5 {
        c matches TriggerCondition::PlayerHasBarrier
    } else if k == 6 {
        c matches TriggerCondition::PlayerNoBarrier
    } else if k == 7 {
        c matches TriggerCondition::SelfHasEffect { id } && id@.len() == 0
    } else if k == 8 {
        c matches TriggerCondition::SelfEffectStacks { id, min_stacks } && id@.len() == 0 && min_stacks == 1
    } else if k == 9 {
        c matches TriggerCondition::TargetFullLife
    } else if k == 10 {
        c matches TriggerCondition::TargetLowLife { threshold } && threshold == 0x3FD6_6666_6666_6666u64
    } else if k == 11 {
        c matches TriggerCondition::TargetHasEffect { id } && id@.len() == 0
    } else if k == 12 {
        c matches TriggerCondition::TargetEffectStacks { id, min_stacks } && id@.len() == 0 && min_stacks == 1
    } else if k == 13 {
        c matches TriggerCondition::TargetNoEffect { id } && id@.len() == 0
    } else if k == 14 {
        c matches TriggerCondition::TargetHasBarrier
    } else if k == 15 {
        c matches TriggerCondition::TargetNoBarrier
    } else if k == 16 {
        c matches TriggerCondition::EveryNthHit { n } && n == 3
    } else if k == 17 {
        c matches TriggerCondition::OnCrit
    } else if k == 18 {
        c matches TriggerCondition::OnNonCrit
    } else if k == 19 {
        c matches TriggerCondition::DamageTypeDealt { damage_type } && damage_type == DamageType::Physical
    } else if k == 20 {
        c matches TriggerCondition::DamageOverThreshold { threshold } && threshold == 0u64
    } else if k == 21 {
        c matches TriggerCondition::MultipleDamageTypes
    } else if k == 22 {
        c matches TriggerCondition::OnKill
    } else if k == 23 {
        c matches TriggerCondition::OnBarrierBroken
    } else if k == 24 {
        c matches TriggerCondition::OnOverkill { threshold } && threshold == 0u64
    } else if k == 25 {
        c matches TriggerCondition::OnDamageTaken
    } else if k == 26 {
        c matches TriggerCondition::OnDamageTakenOfType { damage_type } && damage_type == DamageType::Physical
    } else if k == 27 {
        c matches TriggerCondition::OnEffectConsumed { id } && id@.len() == 0
    } else if k == 28 {
        c matches TriggerCondition::OnEffectChargeUsed { id } && id@.len() == 0
    } else if k == 29 {
        c matches TriggerCondition::OnDodge
    } else if k == 30 {
        c matches TriggerCondition::OnEvasionCap
    } else if k == 31 {
        c matches TriggerCondition::OnHitTaken
    } else if k == 32 {
        c matches TriggerCondition::OnBarrierDepleted
    } else if k == 33 {
        c matches TriggerCondition::OnLowLifeReached { threshold } && threshold == 0x3FD6_6666_6666_6666u64
    } else if k == 34 {
        c matches TriggerCondition::OnImpact
    } else if k == 35 {
        c matches TriggerCondition::OnExpire
    } else {
        false
    }
}

/// The catalog entry for the kind of `c`.
pub open spec fn catalog_index_of(c: TriggerCondition) -> int {
    match c {
        TriggerCondition::Always => 0,
        TriggerCondition::PlayerFullLife => 1,
        TriggerCondition::PlayerLowLife { .. } => 2,
        TriggerCondition::PlayerFullMana => 3,
        TriggerCondition::PlayerLowMana { .. } => 4,
        TriggerCondition::PlayerHasBarrier => 5,
        TriggerCondition::PlayerNoBarrier => 6,
        TriggerCondition::SelfHasEffect { .. } => 7,
        TriggerCondition::SelfEffectStacks { .. } => 8,
        TriggerCondition::TargetFullLife => 9,
        TriggerCondition::TargetLowLife { .. } => 10,
        TriggerCondition::TargetHasEffect { .. } => 11,
        TriggerCondition::TargetEffectStacks { .. } => 12,
        TriggerCondition::TargetNoEffect { .. } => 13,
        TriggerCondition::TargetHasBarrier => 14,
        TriggerCondition::TargetNoBarrier => 15,
        TriggerCondition::EveryNthHit { .. } => 16,
        TriggerCondition::OnCrit => 17,
        TriggerCondition::OnNonCrit => 18,
        TriggerCondition::DamageTypeDealt { .. } => 19,
        TriggerCondition::DamageOverThreshold { .. } => 20,
        TriggerCondition::MultipleDamageTypes => 21,
        TriggerCondition::OnKill => 22,
        TriggerCondition::OnBarrierBroken => 23,
        TriggerCondition::OnOverkill { .. } => 24,
        TriggerCondition::OnDamageTaken => 25,
        TriggerCondition::OnDamageTakenOfType { .. } => 26,
        TriggerCondition::OnEffectConsumed { .. } => 27,
        TriggerCondition::OnEffectChargeUsed { .. } => 28,
        TriggerCondition::OnDodge => 29,
        TriggerCondition::OnEvasionCap => 30,
        TriggerCondition::OnHitTaken => 31,
        TriggerCondition::OnBarrierDepleted => 32,
        TriggerCondition::OnLowLifeReached { .. } => 33,
        TriggerCondition::OnImpact => 34,
        TriggerCondition::OnExpire => 35,
    }
}

/// The group heading of each evaluation phase.
pub open spec fn phase_group(p: ConditionPhase) -> Seq<char> {
    match p {
        ConditionPhase::PreCalculation => "Pre-Calc"@,
        ConditionPhase::PostCalculation => "Post-Calc"@,
        ConditionPhase::PostResolution => "Post-Res"@,
        ConditionPhase::DefensiveResolution => "Defensive"@,
        ConditionPhase::Lifecycle => "Lifecycle"@,
    }
}

/// One dropdown entry: the group it is listed under and its label.
pub struct CatalogEntry {
    pub group: &'static str,
    pub label: &'static str,
}

/// The catalog's entries, in dropdown order.
pub fn condition_catalog() -> (r: Vec<CatalogEntry>)
    ensures
        r@.len() == CONDITION_CATALOG_LEN,
        forall|k: int|
            0 <= k < CONDITION_CATALOG_LEN ==> (#[trigger] r@[k]).group@ == catalog_group(k) && r@[k].label@
                == catalog_label(k),
{
    let mut r: Vec<CatalogEntry> = Vec::new();
    r.push(CatalogEntry { group: "Pre-Calc", label: "Always" });
    r.push(CatalogEntry { group: "Pre-Calc", label: "Player Full Life" });
    r.push(CatalogEntry { group: "Pre-Calc", label: "Player Low Life" });
    r.push(CatalogEntry { group: "Pre-Calc", label: "Player Full Mana" });
    r.push(CatalogEntry { group: "Pre-Calc", label: "Player Low Mana" });
    r.push(CatalogEntry { group: "Pre-Calc", label: "Player Has Barrier" });
    r.push(CatalogEntry { group: "Pre-Calc", label: "Player No Barrier" });
    r.push(CatalogEntry { group: "Pre-Calc", label: "Self Has Effect" });
    r.push(CatalogEntry { group: "Pre-Calc", label: "Self Effect Stacks" });
    r.push(CatalogEntry { group: "Pre-Calc", label: "Target Full Life" });
    r.push(CatalogEntry { group: "Pre-Calc", label: "Target Low Life" });
    r.push(CatalogEntry { group: "Pre-Calc", label: "Target Has Effect" });
    r.push(CatalogEntry { group: "Pre-Calc", label: "Target Effect Stacks" });
    r.push(CatalogEntry { group: "Pre-Calc", label: "Target No Effect" });
    r.push(CatalogEntry { group: "Pre-Calc", label: "Target Has Barrier" });
    r.push(CatalogEntry { group: "Pre-Calc", label: "Target No Barrier" });
    r.push(CatalogEntry { group: "Pre-Calc", label: "Every Nth Hit" });
    r.push(CatalogEntry { group: "Post-Calc", label: "On Crit" });
    r.push(CatalogEntry { group: "Post-Calc", label: "On Non-Crit" });
    r.push(CatalogEntry { group: "Post-Calc", label: "Damage Type Dealt" });
    r.push(CatalogEntry { group: "Post-Calc", label: "Damage Over Threshold" });
    r.push(CatalogEntry { group: "Post-Calc", label: "Multiple Damage Types" });
    r.push(CatalogEntry { group: "Post-Res", label: "On Kill" });
    r.push(CatalogEntry { group: "Post-Res", label: "On Barrier Broken" });
    r.push(CatalogEntry { group: "Post-Res", label: "On Overkill" });
    r.push(CatalogEntry { group: "Defensive", label: "On Damage Taken" });
    r.push(CatalogEntry { group: "Defensive", label: "On Damage Taken (Type)" });
    r.push(CatalogEntry { group: "Defensive", label: "On Effect Consumed" });
    r.push(CatalogEntry { group: "Defensive", label: "On Effect Charge Used" });
    r.push(CatalogEntry { group: "Defensive", label: "On Dodge" });
    r.push(CatalogEntry { group: "Defensive", label: "On Evasion Cap" });
    r.push(CatalogEntry { group: "Defensive", label: "On Hit Taken" });
    r.push(CatalogEntry { group: "Defensive", label: "On Barrier Depleted" });
    r.push(CatalogEntry { group: "Defensive", label: "On Low Life Reached" });
    r.push(CatalogEntry { group: "Lifecycle", label: "On World Impact" });
    r.push(CatalogEntry { group: "Lifecycle", label: "On Expire" });
    r
}

/// The condition entry `k` starts an author from.
pub fn catalog_condition(k: usize) -> (r: TriggerCondition)
    requires
        k < CONDITION_CATALOG_LEN,
    ensures
        is_catalog_default(k as int, r),
{
    if k == 0 {
        TriggerCondition::Always
    } else if k == 1 {
        TriggerCondition::PlayerFullLife
    } else if k == 2 {
        TriggerCondition::PlayerLowLife { threshold: 0x3FD6_6666_6666_6666u64 }
    } else if k == 3 {
        TriggerCondition::PlayerFullMana
    } else if k == 4 {
        TriggerCondition::PlayerLowMana { threshold: 0x3FD6_6666_6666_6666u64 }
    } else if k == 5 {
        TriggerCondition::PlayerHasBarrier
    } else if k == 6 {
        TriggerCondition::PlayerNoBarrier
    } else if k == 7 {
        TriggerCondition::SelfHasEffect { id: String::new() }
    } else if k == 8 {
        TriggerCondition::SelfEffectStacks { id: String::new(), min_stacks: 1 }
    } else if k == 9 {
        TriggerCondition::TargetFullLife
    } else if k == 10 {
        TriggerCondition::TargetLowLife { threshold: 0x3FD6_6666_6666_6666u64 }
    } else if k == 11 {
        TriggerCondition::TargetHasEffect { id: String::new() }
    } else if k == 12 {
        TriggerCondition::TargetEffectStacks { id: String::new(), min_stacks: 1 }
    } else if k == 13 {
        TriggerCondition::TargetNoEffect { id: String::new() }
    } else if k == 14 {
        TriggerCondition::TargetHasBarrier
    } else if k == 15 {
        TriggerCondition::TargetNoBarrier
    } else if k == 16 {
        TriggerCondition::EveryNthHit { n: 3 }
    } else if k == 17 {
        TriggerCondition::OnCrit
    } else if k == 18 {
        TriggerCondition::OnNonCrit
    } else if k == 19 {
        TriggerCondition::DamageTypeDealt { damage_type: DamageType::Physical }
    } else if k == 20 {
        TriggerCondition::DamageOverThreshold { threshold: 0u64 }
    } else if k == 21 {
        TriggerCondition::MultipleDamageTypes
    } else if k == 22 {
        TriggerCondition::OnKill
    } else if k == 23 {
        TriggerCondition::OnBarrierBroken
    } else if k == 24 {
        TriggerCondition::OnOverkill { threshold: 0u64 }
    } else if k == 25 {
        TriggerCondition::OnDamageTaken
    } else if k == 26 {
        TriggerCondition::OnDamageTakenOfType { damage_type: DamageType::Physical }
    } else if k == 27 {
        TriggerCondition::OnEffectConsumed { id: String::new() }
    } else if k == 28 {
        TriggerCondition::OnEffectChargeUsed { id: String::new() }
    } else if k == 29 {
        TriggerCondition::OnDodge
    } else if k == 30 {
        TriggerCondition::OnEvasionCap
    } else if k == 31 {
        TriggerCondition::OnHitTaken
    } else if k == 32 {
        TriggerCondition::OnBarrierDepleted
    } else if k == 33 {
        TriggerCondition::OnLowLifeReached { threshold: 0x3FD6_6666_6666_6666u64 }
    } else if k == 34 {
        TriggerCondition::OnImpact
    } else {
        TriggerCondition::OnExpire
    }
}

/// Every entry's label is the label of the conditions it makes, and its group is their phase's.
pub proof fn law_catalog_in_sync_with_labels(k: int, c: TriggerCondition)
    requires
        0 <= k < CONDITION_CATALOG_LEN,
        is_catalog_default(k, c),
    ensures
        spec_condition_label(c) == catalog_label(k),
        catalog_group(k) == phase_group(c.spec_phase()),
        catalog_index_of(c) == k,
{
}

/// Every condition kind has a catalog entry, listed under its phase's group and labelled as
/// `condition_label` labels it.
pub proof fn law_every_condition_kind_is_listed(c: TriggerCondition)
    ensures
        exists|k: int|
            0 <= k < CONDITION_CATALOG_LEN && #[trigger] catalog_label(k) == spec_condition_label(c)
                && catalog_group(k) == phase_group(c.spec_phase()),
{
    let k = catalog_index_of(c);
    assert(0 <= k < CONDITION_CATALOG_LEN && catalog_label(k) == spec_condition_label(c)
        && catalog_group(k) == phase_group(c.spec_phase()));
}

/// Pick entry `k` in the dropdown of a trigger whose condition is `cond`: picking the kind it
/// already has changes nothing; picking another kind replaces it by that entry's starting
/// condition. Returns whether it changed.
pub fn pick_catalog_condition(cond: &mut TriggerCondition, k: usize) -> (changed: bool)
    requires
        k < CONDITION_CATALOG_LEN,
    ensures
        spec_condition_label(*old(cond)) == catalog_label(k as int) ==> !changed && *final(cond) == *old(cond),
        spec_condition_label(*old(cond)) != catalog_label(k as int) ==> changed && is_catalog_default(
            k as int,
            *final(cond),
        ),
{
    let made = catalog_condition(k);
    proof {
        law_catalog_in_sync_with_labels(k as int, made);
    }
    if str_eq(condition_label(cond), condition_label(&made)) {
        false
    } else {
        *cond = made;
        true
    }
}

/// The heading of a trigger's card: `WHEN {condition} → CAST {target}`, the target shown as
/// `(none)` while unset.
pub open spec fn spec_trigger_title(c: SkillCondition) -> Seq<char> {
    "WHEN "@ + spec_condition_label(c.condition) + " \u{2192} CAST "@ + (if c.trigger_skill@.len() == 0 {
        "(none)"@
    } else {
        c.trigger_skill@
    })
}

/// The heading of a trigger's card (see [`spec_trigger_title`]).
pub fn trigger_title(c: &SkillCondition) -> (r: String)
    ensures
        r@ == spec_trigger_title(*c),
{
    let target: &str = if c.trigger_skill.as_str().is_empty() {
        "(none)"
    } else {
        c.trigger_skill.as_str()
    };
    let head = concat("WHEN ", condition_label(&c.condition));
    let mid = concat(head.as_str(), " \u{2192} CAST ");
    concat(mid.as_str(), target)
}

/// A trigger whose target has its own timeline runs as a free sub-cast, which never replaces
/// the primary hit: such a trigger is made `additional`. Returns whether it changed.
pub fn lock_additional(c: &mut SkillCondition, target_has_timeline: bool) -> (changed: bool)
    ensures
        changed == (target_has_timeline && !old(c).additional),
        final(c).additional == (old(c).additional || target_has_timeline),
        final(c).trigger_skill == old(c).trigger_skill,
        final(c).condition == old(c).condition,
{
    if target_has_timeline && !c.additional {
        c.additional = true;
        true
    } else {
        false
    }
}

/// Whether trigger target `target` runs a timeline of its own, as the cards of `entry` see it:
/// `entry` itself by its own live timeline, any other skill by the library's copy (a skill the
/// library lacks has none).
pub open spec fn spec_target_has_timeline(entry: SkillEntry, skills: Map<Seq<char>, SkillEntry>, target: Seq<char>) -> bool {
    if target == entry.key() {
        entry.timeline.collision_windows@.len() > 0
    } else {
        skills.dom().contains(target) && skills[target].timeline.collision_windows@.len() > 0
    }
}

/// Whether trigger target `target` runs a timeline of its own (see [`spec_target_has_timeline`]).
pub fn target_has_timeline(entry: &SkillEntry, library: &SkillLibrary, target: &str) -> (r: bool)
    requires
        library.wf(),
    ensures
        r == spec_target_has_timeline(*entry, library.map(), target@),
{
    if str_eq(target, entry.rules.id.as_str()) {
        entry.timeline.collision_windows.len() > 0
    } else {
        match library.get(target) {
            Some(e) => e.timeline.collision_windows.len() > 0,
            None => false,
        }
    }
}

/// The first id of `skills` that is not `me`, or the empty id when there is none.
pub open spec fn first_other_id(skills: Seq<SkillEntry>, me: Seq<char>) -> Seq<char>
    decreases skills.len(),
{
    if skills.len() == 0 {
        seq![]
    } else if skills[0].key() != me {
        skills[0].key()
    } else {
        first_other_id(skills.drop_first(), me)
    }
}

/// The trigger a new card of `entry` starts as: `Always`, not additional, aimed at the first
/// other skill in the library's id order (self is legal but not suggested), or at nothing.
pub fn new_trigger(entry: &SkillEntry, library: &SkillLibrary) -> (r: SkillCondition)
    ensures
        r.condition == TriggerCondition::Always,
        !r.additional,
        r.trigger_skill@ == first_other_id(library.entries(), entry.key()),
{
    let me = entry.rules.id.as_str();
    let n = library.len();
    let mut i: usize = 0;
    proof {
        assert(library.entries().skip(0) =~= library.entries());
    }
    while i < n && str_eq(library.entry_at(i).rules.id.as_str(), me)
        invariant
            n == library.entries().len(),
            me@ == entry.key(),
            i <= n,
            first_other_id(library.entries(), entry.key()) == first_other_id(library.entries().skip(i as int), entry.key()),
        decreases n - i,
    {
        proof {
            let rest = library.entries().skip(i as int);
            assert(rest[0] == library.entries()[i as int]);
            assert(rest[0].key() == entry.key());
            assert(rest.drop_first() =~= library.entries().skip(i + 1));
        }
        i = i + 1;
    }
    let target = if i < n {
        String::from_str(library.entry_at(i).rules.id.as_str())
    } else {
        String::new()
    };
    proof {
        if i < n {
            assert(library.entries().skip(i as int)[0] == library.entries()[i as int]);
        }
    }
    SkillCondition { trigger_skill: target, additional: false, condition: TriggerCondition::Always }
}

} // verus!
