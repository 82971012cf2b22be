use bevy_modal_editor::library::{blank_timeline, SkillEntry, SkillLibrary};
use bevy_modal_editor::templates::{projectile_template, strike_template};
use bevy_modal_editor::triggers::{
    catalog_condition, condition_catalog, lock_additional, new_trigger, pick_catalog_condition, target_has_timeline,
    trigger_title, CONDITION_CATALOG_LEN,
};
use bevy_modal_editor::labels::condition_label;
use bevy_modal_editor::model::{ConditionPhase, DamageType, SkillCondition, TriggerCondition};

fn group_of(phase: ConditionPhase) -> &'static str {
    match phase {
        ConditionPhase::PreCalculation => "Pre-Calc",
        ConditionPhase::PostCalculation => "Post-Calc",
        ConditionPhase::PostResolution => "Post-Res",
        ConditionPhase::DefensiveResolution => "Defensive",
        ConditionPhase::Lifecycle => "Lifecycle",
    }
}

#[test]
fn every_catalog_entry_makes_a_condition_with_its_label_and_group() {
    let catalog = condition_catalog();
    assert_eq!(catalog.len(), CONDITION_CATALOG_LEN);
    for (k, entry) in catalog.iter().enumerate() {
        let made = catalog_condition(k);
        assert_eq!(condition_label(&made), entry.label, "entry {k}");
        assert_eq!(group_of(made.phase()), entry.group, "entry {k}");
    }
    let mut labels: Vec<&str> = catalog.iter().map(|e| e.label).collect();
    labels.sort();
    labels.dedup();
    assert_eq!(labels.len(), CONDITION_CATALOG_LEN, "labels are distinct");
}

#[test]
fn catalog_entries_start_from_their_default_payloads() {
    let catalog = condition_catalog();
    assert_eq!((catalog[0].group, catalog[0].label), ("Pre-Calc", "Always"));
    assert_eq!((catalog[35].group, catalog[35].label), ("Lifecycle", "On Expire"));
    match catalog_condition(2) {
        TriggerCondition::PlayerLowLife { threshold } => assert_eq!(f64::from_bits(threshold), 0.35),
        other => panic!("{other:?}"),
    }
    match catalog_condition(12) {
        TriggerCondition::TargetEffectStacks { id, min_stacks } => {
            assert!(id.is_empty());
            assert_eq!(min_stacks, 1);
        }
        other => panic!("{other:?}"),
    }
    assert!(matches!(catalog_condition(16), TriggerCondition::EveryNthHit { n: 3 }));
    assert!(matches!(catalog_condition(26), TriggerCondition::OnDamageTakenOfType { damage_type: DamageType::Physical }));
    assert!(matches!(catalog_condition(34), TriggerCondition::OnImpact));
}

#[test]
fn picking_the_current_kind_keeps_the_payload() {
    let mut cond = TriggerCondition::PlayerLowLife { threshold: 0.5f64.to_bits() };
    assert!(!pick_catalog_condition(&mut cond, 2));
    assert!(matches!(cond, TriggerCondition::PlayerLowLife { threshold } if f64::from_bits(threshold) == 0.5));
    assert!(pick_catalog_condition(&mut cond, 16));
    assert!(matches!(cond, TriggerCondition::EveryNthHit { n: 3 }));
}

#[test]
fn trigger_cards_are_headed_by_condition_and_target() {
    let mut c = SkillCondition { trigger_skill: "explosion".to_string(), additional: false, condition: TriggerCondition::OnImpact };
    assert_eq!(trigger_title(&c), "WHEN On World Impact \u{2192} CAST explosion");
    c.trigger_skill.clear();
    assert_eq!(trigger_title(&c), "WHEN On World Impact \u{2192} CAST (none)");
}

#[test]
fn timeline_targets_force_additional() {
    let mut c = SkillCondition { trigger_skill: "explosion".to_string(), additional: false, condition: TriggerCondition::Always };
    assert!(!lock_additional(&mut c, false));
    assert!(!c.additional);
    assert!(lock_additional(&mut c, true));
    assert!(c.additional);
    assert!(!lock_additional(&mut c, true));
    assert!(c.additional);
}

fn entry(id: &str, real_timeline: bool) -> SkillEntry {
    let (rules, timeline) = if real_timeline { projectile_template(id) } else { strike_template(id) };
    SkillEntry {
        rules,
        timeline: if real_timeline { timeline } else { blank_timeline(id) },
        rules_path: Vec::new(),
        timeline_path: Vec::new(),
        dirty_rules: false,
        dirty_timeline: false,
        disk_hash: (0, 0),
    }
}

#[test]
fn a_target_runs_a_timeline_by_the_copy_the_card_sees() {
    let mut library = SkillLibrary::new();
    library.insert(entry("bolt", true));
    library.insert(entry("packet", false));
    let editing = entry("self", false);
    assert!(target_has_timeline(&editing, &library, "bolt"));
    assert!(!target_has_timeline(&editing, &library, "packet"));
    assert!(!target_has_timeline(&editing, &library, "missing"));

    // The skill being edited reads its own live timeline, not the library's copy.
    library.insert(entry("self", false));
    let live = entry("self", true);
    assert!(target_has_timeline(&live, &library, "self"));
}

#[test]
fn a_new_trigger_suggests_the_first_other_skill() {
    let mut library = SkillLibrary::new();
    let me = entry("alpha", false);
    let t = new_trigger(&me, &library);
    assert_eq!(t.trigger_skill, "");
    assert!(!t.additional);
    assert!(matches!(t.condition, TriggerCondition::Always));

    library.insert(entry("alpha", false));
    assert_eq!(new_trigger(&me, &library).trigger_skill, "");
    library.insert(entry("beta", false));
    library.insert(entry("gamma", false));
    assert_eq!(new_trigger(&me, &library).trigger_skill, "beta");
    assert_eq!(new_trigger(&entry("beta", false), &library).trigger_skill, "alpha");
}
