use bevy_modal_editor::chips::{causality_chips, ChipKind};
use bevy_modal_editor::library::{SkillEntry, SkillLibrary};
use bevy_modal_editor::model::{SkillCondition, TriggerCondition};
use bevy_modal_editor::templates::strike_template;

fn entry_with(mutate: impl FnOnce(&mut SkillEntry)) -> SkillEntry {
    let (rules, timeline) = strike_template("fireball");
    let mut entry = SkillEntry {
        rules,
        timeline,
        rules_path: Vec::new(),
        timeline_path: Vec::new(),
        dirty_rules: false,
        dirty_timeline: false,
        disk_hash: (0, 0),
    };
    mutate(&mut entry);
    entry
}

fn condition(target: &str, condition: TriggerCondition) -> SkillCondition {
    SkillCondition { trigger_skill: target.to_string(), additional: true, condition }
}

#[test]
fn fireball_pair_produces_one_trigger_chip_to_the_explosion() {
    let entry = entry_with(|e| {
        e.rules.conditions = vec![condition("fireball_explosion", TriggerCondition::OnImpact)];
    });
    let library = SkillLibrary::new();

    let chips = causality_chips(&entry, &library);

    assert_eq!(chips.len(), 1);
    assert_eq!(chips[0].target_id, "fireball_explosion");
    assert_eq!(chips[0].label, "\u{2192} fireball_explosion");
    assert_eq!(chips[0].kind, ChipKind::Trigger);
}

#[test]
fn can_chain_skill_produces_a_chain_chip() {
    let entry = entry_with(|e| {
        e.rules.can_chain = true;
        e.rules.chain_count = 3;
    });
    let library = SkillLibrary::new();

    let chips = causality_chips(&entry, &library);

    assert_eq!(chips.len(), 1);
    assert_eq!(chips[0].kind, ChipKind::Chain);
    assert_eq!(chips[0].label, "\u{21ba} \u{d7}3");
    assert_eq!(chips[0].target_id, entry.rules.id);
}

#[test]
fn repeated_trigger_targets_dedup_to_one_chip() {
    let entry = entry_with(|e| {
        e.rules.conditions = vec![
            condition("explosion", TriggerCondition::OnImpact),
            condition("explosion", TriggerCondition::OnCrit),
            condition("explosion", TriggerCondition::OnKill),
        ];
    });
    let library = SkillLibrary::new();

    let chips = causality_chips(&entry, &library);

    assert_eq!(chips.len(), 1, "three conditions targeting the same skill must dedup: {chips:?}");
    assert_eq!(chips[0].target_id, "explosion");
}

#[test]
fn distinct_targets_each_get_their_own_chip_in_authoring_order() {
    let entry = entry_with(|e| {
        e.rules.conditions =
            vec![condition("zeta", TriggerCondition::OnImpact), condition("alpha", TriggerCondition::OnCrit)];
    });
    let library = SkillLibrary::new();

    let chips = causality_chips(&entry, &library);

    assert_eq!(chips.len(), 2);
    assert_eq!(chips[0].target_id, "zeta", "authoring order, not sorted: {chips:?}");
    assert_eq!(chips[1].target_id, "alpha");
}

#[test]
fn empty_trigger_target_is_skipped_not_a_none_chip() {
    let entry = entry_with(|e| {
        e.rules.conditions = vec![condition("", TriggerCondition::Always)];
    });
    let library = SkillLibrary::new();

    let chips = causality_chips(&entry, &library);

    assert!(chips.is_empty(), "{chips:?}");
}

#[test]
fn no_triggers_and_no_chain_produces_no_chips() {
    let entry = entry_with(|_| {});
    let library = SkillLibrary::new();

    assert!(causality_chips(&entry, &library).is_empty());
}

#[test]
fn triggers_and_chain_coexist_as_separate_chips() {
    let entry = entry_with(|e| {
        e.rules.conditions = vec![condition("explosion", TriggerCondition::OnImpact)];
        e.rules.can_chain = true;
        e.rules.chain_count = 2;
    });
    let library = SkillLibrary::new();

    let chips = causality_chips(&entry, &library);

    assert_eq!(chips.len(), 2);
    assert_eq!(chips[0].kind, ChipKind::Trigger);
    assert_eq!(chips[1].kind, ChipKind::Chain);
}
