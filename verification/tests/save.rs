use bevy_modal_editor::library::{blank_timeline, SkillEntry};
use bevy_modal_editor::save::{
    apply_reload, check_stale, find_skill_table, owned_rules_field_names, plan_overwrite, plan_save, record_saved,
    render_rules_text, save_header, RulesLayout, SaveControl, SaveError, SavePlan, SaveTarget, SkillSaveState, TablePos,
};
use bevy_modal_editor::validation::{Problem, ValidationReport};
use bevy_modal_editor::model::SkillRules;
use bevy_modal_editor::templates::strike_template;

/// The fresh rules text of `rules`: the fields these tests read, written as the editor's
/// serialization writes them (one `key = value` line each).
fn fresh_text(rules: &SkillRules) -> String {
    let mut doc = toml_edit::DocumentMut::new();
    doc["id"] = toml_edit::value(rules.id.as_str());
    doc["name"] = toml_edit::value(rules.name.as_str());
    doc["mana_cost"] = toml_edit::value(f64::from_bits(rules.mana_cost));
    doc["cooldown"] = toml_edit::value(f64::from_bits(rules.cooldown));
    doc.to_string()
}

/// The bolt as the rules file on disk describes it, with its mana cost changed to `mana_cost`.
fn bolt_costing(mana_cost: f64) -> SkillRules {
    let (mut rules, _) = strike_template("bolt");
    rules.name = "Bolt".to_string();
    rules.mana_cost = mana_cost.to_bits();
    rules.cooldown = 1.0f64.to_bits();
    rules
}

fn dirty_entry(id: &str) -> SkillEntry {
    let (rules, timeline) = strike_template(id);
    SkillEntry {
        rules,
        timeline,
        rules_path: vec!["root".to_string(), format!("{id}.toml")],
        timeline_path: vec!["root".to_string(), format!("{id}.cast.ron")],
        dirty_rules: true,
        dirty_timeline: true,
        disk_hash: (0, 0),
    }
}

#[test]
fn new_skill_writes_both_files_and_clears_dirty() {
    let mut entry = dirty_entry("bolt");
    let plan = plan_save(&entry, 0, 0).expect("save");
    assert_eq!(plan, SavePlan { write_rules: true, write_timeline: true });
    record_saved(&mut entry, SaveTarget::Rules, 11);
    record_saved(&mut entry, SaveTarget::Timeline, 22);
    assert!(!entry.dirty_rules);
    assert!(!entry.dirty_timeline);
    assert_ne!(entry.disk_hash.0, 0);
    assert_ne!(entry.disk_hash.1, 0);
}

#[test]
fn only_dirty_halves_are_written() {
    let mut entry = dirty_entry("bolt");
    entry.dirty_timeline = false;
    let plan = plan_save(&entry, 0, 0).expect("save");
    assert!(plan.write_rules);
    assert!(!plan.write_timeline, "timeline was never dirty — must not be written");
}

#[test]
fn stale_disk_refuses_to_write_either_file() {
    let mut entry = dirty_entry("bolt");
    record_saved(&mut entry, SaveTarget::Rules, 100);
    record_saved(&mut entry, SaveTarget::Timeline, 200);
    entry.rules.name = "Edited in editor".to_string();
    entry.dirty_rules = true;
    entry.dirty_timeline = true;

    // The rules file was edited on disk since: it now hashes differently.
    let result = plan_save(&entry, 101, 200);
    assert!(matches!(result, Err(SaveError::StaleDisk { which: SaveTarget::Rules })), "{result:?}");
    assert!(entry.dirty_rules && entry.dirty_timeline, "dirty flags must be unchanged on refusal");
}

#[test]
fn save_skill_overwrite_ignores_staleness_and_rehashes() {
    let mut entry = dirty_entry("bolt");
    record_saved(&mut entry, SaveTarget::Rules, 100);
    record_saved(&mut entry, SaveTarget::Timeline, 200);
    entry.rules.name = "Edited in editor".to_string();
    entry.dirty_rules = true;

    assert!(check_stale(&entry, 555, 200).is_err());
    let plan = plan_overwrite(&entry);
    assert_eq!(plan, SavePlan { write_rules: true, write_timeline: false });
    record_saved(&mut entry, SaveTarget::Rules, 777);
    assert!(!entry.dirty_rules);
    assert_eq!(entry.disk_hash.0, 777);
}

#[test]
fn reload_skill_discards_in_memory_edits() {
    let mut entry = dirty_entry("bolt");
    let saved_name = entry.rules.name.clone();
    let (on_disk, _) = strike_template("bolt");

    entry.rules.name = "Unsaved edit".to_string();
    entry.dirty_rules = true;

    apply_reload(&mut entry, vec![on_disk], 5, None, "\"root/bolt.toml\"").expect("reload");
    assert_eq!(entry.rules.name, saved_name, "reload must reflect on-disk content, not the unsaved edit");
    assert!(!entry.dirty_rules);
    assert!(!entry.dirty_timeline);
    assert_eq!(entry.disk_hash, (5, 0));
}

#[test]
fn save_error_display_is_human_readable() {
    let stale = SaveError::StaleDisk { which: SaveTarget::Timeline };
    assert!(stale.message().contains("timeline"));
    let blocked = SaveError::Blocked(vec!["a".to_string(), "b".to_string()]);
    assert!(blocked.message().contains('2'));
}

#[test]
fn save_error_messages_are_exact() {
    let io = SaveError::Io { which: SaveTarget::Rules, message: "disk full".to_string() };
    assert_eq!(io.message(), "rules save failed: disk full");
    let stale = SaveError::StaleDisk { which: SaveTarget::Rules };
    assert_eq!(stale.message(), "rules file changed on disk since it was loaded \u{2014} reload or overwrite");
    let blocked = SaveError::Blocked(vec!["x".to_string(); 12]);
    assert_eq!(blocked.message(), "blocked by 12 validation problem(s)");
}

#[test]
fn stale_timeline_is_reported_when_rules_are_current() {
    let mut entry = dirty_entry("bolt");
    entry.disk_hash = (1, 2);
    assert!(matches!(check_stale(&entry, 1, 3), Err(SaveError::StaleDisk { which: SaveTarget::Timeline })));
    entry.dirty_timeline = false;
    assert!(check_stale(&entry, 1, 3).is_ok());
}

#[test]
fn reload_refuses_when_the_rules_file_lacks_the_skill() {
    let mut entry = dirty_entry("bolt");
    let (other, _) = strike_template("other");
    let result = apply_reload(&mut entry, vec![other], 5, None, "\"root/bolt.toml\"");
    match result {
        Err(SaveError::Io { which, message }) => {
            assert_eq!(which, SaveTarget::Rules);
            assert_eq!(message, "skill 'bolt' not found in \"root/bolt.toml\"");
        }
        other => panic!("{other:?}"),
    }
    assert!(entry.dirty_rules);
}

#[test]
fn reload_keeps_the_entry_on_a_timeline_parse_error() {
    let mut entry = dirty_entry("bolt");
    let (on_disk, _) = strike_template("bolt");
    let result = apply_reload(&mut entry, vec![on_disk], 5, Some(Err("bad ron".to_string())), "p");
    assert!(matches!(result, Err(SaveError::Io { which: SaveTarget::Timeline, .. })));
    assert!(entry.dirty_rules && entry.dirty_timeline);
    let (on_disk, _) = strike_template("bolt");
    let tl = blank_timeline("bolt");
    apply_reload(&mut entry, vec![on_disk], 5, Some(Ok((tl, 9))), "p").expect("reload");
    assert_eq!(entry.disk_hash, (5, 9));
}

#[test]
fn existing_rules_file_comments_survive_a_field_change() {
    let on_disk = "# top-of-file author note\n\
                   id = \"bolt\"\n\
                   name = \"Bolt\"\n\
                   # mana cost is intentionally cheap\n\
                   mana_cost = 5.0\n\
                   cooldown = 1.0\n\
                   description = \"a bolt\" # trailing comment on an unrelated field\n";
    // The entry's rules differ from the file in one field: mana_cost.
    let fresh = fresh_text(&bolt_costing(42.0));

    let after = render_rules_text(Some(on_disk), &fresh, "bolt").expect("render");
    assert!(after.contains("# top-of-file author note"), "{after}");
    assert!(after.contains("# mana cost is intentionally cheap"), "{after}");
    assert!(after.contains("# trailing comment on an unrelated field"), "{after}");
    assert!(after.contains("a bolt"), "description (not editor-owned) must survive: {after}");
    assert!(after.contains("42"), "mana_cost must be updated: {after}");
    assert!(!after.contains("mana_cost = 5"), "old value must be gone: {after}");
}

#[test]
fn array_of_tables_shape_patches_the_matching_entry_only() {
    let on_disk = "[[skills]]\n\
                   id = \"bolt\"\n\
                   name = \"Bolt\"\n\
                   mana_cost = 5.0\n\
                   cooldown = 1.0\n\n\
                   [[skills]]\n\
                   id = \"other\"\n\
                   name = \"Other\"\n\
                   mana_cost = 99.0\n\
                   cooldown = 1.0\n";
    let fresh = fresh_text(&bolt_costing(7.0));

    let after = render_rules_text(Some(on_disk), &fresh, "bolt").expect("render");
    assert!(after.contains("mana_cost = 7"), "{after}");
    assert!(after.contains("mana_cost = 99"), "sibling entry must be untouched: {after}");
}

#[test]
fn new_or_unmatched_rules_files_get_the_fresh_document() {
    let fresh = "id = \"bolt\"\nname = \"Bolt\"\n";
    assert_eq!(render_rules_text(None, fresh, "bolt").unwrap(), fresh);
    assert_eq!(render_rules_text(Some("id = \"other\"\n"), fresh, "bolt").unwrap(), fresh);
    assert!(render_rules_text(Some("id = = broken"), fresh, "bolt").is_err());
}

#[test]
fn skill_tables_are_located_by_id() {
    let layout = RulesLayout {
        skills: Some(vec![Some("bolt".to_string()), Some("other".to_string())]),
        root_id: None,
    };
    assert_eq!(find_skill_table(&layout, "bolt"), Some(TablePos::Skills(0)));
    assert_eq!(find_skill_table(&layout, "other"), Some(TablePos::Skills(1)));
    assert_eq!(find_skill_table(&layout, "missing"), None);
    let single = RulesLayout { skills: None, root_id: Some("bolt".to_string()) };
    assert_eq!(find_skill_table(&single, "bolt"), Some(TablePos::Root));
    assert_eq!(find_skill_table(&single, "other"), None);
    assert_eq!(owned_rules_field_names().len(), 7);
}

fn report(problems: &[(&str, bool)]) -> ValidationReport {
    ValidationReport {
        problems: problems
            .iter()
            .map(|(m, blocking)| Problem { target: "skill".to_string(), message: m.to_string(), blocking: *blocking })
            .collect(),
    }
}

#[test]
fn save_header_offers_save_only_for_dirty_unblocked_skills() {
    let entry = dirty_entry("bolt");
    let header = save_header(&entry, &report(&[("just a warning", false)]), None);
    assert!(header.rules_marker && header.timeline_marker);
    match header.control {
        SaveControl::SaveButton { enabled, hover } => {
            assert!(enabled);
            assert_eq!(hover, None);
        }
        _ => panic!("save button expected"),
    }

    let blocked = save_header(&entry, &report(&[("first", true), ("meh", false), ("second", true)]), None);
    match blocked.control {
        SaveControl::SaveButton { enabled, hover } => {
            assert!(!enabled);
            assert_eq!(hover.as_deref(), Some("Blocked by validation:\nfirst\nsecond"));
        }
        _ => panic!("save button expected"),
    }

    let mut clean = dirty_entry("bolt");
    clean.dirty_rules = false;
    clean.dirty_timeline = false;
    let idle = save_header(&clean, &report(&[]), None);
    assert!(!idle.rules_marker && !idle.timeline_marker);
    match idle.control {
        SaveControl::SaveButton { enabled, hover } => {
            assert!(!enabled);
            assert_eq!(hover.as_deref(), Some("No changes to save"));
        }
        _ => panic!("save button expected"),
    }
}

#[test]
fn save_header_shows_the_stale_prompt_while_it_is_up() {
    let entry = dirty_entry("bolt");
    match save_header(&entry, &report(&[("x", true)]), Some(SaveTarget::Timeline)).control {
        SaveControl::StalePrompt { note } => assert_eq!(note, "timeline changed on disk"),
        _ => panic!("stale prompt expected"),
    }
}

#[test]
fn a_stale_save_raises_the_prompt_for_that_skill_only() {
    let mut state = SkillSaveState::default();
    assert_eq!(state.shown_for(&Some("bolt".to_string())), (None, None));

    state.record_outcome(Some("bolt".to_string()), &Err(SaveError::StaleDisk { which: SaveTarget::Rules }));
    let (prompt, error) = state.shown_for(&Some("bolt".to_string()));
    assert_eq!(prompt, Some(SaveTarget::Rules));
    assert_eq!(error.as_deref(), Some("rules file changed on disk since it was loaded"));

    // Opening another skill: the prompt and error lapse.
    assert_eq!(state.shown_for(&Some("heal".to_string())), (None, None));
    assert_eq!(state.shown_for(&None), (None, None));
}

#[test]
fn other_failures_keep_the_prompt_and_success_clears_everything() {
    let mut state = SkillSaveState::default();
    let bolt = Some("bolt".to_string());
    state.record_outcome(bolt.clone(), &Err(SaveError::StaleDisk { which: SaveTarget::Timeline }));
    state.record_outcome(bolt.clone(), &Err(SaveError::Io { which: SaveTarget::Rules, message: "denied".to_string() }));
    let (prompt, error) = state.shown_for(&bolt);
    assert_eq!(prompt, Some(SaveTarget::Timeline));
    assert_eq!(error.as_deref(), Some("rules save failed: denied"));

    state.record_outcome(bolt.clone(), &Ok(()));
    assert_eq!(state.shown_for(&bolt), (None, None));
}
