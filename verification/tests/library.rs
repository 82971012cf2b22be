use bevy_modal_editor::library::{
    blank_timeline, delete_skill, duplicate_skill, insert_new_skill, rename_skill, rules_path_for, skills_referencing,
    timeline_path_for, unique_id, SkillEntry, SkillLibrary,
};
use bevy_modal_editor::model::{SkillCondition, SkillRules, TriggerCondition};
use bevy_modal_editor::scan::{dangling_references, merge_into_library, merge_parsed, scanned_entry, ParsedRules};
use bevy_modal_editor::templates::strike_template;

fn root() -> Vec<String> {
    vec!["tmp".to_string(), "content".to_string()]
}

fn rules(id: &str, name: &str, triggers: &[&str]) -> SkillRules {
    let (mut r, _) = strike_template(id);
    r.name = name.to_string();
    r.conditions = triggers
        .iter()
        .map(|t| SkillCondition { trigger_skill: t.to_string(), additional: false, condition: TriggerCondition::Always })
        .collect();
    r
}

fn parsed(id: &str, name: &str, triggers: &[&str], file: &str, hash: u64) -> ParsedRules {
    let mut path = root();
    path.push("config".to_string());
    path.push("skills".to_string());
    path.push(file.to_string());
    ParsedRules { rules: rules(id, name, triggers), path, rules_hash: hash }
}

fn plain_entry(r: SkillRules) -> SkillEntry {
    let id = r.id.clone();
    SkillEntry {
        rules: r,
        timeline: blank_timeline(&id),
        rules_path: Vec::new(),
        timeline_path: Vec::new(),
        dirty_rules: false,
        dirty_timeline: false,
        disk_hash: (0, 0),
    }
}

#[test]
fn scan_root_pairs_rules_with_timelines() {
    let batch = vec![parsed("bolt", "Bolt", &[], "skills.toml", 7), parsed("rules_only", "Rules Only", &[], "skills.toml", 7)];
    let merged = merge_parsed(batch);
    assert_eq!(merged.len(), 2);

    let mut entries = Vec::new();
    for p in merged {
        let timeline = if p.rules.id == "bolt" {
            let (_, tl) = strike_template("bolt");
            Some(Ok((tl, 42)))
        } else {
            None
        };
        entries.push(scanned_entry(&root(), p, timeline));
    }
    let bolt = entries.iter().find(|e| e.rules.id == "bolt").expect("bolt scanned");
    assert_ne!(bolt.disk_hash.1, 0, "bolt's timeline hash is populated");
    assert_eq!(bolt.timeline.collision_windows.len(), 1);
    assert_eq!(bolt.timeline_path, timeline_path_for(&root(), "bolt"));

    let rules_only = entries.iter().find(|e| e.rules.id == "rules_only").expect("rules_only scanned");
    assert_eq!(rules_only.timeline.collision_windows.len(), 0, "blank timeline");
    assert_eq!(rules_only.disk_hash.1, 0, "no timeline file read");
    assert!(!rules_only.dirty_rules && !rules_only.dirty_timeline);
}

#[test]
fn back_reference_check_finds_triggering_skills() {
    let mut library = SkillLibrary::new();
    library.insert(plain_entry(rules("explosion", "Explosion", &[])));
    library.insert(plain_entry(rules("firebolt", "Firebolt", &["explosion"])));
    library.insert(plain_entry(rules("heal", "Heal", &[])));

    let referencing = skills_referencing("explosion", &library);
    assert_eq!(referencing, vec!["firebolt".to_string()]);
    assert!(skills_referencing("heal", &library).is_empty());
}

#[test]
fn duplicate_rename_delete_round_trip() {
    let mut library = SkillLibrary::new();
    let write_root = vec!["tmp".to_string(), "does_not_need_to_exist_for_this_test".to_string()];

    let (rules, timeline) = strike_template("bolt");
    assert_eq!(insert_new_skill(&mut library, rules, timeline, Some(&write_root)), Some("bolt".to_string()));
    assert!(library.contains_key("bolt"));

    let dup_id = duplicate_skill(&mut library, "bolt", &write_root).expect("duplicate");
    assert_eq!(dup_id, "bolt_copy");
    assert!(library.get(&dup_id).unwrap().dirty_rules);

    assert!(rename_skill(&mut library, &dup_id, "bolt2"));
    assert!(library.contains_key("bolt2"));
    assert!(!library.contains_key(&dup_id));
    assert_eq!(library.get("bolt2").unwrap().rules.id, "bolt2");

    assert!(delete_skill(&mut library, "bolt2"));
    assert!(!library.contains_key("bolt2"));
    assert!(library.contains_key("bolt"));
}

#[test]
fn insert_new_skill_refuses_to_fabricate_a_root() {
    let mut library = SkillLibrary::new();
    let (rules, timeline) = strike_template("bolt");

    assert_eq!(insert_new_skill(&mut library, rules, timeline, None), None);
    assert!(library.is_empty());
}

#[test]
fn cross_file_trigger_reference_survives_the_scan() {
    let batch = vec![
        parsed("explosion", "Explosion", &[], "explosion.toml", 1),
        parsed("firebolt", "Firebolt", &["explosion"], "firebolt.toml", 2),
    ];
    let merged = merge_parsed(batch);
    assert!(dangling_references(&merged).is_empty());

    let ids: Vec<&str> = merged.iter().map(|p| p.rules.id.as_str()).collect();
    assert!(ids.contains(&"explosion"), "explosion must be scanned");
    assert!(ids.contains(&"firebolt"), "firebolt must survive the scan even though its trigger reference is in a sibling file");
    let firebolt = merged.iter().find(|p| p.rules.id == "firebolt").unwrap();
    assert_eq!(firebolt.rules.conditions[0].trigger_skill, "explosion");
}

#[test]
fn dangling_trigger_reference_still_scans_but_warns() {
    let batch = vec![parsed("haunted", "Haunted", &["nonexistent"], "haunted.toml", 3)];
    let merged = merge_parsed(batch);
    let dangling = dangling_references(&merged);

    assert!(merged.iter().any(|p| p.rules.id == "haunted"), "a dangling trigger_skill reference must warn, not silently drop the skill");
    assert_eq!(dangling.len(), 1);
    assert_eq!(dangling[0].skill_id, "haunted");
    assert_eq!(dangling[0].trigger_skill, "nonexistent");
}

#[test]
fn later_file_wins_and_ids_come_out_sorted() {
    let batch = vec![
        parsed("b", "First B", &[], "one.toml", 1),
        parsed("a", "A", &[], "one.toml", 1),
        parsed("b", "Second B", &[], "two.toml", 2),
    ];
    let merged = merge_parsed(batch);
    let ids: Vec<&str> = merged.iter().map(|p| p.rules.id.as_str()).collect();
    assert_eq!(ids, vec!["a", "b"]);
    assert_eq!(merged[1].rules.name, "Second B");
    assert_eq!(merged[1].rules_hash, 2);
}

#[test]
fn merging_a_root_twice_registers_it_once() {
    let mut library = SkillLibrary::new();
    let e = scanned_entry(&root(), parsed("bolt", "Bolt", &[], "bolt.toml", 1), None);
    merge_into_library(&mut library, vec![e], &root());
    let e = scanned_entry(&root(), parsed("bolt", "Bolt v2", &[], "bolt.toml", 2), None);
    merge_into_library(&mut library, vec![e], &root());
    assert_eq!(library.root_list().len(), 1);
    assert_eq!(library.len(), 1);
    assert_eq!(library.get("bolt").unwrap().rules.name, "Bolt v2");
    assert_eq!(library.default_root(), Some(&root()));
}

#[test]
fn unique_id_and_paths() {
    let mut library = SkillLibrary::new();
    assert_eq!(unique_id("bolt", &library), "bolt");
    library.insert(plain_entry(rules("bolt", "Bolt", &[])));
    library.insert(plain_entry(rules("bolt_2", "Bolt", &[])));
    assert_eq!(unique_id("bolt", &library), "bolt_3");
    assert_eq!(
        rules_path_for(&root(), "bolt"),
        vec!["tmp", "content", "config", "skills", "bolt.toml"].iter().map(|s| s.to_string()).collect::<Vec<_>>()
    );
    assert!(!rename_skill(&mut library, "bolt", "bolt_2"), "target taken");
    assert!(!rename_skill(&mut library, "ghost", "ghost2"), "source missing");
    assert!(!delete_skill(&mut library, "ghost"));
}

#[test]
fn referencing_skills_come_out_ascending_and_exclude_the_target() {
    let mut library = SkillLibrary::new();
    library.insert(plain_entry(rules("zeta", "Zeta", &["hub"])));
    library.insert(plain_entry(rules("hub", "Hub", &["hub"])));
    library.insert(plain_entry(rules("alpha", "Alpha", &["other", "hub"])));
    library.insert(plain_entry(rules("mid", "Mid", &["hub", "hub"])));
    library.insert(plain_entry(rules("quiet", "Quiet", &["other"])));

    let referencing = skills_referencing("hub", &library);
    assert_eq!(referencing, vec!["alpha".to_string(), "mid".to_string(), "zeta".to_string()]);
}

#[test]
fn a_duplicate_keeps_cost_cooldown_and_effect_applications() {
    let mut library = SkillLibrary::new();
    let write_root = vec!["tmp".to_string(), "content".to_string()];
    let (mut rules, timeline) = strike_template("bolt");
    rules.mana_cost = 12.5f64.to_bits();
    rules.cooldown = 3.0f64.to_bits();
    rules.damage.base_crit_chance = 5.0f64.to_bits();
    rules.effect_applications = vec!["effect_id = \"burn\"\n".to_string()];
    assert_eq!(insert_new_skill(&mut library, rules, timeline, Some(&write_root)), Some("bolt".to_string()));

    let dup_id = duplicate_skill(&mut library, "bolt", &write_root).expect("duplicate");
    let dup = &library.get(&dup_id).unwrap().rules;
    assert_eq!(dup.mana_cost, 12.5f64.to_bits());
    assert_eq!(dup.cooldown, 3.0f64.to_bits());
    assert_eq!(dup.damage.base_crit_chance, 5.0f64.to_bits());
    assert_eq!(dup.effect_applications, vec!["effect_id = \"burn\"\n".to_string()]);
    assert!(rename_skill(&mut library, &dup_id, "bolt2"));
    assert_eq!(library.get("bolt2").unwrap().rules.mana_cost, 12.5f64.to_bits());
}
