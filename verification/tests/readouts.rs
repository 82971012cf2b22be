use std::cell::Cell;
use std::collections::BTreeMap;

use bevy_modal_editor::library::{SkillEntry, SkillLibrary};
use bevy_modal_editor::model::{
    BaseDamage, CollisionShape, CollisionWindow, DamageType, Emitter, HitFilter, HitMode, SkillCondition,
    TriggerCondition, Vec3Bits, VolumeMotion, WindowAnchor, WindowPhase, WindowSpawn,
};
use bevy_modal_editor::readouts::{strike_breakdown, strike_breakdown_in_library};
use bevy_modal_editor::templates::{projectile_template, zone_template};

fn lookup<'a>(map: &'a BTreeMap<&str, bool>) -> impl Fn(&str) -> bool + 'a {
    move |id: &str| map.get(id).copied().unwrap_or(false)
}

fn bits(x: f32) -> u32 {
    x.to_bits()
}

#[test]
fn fireball_pair_counts_bolt_plus_triggered_explosion() {
    let (mut rules, timeline) = projectile_template("fireball");
    rules.damage.base_damages =
        vec![BaseDamage { damage_type: DamageType::Fire, min: 20.0f64.to_bits(), max: 20.0f64.to_bits() }];
    rules.conditions.push(SkillCondition {
        trigger_skill: "fireball_explosion".to_string(),
        additional: true,
        condition: TriggerCondition::OnImpact,
    });

    let known: BTreeMap<&str, bool> = [("fireball_explosion", true)].into_iter().collect();
    let strikes = strike_breakdown(&rules, &timeline, lookup(&known));

    assert_eq!(strikes.scheduled, 1, "the bolt is one scheduled, striking window");
    assert_eq!(strikes.chain, 0);
    assert_eq!(strikes.triggered, 1, "on_impact targets a skill with a real timeline");
    assert_eq!(strikes.total(), 2);
    assert!(strikes.approximate(), "triggered contribution must be flagged approximate");
    assert!(!strikes.has_unbounded_emitter);
}

#[test]
fn trigger_without_a_timeline_target_does_not_count() {
    let (mut rules, timeline) = projectile_template("bolt");
    rules.conditions.push(SkillCondition {
        trigger_skill: "packet_only_proc".to_string(),
        additional: false,
        condition: TriggerCondition::OnCrit,
    });

    let known: BTreeMap<&str, bool> = [("packet_only_proc", false)].into_iter().collect();
    let strikes = strike_breakdown(&rules, &timeline, lookup(&known));

    assert_eq!(strikes.scheduled, 1);
    assert_eq!(strikes.triggered, 0);
    assert_eq!(strikes.total(), 1);
    assert!(!strikes.approximate());
}

#[test]
fn chain_skill_counts_scheduled_plus_chain_count() {
    let (mut rules, timeline) = projectile_template("chain_bolt");
    rules.can_chain = true;
    rules.chain_count = 3;

    let strikes = strike_breakdown(&rules, &timeline, |_| false);

    assert_eq!(strikes.scheduled, 1);
    assert_eq!(strikes.chain, 3);
    assert_eq!(strikes.triggered, 0);
    assert_eq!(strikes.total(), 4);
    assert!(!strikes.approximate(), "chain hops are deterministic, not the shallow approx");
}

#[test]
fn zone_with_emitter_excludes_shards_from_the_count() {
    let (rules, mut timeline) = zone_template("blizzard");
    timeline.collision_windows[0].emitter =
        Some(Emitter { rate: bits(4.0), jitter: bits(1.5), window: "shard".to_string() });
    timeline.collision_windows.push(CollisionWindow {
        id: "shard".to_string(),
        spawn: WindowSpawn::Template,
        anchor: WindowAnchor::Caster,
        anchor_offset: Vec3Bits::zero(),
        strikes: true,
        active_duration: bits(1.0),
        shape: CollisionShape::Sphere { radius: bits(0.5) },
        motion: VolumeMotion::Static,
        hit_filter: HitFilter::Enemies,
        hit_mode: HitMode::OncePerTarget,
        rehit_interval: None,
        emitter: None,
        paints: None,
    });

    let strikes = strike_breakdown(&rules, &timeline, |_| false);

    assert_eq!(strikes.scheduled, 1, "only the zone's own scheduled window counts");
    assert_eq!(strikes.total(), 1);
    assert!(strikes.has_unbounded_emitter, "the emitter must be flagged, not folded into the count");
}

#[test]
fn non_striking_scheduled_window_is_excluded() {
    let (rules, mut timeline) = projectile_template("carrier");
    timeline.collision_windows[0].strikes = false;

    let strikes = strike_breakdown(&rules, &timeline, |_| false);

    assert_eq!(strikes.scheduled, 0);
    assert_eq!(strikes.total(), 1, "total is still floored at 1 for display");
}

#[test]
fn scheduled_windows_name_a_phase() {
    let (_, timeline) = projectile_template("phase_check");
    match timeline.collision_windows[0].spawn {
        WindowSpawn::Scheduled { phase, .. } => assert_eq!(phase, WindowPhase::Active),
        WindowSpawn::Template => panic!("projectile_template's window must be Scheduled"),
    }
}

#[test]
fn library_breakdown_looks_up_real_timelines() {
    let mut library = SkillLibrary::new();
    let (mut rules, timeline) = projectile_template("fireball");
    rules.conditions.push(SkillCondition {
        trigger_skill: "explosion".to_string(),
        additional: true,
        condition: TriggerCondition::OnImpact,
    });
    let entry = |rules, timeline| SkillEntry {
        rules,
        timeline,
        rules_path: Vec::new(),
        timeline_path: Vec::new(),
        dirty_rules: false,
        dirty_timeline: false,
        disk_hash: (0, 0),
    };
    library.insert(entry(rules, timeline));
    let (rules, timeline) = zone_template("explosion");
    library.insert(entry(rules, timeline));

    let strikes = strike_breakdown_in_library("fireball", &library).expect("known skill");
    assert_eq!(strikes.total(), 2);
    assert!(strike_breakdown_in_library("missing", &library).is_none());
}

#[test]
fn the_target_question_is_asked_once_per_condition_in_order() {
    let (mut rules, timeline) = projectile_template("caster");
    for (target, additional) in [("a", true), ("b", false), ("a", false)] {
        rules.conditions.push(SkillCondition {
            trigger_skill: target.to_string(),
            additional,
            condition: TriggerCondition::OnImpact,
        });
    }
    let asked: Cell<Vec<String>> = Cell::new(Vec::new());
    let strikes = strike_breakdown(&rules, &timeline, |id: &str| {
        let mut seen = asked.take();
        seen.push(id.to_string());
        asked.set(seen);
        id == "a"
    });
    assert_eq!(asked.take(), vec!["a".to_string(), "b".to_string(), "a".to_string()]);
    assert_eq!(strikes.triggered, 2);
    assert_eq!(strikes.total(), 3);
}
