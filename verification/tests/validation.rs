use bevy_modal_editor::library::{blank_timeline, SkillEntry, SkillLibrary};
use bevy_modal_editor::model::{
    AcqFallback, Acquisition, CastTimeline, ChargeTier, CollisionShape, CollisionWindow, CueAttach, CueBinding, CueEntry,
    CueParam, Emitter, HitFilter, HitMode, PaintMode, PaintSpec, ParamSource, SkillCondition, SurfaceRequirement,
    TriggerCondition, Vec3Bits, VolumeMotion, WindowAnchor, WindowPhase, WindowSpawn,
};
use bevy_modal_editor::templates::strike_template;
use bevy_modal_editor::validation::{
    library_validation_messages, validate_skill, KnownNames, Problem, Severity, ValidationReport,
};

fn bits(x: f32) -> u32 {
    x.to_bits()
}

fn blank_entry(id: &str) -> SkillEntry {
    let (rules, _) = strike_template(id);
    SkillEntry {
        rules,
        timeline: blank_timeline(id),
        rules_path: Vec::new(),
        timeline_path: Vec::new(),
        dirty_rules: false,
        dirty_timeline: false,
        disk_hash: (0, 0),
    }
}

fn bolt_window() -> CollisionWindow {
    CollisionWindow {
        id: "bolt".to_string(),
        spawn: WindowSpawn::Scheduled { phase: WindowPhase::Active, offset: 0 },
        anchor: WindowAnchor::Caster,
        anchor_offset: Vec3Bits::zero(),
        strikes: true,
        active_duration: bits(1.0),
        shape: CollisionShape::Sphere { radius: bits(0.5) },
        motion: VolumeMotion::Static,
        hit_filter: HitFilter::Enemies,
        hit_mode: HitMode::OncePerTarget,
        rehit_interval: None,
        emitter: None,
        paints: None,
    }
}

fn real_timeline(id: &str) -> CastTimeline {
    let mut tl = blank_timeline(id);
    tl.collision_windows.push(bolt_window());
    tl
}

fn insert(library: &mut SkillLibrary, id: &str, timeline: CastTimeline, conditions: Vec<SkillCondition>) {
    let mut entry = blank_entry(id);
    entry.timeline = timeline;
    entry.rules.conditions = conditions;
    library.insert(entry);
}

fn no_names() -> KnownNames {
    KnownNames { effects: Vec::new(), vfx: Vec::new(), surfaces: Vec::new(), anim_clips: None }
}

fn surfaces(ids: &[&str]) -> KnownNames {
    KnownNames {
        effects: Vec::new(),
        vfx: Vec::new(),
        surfaces: ids.iter().map(|s| s.to_string()).collect(),
        anim_clips: None,
    }
}

fn painting_window(id: &str, paints: PaintSpec) -> CollisionWindow {
    let mut w = bolt_window();
    w.id = id.to_string();
    w.paints = Some(paints);
    w
}

fn cond(target: &str, additional: bool, condition: TriggerCondition) -> SkillCondition {
    SkillCondition { trigger_skill: target.to_string(), additional, condition }
}

fn cue(slot: &str, effect: Option<&str>, anim: Option<&str>, params: Vec<CueParam>) -> CueEntry {
    CueEntry {
        slot: slot.to_string(),
        binding: CueBinding {
            effect: effect.map(|s| s.to_string()),
            attach: CueAttach::World,
            anim: anim.map(|s| s.to_string()),
            params,
            duration: None,
        },
    }
}

fn validate(entry: &SkillEntry, library: &SkillLibrary, names: &KnownNames) -> ValidationReport {
    validate_skill(entry, library, names, &Ok(()))
}

// --- dangling trigger_skill ---

#[test]
fn dangling_trigger_skill_is_blocking() {
    let mut library = SkillLibrary::new();
    let mut entry = blank_entry("a");
    entry.rules.conditions = vec![cond("nowhere", true, TriggerCondition::Always)];
    library.insert(entry.clone());

    let report = validate(&entry, &library, &no_names());
    let probs = report.for_condition(0);
    assert_eq!(probs.len(), 1);
    assert!(probs[0].blocking);
    assert!(probs[0].message.contains("does not exist"));
}

#[test]
fn known_trigger_skill_is_not_dangling() {
    let mut library = SkillLibrary::new();
    insert(&mut library, "b", blank_timeline("b"), vec![]);
    let mut entry = blank_entry("a");
    entry.rules.conditions = vec![cond("b", true, TriggerCondition::OnImpact)];
    library.insert(entry.clone());

    let report = validate(&entry, &library, &no_names());
    assert!(report.for_condition(0).iter().all(|p| !p.message.contains("does not exist")), "{:?}", report.problems);
}

// --- Lifecycle-target missing timeline (blocking) ---

#[test]
fn lifecycle_target_missing_timeline_is_blocking() {
    let mut library = SkillLibrary::new();
    insert(&mut library, "b", blank_timeline("b"), vec![]);
    let mut entry = blank_entry("a");
    entry.rules.conditions = vec![cond("b", true, TriggerCondition::OnImpact)];
    library.insert(entry.clone());

    let report = validate(&entry, &library, &no_names());
    let probs = report.for_condition(0);
    assert_eq!(probs.len(), 1);
    assert!(probs[0].blocking);
}

#[test]
fn lifecycle_target_with_timeline_is_clean() {
    let mut library = SkillLibrary::new();
    insert(&mut library, "b", real_timeline("b"), vec![]);
    let mut entry = blank_entry("a");
    entry.rules.conditions = vec![cond("b", true, TriggerCondition::OnImpact)];
    library.insert(entry.clone());

    let report = validate(&entry, &library, &no_names());
    assert!(report.for_condition(0).is_empty(), "{:?}", report.problems);
}

// --- hit-phase target missing timeline (warning) ---

#[test]
fn hit_phase_target_missing_timeline_is_warning_not_blocking() {
    let mut library = SkillLibrary::new();
    insert(&mut library, "b", blank_timeline("b"), vec![]);
    let mut entry = blank_entry("a");
    entry.rules.conditions = vec![cond("b", true, TriggerCondition::OnCrit)];
    library.insert(entry.clone());

    let report = validate(&entry, &library, &no_names());
    let probs = report.for_condition(0);
    assert_eq!(probs.len(), 1);
    assert!(!probs[0].blocking);
}

#[test]
fn hit_phase_target_with_timeline_and_additional_true_is_clean() {
    let mut library = SkillLibrary::new();
    insert(&mut library, "b", real_timeline("b"), vec![]);
    let mut entry = blank_entry("a");
    entry.rules.conditions = vec![cond("b", true, TriggerCondition::OnCrit)];
    library.insert(entry.clone());

    let report = validate(&entry, &library, &no_names());
    assert!(report.for_condition(0).is_empty(), "{:?}", report.problems);
}

// --- timeline-target additional == false (blocking) ---

#[test]
fn timeline_target_additional_false_is_blocking() {
    let mut library = SkillLibrary::new();
    insert(&mut library, "b", real_timeline("b"), vec![]);
    let mut entry = blank_entry("a");
    entry.rules.conditions = vec![cond("b", false, TriggerCondition::OnCrit)];
    library.insert(entry.clone());

    let report = validate(&entry, &library, &no_names());
    let probs = report.for_condition(0);
    assert!(probs.iter().any(|p| p.blocking && p.message.contains("additional = true")));
}

#[test]
fn timeline_target_additional_true_is_not_flagged() {
    let mut library = SkillLibrary::new();
    insert(&mut library, "b", real_timeline("b"), vec![]);
    let mut entry = blank_entry("a");
    entry.rules.conditions = vec![cond("b", true, TriggerCondition::OnCrit)];
    library.insert(entry.clone());

    let report = validate(&entry, &library, &no_names());
    assert!(report.for_condition(0).iter().all(|p| !p.message.contains("additional = true")));
}

// --- EveryNthHit on timeline target (blocking) ---

#[test]
fn every_nth_hit_on_timeline_target_is_blocking() {
    let mut library = SkillLibrary::new();
    insert(&mut library, "b", real_timeline("b"), vec![]);
    let mut entry = blank_entry("a");
    entry.rules.conditions = vec![cond("b", true, TriggerCondition::EveryNthHit { n: 3 })];
    library.insert(entry.clone());

    let report = validate(&entry, &library, &no_names());
    let probs = report.for_condition(0);
    assert!(probs.iter().any(|p| p.blocking && p.message.contains("EveryNthHit")));
}

#[test]
fn every_nth_hit_on_packet_target_is_not_flagged() {
    let mut library = SkillLibrary::new();
    insert(&mut library, "b", blank_timeline("b"), vec![]);
    let mut entry = blank_entry("a");
    entry.rules.conditions = vec![cond("b", true, TriggerCondition::EveryNthHit { n: 3 })];
    library.insert(entry.clone());

    let report = validate(&entry, &library, &no_names());
    assert!(report.for_condition(0).iter().all(|p| !p.message.contains("EveryNthHit")));
}

// --- cue bindings: unknown Effect preset ---

#[test]
fn cue_unknown_effect_preset_is_blocking() {
    let library = SkillLibrary::new();
    let mut entry = blank_entry("a");
    entry.timeline.cues = vec![cue("on_cast", Some("Nonexistent"), None, vec![])];

    let report = validate(&entry, &library, &no_names());
    let probs = report.for_cue("on_cast");
    assert_eq!(probs.len(), 1);
    assert!(probs[0].blocking);
}

#[test]
fn cue_known_effect_preset_in_effect_library_is_clean() {
    let library = SkillLibrary::new();
    let mut entry = blank_entry("a");
    entry.timeline.cues = vec![cue("on_cast", Some("Muzzle"), None, vec![])];

    let mut names = no_names();
    names.effects.push("Muzzle".to_string());
    let report = validate(&entry, &library, &names);
    assert!(report.for_cue("on_cast").is_empty(), "{:?}", report.problems);
}

#[test]
fn cue_known_effect_preset_in_vfx_library_is_clean() {
    let library = SkillLibrary::new();
    let mut entry = blank_entry("a");
    entry.timeline.cues = vec![cue("on_cast", Some("Spark"), None, vec![])];

    let mut names = no_names();
    names.vfx.push("Spark".to_string());
    let report = validate(&entry, &library, &names);
    assert!(report.for_cue("on_cast").is_empty(), "{:?}", report.problems);
}

// --- cue bindings: unknown anim clip ---

#[test]
fn cue_unknown_anim_clip_is_blocking_when_anim_library_present() {
    let library = SkillLibrary::new();
    let mut entry = blank_entry("a");
    entry.timeline.cues = vec![cue("on_cast", None, Some("missing::clip"), vec![])];

    let mut names = no_names();
    names.anim_clips = Some(Vec::new());
    let report = validate(&entry, &library, &names);
    let probs = report.for_cue("on_cast");
    assert_eq!(probs.len(), 1);
    assert!(probs[0].blocking);
}

#[test]
fn cue_anim_clip_unchecked_when_no_anim_library() {
    let library = SkillLibrary::new();
    let mut entry = blank_entry("a");
    entry.timeline.cues = vec![cue("on_cast", None, Some("missing::clip"), vec![])];

    let report = validate(&entry, &library, &no_names());
    assert!(report.for_cue("on_cast").is_empty(), "{:?}", report.problems);
}

// --- Template window non-default anchor/offset (warning) ---

fn template_window(id: &str, anchor: WindowAnchor, offset: Vec3Bits) -> CollisionWindow {
    let mut w = bolt_window();
    w.id = id.to_string();
    w.spawn = WindowSpawn::Template;
    w.anchor = anchor;
    w.anchor_offset = offset;
    w.shape = CollisionShape::Sphere { radius: bits(0.3) };
    w
}

fn emitting_scheduled_window(id: &str, template_target: &str) -> CollisionWindow {
    let mut w = bolt_window();
    w.id = id.to_string();
    w.emitter = Some(Emitter { window: template_target.to_string(), rate: bits(5.0), jitter: bits(0.5) });
    w
}

#[test]
fn template_window_non_default_anchor_is_warning() {
    let library = SkillLibrary::new();
    let mut entry = blank_entry("a");
    entry.timeline.collision_windows = vec![
        emitting_scheduled_window("storm", "shard"),
        template_window("shard", WindowAnchor::Caster, Vec3Bits::new(0, bits(3.0), 0)),
    ];

    let report = validate(&entry, &library, &no_names());
    let probs = report.for_window("shard");
    assert_eq!(probs.len(), 1, "{:?}", report.problems);
    assert!(!probs[0].blocking);
}

#[test]
fn template_window_default_anchor_is_clean() {
    let library = SkillLibrary::new();
    let mut entry = blank_entry("a");
    entry.timeline.collision_windows = vec![
        emitting_scheduled_window("storm", "shard"),
        template_window("shard", WindowAnchor::Caster, Vec3Bits::zero()),
    ];

    let report = validate(&entry, &library, &no_names());
    assert!(report.for_window("shard").is_empty(), "{:?}", report.problems);
}

// --- trigger-cycle depth ---

#[test]
fn trigger_cycle_beyond_depth_8_is_blocking() {
    let mut library = SkillLibrary::new();
    insert(&mut library, "b", blank_timeline("b"), vec![cond("a", true, TriggerCondition::Always)]);
    let mut entry = blank_entry("a");
    entry.rules.conditions = vec![cond("b", true, TriggerCondition::Always)];
    library.insert(entry.clone());

    let report = validate(&entry, &library, &no_names());
    let probs: Vec<&Problem> = report.problems.iter().filter(|p| p.target == "skill").collect();
    assert!(probs.iter().any(|p| p.blocking && p.message.contains("depth")), "{:?}", report.problems);
}

#[test]
fn trigger_chain_within_depth_8_is_clean() {
    let mut library = SkillLibrary::new();
    insert(&mut library, "b", blank_timeline("b"), vec![]);
    let mut entry = blank_entry("a");
    entry.rules.conditions = vec![cond("b", true, TriggerCondition::Always)];
    library.insert(entry.clone());

    let report = validate(&entry, &library, &no_names());
    assert!(
        report.problems.iter().filter(|p| p.target == "skill").all(|p| !p.message.contains("depth")),
        "{:?}",
        report.problems
    );
}

// --- structural timeline check errors surfaced verbatim ---

#[test]
fn structural_timeline_error_is_blocking_and_tagged_to_window() {
    let library = SkillLibrary::new();
    let mut entry = blank_entry("a");
    let mut window = real_timeline("a").collision_windows.remove(0);
    window.anchor = WindowAnchor::CastPoint;
    entry.timeline.collision_windows = vec![window];

    // What the runtime's structural check answers for a CastPoint window under an `Aim`
    // acquisition, which can never produce a point.
    let check = Err("window 'bolt' is anchored at CastPoint, but the acquisition can never produce a point".to_string());
    let report = validate_skill(&entry, &library, &no_names(), &check);
    let probs = report.for_window("bolt");
    assert_eq!(probs.len(), 1);
    assert!(probs[0].blocking);
    assert!(probs[0].message.contains("CastPoint"));
}

#[test]
fn structurally_valid_timeline_has_no_structural_error() {
    let library = SkillLibrary::new();
    let entry = blank_entry("a");
    let report = validate(&entry, &library, &no_names());
    assert!(report.problems.iter().all(|p| !p.message.contains("CastPoint")), "{:?}", report.problems);
}

#[test]
fn cue_param_source_charge_does_not_affect_validation() {
    let library = SkillLibrary::new();
    let mut entry = blank_entry("a");
    entry.timeline.cues = vec![cue(
        "on_cast",
        None,
        None,
        vec![CueParam { param: "scale".to_string(), source: ParamSource::Charge }],
    )];
    let report = validate(&entry, &library, &no_names());
    assert!(report.for_cue("on_cast").is_empty());
}

// --- Surfaces: window `paints` ---

#[test]
fn paints_unknown_surface_is_blocking() {
    let library = SkillLibrary::new();
    let mut entry = blank_entry("a");
    entry.timeline.collision_windows = vec![painting_window(
        "splat",
        PaintSpec { surface: "ghost".to_string(), radius: bits(0.45), mode: PaintMode::OnEnd, lifetime: None },
    )];
    let report = validate(&entry, &library, &surfaces(&[]));
    let probs = report.for_window("splat");
    assert_eq!(probs.len(), 1, "{:?}", report.problems);
    assert!(probs[0].blocking);
    assert!(probs[0].message.contains("ghost"));
}

#[test]
fn paints_known_surface_valid_numerics_is_clean() {
    let library = SkillLibrary::new();
    let mut entry = blank_entry("a");
    entry.timeline.collision_windows = vec![painting_window(
        "splat",
        PaintSpec {
            surface: "frost".to_string(),
            radius: bits(0.45),
            mode: PaintMode::Trail { step: bits(0.8) },
            lifetime: Some(bits(5.0)),
        },
    )];
    let report = validate(&entry, &library, &surfaces(&["frost"]));
    assert!(report.for_window("splat").is_empty(), "{:?}", report.problems);
}

#[test]
fn paints_empty_surface_id_is_blocking() {
    let library = SkillLibrary::new();
    let mut entry = blank_entry("a");
    entry.timeline.collision_windows = vec![painting_window(
        "splat",
        PaintSpec { surface: String::new(), radius: bits(0.45), mode: PaintMode::OnEnd, lifetime: None },
    )];
    let report = validate(&entry, &library, &surfaces(&[]));
    assert!(
        report.for_window("splat").iter().any(|p| p.blocking && p.message.contains("empty surface")),
        "{:?}",
        report.problems
    );
}

#[test]
fn paints_radius_zero_is_blocking() {
    let library = SkillLibrary::new();
    let mut entry = blank_entry("a");
    entry.timeline.collision_windows = vec![painting_window(
        "splat",
        PaintSpec { surface: "frost".to_string(), radius: bits(0.0), mode: PaintMode::OnEnd, lifetime: None },
    )];
    let report = validate(&entry, &library, &surfaces(&["frost"]));
    assert!(
        report.for_window("splat").iter().any(|p| p.blocking && p.message.contains("radius")),
        "{:?}",
        report.problems
    );
}

#[test]
fn paints_trail_step_zero_is_blocking() {
    let library = SkillLibrary::new();
    let mut entry = blank_entry("a");
    entry.timeline.collision_windows = vec![painting_window(
        "splat",
        PaintSpec {
            surface: "frost".to_string(),
            radius: bits(0.45),
            mode: PaintMode::Trail { step: bits(0.0) },
            lifetime: None,
        },
    )];
    let report = validate(&entry, &library, &surfaces(&["frost"]));
    assert!(
        report.for_window("splat").iter().any(|p| p.blocking && p.message.contains("Trail step")),
        "{:?}",
        report.problems
    );
}

#[test]
fn paints_lifetime_override_zero_is_blocking() {
    let library = SkillLibrary::new();
    let mut entry = blank_entry("a");
    entry.timeline.collision_windows = vec![painting_window(
        "splat",
        PaintSpec { surface: "frost".to_string(), radius: bits(0.45), mode: PaintMode::OnEnd, lifetime: Some(bits(0.0)) },
    )];
    let report = validate(&entry, &library, &surfaces(&["frost"]));
    assert!(
        report.for_window("splat").iter().any(|p| p.blocking && p.message.contains("lifetime")),
        "{:?}",
        report.problems
    );
}

// --- Surfaces: acquisition `on_surface` ---

#[test]
fn on_surface_unknown_surface_is_blocking() {
    let library = SkillLibrary::new();
    let mut entry = blank_entry("a");
    entry.timeline.acquisition = Acquisition::GroundPoint {
        range: bits(20.0),
        fallback: AcqFallback::Fizzle,
        on_surface: Some(SurfaceRequirement { surface: "ghost".to_string(), snap: true, consume: false }),
    };
    let report = validate(&entry, &library, &surfaces(&[]));
    let probs: Vec<&Problem> = report.problems.iter().filter(|p| p.target == "acquisition").collect();
    assert_eq!(probs.len(), 1, "{:?}", report.problems);
    assert!(probs[0].blocking);
    assert!(probs[0].message.contains("ghost"));
}

#[test]
fn on_surface_known_surface_is_clean() {
    let library = SkillLibrary::new();
    let mut entry = blank_entry("a");
    entry.timeline.acquisition = Acquisition::GroundPoint {
        range: bits(20.0),
        fallback: AcqFallback::Fizzle,
        on_surface: Some(SurfaceRequirement { surface: "frost".to_string(), snap: true, consume: false }),
    };
    let report = validate(&entry, &library, &surfaces(&["frost"]));
    assert!(report.problems.iter().all(|p| p.target != "acquisition"), "{:?}", report.problems);
}

#[test]
fn on_surface_unknown_in_fallback_chain_is_blocking() {
    let library = SkillLibrary::new();
    let mut entry = blank_entry("a");
    entry.timeline.acquisition = Acquisition::HitscanEntity {
        range: bits(20.0),
        filter: HitFilter::Enemies,
        fallback: AcqFallback::Then(Box::new(Acquisition::GroundPoint {
            range: bits(20.0),
            fallback: AcqFallback::Fizzle,
            on_surface: Some(SurfaceRequirement { surface: "ghost".to_string(), snap: true, consume: false }),
        })),
    };
    let report = validate(&entry, &library, &surfaces(&["frost"]));
    assert!(
        report.problems.iter().any(|p| p.target == "acquisition" && p.blocking && p.message.contains("ghost")),
        "{:?}",
        report.problems
    );
}

// --- further cases of the same rules ---

#[test]
fn dangling_and_empty_trigger_messages_are_exact() {
    let library = SkillLibrary::new();
    let mut entry = blank_entry("a");
    entry.rules.conditions = vec![cond("nowhere", true, TriggerCondition::Always), cond("", true, TriggerCondition::Always)];
    let report = validate(&entry, &library, &no_names());
    assert_eq!(report.for_condition(0)[0].message, "trigger_skill 'nowhere' does not exist");
    assert_eq!(report.for_condition(1)[0].message, "trigger has no target skill selected");
    assert_eq!(report.for_condition(1)[0].target, "condition:1");
    assert!(report.has_blocking());
    assert_eq!(report.blocking_messages().len(), 2);
}

#[test]
fn self_trigger_is_a_cycle_and_blocks() {
    let library = SkillLibrary::new();
    let mut entry = blank_entry("a");
    entry.rules.conditions = vec![cond("a", true, TriggerCondition::Always)];
    let report = validate(&entry, &library, &no_names());
    assert!(report
        .problems
        .iter()
        .any(|p| p.target == "skill" && p.blocking
            && p.message == "trigger graph exceeds depth 8 from this skill (possible cycle)"));
}

#[test]
fn charge_tier_rules_report_each_tier() {
    let library = SkillLibrary::new();
    let mut entry = blank_entry("a");
    let tier = |threshold: f32, attach: CueAttach| ChargeTier {
        threshold: bits(threshold),
        cue: CueBinding { effect: None, attach, anim: None, params: Vec::new(), duration: None },
    };
    entry.timeline.charge_cues = vec![
        tier(0.5, CueAttach::World),
        tier(0.4, CueAttach::Follow),
        tier(1.5, CueAttach::Bone { socket: String::new() }),
    ];
    let report = validate(&entry, &library, &no_names());
    let msgs: Vec<String> = report.for_cue("charge").iter().map(|p| p.message.clone()).collect();
    assert_eq!(
        msgs,
        vec![
            "charge tier 1 threshold must be greater than tier 0's".to_string(),
            "charge tier 1 may not use Follow attach".to_string(),
            "charge tier 2 threshold must be within 0-100%".to_string(),
            "charge tier 2 Bone attach needs a socket name".to_string(),
            "charge tiers are authored but Chargeable is off - they never play".to_string(),
        ]
    );
    assert!(!report.for_cue("charge").last().unwrap().blocking);
}

#[test]
fn library_sweep_prefixes_each_message_with_its_skill() {
    let mut library = SkillLibrary::new();
    insert(&mut library, "a", blank_timeline("a"), vec![cond("ghost", true, TriggerCondition::OnCrit)]);
    insert(&mut library, "b", blank_timeline("b"), vec![]);
    let checks = vec![Ok(()), Ok(())];
    let messages = library_validation_messages(&library, &no_names(), &checks);
    assert_eq!(messages.len(), 1);
    assert_eq!(messages[0].severity, Severity::Error);
    assert_eq!(messages[0].message, "skill 'a': trigger_skill 'ghost' does not exist");
}

// --- the report, one trigger card or cue row at a time ---

fn chain_library(len: usize, last_target: &str) -> (SkillEntry, SkillLibrary) {
    // s0 -> s1 -> ... -> s{len-1} -> last_target
    let mut library = SkillLibrary::new();
    for k in 1..len {
        let next = if k + 1 < len { format!("s{}", k + 1) } else { last_target.to_string() };
        insert(&mut library, &format!("s{}", k), blank_timeline(&format!("s{}", k)), vec![cond(&next, true, TriggerCondition::Always)]);
    }
    let mut entry = blank_entry("s0");
    entry.rules.conditions = vec![cond(if len > 1 { "s1" } else { last_target }, true, TriggerCondition::Always)];
    (entry, library)
}

fn depth_flagged(report: &ValidationReport) -> bool {
    report.problems.iter().any(|p| {
        p.target == "skill" && p.blocking && p.message == "trigger graph exceeds depth 8 from this skill (possible cycle)"
    })
}

#[test]
fn a_chain_of_nine_hops_blocks_and_eight_does_not() {
    // eight skills, the last naming an unknown id: nine hops, the last to a skill that does not exist
    let (entry, library) = chain_library(9, "s9");
    let report = validate(&entry, &library, &no_names());
    assert!(depth_flagged(&report), "{:?}", report.problems);
    // eight hops: s0 .. s7 -> s8 (unknown)
    let (entry, library) = chain_library(8, "s8");
    let report = validate(&entry, &library, &no_names());
    assert!(!depth_flagged(&report), "{:?}", report.problems);
}

#[test]
fn a_trigger_card_shows_only_its_own_condition() {
    let mut library = SkillLibrary::new();
    insert(&mut library, "known", real_timeline("known"), vec![]);
    let mut entry = blank_entry("a");
    entry.rules.conditions =
        vec![cond("known", true, TriggerCondition::OnImpact), cond("ghost", true, TriggerCondition::Always)];
    let report = validate(&entry, &library, &no_names());
    assert!(report.for_condition(0).iter().all(|p| !p.message.contains("does not exist")));
    let card = report.for_condition(1);
    assert_eq!(card.len(), 1);
    assert!(card[0].blocking);
    assert_eq!(card[0].message, "trigger_skill 'ghost' does not exist");
    assert_eq!(card[0].target, "condition:1");
}

#[test]
fn a_cue_row_shows_its_binding_problems() {
    let library = SkillLibrary::new();
    let mut entry = blank_entry("a");
    entry.timeline.cues = vec![cue("on_hit", Some("nope"), Some("swing"), Vec::new())];
    let mut names = no_names();
    names.anim_clips = Some(vec!["idle".to_string()]);
    let report = validate(&entry, &library, &names);
    let msgs: Vec<String> = report.for_cue("on_hit").iter().map(|p| p.message.clone()).collect();
    assert_eq!(
        msgs,
        vec![
            "cue 'on_hit' references unknown Effect preset 'nope'".to_string(),
            "cue 'on_hit' references unknown animation clip 'swing'".to_string(),
        ]
    );
    assert!(report.for_cue("on_hit").iter().all(|p| p.blocking));
    // with no clip list loaded the clip goes unchecked
    let report = validate(&entry, &library, &no_names());
    assert_eq!(report.for_cue("on_hit").len(), 1);
}

#[test]
fn equal_tier_thresholds_are_refused() {
    let library = SkillLibrary::new();
    let mut entry = blank_entry("a");
    entry.timeline.chargeable = true;
    let tier = |threshold: f32| ChargeTier {
        threshold: bits(threshold),
        cue: CueBinding { effect: None, attach: CueAttach::World, anim: None, params: Vec::new(), duration: None },
    };
    entry.timeline.charge_cues = vec![tier(0.0), tier(0.5), tier(0.5), tier(1.0)];
    let report = validate(&entry, &library, &no_names());
    let msgs: Vec<String> = report.for_cue("charge").iter().map(|p| p.message.clone()).collect();
    assert_eq!(msgs, vec!["charge tier 2 threshold must be greater than tier 1's".to_string()]);
    assert!(report.for_cue("charge")[0].blocking);
}
