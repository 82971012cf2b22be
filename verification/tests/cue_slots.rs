use bevy_modal_editor::cue_slots::{cue_slots, CueSlot};
use bevy_modal_editor::library::blank_timeline;
use bevy_modal_editor::model::{
    CastTimeline, CollisionShape, CollisionWindow, Emitter, HitFilter, HitMode, Vec3Bits, VolumeMotion, WindowAnchor,
    WindowPhase, WindowSpawn,
};

fn bits(x: f32) -> u32 {
    x.to_bits()
}

fn blank() -> CastTimeline {
    blank_timeline("s")
}

fn scheduled_window(id: &str, emitter: Option<Emitter>) -> CollisionWindow {
    CollisionWindow {
        id: id.to_string(),
        spawn: WindowSpawn::Scheduled { phase: WindowPhase::Active, offset: 0 },
        anchor: WindowAnchor::Caster,
        anchor_offset: Vec3Bits::zero(),
        strikes: true,
        active_duration: bits(1.0),
        shape: CollisionShape::Sphere { radius: bits(0.5) },
        motion: VolumeMotion::Static,
        hit_filter: HitFilter::Enemies,
        hit_mode: HitMode::OncePerTarget,
        rehit_interval: None,
        emitter,
        paints: None,
    }
}

fn template_window(id: &str) -> CollisionWindow {
    let mut w = scheduled_window(id, None);
    w.spawn = WindowSpawn::Template;
    w.shape = CollisionShape::Sphere { radius: bits(0.3) };
    w
}

fn emitter(rate: f32, jitter: f32, window: &str) -> Option<Emitter> {
    Some(Emitter { rate: bits(rate), jitter: bits(jitter), window: window.to_string() })
}

fn ids(slots: &[CueSlot]) -> Vec<&str> {
    slots.iter().map(|s| s.slot_id.as_str()).collect()
}

#[test]
fn fireball_pair_style_ordering() {
    let mut tl = blank();
    tl.collision_windows = vec![scheduled_window("bolt", None)];

    let slots = cue_slots(&tl);
    assert_eq!(ids(&slots), vec!["on_cast", "on_window_bolt", "on_end_bolt", "on_hit"]);
}

#[test]
fn empty_timeline_is_just_cast_and_hit() {
    let tl = blank();
    let slots = cue_slots(&tl);
    assert_eq!(ids(&slots), vec!["on_cast", "on_hit"]);
}

#[test]
fn blizzard_style_emit_slot_present_after_window_pairs() {
    let mut tl = blank();
    tl.collision_windows = vec![scheduled_window("storm", emitter(5.0, 0.5, "shard")), template_window("shard")];

    let slots = cue_slots(&tl);
    assert_eq!(
        ids(&slots),
        vec!["on_cast", "on_window_storm", "on_end_storm", "on_window_shard", "on_end_shard", "emit_shard", "on_hit"]
    );
}

#[test]
fn emit_target_referenced_by_two_emitters_lists_once() {
    let mut tl = blank();
    tl.collision_windows = vec![
        scheduled_window("storm_a", emitter(5.0, 0.5, "shard")),
        scheduled_window("storm_b", emitter(3.0, 0.2, "shard")),
        template_window("shard"),
    ];

    let slots = cue_slots(&tl);
    let emit_count = slots.iter().filter(|s| s.slot_id == "emit_shard").count();
    assert_eq!(emit_count, 1, "{:?}", ids(&slots));
    assert_eq!(
        ids(&slots),
        vec![
            "on_cast",
            "on_window_storm_a",
            "on_end_storm_a",
            "on_window_storm_b",
            "on_end_storm_b",
            "on_window_shard",
            "on_end_shard",
            "emit_shard",
            "on_hit",
        ]
    );
}

#[test]
fn on_cast_allows_anim_not_attach() {
    let tl = blank();
    let slots = cue_slots(&tl);
    let on_cast = slots.iter().find(|s| s.slot_id == "on_cast").unwrap();
    assert!(on_cast.anim_legal);
    assert!(!on_cast.attach_legal);
}

#[test]
fn on_window_and_emit_allow_attach_not_anim() {
    let mut tl = blank();
    tl.collision_windows = vec![scheduled_window("storm", emitter(5.0, 0.5, "shard")), template_window("shard")];
    let slots = cue_slots(&tl);

    let on_window = slots.iter().find(|s| s.slot_id == "on_window_storm").unwrap();
    assert!(on_window.attach_legal);
    assert!(!on_window.anim_legal);

    let emit = slots.iter().find(|s| s.slot_id == "emit_shard").unwrap();
    assert!(emit.attach_legal);
    assert!(!emit.anim_legal);
}

#[test]
fn on_end_and_on_hit_allow_neither() {
    let mut tl = blank();
    tl.collision_windows = vec![scheduled_window("bolt", None)];
    let slots = cue_slots(&tl);

    let on_end = slots.iter().find(|s| s.slot_id == "on_end_bolt").unwrap();
    assert!(!on_end.attach_legal);
    assert!(!on_end.anim_legal);

    let on_hit = slots.iter().find(|s| s.slot_id == "on_hit").unwrap();
    assert!(!on_hit.attach_legal);
    assert!(!on_hit.anim_legal);
}

#[test]
fn labels_are_human_readable() {
    let mut tl = blank();
    tl.collision_windows = vec![scheduled_window("bolt", None)];
    let slots = cue_slots(&tl);
    assert_eq!(slots[0].label, "On Cast");
    assert_eq!(slots[1].label, "On Window: bolt");
    assert_eq!(slots[2].label, "On End: bolt");
    assert_eq!(slots[3].label, "On Hit");
}
