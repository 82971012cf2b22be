use bevy_modal_editor::library::SkillEntry;
use bevy_modal_editor::model::{
    AcqFallback, Acquisition, CollisionShape, CollisionWindow, HitFilter, HitMode, Vec3Bits, VolumeMotion,
    WindowAnchor, WindowPhase, WindowSpawn,
};
use bevy_modal_editor::stage::{
    dummy_count, dummy_name, resolve_stage_acquisition, window_anchor_point, AnchorPoint, StageAim,
    StageAimContext, StageDummy,
};
use bevy_modal_editor::templates::strike_template;

fn entry(can_chain: bool, chain_count: u32) -> SkillEntry {
    let (mut rules, timeline) = strike_template("zap");
    rules.can_chain = can_chain;
    rules.chain_count = chain_count;
    SkillEntry {
        rules,
        timeline,
        rules_path: Vec::new(),
        timeline_path: Vec::new(),
        dirty_rules: false,
        dirty_timeline: false,
        disk_hash: (0, 0),
    }
}

fn b(x: f32) -> u32 {
    x.to_bits()
}

fn ctx(dummy_distance: Option<f32>, marker_distance: f32) -> StageAimContext {
    StageAimContext {
        dummy: dummy_distance.map(|d| StageDummy {
            entity: 77,
            distance: b(d),
            admitted_by: vec![HitFilter::Enemies, HitFilter::All],
        }),
        marker_distance: b(marker_distance),
    }
}

#[test]
fn a_chaining_skill_stages_one_dummy_per_hop_plus_one() {
    assert_eq!(dummy_count(Some(&entry(true, 3))), 4);
    assert_eq!(dummy_count(Some(&entry(true, 0))), 1);
    assert_eq!(dummy_count(Some(&entry(false, 3))), 1);
    assert_eq!(dummy_count(None), 1);
}

#[test]
fn dummies_are_named_from_the_second_on_by_their_place() {
    assert_eq!(dummy_name(0), "preview_dummy");
    assert_eq!(dummy_name(1), "preview_dummy_2");
    assert_eq!(dummy_name(9), "preview_dummy_10");
}

#[test]
fn aim_and_self_point_always_resolve() {
    assert_eq!(resolve_stage_acquisition(&Acquisition::Aim, &ctx(None, 99.0)), Some(StageAim::AimDirection));
    assert_eq!(resolve_stage_acquisition(&Acquisition::SelfPoint, &ctx(None, 99.0)), Some(StageAim::CasterPoint));
}

#[test]
fn hitscan_takes_the_dummy_in_range_that_its_filter_accepts() {
    let hitscan = |range: f32, filter: HitFilter, fallback: AcqFallback| Acquisition::HitscanEntity {
        range: b(range),
        filter,
        fallback,
    };
    assert_eq!(
        resolve_stage_acquisition(&hitscan(10.0, HitFilter::Enemies, AcqFallback::Fizzle), &ctx(Some(6.0), 6.0)),
        Some(StageAim::Dummy(77))
    );
    assert_eq!(
        resolve_stage_acquisition(&hitscan(5.0, HitFilter::Enemies, AcqFallback::Fizzle), &ctx(Some(6.0), 6.0)),
        None
    );
    assert_eq!(
        resolve_stage_acquisition(&hitscan(10.0, HitFilter::Allies, AcqFallback::Fizzle), &ctx(Some(6.0), 6.0)),
        None
    );
    assert_eq!(
        resolve_stage_acquisition(&hitscan(10.0, HitFilter::Enemies, AcqFallback::Fizzle), &ctx(None, 6.0)),
        None
    );
}

#[test]
fn a_branch_that_finds_nothing_walks_its_fallback_chain() {
    let ground = Acquisition::GroundPoint {
        range: b(4.0),
        fallback: AcqFallback::Then(Box::new(Acquisition::SelfPoint)),
        on_surface: None,
    };
    let acq = Acquisition::HitscanEntity {
        range: b(2.0),
        filter: HitFilter::Enemies,
        fallback: AcqFallback::Then(Box::new(ground)),
    };
    assert_eq!(resolve_stage_acquisition(&acq, &ctx(Some(6.0), 3.0)), Some(StageAim::GroundMarker));
    assert_eq!(resolve_stage_acquisition(&acq, &ctx(Some(6.0), 6.0)), Some(StageAim::CasterPoint));
}

// -- resting window previews: the stage duel's geometry ---------------------------------------

const CASTER: [f32; 3] = [-4.0, 0.59, 0.0];
const DUMMY: [f32; 3] = [4.0, 0.59, 0.0];
/// The ground marker stands where the first dummy does.
const MARKER: [f32; 3] = DUMMY;

fn window(anchor: WindowAnchor, offset: [f32; 3]) -> CollisionWindow {
    CollisionWindow {
        id: "w".to_string(),
        spawn: WindowSpawn::Scheduled { phase: WindowPhase::Active, offset: b(0.0) },
        anchor,
        anchor_offset: Vec3Bits { x: b(offset[0]), y: b(offset[1]), z: b(offset[2]) },
        strikes: true,
        active_duration: b(1.0),
        shape: CollisionShape::Sphere { radius: b(0.5) },
        motion: VolumeMotion::Static,
        hit_filter: HitFilter::Enemies,
        hit_mode: HitMode::OncePerTarget,
        rehit_interval: None,
        emitter: None,
        paints: None,
    }
}

fn dist(a: [f32; 3], c: [f32; 3]) -> f32 {
    ((a[0] - c[0]).powi(2) + (a[1] - c[1]).powi(2) + (a[2] - c[2]).powi(2)).sqrt()
}

/// The stage context for a caster at `CASTER`, the dummy (if any) at `DUMMY`, the marker at
/// `MARKER`; the dummy is an enemy of the caster.
fn duel(dummy: Option<[f32; 3]>) -> StageAimContext {
    StageAimContext {
        dummy: dummy.map(|p| StageDummy {
            entity: 1,
            distance: b(dist(p, CASTER)),
            admitted_by: vec![HitFilter::Enemies, HitFilter::All],
        }),
        marker_distance: b(dist(MARKER, CASTER)),
    }
}

/// The resting preview position: the anchor point plus the window's offset.
fn resting_position(win: &CollisionWindow, acq: &Acquisition, dummy: Option<[f32; 3]>) -> [f32; 3] {
    let base = match window_anchor_point(win, acq, &duel(dummy)) {
        AnchorPoint::Caster => CASTER,
        AnchorPoint::Dummy => dummy.unwrap_or(CASTER),
        AnchorPoint::GroundMarker => MARKER,
    };
    let o = &win.anchor_offset;
    [base[0] + f32::from_bits(o.x), base[1] + f32::from_bits(o.y), base[2] + f32::from_bits(o.z)]
}

fn plus(a: [f32; 3], c: [f32; 3]) -> [f32; 3] {
    [a[0] + c[0], a[1] + c[1], a[2] + c[2]]
}

#[test]
fn caster_anchor_ignores_acquisition_entirely() {
    let win = window(WindowAnchor::Caster, [0.0, 1.0, 1.5]);
    let pos = resting_position(&win, &Acquisition::Aim, Some(DUMMY));
    assert_eq!(pos, plus(CASTER, [0.0, 1.0, 1.5]));
}

#[test]
fn cast_point_with_self_point_acquisition_resolves_to_the_caster() {
    let win = window(WindowAnchor::CastPoint, [0.0, 0.0, 0.0]);
    let pos = resting_position(&win, &Acquisition::SelfPoint, None);
    assert_eq!(pos, CASTER);
}

#[test]
fn cast_point_with_ground_point_in_range_resolves_to_the_ground_marker() {
    let win = window(WindowAnchor::CastPoint, [0.0, 3.0, 0.0]);
    let acq = Acquisition::GroundPoint { range: b(20.0), fallback: AcqFallback::Fizzle, on_surface: None };
    let pos = resting_position(&win, &acq, Some(DUMMY));
    assert_eq!(pos, plus(MARKER, [0.0, 3.0, 0.0]));
}

#[test]
fn cast_point_with_ground_point_out_of_range_falls_back() {
    let win = window(WindowAnchor::CastPoint, [0.0, 0.0, 0.0]);
    let acq = Acquisition::GroundPoint {
        range: b(1.0),
        fallback: AcqFallback::Then(Box::new(Acquisition::SelfPoint)),
        on_surface: None,
    };
    let pos = resting_position(&win, &acq, Some(DUMMY));
    assert_eq!(pos, CASTER, "out-of-range GroundPoint must walk its Then(SelfPoint) fallback");
}

#[test]
fn cast_point_on_a_point_incapable_acquisition_falls_back_to_caster_without_panicking() {
    let win = window(WindowAnchor::CastPoint, [0.0, 0.0, 0.0]);
    let pos = resting_position(&win, &Acquisition::Aim, Some(DUMMY));
    assert_eq!(pos, CASTER);
}

#[test]
fn cast_point_on_a_hitscan_in_range_rests_on_the_dummy() {
    let win = window(WindowAnchor::CastPoint, [0.0, 0.0, 0.0]);
    let acq = Acquisition::HitscanEntity { range: b(30.0), filter: HitFilter::Enemies, fallback: AcqFallback::Fizzle };
    assert_eq!(window_anchor_point(&win, &acq, &duel(Some(DUMMY))), AnchorPoint::Dummy);
    assert_eq!(window_anchor_point(&win, &acq, &duel(None)), AnchorPoint::Caster);
}
