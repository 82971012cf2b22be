use bevy_modal_editor::assets::{
    asset_file_path, browse_labels, browse_selection, gltf_entity_name, is_listed_file, save_as_scene_path,
    sort_by_relative_path, trim_end_matches, AssetFileItem, BrowseAction, BrowseOperation, TextureSlot,
};
use bevy_modal_editor::labels::{
    acquisition_label, condition_label, hit_mode_label, motion_label, shape_label, PrimitiveShape,
};
use bevy_modal_editor::library::blank_timeline;
use bevy_modal_editor::model::{
    Acquisition, CastTimeline, ChargeTier, CollisionShape, CollisionWindow, CueAttach, CueBinding, CueEntry, HitFilter,
    HitMode, TriggerCondition, Vec3Bits, VfxCueEntry, VolumeMotion, WindowAnchor, WindowPhase, WindowSpawn,
};
use bevy_modal_editor::presets::{preset_file_name, preset_name_from_file, sanitize_filename};
use bevy_modal_editor::preview::{
    active_tier, derive_vfx_cues, push_staged_dedup, tier_preview_action, window_motion_for_cue, ShownTier, StagedPaint,
    TierAction,
};
use bevy_modal_editor::templates::{SkillArchetype, STARTER_IMPACT_EFFECT, STARTER_MUZZLE_EFFECT};
use bevy_modal_editor::palette::{always_visible, create_skill_from_palette, palette_items, PaletteRow};
use bevy_modal_editor::selection::{selected_window, write_dragged_radius, SkillSelection};
use bevy_modal_editor::text::{slugify, trim_query};

fn bits(x: f32) -> u32 {
    x.to_bits()
}

#[test]
fn slugify_collapses_and_lowercases() {
    assert_eq!(slugify("  Ice Spike!! "), "ice_spike");
    assert_eq!(slugify("Fire Bolt 2"), "fire_bolt_2");
    assert_eq!(slugify("---"), "");
}

#[test]
fn window_motion_for_cue_strips_known_prefixes() {
    let window = CollisionWindow {
        id: "bolt".into(),
        spawn: WindowSpawn::Scheduled { phase: WindowPhase::Active, offset: 0 },
        anchor: WindowAnchor::Caster,
        anchor_offset: Vec3Bits::zero(),
        strikes: true,
        active_duration: bits(1.0),
        shape: CollisionShape::Sphere { radius: bits(0.5) },
        motion: VolumeMotion::Linear { speed: bits(20.0) },
        hit_filter: HitFilter::Enemies,
        hit_mode: HitMode::FirstOnly,
        rehit_interval: None,
        emitter: None,
        paints: None,
    };
    let mut tl: CastTimeline = blank_timeline("s");
    tl.collision_windows = vec![window];
    assert!(matches!(
        window_motion_for_cue(&tl, "on_window_bolt"),
        Some(VolumeMotion::Linear { speed }) if speed == bits(20.0)
    ));
    assert!(matches!(
        window_motion_for_cue(&tl, "emit_bolt"),
        Some(VolumeMotion::Linear { speed }) if speed == bits(20.0)
    ));
    assert!(window_motion_for_cue(&tl, "on_hit").is_none());
    assert!(window_motion_for_cue(&tl, "on_window_ghost").is_none());
}

#[test]
fn templates_reference_only_starter_effects() {
    let mut names = std::collections::HashSet::new();
    for archetype in SkillArchetype::all() {
        let (_, timeline) = archetype.build("t");
        for entry in &timeline.cues {
            if let Some(effect) = &entry.binding.effect {
                names.insert(effect.clone());
            }
        }
    }
    assert_eq!(
        names,
        [STARTER_MUZZLE_EFFECT.to_string(), STARTER_IMPACT_EFFECT.to_string()].into_iter().collect()
    );
}

#[test]
fn templates_carry_their_archetype_shape() {
    let (rules, tl) = SkillArchetype::Zone.build("storm");
    assert_eq!(rules.id, "storm");
    assert_eq!(rules.name, "New Zone");
    assert_eq!(tl.skill_id, "storm");
    assert_eq!(tl.collision_windows[0].id, "zone");
    assert_eq!(tl.collision_windows[0].anchor, WindowAnchor::CastPoint);
    assert!(matches!(tl.acquisition, Acquisition::GroundPoint { .. }));
    assert_eq!(tl.phase_durations.windup, bits(0.2));
    assert_eq!(tl.chain_radius, bits(6.0));
    assert_eq!(rules.damage.base_damages.len(), 1);
    assert_eq!(SkillArchetype::Beam.label(), "Beam");
}

#[test]
fn derived_cues_keep_unbound_authored_slots() {
    let mut tl = blank_timeline("s");
    let binding = CueBinding { effect: Some("Fire".into()), attach: CueAttach::World, anim: None, params: Vec::new(), duration: None };
    tl.cues = vec![CueEntry { slot: "on_cast".into(), binding }];
    tl.vfx_cues = vec![
        VfxCueEntry { slot: "on_cast".into(), cue_id: "old_cast".into() },
        VfxCueEntry { slot: "on_end_bolt".into(), cue_id: "bolt_teardown".into() },
    ];
    let derived = derive_vfx_cues(&tl);
    let pairs: Vec<(&str, &str)> = derived.iter().map(|e| (e.slot.as_str(), e.cue_id.as_str())).collect();
    assert_eq!(pairs, vec![("on_cast", "on_cast"), ("on_end_bolt", "bolt_teardown")]);
}

#[test]
fn staged_paints_dedup_on_surface_and_position() {
    let mut staged: Vec<StagedPaint> = Vec::new();
    let p = Vec3Bits::new(bits(1.0), 0, bits(2.0));
    assert!(push_staged_dedup(&mut staged, "frost", p));
    assert!(!push_staged_dedup(&mut staged, "frost", p));
    // -0.0 == 0.0 as floats.
    assert!(!push_staged_dedup(&mut staged, "frost", Vec3Bits::new(bits(1.0), bits(-0.0), bits(2.0))));
    assert!(push_staged_dedup(&mut staged, "ember", p));
    assert_eq!(staged.len(), 2);
}

#[test]
fn preset_file_names_round_trip() {
    assert_eq!(sanitize_filename("a/b:c*d?e\"f<g>h|i\\j"), "a_b_c_d_e_f_g_h_i_j");
    assert_eq!(preset_file_name("Fire: Big"), "Fire_ Big.fx.ron");
    assert_eq!(preset_name_from_file("Fire_ Big.fx.ron").as_deref(), Some("Fire_ Big"));
    assert_eq!(preset_name_from_file("a.fx.ron.fx.ron").as_deref(), Some("a"));
    assert_eq!(preset_name_from_file(".fx.ron"), None);
    assert_eq!(preset_name_from_file("notes.txt"), None);
}

#[test]
fn panel_labels() {
    assert_eq!(condition_label(&TriggerCondition::OnImpact), "On World Impact");
    assert_eq!(condition_label(&TriggerCondition::OnDamageTakenOfType { damage_type: bevy_modal_editor::model::DamageType::Fire }), "On Damage Taken (Type)");
    assert_eq!(acquisition_label(&Acquisition::SelfPoint), "Self");
    assert_eq!(hit_mode_label(&HitMode::FirstOnly), "First hit only");
    assert_eq!(shape_label(&CollisionShape::Cone { angle: 0, range: 0 }), "Cone");
    assert_eq!(motion_label(&VolumeMotion::Beam), "Beam");
}

fn library_with_window(id: &str, win: CollisionWindow) -> bevy_modal_editor::library::SkillLibrary {
    let mut library = bevy_modal_editor::library::SkillLibrary::new();
    let (rules, _) = bevy_modal_editor::templates::strike_template(id);
    let mut tl = blank_timeline(id);
    tl.collision_windows.push(win);
    library.insert(bevy_modal_editor::library::SkillEntry {
        rules,
        timeline: tl,
        rules_path: Vec::new(),
        timeline_path: Vec::new(),
        dirty_rules: false,
        dirty_timeline: false,
        disk_hash: (0, 0),
    });
    library.set_open(Some(id.to_string()));
    library
}

fn sphere_window(offset: Vec3Bits) -> CollisionWindow {
    CollisionWindow {
        id: "w".into(),
        spawn: WindowSpawn::Scheduled { phase: WindowPhase::Active, offset: 0 },
        anchor: WindowAnchor::Caster,
        anchor_offset: offset,
        strikes: true,
        active_duration: bits(1.0),
        shape: CollisionShape::Sphere { radius: bits(0.5) },
        motion: VolumeMotion::Static,
        hit_filter: HitFilter::Enemies,
        hit_mode: HitMode::OncePerTarget,
        rehit_interval: None,
        emitter: None,
        paints: None,
    }
}

#[test]
fn no_selection_resolves_to_nothing() {
    let library = library_with_window("a", sphere_window(Vec3Bits::zero()));
    let selection = SkillSelection { for_id: Some("a".to_string()), window: None };
    assert!(selected_window(&library, &selection).is_none());
}

#[test]
fn selection_for_a_different_skill_is_ignored() {
    let library = library_with_window("a", sphere_window(Vec3Bits::zero()));
    let selection = SkillSelection { for_id: Some("stale_other_skill".to_string()), window: Some(0) };
    assert!(selected_window(&library, &selection).is_none());
}

#[test]
fn valid_selection_resolves_the_windows_shape_and_position() {
    let library = library_with_window("a", sphere_window(Vec3Bits::new(0, bits(1.0), bits(1.5))));
    let selection = SkillSelection { for_id: Some("a".to_string()), window: Some(0) };
    let (idx, shape) = selected_window(&library, &selection).expect("resolves");
    assert_eq!(idx, 0);
    assert!(matches!(shape, CollisionShape::Sphere { radius } if radius == bits(0.5)), "{shape:?}");
}

#[test]
fn out_of_range_window_index_resolves_to_nothing() {
    let library = library_with_window("a", sphere_window(Vec3Bits::zero()));
    let selection = SkillSelection { for_id: Some("a".to_string()), window: Some(5) };
    assert!(selected_window(&library, &selection).is_none());
}

#[test]
fn a_dragged_radius_lands_in_the_selected_sphere_or_capsule() {
    let mut library = library_with_window("a", sphere_window(Vec3Bits::zero()));
    let selection = SkillSelection { for_id: Some("a".to_string()), window: Some(0) };
    assert!(write_dragged_radius(&mut library, &selection, bits(2.5)));
    let e = library.get("a").unwrap();
    assert!(e.dirty_timeline && !e.dirty_rules);
    assert!(matches!(e.timeline.collision_windows[0].shape, CollisionShape::Sphere { radius } if radius == bits(2.5)));

    let mut capsule = sphere_window(Vec3Bits::zero());
    capsule.shape = CollisionShape::Capsule { radius: bits(0.5), height: bits(2.0) };
    let mut library = library_with_window("a", capsule);
    assert!(write_dragged_radius(&mut library, &selection, bits(1.0)));
    assert!(matches!(
        library.get("a").unwrap().timeline.collision_windows[0].shape,
        CollisionShape::Capsule { radius, height } if radius == bits(1.0) && height == bits(2.0)
    ));
}

#[test]
fn a_dragged_radius_never_touches_a_cone_or_a_stale_selection() {
    let mut cone = sphere_window(Vec3Bits::zero());
    cone.shape = CollisionShape::Cone { angle: bits(0.5), range: bits(3.0) };
    let mut library = library_with_window("a", cone);
    let selection = SkillSelection { for_id: Some("a".to_string()), window: Some(0) };
    assert!(!write_dragged_radius(&mut library, &selection, bits(2.5)));
    assert!(!library.get("a").unwrap().dirty_timeline);

    let mut library = library_with_window("a", sphere_window(Vec3Bits::zero()));
    let stale = SkillSelection { for_id: Some("b".to_string()), window: Some(0) };
    assert!(!write_dragged_radius(&mut library, &stale, bits(2.5)));
    assert!(matches!(library.get("a").unwrap().timeline.collision_windows[0].shape, CollisionShape::Sphere { radius } if radius == bits(0.5)));
}

#[test]
fn palette_lists_archetypes_rescan_then_skills() {
    let mut library = bevy_modal_editor::library::SkillLibrary::new();
    library.push_root(vec!["root".to_string()]);
    let _ = create_skill_from_palette(&mut library, SkillArchetype::Beam, "zeta");
    let _ = create_skill_from_palette(&mut library, SkillArchetype::Beam, "alpha");
    let items = palette_items(&library);
    let labels: Vec<&str> = items.iter().map(|i| i.label.as_str()).collect();
    assert_eq!(
        labels,
        vec![
            "+ New Skill (Strike)",
            "+ New Skill (Projectile)",
            "+ New Skill (Zone)",
            "+ New Skill (Beam)",
            "Rescan content roots",
            "alpha",
            "zeta"
        ]
    );
    assert!(always_visible(&items[4]));
    assert!(!always_visible(&items[5]));
    assert!(matches!(&items[6].row, PaletteRow::Existing(id) if id == "zeta"));
}

#[test]
fn palette_trims_the_query_before_naming() {
    let mut library = bevy_modal_editor::library::SkillLibrary::new();
    library.push_root(vec!["root".to_string()]);
    assert_eq!(create_skill_from_palette(&mut library, SkillArchetype::Beam, " \t ").as_deref(), Some("beam"));
    assert_eq!(create_skill_from_palette(&mut library, SkillArchetype::Beam, "  Fire Ball\n").as_deref(), Some("fire_ball"));
}

#[test]
fn queries_lose_surrounding_whitespace_only() {
    assert_eq!(trim_query("  ice spike \t\n"), "ice spike");
    assert_eq!(trim_query("\u{3000}x\u{00a0}"), "x");
    assert_eq!(trim_query("   "), "");
    assert_eq!(trim_query(""), "");
    assert_eq!(trim_query("a  b"), "a  b");
}

#[test]
fn palette_new_skill_takes_a_fresh_slug_and_opens_it() {
    let mut library = bevy_modal_editor::library::SkillLibrary::new();
    assert_eq!(create_skill_from_palette(&mut library, SkillArchetype::Strike, "Ice Spike"), None, "no content root: nothing is made up");
    assert!(library.is_empty());

    library.push_root(vec!["root".to_string()]);
    assert_eq!(create_skill_from_palette(&mut library, SkillArchetype::Strike, "Ice Spike").as_deref(), Some("ice_spike"));
    assert_eq!(create_skill_from_palette(&mut library, SkillArchetype::Strike, "ice spike").as_deref(), Some("ice_spike_2"));
    assert_eq!(create_skill_from_palette(&mut library, SkillArchetype::Zone, "").as_deref(), Some("zone"));
    assert_eq!(create_skill_from_palette(&mut library, SkillArchetype::Zone, "!!").as_deref(), Some("skill"));
    assert_eq!(library.open_id().as_deref(), Some("skill"));
    let e = library.get("ice_spike").unwrap();
    assert!(e.dirty_rules && e.dirty_timeline);
    assert_eq!(e.rules.name, "New Strike");
}

#[test]
fn scan_root_lists_relative_to_the_given_root() {
    let extensions = vec!["png"];
    assert!(is_listed_file("spark.png", &extensions));
    assert!(is_listed_file("SPARK.PNG", &extensions));
    assert!(!is_listed_file("readme.txt", &extensions));
    assert_eq!(asset_file_path("textures/particles/spark.png"), "assets/textures/particles/spark.png");
}

fn file(relative_path: &str, filename: &str, directory: &str) -> AssetFileItem {
    AssetFileItem {
        relative_path: relative_path.to_string(),
        filename: filename.to_string(),
        directory: directory.to_string(),
        is_save_as: false,
    }
}

#[test]
fn listed_files_come_out_ordered_by_relative_path() {
    let items = vec![
        file("textures/b.png", "b.png", "textures"),
        file("a.png", "a.png", ""),
        file("textures/a.png", "a.png", "textures"),
        file("Z.png", "Z.png", ""),
    ];
    let sorted = sort_by_relative_path(items);
    let paths: Vec<&str> = sorted.iter().map(|i| i.relative_path.as_str()).collect();
    assert_eq!(paths, vec!["Z.png", "a.png", "textures/a.png", "textures/b.png"]);
    assert!(sort_by_relative_path(Vec::new()).is_empty());
}

#[test]
fn equal_paths_keep_their_scan_order() {
    let items = vec![file("b.png", "first", ""), file("a.png", "a", ""), file("b.png", "second", "")];
    let sorted = sort_by_relative_path(items);
    let names: Vec<&str> = sorted.iter().map(|i| i.filename.as_str()).collect();
    assert_eq!(names, vec!["a", "first", "second"]);
}

#[test]
fn browse_items_show_their_name_under_their_directory() {
    let nested = file("textures/brick.png", "brick.png", "textures");
    assert_eq!(nested.label(), "brick.png");
    assert_eq!(nested.category(), Some("textures"));
    assert_eq!(file("brick.png", "brick.png", "").category(), None);
}

#[test]
fn each_browse_operation_has_its_frame_texts() {
    let load = browse_labels(&BrowseOperation::LoadScene);
    assert_eq!((load.title, load.subtitle, load.hint, load.action_label), ("LOAD SCENE", "Open a scene file", "Type to search scenes...", "load"));
    let save = browse_labels(&BrowseOperation::SaveScene);
    assert_eq!((save.title, save.action_label), ("SAVE SCENE", "save"));
    let splat = browse_labels(&BrowseOperation::InsertSplat);
    assert_eq!(splat.subtitle, "Pick a gaussian splat to insert");
    let tex = browse_labels(&BrowseOperation::PickTexture { slot: TextureSlot::Emissive, entity: None });
    assert_eq!((tex.title, tex.action_label), ("PICK TEXTURE", "select"));
    assert_eq!(browse_labels(&BrowseOperation::PickGltf { entity: Some(7) }).title, "PICK MODEL");
}

#[test]
fn picking_an_item_does_what_the_browse_is_for() {
    let scene = file("scenes/arena.scn.ron", "arena.scn.ron", "scenes");
    match browse_selection(&BrowseOperation::LoadScene, &scene, "") {
        BrowseAction::LoadScene { path } => assert_eq!(path, "assets/scenes/arena.scn.ron"),
        _ => panic!("load expected"),
    }
    match browse_selection(&BrowseOperation::SaveScene, &scene, "ignored") {
        BrowseAction::SaveScene { path } => assert_eq!(path, "assets/scenes/arena.scn.ron"),
        _ => panic!("save expected"),
    }
    let save_as = AssetFileItem { is_save_as: true, ..file("", "Save as", "") };
    match browse_selection(&BrowseOperation::SaveScene, &save_as, "  duel.ron ") {
        BrowseAction::SaveScene { path } => assert_eq!(path, "assets/scenes/duel.scn.ron"),
        _ => panic!("save expected"),
    }
    match browse_selection(&BrowseOperation::InsertScene, &scene, "") {
        BrowseAction::InsertScene { path } => assert_eq!(path, "assets/scenes/arena.scn.ron"),
        _ => panic!("insert scene expected"),
    }
    let model = file("models/tree.glb", "tree.glb", "models");
    match browse_selection(&BrowseOperation::InsertGltf, &model, "") {
        BrowseAction::InsertGltf { path } => assert_eq!(path, "models/tree.glb"),
        _ => panic!("insert gltf expected"),
    }
    match browse_selection(&BrowseOperation::InsertSplat, &model, "") {
        BrowseAction::InsertSplat { path } => assert_eq!(path, "models/tree.glb"),
        _ => panic!("insert splat expected"),
    }
    let tex = file("textures/brick.png", "brick.png", "textures");
    match browse_selection(&BrowseOperation::PickTexture { slot: TextureSlot::NormalMap, entity: Some(42) }, &tex, "") {
        BrowseAction::PickTexture { slot, entity, path } => {
            assert_eq!(slot, TextureSlot::NormalMap);
            assert_eq!(entity, Some(42));
            assert_eq!(path, "textures/brick.png");
        }
        _ => panic!("texture pick expected"),
    }
    match browse_selection(&BrowseOperation::PickGltf { entity: None }, &model, "") {
        BrowseAction::PickGltf { entity, path } => {
            assert_eq!(entity, None);
            assert_eq!(path, "models/tree.glb");
        }
        _ => panic!("gltf pick expected"),
    }
}

#[test]
fn save_as_names_the_scene_from_the_query() {
    assert_eq!(save_as_scene_path(""), "assets/scenes/scene.scn.ron");
    assert_eq!(save_as_scene_path("arena.scn.ron"), "assets/scenes/arena.scn.ron");
    assert_eq!(save_as_scene_path("arena.ron"), "assets/scenes/arena.scn.ron");
    assert_eq!(save_as_scene_path("arena"), "assets/scenes/arena.scn.ron");
}

#[test]
fn charge_slider_picks_the_last_reached_tier() {
    let tier = |threshold: f32| ChargeTier {
        threshold: bits(threshold),
        cue: CueBinding { effect: None, attach: CueAttach::World, anim: None, params: Vec::new(), duration: None },
    };
    let tiers = vec![tier(0.0), tier(0.5), tier(0.9)];
    assert_eq!(active_tier(&tiers, bits(0.2)), Some(0));
    assert_eq!(active_tier(&tiers, bits(0.5)), Some(1));
    assert_eq!(active_tier(&tiers, bits(1.0)), Some(2));
    assert_eq!(active_tier(&vec![tier(0.3)], bits(0.1)), None);

    let shown = Some(ShownTier { skill: "s".to_string(), tier: 1, applied_step: 16 });
    assert_eq!(tier_preview_action(&None, "s", None, 0), TierAction::Idle);
    assert_eq!(tier_preview_action(&shown, "s", None, 0), TierAction::Clear);
    assert_eq!(tier_preview_action(&shown, "s", Some(2), 16), TierAction::Show(2));
    assert_eq!(tier_preview_action(&shown, "other", Some(1), 16), TierAction::Show(1));
    assert_eq!(tier_preview_action(&shown, "s", Some(1), 17), TierAction::Restream(1));
    assert_eq!(tier_preview_action(&shown, "s", Some(1), 16), TierAction::Keep(1));
}

#[test]
fn placed_models_are_named_by_their_file() {
    assert_eq!(gltf_entity_name("models/tree.glb"), "tree");
    assert_eq!(gltf_entity_name("a/b/castle.gltf"), "castle");
    assert_eq!(gltf_entity_name("rock.gltf.gltf"), "rock");
    assert_eq!(gltf_entity_name("m.glb.gltf"), "m");
    assert_eq!(gltf_entity_name("m.gltf.glb"), "m.gltf");
    assert_eq!(gltf_entity_name("plain"), "plain");
    assert_eq!(gltf_entity_name("dir/"), "");
}

#[test]
fn trailing_matches_are_all_removed() {
    assert_eq!(trim_end_matches("a.fx.ron.fx.ron", ".fx.ron"), "a");
    assert_eq!(trim_end_matches("abc", "x"), "abc");
    assert_eq!(trim_end_matches("xxx", "x"), "");
}

#[test]
fn primitive_shapes_have_display_names() {
    let all = [
        (PrimitiveShape::Cube, "Cube"),
        (PrimitiveShape::Sphere, "Sphere"),
        (PrimitiveShape::Cylinder, "Cylinder"),
        (PrimitiveShape::Capsule, "Capsule"),
        (PrimitiveShape::Plane, "Plane"),
    ];
    for (shape, name) in all {
        assert_eq!(shape.display_name(), name);
    }
    assert_eq!(PrimitiveShape::default(), PrimitiveShape::Cube);
}

#[test]
fn an_empty_suffix_trims_nothing() {
    assert_eq!(trim_end_matches("abc", ""), "abc");
    assert_eq!(trim_end_matches("", ""), "");
}
