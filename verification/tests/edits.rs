use bevy_modal_editor::edits::{
    add_emitter, add_emitter_with_new_template, add_window_from_archetype, remove_emitter, remove_window,
    rename_window, set_spawn_kind, template_window_ids, unique_window_id, WindowArchetype,
};
use bevy_modal_editor::model::{CastTimeline, WindowSpawn};
use bevy_modal_editor::templates::{projectile_template, zone_template};

fn fixture() -> CastTimeline {
    let (_, tl) = projectile_template("t");
    tl
}

fn point_producing_fixture() -> CastTimeline {
    let (_, tl) = zone_template("t");
    tl
}

fn is_template(tl: &CastTimeline, idx: usize) -> bool {
    matches!(tl.collision_windows[idx].spawn, WindowSpawn::Template)
}

// -- add_window_from_archetype -----------------------------------------------------

#[test]
fn add_window_from_archetype_appends_and_validates() {
    for archetype in WindowArchetype::all() {
        let mut tl = if archetype == WindowArchetype::Zone { point_producing_fixture() } else { fixture() };
        let before = tl.collision_windows.len();
        let idx = add_window_from_archetype(&mut tl, archetype);
        assert_eq!(idx, before);
        assert_eq!(tl.collision_windows.len(), before + 1);
    }
}

#[test]
fn add_window_from_archetype_uniques_the_id_on_collision() {
    let mut tl = fixture();
    let i1 = add_window_from_archetype(&mut tl, WindowArchetype::Projectile);
    let i2 = add_window_from_archetype(&mut tl, WindowArchetype::Projectile);
    let ids: Vec<&str> = tl.collision_windows.iter().map(|w| w.id.as_str()).collect();
    assert_eq!(ids.len(), 3);
    assert_eq!(ids.iter().collect::<std::collections::HashSet<_>>().len(), 3, "ids must be unique: {ids:?}");
    assert_ne!(tl.collision_windows[i1].id, tl.collision_windows[i2].id);
}

// -- add_emitter ----------------------------------------------------------------------

#[test]
fn add_emitter_wires_an_existing_template_positive() {
    let mut tl = fixture();
    let template_idx = add_window_from_archetype(&mut tl, WindowArchetype::Strike);
    set_spawn_kind(&mut tl, template_idx, true).expect("flip to Template");
    let template_id = tl.collision_windows[template_idx].id.clone();

    let source_idx = 0;
    let result = add_emitter(&mut tl, source_idx, &template_id);
    assert!(result.is_ok(), "{result:?}");
    assert_eq!(tl.collision_windows[source_idx].emitter.as_ref().unwrap().window, template_id);
}

#[test]
fn add_emitter_refuses_unknown_target() {
    let mut tl = fixture();
    let result = add_emitter(&mut tl, 0, "does_not_exist");
    assert!(result.is_err());
    assert!(result.unwrap_err().contains("no window named"));
}

#[test]
fn add_emitter_refuses_non_template_target() {
    let mut tl = fixture();
    add_window_from_archetype(&mut tl, WindowArchetype::Strike);
    let scheduled_id = tl.collision_windows[1].id.clone();
    let result = add_emitter(&mut tl, 0, &scheduled_id);
    assert!(result.is_err());
    assert!(result.unwrap_err().contains("not a Template"));
}

#[test]
fn add_emitter_refuses_source_that_is_itself_a_template() {
    let mut tl = fixture();
    let source_idx = add_window_from_archetype(&mut tl, WindowArchetype::Strike);
    set_spawn_kind(&mut tl, source_idx, true).expect("flip source to Template");

    let target_idx = add_window_from_archetype(&mut tl, WindowArchetype::Projectile);
    set_spawn_kind(&mut tl, target_idx, true).expect("flip target to Template");
    let target_id = tl.collision_windows[target_idx].id.clone();

    let result = add_emitter(&mut tl, source_idx, &target_id);
    assert!(result.is_err());
    assert!(result.unwrap_err().contains("may not itself carry"));
}

// -- add_emitter_with_new_template -----------------------------------------------------

#[test]
fn add_emitter_with_new_template_creates_and_wires_a_shard() {
    let mut tl = fixture();
    let before = tl.collision_windows.len();
    let source_idx = 0;
    let new_idx = add_emitter_with_new_template(&mut tl, source_idx);

    assert_eq!(tl.collision_windows.len(), before + 1);
    assert_eq!(new_idx, before);
    assert!(is_template(&tl, new_idx));
    assert!(tl.collision_windows[new_idx].emitter.is_none());
    assert_eq!(tl.collision_windows[source_idx].emitter.as_ref().unwrap().window, tl.collision_windows[new_idx].id);
}

// -- remove_emitter ---------------------------------------------------------------------

#[test]
fn remove_emitter_clears_the_field_positive() {
    let mut tl = fixture();
    add_emitter_with_new_template(&mut tl, 0);
    assert!(tl.collision_windows[0].emitter.is_some(), "fixture must start with an emitter");

    let result = remove_emitter(&mut tl, 0);
    assert!(result.is_ok(), "{result:?}");
    assert!(tl.collision_windows[0].emitter.is_none());
}

#[test]
fn remove_emitter_leaves_an_unreferenced_template_transiently_invalid() {
    let mut tl = fixture();
    let template_idx = add_emitter_with_new_template(&mut tl, 0);
    remove_emitter(&mut tl, 0).expect("fixture's window 0 has an emitter");

    // The Template is still there, and no emitter references it any more.
    assert!(is_template(&tl, template_idx));
    let id = tl.collision_windows[template_idx].id.clone();
    assert!(tl.collision_windows.iter().all(|w| w.emitter.as_ref().map(|e| e.window != id).unwrap_or(true)));
}

#[test]
fn remove_emitter_then_remove_window_on_the_orphan_restores_validity() {
    let mut tl = fixture();
    let template_idx = add_emitter_with_new_template(&mut tl, 0);
    remove_emitter(&mut tl, 0).expect("fixture's window 0 has an emitter");

    let result = remove_window(&mut tl, template_idx);
    assert!(result.is_ok(), "{result:?}");
    assert_eq!(tl.collision_windows.len(), 1);
}

#[test]
fn remove_emitter_refuses_when_none_present() {
    let mut tl = fixture();
    let result = remove_emitter(&mut tl, 0);
    assert!(result.is_err());
    assert!(result.unwrap_err().contains("no emitter"));
}

#[test]
fn remove_emitter_refuses_out_of_range() {
    let mut tl = fixture();
    let result = remove_emitter(&mut tl, 99);
    assert!(result.is_err());
}

// -- remove_window ----------------------------------------------------------------------

#[test]
fn remove_window_positive_when_unreferenced_and_no_emitter() {
    let mut tl = fixture();
    add_window_from_archetype(&mut tl, WindowArchetype::Strike);
    let before = tl.collision_windows.len();
    let result = remove_window(&mut tl, 1);
    assert!(result.is_ok(), "{result:?}");
    assert_eq!(tl.collision_windows.len(), before - 1);
}

#[test]
fn remove_window_refuses_a_template_referenced_by_an_emitter() {
    let mut tl = fixture();
    add_emitter_with_new_template(&mut tl, 0);
    let template_idx = (0..tl.collision_windows.len()).find(|&i| is_template(&tl, i)).unwrap();
    let result = remove_window(&mut tl, template_idx);
    assert!(result.is_err());
    assert!(result.unwrap_err().contains("referenced by"));
}

#[test]
fn remove_window_refuses_a_window_that_carries_an_emitter() {
    let mut tl = fixture();
    add_emitter_with_new_template(&mut tl, 0);
    let result = remove_window(&mut tl, 0);
    assert!(result.is_err());
    assert!(result.unwrap_err().contains("carries an emitter"));
}

#[test]
fn remove_window_refuses_out_of_range() {
    let mut tl = fixture();
    let result = remove_window(&mut tl, 99);
    assert!(result.is_err());
}

// -- rename_window -----------------------------------------------------------------------

#[test]
fn rename_window_positive_and_repoints_emitters() {
    let mut tl = fixture();
    let template_idx = add_emitter_with_new_template(&mut tl, 0);
    let old_template_id = tl.collision_windows[template_idx].id.clone();

    let result = rename_window(&mut tl, template_idx, "shard_v2");
    assert!(result.is_ok(), "{result:?}");
    assert_eq!(tl.collision_windows[template_idx].id, "shard_v2");
    assert_eq!(tl.collision_windows[0].emitter.as_ref().unwrap().window, "shard_v2");
    assert_ne!(old_template_id, "shard_v2");
}

#[test]
fn rename_window_refuses_duplicate_id() {
    let mut tl = fixture();
    add_window_from_archetype(&mut tl, WindowArchetype::Strike);
    let taken = tl.collision_windows[0].id.clone();
    let result = rename_window(&mut tl, 1, &taken);
    assert!(result.is_err());
    assert!(result.unwrap_err().contains("already exists"));
}

#[test]
fn rename_window_refuses_empty_id() {
    let mut tl = fixture();
    let result = rename_window(&mut tl, 0, "");
    assert!(result.is_err());
    assert!(result.unwrap_err().contains("empty"));
}

#[test]
fn rename_window_refuses_out_of_range() {
    let mut tl = fixture();
    assert!(rename_window(&mut tl, 99, "x").is_err());
}

#[test]
fn rename_window_same_id_is_a_noop_ok() {
    let mut tl = fixture();
    let id = tl.collision_windows[0].id.clone();
    assert!(rename_window(&mut tl, 0, &id).is_ok());
}

#[test]
fn renaming_there_and_back_restores_the_windows() {
    let mut tl = fixture();
    let template_idx = add_emitter_with_new_template(&mut tl, 0);
    let ids_before: Vec<String> = tl.collision_windows.iter().map(|w| w.id.clone()).collect();
    let targets_before: Vec<Option<String>> =
        tl.collision_windows.iter().map(|w| w.emitter.as_ref().map(|e| e.window.clone())).collect();
    let first_id = ids_before[template_idx].clone();

    assert!(rename_window(&mut tl, template_idx, "detour").is_ok());
    assert!(rename_window(&mut tl, template_idx, &first_id).is_ok());

    let ids_after: Vec<String> = tl.collision_windows.iter().map(|w| w.id.clone()).collect();
    let targets_after: Vec<Option<String>> =
        tl.collision_windows.iter().map(|w| w.emitter.as_ref().map(|e| e.window.clone())).collect();
    assert_eq!(ids_after, ids_before);
    assert_eq!(targets_after, targets_before);
}

// -- set_spawn_kind ----------------------------------------------------------------------

#[test]
fn set_spawn_kind_flips_scheduled_to_template_positive() {
    let mut tl = fixture();
    add_window_from_archetype(&mut tl, WindowArchetype::Strike);
    let idx = 1;
    let result = set_spawn_kind(&mut tl, idx, true);
    assert!(result.is_ok(), "{result:?}");
    assert!(is_template(&tl, idx));
}

#[test]
fn set_spawn_kind_refuses_to_template_when_it_carries_an_emitter() {
    let mut tl = fixture();
    add_emitter_with_new_template(&mut tl, 0);
    let result = set_spawn_kind(&mut tl, 0, true);
    assert!(result.is_err());
    assert!(result.unwrap_err().contains("may not itself carry"));
}

#[test]
fn set_spawn_kind_flips_template_to_scheduled_when_unreferenced() {
    let mut tl = fixture();
    add_window_from_archetype(&mut tl, WindowArchetype::Strike);
    set_spawn_kind(&mut tl, 1, true).unwrap();
    let result = set_spawn_kind(&mut tl, 1, false);
    assert!(result.is_ok(), "{result:?}");
    assert!(matches!(tl.collision_windows[1].spawn, WindowSpawn::Scheduled { .. }));
}

#[test]
fn set_spawn_kind_refuses_template_to_scheduled_when_still_referenced() {
    let mut tl = fixture();
    add_emitter_with_new_template(&mut tl, 0);
    let template_idx = (0..tl.collision_windows.len()).find(|&i| is_template(&tl, i)).unwrap();
    let result = set_spawn_kind(&mut tl, template_idx, false);
    assert!(result.is_err());
    assert!(result.unwrap_err().contains("referenced by"));
}

#[test]
fn set_spawn_kind_refuses_out_of_range() {
    let mut tl = fixture();
    assert!(set_spawn_kind(&mut tl, 99, true).is_err());
}

#[test]
fn unique_window_id_appends_a_counter() {
    let tl = fixture();
    assert_eq!(unique_window_id(&tl, "bolt"), "bolt_2");
    assert_eq!(unique_window_id(&tl, "zone"), "zone");
}

#[test]
fn emitters_are_offered_the_template_windows_in_order() {
    let mut tl = fixture();
    assert!(template_window_ids(&tl).iter().all(|id| tl.collision_windows.iter().any(|w| &w.id == id)));
    let before = template_window_ids(&tl).len();
    let first = add_emitter_with_new_template(&mut tl, 0);
    let second = add_window_from_archetype(&mut tl, WindowArchetype::Strike);
    set_spawn_kind(&mut tl, second, true).expect("an unreferenced scheduled window can become a template");
    let ids = template_window_ids(&tl);
    assert_eq!(ids.len(), before + 2);
    assert_eq!(ids[ids.len() - 2], tl.collision_windows[first].id);
    assert_eq!(ids[ids.len() - 1], tl.collision_windows[second].id);
    assert!(ids.iter().all(|id| tl.collision_windows.iter().any(|w| &w.id == id && is_template_window(w))));
}

fn is_template_window(w: &bevy_modal_editor::model::CollisionWindow) -> bool {
    matches!(w.spawn, WindowSpawn::Template)
}
