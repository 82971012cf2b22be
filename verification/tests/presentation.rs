use bevy_modal_editor::library::blank_timeline;
use bevy_modal_editor::model::{CueAttach, CueBinding, CueEntry, CueParam, ParamSource};
use bevy_modal_editor::presentation::{
    anim_clip_options, binding_slot, combined_effect_options, discoverable_params, prune_if_empty, sorted_names,
    VfxParams,
};

fn names(v: &[&str]) -> Vec<String> {
    v.iter().map(|s| s.to_string()).collect()
}

#[test]
fn combined_effect_options_flags_collision_and_suffixes_vfx_only() {
    let effects = names(&["Explosion"]);
    let vfx = names(&["Explosion", "Spark"]);

    let options = combined_effect_options(&effects, &vfx);
    assert_eq!(
        options,
        vec![
            ("Explosion (effect; also vfx)".to_string(), "Explosion".to_string()),
            ("Spark (vfx)".to_string(), "Spark".to_string())
        ]
    );
}

#[test]
fn anim_clip_options_empty_when_no_library() {
    assert!(anim_clip_options(&None).is_empty());
}

#[test]
fn discoverable_params_only_resolves_direct_vfx_presets() {
    let vfx = vec![VfxParams { preset: "Fire".to_string(), params: names(&["scale", "intensity"]) }];

    assert_eq!(discoverable_params(Some("Fire"), &vfx), vec!["scale".to_string(), "intensity".to_string()]);
    assert!(discoverable_params(Some("Skill Muzzle"), &vfx).is_empty());
    assert!(discoverable_params(None, &vfx).is_empty());
}

#[test]
fn discoverable_params_empty_for_vfx_preset_with_no_params() {
    let vfx = vec![VfxParams { preset: "Bare".to_string(), params: Vec::new() }];
    assert!(discoverable_params(Some("Bare"), &vfx).is_empty());
}

#[test]
fn anim_clip_options_are_sorted() {
    let clips = Some(names(&["hero.glb::walk", "hero.glb::attack", "boss.glb::roar"]));
    assert_eq!(anim_clip_options(&clips), names(&["boss.glb::roar", "hero.glb::attack", "hero.glb::walk"]));
}

#[test]
fn effect_options_sort_each_group() {
    let effects = names(&["Zap", "Burst"]);
    let vfx = names(&["Smoke", "Ash", "Zap"]);
    let options = combined_effect_options(&effects, &vfx);
    let labels: Vec<&str> = options.iter().map(|(l, _)| l.as_str()).collect();
    assert_eq!(labels, vec!["Burst", "Zap (effect; also vfx)", "Ash (vfx)", "Smoke (vfx)"]);
    assert_eq!(sorted_names(&names(&["b", "a", "c"])), names(&["a", "b", "c"]));
}

#[test]
fn prune_removes_only_an_inert_binding() {
    let mut tl = blank_timeline("s");
    let inert = CueBinding { effect: None, attach: CueAttach::World, anim: None, params: Vec::new(), duration: None };
    tl.cues.push(CueEntry { slot: "on_cast".to_string(), binding: inert });
    tl.cues.push(CueEntry {
        slot: "on_hit".to_string(),
        binding: CueBinding {
            effect: None,
            attach: CueAttach::World,
            anim: None,
            params: vec![CueParam { param: "scale".to_string(), source: ParamSource::Charge }],
            duration: None,
        },
    });

    tl.cues.push(CueEntry {
        slot: "on_window_bolt".to_string(),
        binding: CueBinding { effect: None, attach: CueAttach::Follow, anim: None, params: Vec::new(), duration: None },
    });
    prune_if_empty(&mut tl, "on_window_bolt");
    prune_if_empty(&mut tl, "on_hit");
    assert_eq!(tl.cues.len(), 3);
    prune_if_empty(&mut tl, "on_cast");
    let slots: Vec<&str> = tl.cues.iter().map(|c| c.slot.as_str()).collect();
    assert_eq!(slots, vec!["on_hit", "on_window_bolt"]);
}

#[test]
fn binding_slot_adds_an_inert_binding_once() {
    let mut tl = blank_timeline("s");
    let i = binding_slot(&mut tl, "on_cast");
    assert_eq!(i, 0);
    tl.cues[i].binding.effect = Some("Fire".to_string());
    let j = binding_slot(&mut tl, "on_cast");
    assert_eq!(j, 0);
    assert_eq!(tl.cues.len(), 1);
    assert_eq!(tl.cues[0].binding.effect.as_deref(), Some("Fire"));
}

#[test]
fn a_new_binding_takes_its_place_in_slot_order() {
    let mut tl = blank_timeline("s");
    assert_eq!(binding_slot(&mut tl, "on_hit"), 0);
    assert_eq!(binding_slot(&mut tl, "on_cast"), 0);
    assert_eq!(binding_slot(&mut tl, "on_window_bolt"), 2);
    assert_eq!(binding_slot(&mut tl, "charge"), 0);
    assert_eq!(binding_slot(&mut tl, "on_hit"), 2);
    let slots: Vec<&str> = tl.cues.iter().map(|c| c.slot.as_str()).collect();
    assert_eq!(slots, vec!["charge", "on_cast", "on_hit", "on_window_bolt"]);
}
