//! Properties of the library as a whole, stated over the contracts of the operations they
//! relate.
use vstd::prelude::*;

use crate::library::{lemma_map_at, references, referencing_ids, sorted_ids, SkillEntry, SkillLibrary};
use crate::text::seq_lt;
use crate::model::CastTimeline;
use crate::presets::{ends_with, is_reserved_char, preset_name_of, sanitized, trim_suffixes};
use crate::preview::{after_staging, is_staged_view, vec3_eq};
use crate::save::{recorded, stale_target, SavePlan, SaveTarget};
use crate::scan::{has_pid, is_last_of, is_merged, is_scanned_entry, last_with_id, map_with, pid, sorted_pids, with_root, ParsedRules};
use crate::library::{is_blank_timeline, path_view, spec_timeline_path};
use crate::save::TimelineRead;
use crate::templates::{is_template, SkillArchetype, STARTER_IMPACT_EFFECT, STARTER_MUZZLE_EFFECT};
use crate::cue_slots::emits;
use crate::edits::{
    emitters_resolve, id_set, is_shard_of, only_window_changed, referenced, renamed_window, with_default_emitter,
};
use crate::text::fresh_in;
use crate::model::{CollisionWindow, CueEntry, SkillCondition, Vec3Bits};
use crate::validation::{
    anchor_problems, charge_problems, condition_problems, conditions_problems, cue_problems, cues_problems,
    depth_problems, expected_problems, known_effect, max_depth, on_surface_problems, paints_problems,
    max_over, msg_depth, rules_of, structural_problems, target_known, KnownNames, ProblemView, MAX_TRIGGER_DEPTH,
};

verus! {

/// Deleting a skill that was just added under a fresh id (by `insert_new_skill` or
/// `duplicate_skill`, which change nothing else) gives back the library's skills as they were.
pub proof fn law_delete_undoes_fresh_insert(
    before: Map<Seq<char>, SkillEntry>,
    added: Map<Seq<char>, SkillEntry>,
    after: Map<Seq<char>, SkillEntry>,
    id: Seq<char>,
)
    requires
        !before.dom().contains(id),
        added.dom() == before.dom().insert(id),
        forall|k: Seq<char>| k != id && #[trigger] before.dom().contains(k) ==> added[k] == before[k],
        after == added.remove(id),
    ensures
        after == before,
{
    assert(after =~= before);
}

/// A never-saved entry (`disk_hash == (0, 0)`) whose files do not exist yet (both hash `0`) is
/// never stale, dirty or not.
pub proof fn law_fresh_entry_never_stale(entry: SkillEntry)
    requires
        entry.disk_hash == (0u64, 0u64),
    ensures
        stale_target(entry, 0, 0) is None,
{
}

/// Once both halves are recorded as written (`record_saved`), the entry is clean, and a save
/// against files that still hold exactly what was written finds nothing stale.
pub proof fn law_saved_entry_is_current(entry: SkillEntry, h_rules: u64, h_timeline: u64)
    ensures
        ({
            let after = recorded(recorded(entry, SaveTarget::Rules, h_rules), SaveTarget::Timeline, h_timeline);
            &&& !after.dirty_rules && !after.dirty_timeline
            &&& after.disk_hash == (h_rules, h_timeline)
            &&& stale_target(after, h_rules, h_timeline) is None
        }),
{
}

/// Every archetype template's cue bindings name only the two starter effect presets.
pub proof fn law_templates_use_only_starter_effects(t: (crate::model::SkillRules, CastTimeline), a: SkillArchetype, id: Seq<char>)
    requires
        is_template(t, a, id),
    ensures
        forall|k: int|
            0 <= k < t.1.cues@.len() ==> ((#[trigger] t.1.cues@[k]).binding.effect matches Some(e) && (e@
                == STARTER_MUZZLE_EFFECT@ || e@ == STARTER_IMPACT_EFFECT@)),
        t.1.charge_cues@.len() == 0,
{
}

/// A sanitized file name holds no reserved character.
pub proof fn law_sanitized_names_are_safe(name: Seq<char>)
    ensures
        sanitized(name).len() == name.len(),
        forall|i: int| 0 <= i < sanitized(name).len() ==> !is_reserved_char(#[trigger] sanitized(name)[i]),
{
}

proof fn lemma_trim_appended(s: Seq<char>, suffix: Seq<char>)
    requires
        suffix.len() > 0,
    ensures
        trim_suffixes(s + suffix, suffix) == trim_suffixes(s, suffix),
{
    let t = s + suffix;
    assert(t.subrange(t.len() - suffix.len(), t.len() as int) =~= suffix);
    assert(t.subrange(0, t.len() - suffix.len()) =~= s);
}

/// A preset saved under a name loads back under its sanitized name, unless that is empty or
/// itself ends in `.fx.ron` (the loader strips every trailing `.fx.ron`).
pub proof fn law_preset_file_round_trip(name: Seq<char>)
    requires
        sanitized(name).len() > 0,
        !ends_with(sanitized(name), ".fx.ron"@),
    ensures
        preset_name_of(sanitized(name) + ".fx.ron"@) == Some(sanitized(name)),
{
    reveal_strlit(".fx.ron");
    let s = sanitized(name);
    let suffix = ".fx.ron"@;
    lemma_trim_appended(s, suffix);
    let t = s + suffix;
    assert(t.subrange(t.len() - suffix.len(), t.len() as int) =~= suffix);
    assert(trim_suffixes(s, suffix) == s);
}

/// Staging the same surface at the same position twice stages it once: the second call changes
/// nothing — for any position without a NaN component (a NaN never equals itself).
pub proof fn law_staging_is_idempotent(v: Seq<(Seq<char>, Vec3Bits)>, surface: Seq<char>, pos: Vec3Bits)
    requires
        vec3_eq(pos, pos),
    ensures
        after_staging(after_staging(v, surface, pos), surface, pos) == after_staging(v, surface, pos),
{
    let once = after_staging(v, surface, pos);
    if !is_staged_view(v, surface, pos) {
        assert(once[once.len() - 1] == (surface, pos));
        assert(is_staged_view(once, surface, pos));
    }
}

/// Merging the same root twice registers it once: the second merge leaves the roots as the
/// first left them.
pub proof fn law_rescan_registers_root_once(roots: Seq<Seq<Seq<char>>>, root: Seq<Seq<char>>)
    ensures
        with_root(with_root(roots, root), root) == with_root(roots, root),
        with_root(roots, root).contains(root),
{
    if !roots.contains(root) {
        assert(roots.push(root)[roots.len() as int] == root);
    }
}

/// A skill fresh from an archetype template validates clean — no problem at all — once the two
/// starter effect presets are known and the structural timeline check passes: whatever else the
/// library holds, a new skill never starts out blocked.
pub proof fn law_templates_validate_clean(
    entry: SkillEntry,
    library: SkillLibrary,
    names: KnownNames,
    a: SkillArchetype,
)
    requires
        is_template((entry.rules, entry.timeline), a, entry.key()),
        known_effect(names, STARTER_MUZZLE_EFFECT@),
        known_effect(names, STARTER_IMPACT_EFFECT@),
    ensures
        expected_problems(entry, library, names, Ok(())) == Seq::<ProblemView>::empty(),
{
    let tl = entry.timeline;
    let ws = tl.collision_windows@;
    let cues = tl.cues@;
    reveal_with_fuel(cues_problems, 3);
    reveal_with_fuel(paints_problems, 2);
    reveal_with_fuel(anchor_problems, 2);
    reveal_with_fuel(on_surface_problems, 2);
    assert(cues.drop_last().drop_last() =~= Seq::<CueEntry>::empty());
    assert(cue_problems(names, cues[0]) =~= Seq::<ProblemView>::empty());
    assert(cue_problems(names, cues[1]) =~= Seq::<ProblemView>::empty());
    assert(cues.drop_last().last() == cues[0]);
    assert(cues_problems(names, cues) =~= Seq::<ProblemView>::empty());
    assert(ws.drop_last() =~= Seq::<CollisionWindow>::empty());
    assert(paints_problems(names, ws) =~= Seq::<ProblemView>::empty());
    assert(anchor_problems(ws) =~= Seq::<ProblemView>::empty());
    assert(on_surface_problems(names, tl.acquisition) =~= Seq::<ProblemView>::empty());
    assert(charge_problems(names, entry) =~= Seq::<ProblemView>::empty());
    assert(max_depth(entry, library, entry.key(), 0) == 0);
    assert(depth_problems(entry, library) =~= Seq::<ProblemView>::empty());
    assert(conditions_problems(entry, library, 0) =~= Seq::<ProblemView>::empty());
    assert(expected_problems(entry, library, names, Ok(())) =~= Seq::<ProblemView>::empty());
}

proof fn lemma_condition_problems_in(entry: SkillEntry, library: SkillLibrary, n: nat, i: nat, x: ProblemView)
    requires
        i < n,
        n <= entry.rules.conditions@.len(),
        condition_problems(entry, library, entry.rules.conditions@[i as int], i).contains(x),
    ensures
        conditions_problems(entry, library, n).contains(x),
    decreases n,
{
    let prefix = conditions_problems(entry, library, (n - 1) as nat);
    let last = condition_problems(entry, library, entry.rules.conditions@[n - 1], (n - 1) as nat);
    if i == n - 1 {
        let k = choose|k: int| 0 <= k < last.len() && last[k] == x;
        assert((prefix + last)[prefix.len() + k] == x);
    } else {
        lemma_condition_problems_in(entry, library, (n - 1) as nat, i, x);
        let k = choose|k: int| 0 <= k < prefix.len() && prefix[k] == x;
        assert((prefix + last)[k] == x);
    }
}

/// A trigger condition naming no skill at all (neither this skill nor any in the library)
/// always produces a blocking problem, so the report blocks Save.
pub proof fn law_dangling_trigger_blocks_save(
    entry: SkillEntry,
    library: SkillLibrary,
    names: KnownNames,
    check: Result<(), String>,
    i: nat,
)
    requires
        i < entry.rules.conditions@.len(),
        !target_known(entry, library, entry.rules.conditions@[i as int].trigger_skill@),
    ensures
        exists|k: int|
            0 <= k < expected_problems(entry, library, names, check).len() && (#[trigger] expected_problems(
                entry,
                library,
                names,
                check,
            )[k]).2,
{
    let c = entry.rules.conditions@[i as int];
    let cp = condition_problems(entry, library, c, i);
    let x = cp[0];
    assert(cp.contains(x));
    assert(x.2);
    let n = entry.rules.conditions@.len();
    lemma_condition_problems_in(entry, library, n, i, x);
    let all = conditions_problems(entry, library, n);
    let k = choose|k: int| 0 <= k < all.len() && all[k] == x;
    let ws = entry.timeline.collision_windows@;
    let rest = cues_problems(names, entry.timeline.cues@) + charge_problems(names, entry) + paints_problems(names, ws)
        + on_surface_problems(names, entry.timeline.acquisition) + anchor_problems(ws) + depth_problems(entry, library)
        + structural_problems(ws, check);
    assert(expected_problems(entry, library, names, check) =~= all + rest);
    assert((all + rest)[k] == x);
}

proof fn lemma_max_over_ge(entry: SkillEntry, library: SkillLibrary, conds: Seq<SkillCondition>, d: nat, j: int)
    requires
        d <= MAX_TRIGGER_DEPTH,
        0 <= j < conds.len(),
    ensures
        max_over(entry, library, conds, d) >= max_depth(entry, library, conds[j].trigger_skill@, d + 1),
    decreases conds.len(),
{
    if j < conds.len() - 1 {
        lemma_max_over_ge(entry, library, conds.drop_last(), d, j);
        assert(conds.drop_last()[j] == conds[j]);
    }
}

proof fn lemma_self_trigger_depth(entry: SkillEntry, library: SkillLibrary, j: int, d: nat)
    requires
        0 <= j < entry.rules.conditions@.len(),
        entry.rules.conditions@[j].trigger_skill@ == entry.key(),
        d <= MAX_TRIGGER_DEPTH + 1,
    ensures
        max_depth(entry, library, entry.key(), d) > MAX_TRIGGER_DEPTH,
    decreases MAX_TRIGGER_DEPTH + 1 - d,
{
    if d <= MAX_TRIGGER_DEPTH {
        lemma_self_trigger_depth(entry, library, j, d + 1);
        lemma_max_over_ge(entry, library, entry.rules.conditions@, d, j);
    }
}

/// A skill that names itself as a trigger target is a cycle: the depth walk always runs past
/// the cap, and the report blocks Save.
pub proof fn law_self_trigger_blocks_save(
    entry: SkillEntry,
    library: SkillLibrary,
    names: KnownNames,
    check: Result<(), String>,
    j: int,
)
    requires
        0 <= j < entry.rules.conditions@.len(),
        entry.rules.conditions@[j].trigger_skill@ == entry.key(),
    ensures
        depth_problems(entry, library) == seq![(("skill"@, msg_depth(), true))],
        exists|k: int|
            0 <= k < expected_problems(entry, library, names, check).len() && (#[trigger] expected_problems(
                entry,
                library,
                names,
                check,
            )[k]).2,
{
    lemma_self_trigger_depth(entry, library, j, 0);
    let ws = entry.timeline.collision_windows@;
    let head = conditions_problems(entry, library, entry.rules.conditions@.len()) + cues_problems(
        names,
        entry.timeline.cues@,
    ) + charge_problems(names, entry) + paints_problems(names, ws) + on_surface_problems(
        names,
        entry.timeline.acquisition,
    ) + anchor_problems(ws);
    let tail = structural_problems(ws, check);
    assert(expected_problems(entry, library, names, check) =~= head + depth_problems(entry, library) + tail);
    assert((head + depth_problems(entry, library) + tail)[head.len() as int].2);
}

/// `w2` is `w` again: the same id and fields, and an emitter aimed at the same window.
pub open spec fn same_window(w2: CollisionWindow, w: CollisionWindow) -> bool {
    &&& w2.id@ == w.id@
    &&& w2.spawn == w.spawn
    &&& w2.anchor == w.anchor
    &&& w2.anchor_offset == w.anchor_offset
    &&& w2.strikes == w.strikes
    &&& w2.active_duration == w.active_duration
    &&& w2.shape == w.shape
    &&& w2.motion == w.motion
    &&& w2.hit_filter == w.hit_filter
    &&& w2.hit_mode == w.hit_mode
    &&& w2.rehit_interval == w.rehit_interval
    &&& w2.paints == w.paints
    &&& match w.emitter {
        None => w2.emitter is None,
        Some(em) => w2.emitter matches Some(em2) && em2.rate == em.rate && em2.jitter == em.jitter
            && em2.window@ == em.window@,
    }
}

/// Renaming a window from `a` to an id `b` that no emitter aims at (as `rename_window` does) and
/// then back from `b` to `a` gives back the windows as they were, emitters included.
pub proof fn law_rename_round_trip(
    ws: Seq<CollisionWindow>,
    renamed: Seq<CollisionWindow>,
    back: Seq<CollisionWindow>,
    idx: int,
    a: Seq<char>,
    b: Seq<char>,
)
    requires
        0 <= idx < ws.len(),
        ws[idx].id@ == a,
        forall|k: int| 0 <= k < ws.len() ==> !emits(#[trigger] ws[k], b),
        renamed.len() == ws.len(),
        forall|k: int| 0 <= k < ws.len() ==> renamed_window(#[trigger] renamed[k], ws[k], k == idx, a, b),
        back.len() == renamed.len(),
        forall|k: int| 0 <= k < renamed.len() ==> renamed_window(#[trigger] back[k], renamed[k], k == idx, b, a),
    ensures
        back.len() == ws.len(),
        forall|k: int| 0 <= k < ws.len() ==> same_window(#[trigger] back[k], ws[k]),
{
    assert forall|k: int| 0 <= k < ws.len() implies same_window(#[trigger] back[k], ws[k]) by {
        assert(renamed_window(renamed[k], ws[k], k == idx, a, b));
        assert(renamed_window(back[k], renamed[k], k == idx, b, a));
        assert(!emits(ws[k], b));
    }
}

proof fn lemma_referencing_ids_shape(s: Seq<SkillEntry>, id: Seq<char>)
    requires
        sorted_ids(s),
    ensures
        forall|a: int, b: int|
            0 <= a < b < referencing_ids(s, id).len() ==> seq_lt(
                #[trigger] referencing_ids(s, id)[a],
                #[trigger] referencing_ids(s, id)[b],
            ),
        forall|k: Seq<char>|
            referencing_ids(s, id).contains(k) <==> exists|i: int|
                0 <= i < s.len() && #[trigger] s[i].key() == k && k != id && references(s[i], id),
    decreases s.len(),
{
    if s.len() > 0 {
        let init = s.drop_last();
        assert(sorted_ids(init));
        lemma_referencing_ids_shape(init, id);
        let prev = referencing_ids(init, id);
        let r = referencing_ids(s, id);
        assert forall|k: Seq<char>|
            r.contains(k) <==> exists|i: int|
                0 <= i < s.len() && #[trigger] s[i].key() == k && k != id && references(s[i], id) by {
            if r.contains(k) && !prev.contains(k) {
                assert(s[s.len() - 1].key() == k);
            }
            if exists|i: int| 0 <= i < s.len() && #[trigger] s[i].key() == k && k != id && references(s[i], id) {
                let i = choose|i: int| 0 <= i < s.len() && #[trigger] s[i].key() == k && k != id && references(s[i], id);
                if i < s.len() - 1 {
                    assert(init[i] == s[i]);
                    assert(prev.contains(k));
                    if r != prev {
                        assert(r == prev.push(s.last().key()));
                        let m = choose|m: int| 0 <= m < prev.len() && prev[m] == k;
                        assert(r[m] == k);
                    }
                } else {
                    assert(r == prev.push(s.last().key()));
                    assert(r[r.len() - 1] == k);
                }
            }
        }
        if r != prev {
            assert forall|a: int, b: int| 0 <= a < b < r.len() implies seq_lt(#[trigger] r[a], #[trigger] r[b]) by {
                if b == r.len() - 1 {
                    assert(prev.contains(r[a]));
                    let i = choose|i: int|
                        0 <= i < init.len() && #[trigger] init[i].key() == r[a] && r[a] != id && references(init[i], id);
                    assert(s[i] == init[i]);
                    assert(seq_lt(s[i].key(), s[s.len() - 1].key()));
                }
            }
        }
    }
}

/// The skills that trigger `id` come in ascending id order, each once: an id is among them
/// exactly when it is another skill of the library with a condition aimed at `id`.
pub proof fn law_referencing_ids_ascend(library: SkillLibrary, id: Seq<char>)
    requires
        library.wf(),
    ensures
        forall|a: int, b: int|
            0 <= a < b < referencing_ids(library.entries(), id).len() ==> seq_lt(
                #[trigger] referencing_ids(library.entries(), id)[a],
                #[trigger] referencing_ids(library.entries(), id)[b],
            ),
        forall|k: Seq<char>|
            #[trigger] referencing_ids(library.entries(), id).contains(k) <==> (k != id && library.map().dom().contains(k)
                && references(library.map()[k], id)),
{
    let s = library.entries();
    lemma_referencing_ids_shape(s, id);
    assert forall|k: Seq<char>|
        #[trigger] referencing_ids(s, id).contains(k) <==> (k != id && library.map().dom().contains(k) && references(
            library.map()[k],
            id,
        )) by {
        if library.map().dom().contains(k) {
            let i = choose|i: int| 0 <= i < s.len() && #[trigger] s[i].key() == k;
            lemma_map_at(s, i);
        }
        if referencing_ids(s, id).contains(k) {
            let i = choose|i: int| 0 <= i < s.len() && #[trigger] s[i].key() == k && k != id && references(s[i], id);
            lemma_map_at(s, i);
        }
    }
}

/// `e` once the halves `plan` names were written, the rules with bytes hashing to `h_rules` and
/// the timeline with bytes hashing to `h_timeline` (as `record_saved` records each).
pub open spec fn saved(e: SkillEntry, plan: SavePlan, h_rules: u64, h_timeline: u64) -> SkillEntry {
    let a = if plan.write_rules { recorded(e, SaveTarget::Rules, h_rules) } else { e };
    if plan.write_timeline { recorded(a, SaveTarget::Timeline, h_timeline) } else { a }
}

/// A save that is not stale (the plan `plan_save` gives) writes exactly the dirty halves: after
/// recording them the entry is clean, each written half holds its new hash, an unwritten half
/// keeps its old one, and the skill's rules, timeline and paths are untouched.
pub proof fn law_save_writes_only_dirty_halves(
    entry: SkillEntry,
    rules_now: u64,
    timeline_now: u64,
    h_rules: u64,
    h_timeline: u64,
)
    requires
        stale_target(entry, rules_now, timeline_now) is None,
    ensures
        ({
            let plan = SavePlan { write_rules: entry.dirty_rules, write_timeline: entry.dirty_timeline };
            let after = saved(entry, plan, h_rules, h_timeline);
            &&& !after.dirty_rules && !after.dirty_timeline
            &&& after.disk_hash.0 == (if entry.dirty_rules { h_rules } else { entry.disk_hash.0 })
            &&& after.disk_hash.1 == (if entry.dirty_timeline { h_timeline } else { entry.disk_hash.1 })
            &&& after.rules == entry.rules
            &&& after.timeline == entry.timeline
            &&& after.rules_path == entry.rules_path
            &&& after.timeline_path == entry.timeline_path
        }),
{
}

/// Giving a window without an emitter a new shard (`add_emitter_with_new_template`) and then
/// removing that emitter again (`remove_emitter`) leaves the shard an unreferenced template with no
/// emitter of its own, which `remove_window` therefore removes; what is left is the timeline's
/// windows as they were — on a timeline whose emitters all resolve.
pub proof fn law_orphaned_shard_removal_restores(
    ws: Seq<CollisionWindow>,
    i: int,
    shard: int,
    with_shard: Seq<CollisionWindow>,
    emitter_removed: Seq<CollisionWindow>,
)
    requires
        emitters_resolve(ws),
        0 <= i < ws.len(),
        ws[i].emitter is None,
        shard == ws.len(),
        with_shard.len() == ws.len() + 1,
        fresh_in(id_set(ws), ws[i].id@ + "_shard"@, with_shard[shard].id@),
        is_shard_of(with_shard[shard], ws[i], with_shard[shard].id@),
        only_window_changed(with_shard.take(shard), ws, i),
        with_default_emitter(with_shard[i], ws[i], with_shard[shard].id@),
        emitter_removed == with_shard.update(i, (CollisionWindow { emitter: None, ..with_shard[i] })),
    ensures
        emitter_removed[shard].spawn is Template,
        !referenced(emitter_removed, emitter_removed[shard].id@),
        emitter_removed[shard].emitter is None,
        emitter_removed.remove(shard) == ws,
{
    let t = emitter_removed;
    let nid = t[shard].id@;
    assert forall|k: int| 0 <= k < t.len() implies !emits(#[trigger] t[k], nid) by {
        if k == i {
        } else if k == shard {
        } else {
            assert(with_shard.take(shard)[k] == ws[k]);
            assert(t[k] == ws[k]);
            if emits(ws[k], nid) {
                let j = choose|j: int|
                    0 <= j < ws.len() && #[trigger] ws[j].id@ == ws[k].emitter->0.window@ && ws[j].spawn is Template;
                assert(id_set(ws).contains(nid));
            }
        }
    }
    assert(t.remove(shard) =~= ws) by {
        assert forall|k: int| 0 <= k < ws.len() implies t.remove(shard)[k] == ws[k] by {
            if k != i {
                assert(with_shard.take(shard)[k] == ws[k]);
            }
        }
    }
}

proof fn lemma_map_with(m: Map<Seq<char>, SkillEntry>, s: Seq<SkillEntry>)
    ensures
        forall|k: Seq<char>|
            #[trigger] map_with(m, s).dom().contains(k) <==> (m.dom().contains(k) || exists|a: int|
                0 <= a < s.len() && #[trigger] s[a].key() == k),
        forall|a: int|
            0 <= a < s.len() && (forall|b: int| a < b < s.len() ==> #[trigger] s[b].key() != s[a].key())
                ==> map_with(m, s)[#[trigger] s[a].key()] == s[a],
    decreases s.len(),
{
    if s.len() > 0 {
        let init = s.drop_last();
        lemma_map_with(m, init);
        assert forall|k: Seq<char>|
            #[trigger] map_with(m, s).dom().contains(k) <==> (m.dom().contains(k) || exists|a: int|
                0 <= a < s.len() && #[trigger] s[a].key() == k) by {
            assert(map_with(m, s) == map_with(m, init).insert(s.last().key(), s.last()));
            if k == s.last().key() {
                assert(s[s.len() - 1].key() == k);
            }
            if exists|a: int| 0 <= a < s.len() && #[trigger] s[a].key() == k {
                let a = choose|a: int| 0 <= a < s.len() && #[trigger] s[a].key() == k;
                if a < s.len() - 1 {
                    assert(init[a].key() == k);
                }
            }
            if exists|a: int| 0 <= a < init.len() && #[trigger] init[a].key() == k {
                let a = choose|a: int| 0 <= a < init.len() && #[trigger] init[a].key() == k;
                assert(s[a].key() == k);
            }
        }
        assert forall|a: int|
            0 <= a < s.len() && (forall|b: int| a < b < s.len() ==> #[trigger] s[b].key() != s[a].key())
                implies map_with(m, s)[#[trigger] s[a].key()] == s[a] by {
            if a < s.len() - 1 {
                assert(init[a] == s[a]);
                assert(s[s.len() - 1].key() != s[a].key());
                assert forall|b: int| a < b < init.len() implies #[trigger] init[b].key() != init[a].key() by {
                    assert(init[b] == s[b]);
                }
            }
        }
    }
}

/// What scanning a root yields: given the root's skills merged by id (`merge_parsed`) and one
/// scanned entry per merged skill (`scanned_entry`, with the read of its timeline), the entries
/// file exactly the ids the root's rules files hold — a skill triggering an unknown one included —
/// each once, under its id: clean, its timeline pathed under the root, and a blank timeline with
/// hash `0` when its timeline file was missing or unreadable.
pub proof fn law_scanned_root_files_each_skill_once(
    root: Seq<Seq<char>>,
    batch: Seq<ParsedRules>,
    merged: Seq<ParsedRules>,
    reads: Seq<TimelineRead>,
    entries: Seq<SkillEntry>,
)
    requires
        is_merged(merged, batch),
        reads.len() == merged.len(),
        entries.len() == merged.len(),
        forall|a: int| 0 <= a < merged.len() ==> is_scanned_entry(#[trigger] entries[a], root, merged[a], reads[a]),
    ensures
        forall|k: Seq<char>|
            #[trigger] map_with(Map::empty(), entries).dom().contains(k) <==> has_pid(batch, k),
        forall|a: int|
            0 <= a < entries.len() ==> {
                let e = #[trigger] map_with(Map::<Seq<char>, SkillEntry>::empty(), entries)[pid(merged[a])];
                &&& e.key() == pid(merged[a])
                &&& !e.dirty_rules && !e.dirty_timeline
                &&& path_view(e.timeline_path@) == spec_timeline_path(root, pid(merged[a]))
                &&& !(reads[a] matches Some(Ok(_))) ==> is_blank_timeline(e.timeline, pid(merged[a]))
                    && e.disk_hash.1 == 0
            },
{
    let m = Map::<Seq<char>, SkillEntry>::empty();
    lemma_map_with(m, entries);
    assert forall|a: int| 0 <= a < entries.len() implies #[trigger] entries[a].key() == pid(merged[a]) by {
        assert(is_scanned_entry(entries[a], root, merged[a], reads[a]));
    }
    assert forall|k: Seq<char>| #[trigger] map_with(m, entries).dom().contains(k) <==> has_pid(batch, k) by {
        if map_with(m, entries).dom().contains(k) {
            let a = choose|a: int| 0 <= a < entries.len() && #[trigger] entries[a].key() == k;
            assert(is_last_of(batch, merged[a]));
            let j = choose|j: int| last_with_id(batch, pid(merged[a]), j) && merged[a] == batch[j];
            assert(pid(batch[j]) == k);
        }
        if has_pid(batch, k) {
            let j = choose|j: int| 0 <= j < batch.len() && #[trigger] pid(batch[j]) == k;
            assert(has_pid(merged, pid(batch[j])));
            let a = choose|a: int| 0 <= a < merged.len() && #[trigger] pid(merged[a]) == k;
            assert(entries[a].key() == k);
        }
    }
    assert forall|a: int| 0 <= a < entries.len() implies {
        let e = #[trigger] map_with(m, entries)[pid(merged[a])];
        &&& e.key() == pid(merged[a])
        &&& !e.dirty_rules && !e.dirty_timeline
        &&& path_view(e.timeline_path@) == spec_timeline_path(root, pid(merged[a]))
        &&& !(reads[a] matches Some(Ok(_))) ==> is_blank_timeline(e.timeline, pid(merged[a])) && e.disk_hash.1 == 0
    } by {
        assert(entries[a].key() == pid(merged[a]));
        assert forall|b: int| a < b < entries.len() implies #[trigger] entries[b].key() != entries[a].key() by {
            assert(entries[b].key() == pid(merged[b]));
            assert(sorted_pids(merged));
            assert(seq_lt(pid(merged[a]), pid(merged[b])));
            crate::library::lemma_lt_ne(pid(merged[a]), pid(merged[b]));
        }
        assert(map_with(m, entries)[entries[a].key()] == entries[a]);
        assert(is_scanned_entry(entries[a], root, merged[a], reads[a]));
    }
}

/// One trigger hop: skill `a` exists (this skill's own rules standing for the library's copy of
/// it) and one of its conditions names `b`, whether or not `b` exists.
pub open spec fn trigger_hop(entry: SkillEntry, library: SkillLibrary, a: Seq<char>, b: Seq<char>) -> bool {
    match rules_of(entry, library, a) {
        Some(r) => exists|j: int| 0 <= j < r.conditions@.len() && (#[trigger] r.conditions@[j]).trigger_skill@ == b,
        None => false,
    }
}

/// `p` is a chain of trigger hops starting at `id`; it takes `p.len() - 1` hops.
pub open spec fn trigger_chain(entry: SkillEntry, library: SkillLibrary, p: Seq<Seq<char>>, id: Seq<char>) -> bool {
    &&& p.len() >= 1
    &&& p[0] == id
    &&& forall|k: int| 0 <= k < p.len() - 1 ==> #[trigger] trigger_hop(entry, library, p[k], p[k + 1])
}

proof fn lemma_max_over_witness(entry: SkillEntry, library: SkillLibrary, conds: Seq<SkillCondition>, d: nat) -> (j: int)
    requires
        d <= MAX_TRIGGER_DEPTH,
        max_over(entry, library, conds, d) > MAX_TRIGGER_DEPTH,
    ensures
        0 <= j < conds.len(),
        max_depth(entry, library, conds[j].trigger_skill@, d + 1) > MAX_TRIGGER_DEPTH,
    decreases conds.len(),
{
    let n = conds.len();
    if n == 1 {
        0
    } else {
        let rest = max_over(entry, library, conds.drop_last(), d);
        let last = max_depth(entry, library, conds.last().trigger_skill@, d + 1);
        if rest >= last {
            let j = lemma_max_over_witness(entry, library, conds.drop_last(), d);
            assert(conds.drop_last()[j] == conds[j]);
            j
        } else {
            (n - 1) as int
        }
    }
}

/// From hop count `d`, the walk runs past the cap exactly when a chain of `MAX_TRIGGER_DEPTH + 1 - d`
/// hops leaves `id`.
proof fn lemma_depth_chains(entry: SkillEntry, library: SkillLibrary, id: Seq<char>, d: nat)
    requires
        d <= MAX_TRIGGER_DEPTH + 1,
    ensures
        max_depth(entry, library, id, d) > MAX_TRIGGER_DEPTH <==> exists|p: Seq<Seq<char>>|
            #[trigger] trigger_chain(entry, library, p, id) && p.len() == MAX_TRIGGER_DEPTH + 2 - d,
    decreases MAX_TRIGGER_DEPTH + 1 - d,
{
    let n = (MAX_TRIGGER_DEPTH + 2 - d) as int;
    if d > MAX_TRIGGER_DEPTH {
        let p = seq![id];
        assert(trigger_chain(entry, library, p, id));
    } else {
        if max_depth(entry, library, id, d) > MAX_TRIGGER_DEPTH {
            let r = rules_of(entry, library, id).unwrap();
            let conds = r.conditions@;
            let j = lemma_max_over_witness(entry, library, conds, d);
            let b = conds[j].trigger_skill@;
            lemma_depth_chains(entry, library, b, d + 1);
            let q = choose|q: Seq<Seq<char>>|
                #[trigger] trigger_chain(entry, library, q, b) && q.len() == MAX_TRIGGER_DEPTH + 1 - d;
            let p = seq![id] + q;
            assert(trigger_hop(entry, library, id, b));
            assert forall|k: int| 0 <= k < p.len() - 1 implies #[trigger] trigger_hop(entry, library, p[k], p[k + 1]) by {
                if k > 0 {
                    assert(p[k] == q[k - 1] && p[k + 1] == q[k]);
                    assert(trigger_hop(entry, library, q[k - 1], q[(k - 1) + 1]));
                }
            }
            assert(trigger_chain(entry, library, p, id));
        }
        if exists|p: Seq<Seq<char>>| #[trigger] trigger_chain(entry, library, p, id) && p.len() == n {
            let p = choose|p: Seq<Seq<char>>| #[trigger] trigger_chain(entry, library, p, id) && p.len() == n;
            assert(p.len() >= 2);
            assert(trigger_hop(entry, library, p[0], p[0int + 1]));
            let r = rules_of(entry, library, id).unwrap();
            let conds = r.conditions@;
            let j = choose|j: int| 0 <= j < conds.len() && (#[trigger] conds[j]).trigger_skill@ == p[1];
            let q = p.drop_first();
            assert forall|k: int| 0 <= k < q.len() - 1 implies #[trigger] trigger_hop(entry, library, q[k], q[k + 1]) by {
                assert(trigger_hop(entry, library, p[k + 1], p[(k + 1) + 1]));
            }
            assert(trigger_chain(entry, library, q, p[1]));
            lemma_depth_chains(entry, library, p[1], d + 1);
            lemma_max_over_ge(entry, library, conds, d, j);
        }
    }
}

/// The depth rule measures the longest trigger chain: the report carries the blocking depth
/// problem exactly when some chain of trigger hops leaving this skill (each hop from a skill that
/// exists, this skill's own rules standing for the library's copy, to a skill one of its
/// conditions names, known or not) takes more than `MAX_TRIGGER_DEPTH` hops. A cycle reachable
/// from the skill gives chains of every length, so it always blocks.
pub proof fn law_depth_rule_is_longest_chain(entry: SkillEntry, library: SkillLibrary)
    ensures
        depth_problems(entry, library).len() > 0 <==> exists|p: Seq<Seq<char>>|
            #[trigger] trigger_chain(entry, library, p, entry.key()) && p.len() > MAX_TRIGGER_DEPTH + 1,
        depth_problems(entry, library).len() > 0 ==> depth_problems(entry, library) == seq![
            (("skill"@, msg_depth(), true)),
        ],
{
    let id = entry.key();
    let n = (MAX_TRIGGER_DEPTH + 2) as int;
    lemma_depth_chains(entry, library, id, 0);
    if exists|p: Seq<Seq<char>>| #[trigger] trigger_chain(entry, library, p, id) && p.len() > MAX_TRIGGER_DEPTH + 1 {
        let p = choose|p: Seq<Seq<char>>| #[trigger] trigger_chain(entry, library, p, id) && p.len() > MAX_TRIGGER_DEPTH + 1;
        let q = p.subrange(0, n);
        assert forall|k: int| 0 <= k < q.len() - 1 implies #[trigger] trigger_hop(entry, library, q[k], q[k + 1]) by {
            assert(trigger_hop(entry, library, p[k], p[k + 1]));
        }
        assert(trigger_chain(entry, library, q, id));
    }
}

} // verus!
