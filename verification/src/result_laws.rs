//! What single operations give, stated over all inputs by what their results must satisfy: the
//! strike readout counts every scheduled striking window and every `true` trigger answer; a save
//! patches each owned field once; only the cast cue offers a bone attachment or an animation;
//! every dangling trigger reference of a scanned batch is reported; and each template's
//! acquisition resolves on the stage as its archetype promises.
use vstd::prelude::*;

use crate::cue_slots::{emit_view, expected_slots, window_pair_views};
use crate::floatbits::f32_le;
use crate::library::path_view;
use crate::model::{CastTimeline, CollisionWindow, HitFilter};
use crate::readouts::{count_true, scheduled_striking};
use crate::save::{owned_rules_fields, patch_edits, pos_view, rendered_rules, table_of, toml_read, toml_render_of, toml_has};
use crate::scan::{dangling_all, dangling_in, has_pid, pid, ParsedRules};
use crate::stage::{resolved_aim, StageAim, StageAimContext};
use crate::templates::{is_template, SkillArchetype, F32_20, F32_30};

verus! {

/// A window the strike readout counts: it strikes and is on the phase schedule.
pub open spec fn counts_as_strike(w: CollisionWindow) -> bool {
    w.strikes && w.spawn is Scheduled
}

/// The readout's scheduled count is the number of windows that strike and are scheduled, and
/// adding a window raises it by exactly one when that window counts and leaves it otherwise.
pub proof fn law_scheduled_counts_every_striking_window(ws: Seq<CollisionWindow>, w: CollisionWindow)
    ensures
        scheduled_striking(ws) == ws.filter(|x: CollisionWindow| counts_as_strike(x)).len(),
        scheduled_striking(ws.push(w)) == scheduled_striking(ws) + (if counts_as_strike(w) {
            1int
        } else {
            0int
        }),
        scheduled_striking(ws) <= ws.len(),
    decreases ws.len(),
{
    reveal(Seq::filter);
    let p = |x: CollisionWindow| counts_as_strike(x);
    assert(ws.push(w).drop_last() =~= ws);
    assert(ws.push(w).filter(p) == (if p(w) { ws.filter(p).push(w) } else { ws.filter(p) }));
    if ws.len() > 0 {
        law_scheduled_counts_every_striking_window(ws.drop_last(), ws.last());
        assert(ws.drop_last().push(ws.last()) =~= ws);
    }
}

/// The readout's triggered count is the number of `true` answers the target question gave, one
/// answer per condition: another `true` answer raises it by exactly one, a `false` one leaves it.
pub proof fn law_triggered_counts_every_true_answer(ans: Seq<bool>, b: bool)
    ensures
        count_true(ans) == ans.filter(|x: bool| x).len(),
        count_true(ans.push(b)) == count_true(ans) + (if b {
            1int
        } else {
            0int
        }),
        count_true(ans) <= ans.len(),
    decreases ans.len(),
{
    reveal(Seq::filter);
    let p = |x: bool| x;
    assert(ans.push(b).drop_last() =~= ans);
    assert(ans.push(b).filter(p) == (if p(b) { ans.filter(p).push(b) } else { ans.filter(p) }));
    if ans.len() > 0 {
        law_triggered_counts_every_true_answer(ans.drop_last(), ans.last());
        assert(ans.drop_last().push(ans.last()) =~= ans);
    }
}

/// One of the seven fields the editor owns in a rules table.
pub open spec fn is_owned_rules_key(k: Seq<char>) -> bool {
    ||| k == "id"@
    ||| k == "name"@
    ||| k == "mana_cost"@
    ||| k == "cooldown"@
    ||| k == "damage"@
    ||| k == "conditions"@
    ||| k == "effect_applications"@
}

proof fn lemma_patch_edits_contains(pos: Option<usize>, fresh: Seq<char>, keys: Seq<Seq<char>>, k: Seq<char>)
    ensures
        patch_edits(pos, fresh, keys).contains((pos, fresh, k)) <==> (keys.contains(k) && toml_has(fresh, k)),
        forall|i: int|
            0 <= i < patch_edits(pos, fresh, keys).len() ==> (#[trigger] patch_edits(pos, fresh, keys)[i]).0 == pos
                && patch_edits(pos, fresh, keys)[i].1 == fresh && keys.contains(patch_edits(pos, fresh, keys)[i].2),
        keys.no_duplicates() ==> patch_edits(pos, fresh, keys).no_duplicates(),
    decreases keys.len(),
{
    if keys.len() > 0 {
        let init = keys.drop_last();
        let last = keys.last();
        lemma_patch_edits_contains(pos, fresh, init, k);
        lemma_patch_edits_contains(pos, fresh, init, last);
        let pe = patch_edits(pos, fresh, init);
        let whole = patch_edits(pos, fresh, keys);
        assert(keys =~= init.push(last));
        assert forall|x: Seq<char>| init.contains(x) implies keys.contains(x) by {
            let j = choose|j: int| 0 <= j < init.len() && init[j] == x;
            assert(keys[j] == x);
        }
        if keys.contains(k) && k != last {
            let j = choose|j: int| 0 <= j < keys.len() && keys[j] == k;
            assert(init[j] == k);
        }
        if toml_has(fresh, last) {
            assert(whole == pe.push((pos, fresh, last)));
            assert(whole[pe.len() as int] == (pos, fresh, last));
            if pe.contains((pos, fresh, k)) {
                let j = choose|j: int| 0 <= j < pe.len() && pe[j] == (pos, fresh, k);
                assert(whole[j] == (pos, fresh, k));
            }
            if whole.contains((pos, fresh, k)) && k != last {
                let j = choose|j: int| 0 <= j < whole.len() && whole[j] == (pos, fresh, k);
                assert(pe[j] == (pos, fresh, k));
            }
            assert(keys[keys.len() - 1] == last);
            if keys.no_duplicates() {
                assert(init.no_duplicates()) by {
                    assert forall|a: int, b: int| 0 <= a < init.len() && 0 <= b < init.len() && a != b implies init[a]
                        != init[b] by {
                        assert(keys[a] == init[a] && keys[b] == init[b]);
                    }
                }
                assert(!init.contains(last)) by {
                    if init.contains(last) {
                        let j = choose|j: int| 0 <= j < init.len() && init[j] == last;
                        assert(keys[j] == keys[keys.len() - 1]);
                    }
                }
                assert forall|a: int, b: int| 0 <= a < whole.len() && 0 <= b < whole.len() && a != b implies whole[a]
                    != whole[b] by {
                    if a < pe.len() && b < pe.len() {
                        assert(whole[a] == pe[a] && whole[b] == pe[b]);
                    } else if a < pe.len() {
                        assert(whole[a] == pe[a]);
                        assert(pe[a].2 != last) by {
                            assert(init.contains(pe[a].2));
                        }
                    } else if b < pe.len() {
                        assert(whole[b] == pe[b]);
                        assert(pe[b].2 != last) by {
                            assert(init.contains(pe[b].2));
                        }
                    }
                }
            }
        } else {
            assert(whole == pe);
            if keys.no_duplicates() {
                assert forall|a: int, b: int| 0 <= a < init.len() && 0 <= b < init.len() && a != b implies init[a]
                    != init[b] by {
                    assert(keys[a] == init[a] && keys[b] == init[b]);
                }
            }
        }
        assert forall|i: int| 0 <= i < whole.len() implies (#[trigger] whole[i]).0 == pos && whole[i].1 == fresh
            && keys.contains(whole[i].2) by {
            if i < pe.len() {
                assert(whole[i] == pe[i]);
            }
        }
    }
}

/// Saving into an existing rules document that holds a table for the skill patches that table
/// with the seven owned fields (`id`, `name`, `mana_cost`, `cooldown`, `damage`, `conditions`,
/// `effect_applications`), each present in the fresh serialization and each exactly once, and
/// with nothing else.
pub proof fn law_save_patches_each_owned_field_once(t: Seq<char>, fresh: Seq<char>, id: Seq<char>)
    requires
        toml_read(t) is Ok,
        table_of(toml_read(t)->Ok_0, id) is Some,
        toml_read(fresh) is Ok,
    ensures
        ({
            let pos = pos_view(table_of(toml_read(t)->Ok_0, id)->Some_0);
            exists|es: Seq<(Option<usize>, Seq<char>, Seq<char>)>|
                {
                    &&& rendered_rules(Some(t), fresh, id) == Ok::<Seq<char>, Seq<char>>(toml_render_of(t, es))
                    &&& es.no_duplicates()
                    &&& forall|i: int| 0 <= i < es.len() ==> (#[trigger] es[i]).0 == pos && es[i].1 == fresh
                    &&& forall|k: Seq<char>|
                        #[trigger] es.contains((pos, fresh, k)) <==> (is_owned_rules_key(k) && toml_has(fresh, k))
                }
        }),
{
    let pos = pos_view(table_of(toml_read(t)->Ok_0, id)->Some_0);
    let keys = owned_rules_fields();
    let es = patch_edits(pos, fresh, keys);
    reveal_strlit("id");
    reveal_strlit("name");
    reveal_strlit("mana_cost");
    reveal_strlit("cooldown");
    reveal_strlit("damage");
    reveal_strlit("conditions");
    reveal_strlit("effect_applications");
    assert forall|k: Seq<char>| keys.contains(k) <==> is_owned_rules_key(k) by {
        if is_owned_rules_key(k) {
            if k == "id"@ {
                assert(keys[0] == k);
            } else if k == "name"@ {
                assert(keys[1] == k);
            } else if k == "mana_cost"@ {
                assert(keys[2] == k);
            } else if k == "cooldown"@ {
                assert(keys[3] == k);
            } else if k == "damage"@ {
                assert(keys[4] == k);
            } else if k == "conditions"@ {
                assert(keys[5] == k);
            } else {
                assert(keys[6] == k);
            }
        }
    }
    assert(keys.no_duplicates()) by {
        assert forall|a: int, b: int| 0 <= a < keys.len() && 0 <= b < keys.len() && a != b implies keys[a]
            != keys[b] by {
            assert(keys[a].len() != keys[b].len());
        }
    }
    assert forall|k: Seq<char>| #[trigger] es.contains((pos, fresh, k)) <==> (is_owned_rules_key(k) && toml_has(fresh, k)) by {
        lemma_patch_edits_contains(pos, fresh, keys, k);
    }
    lemma_patch_edits_contains(pos, fresh, keys, seq![]);
}

/// `slot` names a window's start (`on_window_…`) or an emitter target (`emit_…`).
pub open spec fn is_window_or_emit_slot(slot: Seq<char>) -> bool {
    ||| slot.len() >= 10 && slot.subrange(0, 10) == "on_window_"@
    ||| slot.len() >= 5 && slot.subrange(0, 5) == "emit_"@
}

proof fn lemma_slot_kinds(id: Seq<char>)
    ensures
        is_window_or_emit_slot("on_window_"@ + id),
        !is_window_or_emit_slot("on_end_"@ + id),
        is_window_or_emit_slot("emit_"@ + id),
        !is_window_or_emit_slot("on_cast"@),
        !is_window_or_emit_slot("on_hit"@),
{
    reveal_strlit("on_window_");
    reveal_strlit("on_end_");
    reveal_strlit("emit_");
    reveal_strlit("on_cast");
    reveal_strlit("on_hit");
    assert(("on_window_"@ + id).subrange(0, 10) =~= "on_window_"@);
    assert(("emit_"@ + id).subrange(0, 5) =~= "emit_"@);
    let e = "on_end_"@ + id;
    if e.len() >= 10 && e.subrange(0, 10) == "on_window_"@ {
        assert(e.subrange(0, 10)[3] == e[3]);
    }
    if e.len() >= 5 && e.subrange(0, 5) == "emit_"@ {
        assert(e.subrange(0, 5)[0] == e[0]);
    }
    let c = "on_cast"@;
    if c.len() >= 5 && c.subrange(0, 5) == "emit_"@ {
        assert(c.subrange(0, 5)[0] == c[0]);
    }
    let h = "on_hit"@;
    if h.len() >= 5 && h.subrange(0, 5) == "emit_"@ {
        assert(h.subrange(0, 5)[0] == h[0]);
    }
}

/// A save writes the fresh serialization whole when there is no rules file yet or the file holds
/// no table for the skill, and refuses (with the parse error) an existing file that does not
/// parse; it never patches a document it cannot read.
pub proof fn law_save_writes_fresh_where_nothing_matches(t: Seq<char>, fresh: Seq<char>, id: Seq<char>)
    ensures
        rendered_rules(None, fresh, id) == Ok::<Seq<char>, Seq<char>>(fresh),
        toml_read(t) matches Err(m) ==> rendered_rules(Some(t), fresh, id) == Err::<Seq<char>, Seq<char>>(m),
        toml_read(t) matches Ok(l) && table_of(l, id) is None ==> rendered_rules(Some(t), fresh, id) == Ok::<
            Seq<char>,
            Seq<char>,
        >(fresh),
{
}

proof fn lemma_window_pairs_offer_neither(ws: Seq<CollisionWindow>)
    ensures
        forall|k: int|
            0 <= k < window_pair_views(ws).len() ==> !(#[trigger] window_pair_views(ws)[k]).3 && !window_pair_views(
                ws,
            )[k].4 && (window_pair_views(ws)[k].2 <==> is_window_or_emit_slot(window_pair_views(ws)[k].0)),
    decreases ws.len(),
{
    if ws.len() > 0 {
        lemma_window_pairs_offer_neither(ws.drop_last());
        lemma_slot_kinds(ws.last().id@);
        let a = window_pair_views(ws.drop_last());
        let whole = window_pair_views(ws);
        assert forall|k: int| 0 <= k < whole.len() implies !(#[trigger] whole[k]).3 && !whole[k].4 && (whole[k].2
            <==> is_window_or_emit_slot(whole[k].0)) by {
            if k < a.len() {
                assert(whole[k] == a[k]);
            }
        }
    }
}

/// The cue slots of every timeline open with `on_cast`, and it alone offers a bone attachment
/// and an animation: every other slot (window, end, emit and hit cues) offers neither. An attach
/// choice is offered exactly on the window-start and emit slots.
pub proof fn law_only_the_cast_cue_takes_bone_or_anim(tl: CastTimeline)
    ensures
        expected_slots(tl).len() >= 2,
        expected_slots(tl)[0] == (("on_cast"@, "On Cast"@, false, true, true)),
        forall|k: int|
            0 <= k < expected_slots(tl).len() ==> ((#[trigger] expected_slots(tl)[k]).4 <==> k == 0) && (
            expected_slots(tl)[k].3 <==> k == 0) && (expected_slots(tl)[k].2 <==> is_window_or_emit_slot(
                expected_slots(tl)[k].0,
            )),
{
    lemma_slot_kinds(seq![]);
    let ws = tl.collision_windows@;
    let wp = window_pair_views(ws);
    let em = crate::cue_slots::emit_targets(ws).map_values(|t: Seq<char>| emit_view(t));
    lemma_window_pairs_offer_neither(ws);
    let s = expected_slots(tl);
    assert(s == seq![crate::cue_slots::on_cast_view()] + wp + em + seq![crate::cue_slots::on_hit_view()]);
    assert forall|k: int| 0 <= k < s.len() implies ((#[trigger] s[k]).4 <==> k == 0) && (s[k].3 <==> k == 0) && (s[k].2
        <==> is_window_or_emit_slot(s[k].0)) by {
        if k == 0 {
        } else if k < 1 + wp.len() {
            assert(s[k] == wp[k - 1]);
        } else if k < 1 + wp.len() + em.len() {
            assert(s[k] == em[k - 1 - wp.len()]);
            lemma_slot_kinds(crate::cue_slots::emit_targets(ws)[k - 1 - wp.len()]);
        } else {
            assert(s[k] == crate::cue_slots::on_hit_view());
        }
    }
}

proof fn lemma_contains_concat<A>(a: Seq<A>, b: Seq<A>, x: A)
    ensures
        (a + b).contains(x) <==> (a.contains(x) || b.contains(x)),
{
    let w = a + b;
    if a.contains(x) {
        let k = choose|k: int| 0 <= k < a.len() && a[k] == x;
        assert(w[k] == x);
    }
    if b.contains(x) {
        let k = choose|k: int| 0 <= k < b.len() && b[k] == x;
        assert(w[a.len() + k] == x);
    }
    if w.contains(x) {
        let k = choose|k: int| 0 <= k < w.len() && w[k] == x;
        if k < a.len() {
            assert(a[k] == x);
        } else {
            assert(b[k - a.len()] == x);
        }
    }
}

/// Condition `j` of skill `p` names a skill the batch lacks: the reference it makes.
pub open spec fn dangles(merged: Seq<ParsedRules>, p: ParsedRules, j: int, x: (Seq<char>, Seq<Seq<char>>, Seq<char>)) -> bool {
    &&& 0 <= j < p.rules.conditions@.len()
    &&& !has_pid(merged, p.rules.conditions@[j].trigger_skill@)
    &&& x == (pid(p), path_view(p.path@), p.rules.conditions@[j].trigger_skill@)
}

proof fn lemma_dangling_in_contains(merged: Seq<ParsedRules>, p: ParsedRules, n: nat, x: (Seq<char>, Seq<Seq<char>>, Seq<char>))
    requires
        n <= p.rules.conditions@.len(),
    ensures
        dangling_in(merged, p, n).contains(x) <==> exists|j: int| 0 <= j < n && #[trigger] dangles(merged, p, j, x),
    decreases n,
{
    if n > 0 {
        let m = (n - 1) as nat;
        lemma_dangling_in_contains(merged, p, m, x);
        let t = p.rules.conditions@[m as int].trigger_skill@;
        let tail = if has_pid(merged, t) {
            Seq::<(Seq<char>, Seq<Seq<char>>, Seq<char>)>::empty()
        } else {
            seq![(pid(p), path_view(p.path@), t)]
        };
        assert(dangling_in(merged, p, n) == dangling_in(merged, p, m) + tail);
        lemma_contains_concat(dangling_in(merged, p, m), tail, x);
        if tail.contains(x) {
            assert(tail[0] == x);
            assert(dangles(merged, p, m as int, x));
        }
        if exists|j: int| 0 <= j < n && #[trigger] dangles(merged, p, j, x) {
            let j = choose|j: int| 0 <= j < n && #[trigger] dangles(merged, p, j, x);
            if j == m {
                assert(tail[0] == x);
            }
        }
    }
}

/// Every dangling trigger reference of a scanned batch is reported: `(skill, file, target)` is
/// among `dangling_references`' results exactly when some condition — any of them, of any skill
/// of the batch — names a skill the batch lacks.
pub proof fn law_every_dangling_reference_is_reported(merged: Seq<ParsedRules>, x: (Seq<char>, Seq<Seq<char>>, Seq<char>))
    ensures
        dangling_all(merged, merged.len()).contains(x) <==> exists|i: int, j: int|
            0 <= i < merged.len() && #[trigger] dangles(merged, merged[i], j, x),
{
    lemma_dangling_all_contains(merged, merged.len(), x);
}

proof fn lemma_dangling_all_contains(merged: Seq<ParsedRules>, n: nat, x: (Seq<char>, Seq<Seq<char>>, Seq<char>))
    requires
        n <= merged.len(),
    ensures
        dangling_all(merged, n).contains(x) <==> exists|i: int, j: int|
            0 <= i < n && #[trigger] dangles(merged, merged[i], j, x),
    decreases n,
{
    if n > 0 {
        let m = (n - 1) as nat;
        lemma_dangling_all_contains(merged, m, x);
        let p = merged[m as int];
        lemma_dangling_in_contains(merged, p, p.rules.conditions@.len(), x);
        assert(dangling_all(merged, n) == dangling_all(merged, m) + dangling_in(merged, p, p.rules.conditions@.len()));
        lemma_contains_concat(dangling_all(merged, m), dangling_in(merged, p, p.rules.conditions@.len()), x);
        if dangling_in(merged, p, p.rules.conditions@.len()).contains(x) {
            let j = choose|j: int| 0 <= j < p.rules.conditions@.len() && #[trigger] dangles(merged, p, j, x);
            assert(dangles(merged, merged[m as int], j, x));
        }
        if exists|i: int, j: int| 0 <= i < n && #[trigger] dangles(merged, merged[i], j, x) {
            let (i, j) = choose|i: int, j: int| 0 <= i < n && #[trigger] dangles(merged, merged[i], j, x);
            if i == m {
                assert(0 <= j < p.rules.conditions@.len() && dangles(merged, p, j, x));
            } else {
                assert(0 <= i < m && dangles(merged, merged[i], j, x));
            }
        }
    }
}

/// Each template's acquisition resolves on the stage as its archetype promises: a strike or a
/// projectile aims; a zone takes the ground marker within 20 m and otherwise the caster's own
/// point, so an unaimed zone cast never fizzles; a beam takes the first dummy when it stands
/// within 30 m and admits enemy hits, and otherwise fizzles.
pub proof fn law_template_acquisitions_resolve_as_promised(
    t: (crate::model::SkillRules, CastTimeline),
    a: SkillArchetype,
    id: Seq<char>,
    ctx: StageAimContext,
)
    requires
        is_template(t, a, id),
    ensures
        resolved_aim(t.1.acquisition, ctx) == match a {
            SkillArchetype::Strike => Some(StageAim::AimDirection),
            SkillArchetype::Projectile => Some(StageAim::AimDirection),
            SkillArchetype::Zone => if f32_le(ctx.marker_distance, F32_20) {
                Some(StageAim::GroundMarker)
            } else {
                Some(StageAim::CasterPoint)
            },
            SkillArchetype::Beam => match ctx.dummy {
                Some(d) => if f32_le(d.distance, F32_30) && d.admitted_by@.contains(HitFilter::Enemies) {
                    Some(StageAim::Dummy(d.entity))
                } else {
                    None
                },
                None => None,
            },
        },
{
    reveal_with_fuel(resolved_aim, 2);
}

} // verus!
