//! Properties of the validation report as the panel reads it, one target at a time: the
//! problems a trigger card shows are exactly its condition's rule; the problems a cue row shows
//! are those of its binding's rules (plus, for the `charge` row, the charge tiers', whose
//! threshold rules it reports tier by tier); and the skill row shows the depth rule.
use vstd::prelude::*;

use crate::library::{SkillEntry, SkillLibrary};
use crate::model::{Acquisition, AcqFallback, CollisionWindow, CueEntry, SkillCondition};
use crate::floatbits::{f32_le, F32_ONE, F32_ZERO};
use crate::model::{cues_in_slot_order, ChargeTier};
use crate::laws::{law_depth_rule_is_longest_chain, trigger_chain};
use crate::text::{decimal, digit_char, lemma_decimal_injective, lemma_seq_lt_irreflexive, seq_lt};
use crate::validation::{
    anchor_problems, blocking, charge_problems, known_effect, msg_cue_anim, msg_cue_effect, msg_tier_anim,
    msg_tier_effect, msg_tier_follow, msg_tier_order, msg_tier_range, msg_tier_socket, msg_tiers_unplayed,
    tier_anim_problems, tier_attach_problems, tier_effect_problems, tier_order_problems, tier_range_problems,
    unknown_clip, charge_target, condition_problems, condition_target,
    conditions_problems, cue_problems, cue_target, cues_problems, depth_problems, expected_problems,
    msg_dangling, msg_every_nth, msg_inline_packet, msg_lifecycle, msg_no_target, msg_not_additional,
    on_surface_problems, paint_problems, paints_problems, problem_view, structural_problems, target_known,
    tier_problems, tiers_problems, views, window_target, with_target, KnownNames, Problem, ProblemView,
    msg_depth, MAX_TRIGGER_DEPTH,
};

verus! {

/// The problems of `ps` whose target is `t`, in order.
pub open spec fn targeted(ps: Seq<ProblemView>, t: Seq<char>) -> Seq<ProblemView>
    decreases ps.len(),
{
    if ps.len() == 0 {
        seq![]
    } else if ps.last().0 == t {
        targeted(ps.drop_last(), t).push(ps.last())
    } else {
        targeted(ps.drop_last(), t)
    }
}

/// Which family a target belongs to: `condition:…` (0), `cue:…` (1), the whole skill (3), or
/// any other (2).
pub open spec fn kind_of(t: Seq<char>) -> int {
    if t.len() >= 2 && t[0] == 'c' && t[1] == 'o' {
        0
    } else if t.len() >= 2 && t[0] == 'c' && t[1] == 'u' {
        1
    } else if t == "skill"@ {
        3
    } else {
        2
    }
}

/// Every problem of `ps` has a target of family `k` or later.
pub open spec fn all_kind_from(ps: Seq<ProblemView>, k: int) -> bool {
    forall|j: int| 0 <= j < ps.len() ==> kind_of(#[trigger] ps[j].0) >= k
}

proof fn lemma_targeted_earlier_kind(ps: Seq<ProblemView>, t: Seq<char>, k: int)
    requires
        all_kind_from(ps, k),
        kind_of(t) < k,
    ensures
        targeted(ps, t) == Seq::<ProblemView>::empty(),
{
    assert forall|j: int| 0 <= j < ps.len() implies (#[trigger] ps[j]).0 != t by {
        assert(kind_of(ps[j].0) >= k);
    }
    lemma_targeted_none(ps, t);
}

/// Every problem of `ps` has a target of family `k`.
pub open spec fn all_kind(ps: Seq<ProblemView>, k: int) -> bool {
    forall|j: int| 0 <= j < ps.len() ==> kind_of(#[trigger] ps[j].0) == k
}

proof fn lemma_targeted_concat(a: Seq<ProblemView>, b: Seq<ProblemView>, t: Seq<char>)
    ensures
        targeted(a + b, t) == targeted(a, t) + targeted(b, t),
    decreases b.len(),
{
    if b.len() == 0 {
        assert(a + b =~= a);
        assert(targeted(b, t) =~= Seq::<ProblemView>::empty());
        assert(targeted(a, t) + targeted(b, t) =~= targeted(a, t));
    } else {
        lemma_targeted_concat(a, b.drop_last(), t);
        assert((a + b).drop_last() =~= a + b.drop_last());
        assert((a + b).last() == b.last());
        if b.last().0 == t {
            assert(targeted(a, t) + targeted(b, t) =~= (targeted(a, t) + targeted(b.drop_last(), t)).push(b.last()));
        }
    }
}

proof fn lemma_targeted_none(ps: Seq<ProblemView>, t: Seq<char>)
    requires
        forall|j: int| 0 <= j < ps.len() ==> (#[trigger] ps[j]).0 != t,
    ensures
        targeted(ps, t) == Seq::<ProblemView>::empty(),
    decreases ps.len(),
{
    if ps.len() > 0 {
        lemma_targeted_none(ps.drop_last(), t);
        assert(ps[ps.len() - 1].0 != t);
    }
}

proof fn lemma_targeted_all(ps: Seq<ProblemView>, t: Seq<char>)
    requires
        forall|j: int| 0 <= j < ps.len() ==> (#[trigger] ps[j]).0 == t,
    ensures
        targeted(ps, t) == ps,
    decreases ps.len(),
{
    if ps.len() > 0 {
        lemma_targeted_all(ps.drop_last(), t);
        assert(ps[ps.len() - 1].0 == t);
        assert(ps.drop_last().push(ps.last()) =~= ps);
    }
}

proof fn lemma_targeted_other_kind(ps: Seq<ProblemView>, t: Seq<char>, k: int)
    requires
        all_kind(ps, k),
        kind_of(t) != k,
    ensures
        targeted(ps, t) == Seq::<ProblemView>::empty(),
{
    assert forall|j: int| 0 <= j < ps.len() implies (#[trigger] ps[j]).0 != t by {
        assert(kind_of(ps[j].0) == k);
    }
    lemma_targeted_none(ps, t);
}

/// Filtering the problems by target commutes with viewing them.
proof fn lemma_views_with_target(ps: Seq<Problem>, t: Seq<char>)
    ensures
        views(with_target(ps, t)) == targeted(views(ps), t),
    decreases ps.len(),
{
    if ps.len() > 0 {
        lemma_views_with_target(ps.drop_last(), t);
        assert(views(ps).drop_last() =~= views(ps.drop_last()));
        assert(views(ps).last() == problem_view(ps.last()));
        if ps.last().target@ == t {
            assert(views(with_target(ps, t)) =~= views(with_target(ps.drop_last(), t)).push(problem_view(ps.last())));
        }
    }
}

proof fn lemma_condition_target_kind(i: nat)
    ensures
        kind_of(condition_target(i)) == 0,
{
    reveal_strlit("condition:");
    assert(condition_target(i)[0] == 'c');
    assert(condition_target(i)[1] == 'o');
}

proof fn lemma_cue_target_kind(s: Seq<char>)
    ensures
        kind_of(cue_target(s)) == 1,
{
    reveal_strlit("cue:");
    assert(cue_target(s)[0] == 'c');
    assert(cue_target(s)[1] == 'u');
}

proof fn lemma_window_target_kind(id: Seq<char>)
    ensures
        kind_of(window_target(id)) == 2,
{
    reveal_strlit("window:");
    reveal_strlit("skill");
    assert(window_target(id)[0] == 'w');
    assert("skill"@[0] == 's');
}

proof fn lemma_condition_target_injective(a: nat, b: nat)
    requires
        condition_target(a) == condition_target(b),
    ensures
        a == b,
{
    reveal_strlit("condition:");
    assert(condition_target(a).subrange(10, condition_target(a).len() as int) =~= decimal(a));
    assert(condition_target(b).subrange(10, condition_target(b).len() as int) =~= decimal(b));
    lemma_decimal_injective(a, b);
}

proof fn lemma_condition_problems_targets(entry: SkillEntry, library: SkillLibrary, c: SkillCondition, i: nat)
    ensures
        forall|j: int|
            0 <= j < condition_problems(entry, library, c, i).len() ==> (#[trigger] condition_problems(
                entry,
                library,
                c,
                i,
            )[j]).0 == condition_target(i),
{
}

proof fn lemma_conditions_targeted(entry: SkillEntry, library: SkillLibrary, n: nat, i: nat)
    requires
        n <= entry.rules.conditions@.len(),
    ensures
        targeted(conditions_problems(entry, library, n), condition_target(i)) == (if i < n {
            condition_problems(entry, library, entry.rules.conditions@[i as int], i)
        } else {
            Seq::<ProblemView>::empty()
        }),
        all_kind(conditions_problems(entry, library, n), 0),
    decreases n,
{
    if n > 0 {
        let m = (n - 1) as nat;
        let last = condition_problems(entry, library, entry.rules.conditions@[m as int], m);
        lemma_conditions_targeted(entry, library, m, i);
        lemma_targeted_concat(conditions_problems(entry, library, m), last, condition_target(i));
        lemma_condition_problems_targets(entry, library, entry.rules.conditions@[m as int], m);
        lemma_condition_target_kind(m);
        if m == i {
            lemma_targeted_all(last, condition_target(i));
            assert(targeted(conditions_problems(entry, library, m), condition_target(i)) + last =~= last);
        } else {
            assert forall|j: int| 0 <= j < last.len() implies (#[trigger] last[j]).0 != condition_target(i) by {
                if last[j].0 == condition_target(i) {
                    lemma_condition_target_injective(m, i);
                }
            }
            lemma_targeted_none(last, condition_target(i));
            assert(targeted(conditions_problems(entry, library, m), condition_target(i)) + Seq::<ProblemView>::empty()
                =~= targeted(conditions_problems(entry, library, m), condition_target(i)));
        }
        let whole = conditions_problems(entry, library, n);
        assert(whole == conditions_problems(entry, library, m) + last);
        assert forall|j: int| 0 <= j < whole.len() implies kind_of(#[trigger] whole[j].0) == 0 by {
            if j >= conditions_problems(entry, library, m).len() {
                assert(whole[j] == last[j - conditions_problems(entry, library, m).len()]);
            } else {
                assert(whole[j] == conditions_problems(entry, library, m)[j]);
            }
        }
    } else {
        assert(targeted(conditions_problems(entry, library, 0), condition_target(i)) =~= Seq::<ProblemView>::empty());
    }
}

proof fn lemma_cues_kind(names: KnownNames, cues: Seq<CueEntry>)
    ensures
        all_kind(cues_problems(names, cues), 1),
    decreases cues.len(),
{
    if cues.len() > 0 {
        lemma_cues_kind(names, cues.drop_last());
        let c = cues.last();
        lemma_cue_target_kind(c.slot@);
        let a = cues_problems(names, cues.drop_last());
        let b = cue_problems(names, c);
        let whole = cues_problems(names, cues);
        assert(whole == a + b);
        assert forall|j: int| 0 <= j < whole.len() implies kind_of(#[trigger] whole[j].0) == 1 by {
            if j >= a.len() {
                assert(whole[j] == b[j - a.len()]);
            } else {
                assert(whole[j] == a[j]);
            }
        }
    }
}

proof fn lemma_tiers_kind(names: KnownNames, entry: SkillEntry, n: nat)
    ensures
        all_kind(tiers_problems(names, entry.timeline.charge_cues@, n), 1),
        forall|j: int|
            0 <= j < tiers_problems(names, entry.timeline.charge_cues@, n).len() ==> (#[trigger] tiers_problems(
                names,
                entry.timeline.charge_cues@,
                n,
            )[j]).0 == charge_target(),
    decreases n,
{
    let tiers = entry.timeline.charge_cues@;
    reveal_strlit("cue:charge");
    assert(kind_of(charge_target()) == 1);
    if n > 0 {
        let m = (n - 1) as nat;
        lemma_tiers_kind(names, entry, m);
        let a = tiers_problems(names, tiers, m);
        let b = tier_problems(names, tiers, m);
        let whole = tiers_problems(names, tiers, n);
        assert(whole == a + b);
        assert forall|j: int| 0 <= j < whole.len() implies (#[trigger] whole[j]).0 == charge_target() by {
            if j >= a.len() {
                assert(whole[j] == b[j - a.len()]);
            } else {
                assert(whole[j] == a[j]);
            }
        }
    }
}

proof fn lemma_charge_kind(names: KnownNames, entry: SkillEntry)
    ensures
        all_kind(charge_problems(names, entry), 1),
        forall|j: int|
            0 <= j < charge_problems(names, entry).len() ==> (#[trigger] charge_problems(names, entry)[j]).0
                == charge_target(),
{
    let tiers = entry.timeline.charge_cues@;
    lemma_tiers_kind(names, entry, tiers.len());
    reveal_strlit("cue:charge");
    assert(kind_of(charge_target()) == 1);
    let a = tiers_problems(names, tiers, tiers.len());
    let whole = charge_problems(names, entry);
    assert forall|j: int| 0 <= j < whole.len() implies (#[trigger] whole[j]).0 == charge_target() by {
        if j < a.len() {
            assert(whole[j] == a[j]);
        }
    }
}

proof fn lemma_paints_kind(names: KnownNames, ws: Seq<CollisionWindow>)
    ensures
        all_kind(paints_problems(names, ws), 2),
    decreases ws.len(),
{
    if ws.len() > 0 {
        lemma_paints_kind(names, ws.drop_last());
        lemma_window_target_kind(ws.last().id@);
        let a = paints_problems(names, ws.drop_last());
        let b = paint_problems(names, ws.last());
        let whole = paints_problems(names, ws);
        assert(whole == a + b);
        assert forall|j: int| 0 <= j < whole.len() implies kind_of(#[trigger] whole[j].0) == 2 by {
            if j >= a.len() {
                assert(whole[j] == b[j - a.len()]);
            } else {
                assert(whole[j] == a[j]);
            }
        }
    }
}

proof fn lemma_on_surface_kind(names: KnownNames, acq: Acquisition)
    ensures
        all_kind(on_surface_problems(names, acq), 2),
    decreases acq,
{
    reveal_strlit("acquisition");
    reveal_strlit("skill");
    assert("acquisition"@.len() != "skill"@.len());
    assert(kind_of("acquisition"@) == 2);
    match acq {
        Acquisition::GroundPoint { on_surface, fallback, .. } => {
            let a = match on_surface {
                Some(req) => if crate::text::taken_has(names.surfaces@, req.surface@) {
                    Seq::<ProblemView>::empty()
                } else {
                    seq![blocking("acquisition"@, crate::validation::msg_on_surface(req.surface@))]
                },
                None => Seq::<ProblemView>::empty(),
            };
            let b = match fallback {
                AcqFallback::Then(inner) => on_surface_problems(names, *inner),
                AcqFallback::Fizzle => Seq::<ProblemView>::empty(),
            };
            if let AcqFallback::Then(inner) = fallback {
                lemma_on_surface_kind(names, *inner);
            }
            let whole = on_surface_problems(names, acq);
            assert(whole == a + b);
            assert forall|j: int| 0 <= j < whole.len() implies kind_of(#[trigger] whole[j].0) == 2 by {
                if j >= a.len() {
                    assert(whole[j] == b[j - a.len()]);
                } else {
                    assert(whole[j] == a[j]);
                }
            }
        },
        Acquisition::HitscanEntity { fallback, .. } => {
            if let AcqFallback::Then(inner) = fallback {
                lemma_on_surface_kind(names, *inner);
            }
        },
        _ => {},
    }
}

proof fn lemma_anchor_kind(ws: Seq<CollisionWindow>)
    ensures
        all_kind(anchor_problems(ws), 2),
    decreases ws.len(),
{
    if ws.len() > 0 {
        lemma_anchor_kind(ws.drop_last());
        lemma_window_target_kind(ws.last().id@);
        let a = anchor_problems(ws.drop_last());
        let whole = anchor_problems(ws);
        assert forall|j: int| 0 <= j < whole.len() implies kind_of(#[trigger] whole[j].0) == 2 by {
            if j < a.len() {
                assert(whole[j] == a[j]);
            }
        }
    }
}

proof fn lemma_tail_kinds(entry: SkillEntry, library: SkillLibrary, check: Result<(), String>)
    ensures
        all_kind(depth_problems(entry, library), 3),
        all_kind_from(structural_problems(entry.timeline.collision_windows@, check), 2),
        forall|j: int|
            0 <= j < depth_problems(entry, library).len() ==> (#[trigger] depth_problems(entry, library)[j]).0
                == "skill"@,
{
    reveal_strlit("skill");
    assert(kind_of("skill"@) == 3);
    let ws = entry.timeline.collision_windows@;
    if let Err(m) = check {
        if exists|j: int| crate::validation::first_named_in(ws, m@, j) {
            let j = choose|j: int| crate::validation::first_named_in(ws, m@, j);
            lemma_window_target_kind(ws[j].id@);
        }
    }
}

/// The report's problems split at its sections: conditions, then the rest.
proof fn lemma_sections(entry: SkillEntry, library: SkillLibrary, names: KnownNames, check: Result<(), String>, t: Seq<char>)
    ensures
        ({
            let ws = entry.timeline.collision_windows@;
            targeted(expected_problems(entry, library, names, check), t) == targeted(
                conditions_problems(entry, library, entry.rules.conditions@.len()),
                t,
            ) + targeted(cues_problems(names, entry.timeline.cues@), t) + targeted(charge_problems(names, entry), t)
                + targeted(paints_problems(names, ws), t) + targeted(
                on_surface_problems(names, entry.timeline.acquisition),
                t,
            ) + targeted(anchor_problems(ws), t) + targeted(depth_problems(entry, library), t) + targeted(
                structural_problems(ws, check),
                t,
            )
        }),
{
    let ws = entry.timeline.collision_windows@;
    let a = conditions_problems(entry, library, entry.rules.conditions@.len());
    let b = cues_problems(names, entry.timeline.cues@);
    let c = charge_problems(names, entry);
    let d = paints_problems(names, ws);
    let e = on_surface_problems(names, entry.timeline.acquisition);
    let f = anchor_problems(ws);
    let g = depth_problems(entry, library);
    let h = structural_problems(ws, check);
    lemma_targeted_concat(a, b, t);
    lemma_targeted_concat(a + b, c, t);
    lemma_targeted_concat(a + b + c, d, t);
    lemma_targeted_concat(a + b + c + d, e, t);
    lemma_targeted_concat(a + b + c + d + e, f, t);
    lemma_targeted_concat(a + b + c + d + e + f, g, t);
    lemma_targeted_concat(a + b + c + d + e + f + g, h, t);
}

/// A trigger card shows exactly its condition's problems: in a report `validate_skill` gives,
/// the problems targeting condition `i` are that condition's rule and nothing else. So a trigger
/// naming no skill at all (neither this one nor any in the library) shows exactly one blocking
/// problem, "trigger has no target skill selected" when it names nothing and "trigger_skill
/// '{t}' does not exist" otherwise; and a trigger whose target is known shows neither message.
pub proof fn law_trigger_card_shows_its_rule(
    entry: SkillEntry,
    library: SkillLibrary,
    names: KnownNames,
    check: Result<(), String>,
    report: Seq<Problem>,
    i: nat,
)
    requires
        views(report) == expected_problems(entry, library, names, check),
        i < entry.rules.conditions@.len(),
    ensures
        ({
            let shown = views(with_target(report, condition_target(i)));
            let c = entry.rules.conditions@[i as int];
            let t = c.trigger_skill@;
            &&& shown == condition_problems(entry, library, c, i)
            &&& !target_known(entry, library, t) ==> shown == seq![
                blocking(condition_target(i), if t.len() == 0 { msg_no_target() } else { msg_dangling(t) }),
            ]
            &&& target_known(entry, library, t) ==> forall|j: int|
                0 <= j < shown.len() ==> (#[trigger] shown[j]).1 != msg_no_target() && shown[j].1 != msg_dangling(t)
        }),
{
    let ct = condition_target(i);
    let ws = entry.timeline.collision_windows@;
    lemma_views_with_target(report, ct);
    lemma_sections(entry, library, names, check, ct);
    lemma_conditions_targeted(entry, library, entry.rules.conditions@.len(), i);
    lemma_condition_target_kind(i);
    lemma_cues_kind(names, entry.timeline.cues@);
    lemma_targeted_other_kind(cues_problems(names, entry.timeline.cues@), ct, 1);
    lemma_charge_kind(names, entry);
    lemma_targeted_other_kind(charge_problems(names, entry), ct, 1);
    lemma_paints_kind(names, ws);
    lemma_targeted_other_kind(paints_problems(names, ws), ct, 2);
    lemma_on_surface_kind(names, entry.timeline.acquisition);
    lemma_targeted_other_kind(on_surface_problems(names, entry.timeline.acquisition), ct, 2);
    lemma_anchor_kind(ws);
    lemma_targeted_other_kind(anchor_problems(ws), ct, 2);
    lemma_tail_kinds(entry, library, check);
    lemma_targeted_other_kind(depth_problems(entry, library), ct, 3);
    lemma_targeted_earlier_kind(structural_problems(ws, check), ct, 2);
    let c = entry.rules.conditions@[i as int];
    let shown = views(with_target(report, ct));
    assert(shown =~= condition_problems(entry, library, c, i));
    let t = c.trigger_skill@;
    if target_known(entry, library, t) {
        reveal_strlit("trigger has no target skill selected");
        reveal_strlit("trigger_skill '");
        reveal_strlit("'");
        reveal_strlit("has no timeline \u{2014} this trigger resolves as an inline packet (legal), not a spatial cast");
        reveal_strlit("has a timeline \u{2014} timeline-target triggers must be additional = true");
        reveal_strlit(
            "EveryNthHit is not supported on timeline-target triggers (its counter lives inside stat_core's calc path, which a timeline-target trigger never reaches)",
        );
        assert(msg_no_target()[0] == 't' && msg_no_target()[1] == 'r');
        assert(msg_dangling(t)[0] == 't' && msg_dangling(t)[1] == 'r');
        assert(msg_lifecycle(t)[0] == '\'');
        assert(msg_inline_packet()[0] == 'h');
        assert(msg_not_additional()[0] == 'h');
        assert(msg_every_nth()[0] == 'E');
    }
}

proof fn lemma_cue_target_injective(a: Seq<char>, b: Seq<char>)
    requires
        cue_target(a) == cue_target(b),
    ensures
        a == b,
{
    reveal_strlit("cue:");
    assert(cue_target(a).subrange(4, cue_target(a).len() as int) =~= a);
    assert(cue_target(b).subrange(4, cue_target(b).len() as int) =~= b);
}

proof fn lemma_charge_target_is_cue_target()
    ensures
        charge_target() == cue_target("charge"@),
{
    reveal_strlit("cue:charge");
    reveal_strlit("cue:");
    reveal_strlit("charge");
    assert(charge_target() =~= cue_target("charge"@));
}

proof fn lemma_cues_without_slot(names: KnownNames, cues: Seq<CueEntry>, s: Seq<char>)
    requires
        forall|k: int| 0 <= k < cues.len() ==> (#[trigger] cues[k]).slot@ != s,
    ensures
        targeted(cues_problems(names, cues), cue_target(s)) == Seq::<ProblemView>::empty(),
    decreases cues.len(),
{
    if cues.len() > 0 {
        let init = cues.drop_last();
        assert forall|k: int| 0 <= k < init.len() implies (#[trigger] init[k]).slot@ != s by {
            assert(init[k] == cues[k]);
        }
        lemma_cues_without_slot(names, init, s);
        let last = cue_problems(names, cues.last());
        lemma_targeted_concat(cues_problems(names, init), last, cue_target(s));
        assert(cues[cues.len() - 1].slot@ != s);
        assert forall|j: int| 0 <= j < last.len() implies (#[trigger] last[j]).0 != cue_target(s) by {
            if last[j].0 == cue_target(s) {
                lemma_cue_target_injective(cues.last().slot@, s);
            }
        }
        lemma_targeted_none(last, cue_target(s));
        assert(Seq::<ProblemView>::empty() + Seq::<ProblemView>::empty() =~= Seq::<ProblemView>::empty());
    }
}

proof fn lemma_cues_with_slot(names: KnownNames, cues: Seq<CueEntry>, j: int)
    requires
        0 <= j < cues.len(),
        forall|k: int| 0 <= k < cues.len() && k != j ==> (#[trigger] cues[k]).slot@ != cues[j].slot@,
    ensures
        targeted(cues_problems(names, cues), cue_target(cues[j].slot@)) == cue_problems(names, cues[j]),
    decreases cues.len(),
{
    let s = cues[j].slot@;
    let t = cue_target(s);
    let init = cues.drop_last();
    let last = cue_problems(names, cues.last());
    lemma_targeted_concat(cues_problems(names, init), last, t);
    if j == cues.len() - 1 {
        assert forall|k: int| 0 <= k < init.len() implies (#[trigger] init[k]).slot@ != s by {
            assert(init[k] == cues[k]);
        }
        lemma_cues_without_slot(names, init, s);
        lemma_targeted_all(last, t);
        assert(Seq::<ProblemView>::empty() + last =~= last);
    } else {
        assert(init[j] == cues[j]);
        assert forall|k: int| 0 <= k < init.len() && k != j implies (#[trigger] init[k]).slot@ != init[j].slot@ by {
            assert(init[k] == cues[k]);
        }
        lemma_cues_with_slot(names, init, j);
        assert(cues[cues.len() - 1].slot@ != s);
        assert forall|i: int| 0 <= i < last.len() implies (#[trigger] last[i]).0 != t by {
            if last[i].0 == t {
                lemma_cue_target_injective(cues.last().slot@, s);
            }
        }
        lemma_targeted_none(last, t);
        assert(cue_problems(names, cues[j]) + Seq::<ProblemView>::empty() =~= cue_problems(names, cues[j]));
    }
}

/// `m` starts `"charge tier"`.
pub open spec fn charge_message(m: Seq<char>) -> bool {
    m.len() >= 11 && m.subrange(0, 11) == "charge tier"@
}

proof fn lemma_charge_prefix(rest: Seq<char>)
    ensures
        charge_message("charge tier "@ + rest),
{
    reveal_strlit("charge tier ");
    reveal_strlit("charge tier");
    assert(("charge tier "@ + rest).subrange(0, 11) =~= "charge tier"@);
}

proof fn lemma_tier_messages(names: KnownNames, tiers: Seq<crate::model::ChargeTier>, n: nat)
    requires
        n <= tiers.len(),
    ensures
        forall|j: int|
            0 <= j < tiers_problems(names, tiers, n).len() ==> charge_message(
                (#[trigger] tiers_problems(names, tiers, n)[j]).1,
            ),
    decreases n,
{
    if n > 0 {
        let i = (n - 1) as nat;
        lemma_tier_messages(names, tiers, i);
        let d = decimal(i);
        lemma_charge_prefix(d + " threshold must be within 0-100%"@);
        assert(msg_tier_range(i) == "charge tier "@ + (d + " threshold must be within 0-100%"@));
        if i > 0 {
            lemma_charge_prefix(d + " threshold must be greater than tier "@ + decimal((i - 1) as nat) + "'s"@);
            assert(msg_tier_order(i) == "charge tier "@ + (d + " threshold must be greater than tier "@ + decimal(
                (i - 1) as nat,
            ) + "'s"@));
        }
        lemma_charge_prefix(d + " may not use Follow attach"@);
        assert(msg_tier_follow(i) == "charge tier "@ + (d + " may not use Follow attach"@));
        lemma_charge_prefix(d + " Bone attach needs a socket name"@);
        assert(msg_tier_socket(i) == "charge tier "@ + (d + " Bone attach needs a socket name"@));
        let tier = tiers[i as int];
        if let Some(e) = tier.cue.effect {
            lemma_charge_prefix(d + " references unknown Effect preset '"@ + e@ + "'"@);
            assert(msg_tier_effect(i, e@) == "charge tier "@ + (d + " references unknown Effect preset '"@ + e@ + "'"@));
        }
        if let Some(a) = tier.cue.anim {
            lemma_charge_prefix(d + " references unknown animation clip '"@ + a@ + "'"@);
            assert(msg_tier_anim(i, a@) == "charge tier "@ + (d + " references unknown animation clip '"@ + a@ + "'"@));
        }
        let a = tiers_problems(names, tiers, i);
        let b = crate::validation::tier_problems(names, tiers, i);
        let whole = tiers_problems(names, tiers, n);
        assert(whole == a + b);
        assert forall|j: int| 0 <= j < whole.len() implies charge_message((#[trigger] whole[j]).1) by {
            if j < a.len() {
                assert(whole[j] == a[j]);
            } else {
                assert(whole[j] == b[j - a.len()]);
            }
        }
    }
}

proof fn lemma_charge_messages(names: KnownNames, entry: SkillEntry)
    ensures
        forall|j: int|
            0 <= j < charge_problems(names, entry).len() ==> charge_message(
                (#[trigger] charge_problems(names, entry)[j]).1,
            ),
{
    let tiers = entry.timeline.charge_cues@;
    lemma_tier_messages(names, tiers, tiers.len());
    reveal_strlit("charge tiers are authored but Chargeable is off - they never play");
    reveal_strlit("charge tier");
    assert(msg_tiers_unplayed().subrange(0, 11) =~= "charge tier"@);
    let a = tiers_problems(names, tiers, tiers.len());
    let whole = charge_problems(names, entry);
    assert forall|j: int| 0 <= j < whole.len() implies charge_message((#[trigger] whole[j]).1) by {
        if j < a.len() {
            assert(whole[j] == a[j]);
        }
    }
}

/// A cue binding's message starts `"cue '"`, so it is no charge message.
proof fn lemma_cue_messages_not_charge(s: Seq<char>, x: Seq<char>)
    ensures
        !charge_message(msg_cue_effect(s, x)),
        !charge_message(msg_cue_anim(s, x)),
{
    reveal_strlit("cue '");
    reveal_strlit("charge tier");
    assert(msg_cue_effect(s, x)[1] == 'u');
    assert(msg_cue_anim(s, x)[1] == 'u');
    assert("charge tier"@[1] == 'h');
    if msg_cue_effect(s, x).len() >= 11 && msg_cue_effect(s, x).subrange(0, 11) == "charge tier"@ {
        assert(msg_cue_effect(s, x).subrange(0, 11)[1] == 'h');
    }
    if msg_cue_anim(s, x).len() >= 11 && msg_cue_anim(s, x).subrange(0, 11) == "charge tier"@ {
        assert(msg_cue_anim(s, x).subrange(0, 11)[1] == 'h');
    }
}

/// An effect message and a clip message of one slot never coincide.
proof fn lemma_cue_effect_ne_anim(s: Seq<char>, e: Seq<char>, a: Seq<char>)
    ensures
        msg_cue_effect(s, e) != msg_cue_anim(s, a),
{
    reveal_strlit("cue '");
    reveal_strlit("' references unknown Effect preset '");
    reveal_strlit("' references unknown animation clip '");
    let k: int = 5 + s.len() as int + 21;
    assert(msg_cue_effect(s, e)[k] == 'E');
    assert(msg_cue_anim(s, a)[k] == 'a');
}

/// A cue row shows its binding's rules: in a report `validate_skill` gives for a timeline whose
/// bindings are in slot order (a map of bindings, each slot once), the problems targeting the
/// slot of binding `j` are that binding's problems, followed — for the `charge` row — by the
/// charge tiers'. So an effect preset named in neither the Effect nor the Vfx library shows a
/// blocking problem there exactly when it is unknown, and an animation clip shows one exactly
/// when a clip list is loaded and lacks it (with no clip list loaded, clips go unchecked).
pub proof fn law_cue_row_shows_its_binding_rules(
    entry: SkillEntry,
    library: SkillLibrary,
    names: KnownNames,
    check: Result<(), String>,
    report: Seq<Problem>,
    j: int,
)
    requires
        views(report) == expected_problems(entry, library, names, check),
        0 <= j < entry.timeline.cues@.len(),
        cues_in_slot_order(entry.timeline),
    ensures
        ({
            let c = entry.timeline.cues@[j];
            let s = c.slot@;
            let t = cue_target(s);
            let shown = views(with_target(report, t));
            &&& shown == cue_problems(names, c) + (if s == "charge"@ {
                charge_problems(names, entry)
            } else {
                Seq::<ProblemView>::empty()
            })
            &&& c.binding.effect matches Some(n) ==> (shown.contains(blocking(t, msg_cue_effect(s, n@)))
                <==> !known_effect(names, n@))
            &&& c.binding.anim matches Some(a) ==> (shown.contains(blocking(t, msg_cue_anim(s, a@)))
                <==> unknown_clip(names, a@))
        }),
{
    let cues = entry.timeline.cues@;
    let c = cues[j];
    let s = c.slot@;
    let t = cue_target(s);
    let ws = entry.timeline.collision_windows@;
    assert forall|k: int| 0 <= k < cues.len() && k != j implies (#[trigger] cues[k]).slot@ != cues[j].slot@ by {
        if k < j {
            assert(seq_lt(cues[k].slot@, cues[j].slot@));
        } else {
            assert(seq_lt(cues[j].slot@, cues[k].slot@));
        }
        lemma_seq_lt_irreflexive(cues[j].slot@);
    }
    lemma_views_with_target(report, t);
    lemma_sections(entry, library, names, check, t);
    lemma_cue_target_kind(s);
    lemma_conditions_targeted(entry, library, entry.rules.conditions@.len(), 0);
    lemma_targeted_other_kind(conditions_problems(entry, library, entry.rules.conditions@.len()), t, 0);
    lemma_cues_with_slot(names, cues, j);
    lemma_charge_kind(names, entry);
    lemma_charge_target_is_cue_target();
    let ch = charge_problems(names, entry);
    if s == "charge"@ {
        lemma_targeted_all(ch, t);
    } else {
        assert forall|i: int| 0 <= i < ch.len() implies (#[trigger] ch[i]).0 != t by {
            if ch[i].0 == t {
                lemma_cue_target_injective("charge"@, s);
            }
        }
        lemma_targeted_none(ch, t);
    }
    lemma_paints_kind(names, ws);
    lemma_targeted_other_kind(paints_problems(names, ws), t, 2);
    lemma_on_surface_kind(names, entry.timeline.acquisition);
    lemma_targeted_other_kind(on_surface_problems(names, entry.timeline.acquisition), t, 2);
    lemma_anchor_kind(ws);
    lemma_targeted_other_kind(anchor_problems(ws), t, 2);
    lemma_tail_kinds(entry, library, check);
    lemma_targeted_other_kind(depth_problems(entry, library), t, 3);
    lemma_targeted_earlier_kind(structural_problems(ws, check), t, 2);
    let extra = if s == "charge"@ { ch } else { Seq::<ProblemView>::empty() };
    let shown = views(with_target(report, t));
    assert(shown =~= cue_problems(names, c) + extra);
    lemma_charge_messages(names, entry);
    let cp = cue_problems(names, c);
    if let Some(n) = c.binding.effect {
        let x = blocking(t, msg_cue_effect(s, n@));
        if !known_effect(names, n@) {
            assert(cp[0] == x);
            assert(shown[0] == x);
        } else if shown.contains(x) {
            let k = choose|k: int| 0 <= k < shown.len() && shown[k] == x;
            lemma_cue_messages_not_charge(s, n@);
            if k < cp.len() {
                assert(cp[k] == x);
                if let Some(a) = c.binding.anim {
                    lemma_cue_effect_ne_anim(s, n@, a@);
                }
            } else {
                assert(shown[k] == extra[k - cp.len()]);
            }
        }
    }
    if let Some(a) = c.binding.anim {
        let x = blocking(t, msg_cue_anim(s, a@));
        let ep = match c.binding.effect {
            Some(e) => if known_effect(names, e@) {
                Seq::<ProblemView>::empty()
            } else {
                seq![blocking(t, msg_cue_effect(s, e@))]
            },
            None => Seq::<ProblemView>::empty(),
        };
        assert(cp == ep + (if unknown_clip(names, a@) { seq![x] } else { Seq::<ProblemView>::empty() }));
        if unknown_clip(names, a@) {
            assert(cp[ep.len() as int] == x);
            assert(shown[ep.len() as int] == x);
        } else if shown.contains(x) {
            let k = choose|k: int| 0 <= k < shown.len() && shown[k] == x;
            lemma_cue_messages_not_charge(s, a@);
            if k < cp.len() {
                assert(cp[k] == x);
                if let Some(e) = c.binding.effect {
                    lemma_cue_effect_ne_anim(s, e@, a@);
                }
            } else {
                assert(shown[k] == extra[k - cp.len()]);
            }
        }
    }
}

proof fn lemma_decimal_digits(n: nat)
    ensures
        decimal(n).len() >= 1,
        forall|j: int| 0 <= j < decimal(n).len() ==> 48 <= (#[trigger] decimal(n)[j] as int) <= 57,
    decreases n,
{
    if n < 10 {
        assert((digit_char(n) as int) == n + 48);
    } else {
        lemma_decimal_digits(n / 10);
        assert((digit_char(n % 10) as int) == n % 10 + 48);
        let d = decimal(n);
        assert(d == decimal(n / 10).push(digit_char(n % 10)));
        assert forall|j: int| 0 <= j < d.len() implies 48 <= (#[trigger] d[j] as int) <= 57 by {
            if j < d.len() - 1 {
                assert(d[j] == decimal(n / 10)[j]);
            }
        }
    }
}

/// `c` is no decimal digit.
pub open spec fn non_digit(c: char) -> bool {
    (c as int) < 48 || (c as int) > 57
}

/// Two tier messages that are equal name the same tier and say the same thing after its number.
proof fn lemma_numbered(a: nat, b: nat, q1: Seq<char>, q2: Seq<char>)
    requires
        "charge tier "@ + decimal(a) + q1 == "charge tier "@ + decimal(b) + q2,
        q1.len() > 0 && non_digit(q1[0]),
        q2.len() > 0 && non_digit(q2[0]),
    ensures
        a == b,
        q1 == q2,
{
    reveal_strlit("charge tier ");
    lemma_decimal_digits(a);
    lemma_decimal_digits(b);
    let x = "charge tier "@ + decimal(a) + q1;
    let la = decimal(a).len() as int;
    let lb = decimal(b).len() as int;
    if la < lb {
        assert(x[12 + la] == q1[0]);
        assert(("charge tier "@ + decimal(b) + q2)[12 + la] == decimal(b)[la]);
    } else if lb < la {
        assert(x[12 + lb] == decimal(a)[lb]);
        assert(("charge tier "@ + decimal(b) + q2)[12 + lb] == q2[0]);
    } else {
        assert(x.subrange(12, 12 + la) =~= decimal(a));
        assert(("charge tier "@ + decimal(b) + q2).subrange(12, 12 + la) =~= decimal(b));
        lemma_decimal_injective(a, b);
        assert(x.subrange(12 + la, x.len() as int) =~= q1);
        assert(("charge tier "@ + decimal(b) + q2).subrange(12 + la, x.len() as int) =~= q2);
    }
}

pub open spec fn q_range() -> Seq<char> {
    " threshold must be within 0-100%"@
}

pub open spec fn q_order(i: nat) -> Seq<char> {
    " threshold must be greater than tier "@ + decimal((i - 1) as nat) + "'s"@
}

/// Each tier message, as "charge tier " + its tier + what follows.
proof fn lemma_tier_message_shapes(i: nat, e: Seq<char>)
    ensures
        msg_tier_range(i) == "charge tier "@ + decimal(i) + q_range(),
        msg_tier_order(i) == "charge tier "@ + decimal(i) + q_order(i),
        msg_tier_follow(i) == "charge tier "@ + decimal(i) + " may not use Follow attach"@,
        msg_tier_socket(i) == "charge tier "@ + decimal(i) + " Bone attach needs a socket name"@,
        msg_tier_effect(i, e) == "charge tier "@ + decimal(i) + (" references unknown Effect preset '"@ + e + "'"@),
        msg_tier_anim(i, e) == "charge tier "@ + decimal(i) + (" references unknown animation clip '"@ + e + "'"@),
        q_range().len() > 19 && q_order(i).len() > 19,
        (" may not use Follow attach"@).len() > 1 && (" Bone attach needs a socket name"@).len() > 1,
        (" references unknown Effect preset '"@ + e + "'"@).len() > 1,
        (" references unknown animation clip '"@ + e + "'"@).len() > 1,
        non_digit(q_range()[0]) && non_digit(q_order(i)[0]) && non_digit((" may not use Follow attach"@)[0])
            && non_digit((" Bone attach needs a socket name"@)[0]) && non_digit(
            (" references unknown Effect preset '"@ + e + "'"@)[0],
        ) && non_digit((" references unknown animation clip '"@ + e + "'"@)[0]),
        q_range()[19] == 'w' && q_order(i)[19] == 'g',
        q_range()[1] == 't' && q_order(i)[1] == 't',
        (" may not use Follow attach"@)[0] == ' ' && (" may not use Follow attach"@)[1] == 'm',
        (" Bone attach needs a socket name"@)[0] == ' ' && (" Bone attach needs a socket name"@)[1] == 'B',
        (" references unknown Effect preset '"@ + e + "'"@)[0] == ' ' && (" references unknown Effect preset '"@ + e
            + "'"@)[1] == 'r',
        (" references unknown animation clip '"@ + e + "'"@)[0] == ' ' && (" references unknown animation clip '"@
            + e + "'"@)[1] == 'r',
{
    reveal_strlit(" threshold must be within 0-100%");
    reveal_strlit(" threshold must be greater than tier ");
    reveal_strlit(" may not use Follow attach");
    reveal_strlit(" Bone attach needs a socket name");
    reveal_strlit(" references unknown Effect preset '");
    reveal_strlit(" references unknown animation clip '");
    assert(msg_tier_order(i) =~= "charge tier "@ + decimal(i) + q_order(i));
    assert(msg_tier_effect(i, e) =~= "charge tier "@ + decimal(i) + (" references unknown Effect preset '"@ + e + "'"@));
    assert(msg_tier_anim(i, e) =~= "charge tier "@ + decimal(i) + (" references unknown animation clip '"@ + e + "'"@));
}

/// Tier `i`'s threshold lies in `[0, 1]`.
pub open spec fn in_unit(th: crate::floatbits::F32Bits) -> bool {
    f32_le(F32_ZERO, th) && f32_le(th, F32_ONE)
}

proof fn lemma_tier_contains(names: KnownNames, tiers: Seq<ChargeTier>, m: nat, i: nat)
    requires
        m < tiers.len(),
    ensures
        tier_problems(names, tiers, m).contains(blocking(charge_target(), msg_tier_range(i))) <==> (m == i
            && !in_unit(tiers[i as int].threshold)),
        tier_problems(names, tiers, m).contains(blocking(charge_target(), msg_tier_order(i))) <==> (m == i && i > 0
            && f32_le(tiers[i as int].threshold, tiers[i - 1].threshold)),
{
    let tp = tier_problems(names, tiers, m);
    let r = tier_range_problems(tiers, m);
    let o = tier_order_problems(tiers, m);
    let at = tier_attach_problems(tiers[m as int], m);
    let ef = tier_effect_problems(names, tiers[m as int], m);
    let an = tier_anim_problems(names, tiers[m as int], m);
    assert(tp == r + o + at + ef + an);
    let xr = blocking(charge_target(), msg_tier_range(i));
    let xo = blocking(charge_target(), msg_tier_order(i));
    let t = tiers[m as int];
    let e = match t.cue.effect { Some(e) => e@, None => seq![] };
    let a = match t.cue.anim { Some(a) => a@, None => seq![] };
    lemma_tier_message_shapes(m, e);
    lemma_tier_message_shapes(i, e);
    lemma_tier_message_shapes(m, a);
    if tp.contains(xr) {
        let k = choose|k: int| 0 <= k < tp.len() && tp[k] == xr;
        let y = tp[k];
        if k < r.len() {
            assert(y == r[k]);
            lemma_numbered(m, i, q_range(), q_range());
        } else if k < r.len() + o.len() {
            assert(y == o[k - r.len()]);
            lemma_numbered(m, i, q_order(m), q_range());
        } else if k < r.len() + o.len() + at.len() {
            assert(y == at[k - r.len() - o.len()]);
            if y.1 == msg_tier_follow(m) {
                lemma_numbered(m, i, " may not use Follow attach"@, q_range());
            } else {
                lemma_numbered(m, i, " Bone attach needs a socket name"@, q_range());
            }
        } else if k < r.len() + o.len() + at.len() + ef.len() {
            assert(y == ef[k - r.len() - o.len() - at.len()]);
            lemma_numbered(m, i, " references unknown Effect preset '"@ + e + "'"@, q_range());
        } else {
            assert(y == an[k - r.len() - o.len() - at.len() - ef.len()]);
            lemma_numbered(m, i, " references unknown animation clip '"@ + a + "'"@, q_range());
        }
    }
    if m == i && !in_unit(tiers[i as int].threshold) {
        assert(tp[0] == xr);
    }
    if tp.contains(xo) {
        let k = choose|k: int| 0 <= k < tp.len() && tp[k] == xo;
        let y = tp[k];
        lemma_tier_message_shapes(i, e);
        if k < r.len() {
            assert(y == r[k]);
            lemma_numbered(m, i, q_range(), q_order(i));
        } else if k < r.len() + o.len() {
            assert(y == o[k - r.len()]);
            lemma_numbered(m, i, q_order(m), q_order(i));
        } else if k < r.len() + o.len() + at.len() {
            assert(y == at[k - r.len() - o.len()]);
            if y.1 == msg_tier_follow(m) {
                lemma_numbered(m, i, " may not use Follow attach"@, q_order(i));
            } else {
                lemma_numbered(m, i, " Bone attach needs a socket name"@, q_order(i));
            }
        } else if k < r.len() + o.len() + at.len() + ef.len() {
            assert(y == ef[k - r.len() - o.len() - at.len()]);
            lemma_numbered(m, i, " references unknown Effect preset '"@ + e + "'"@, q_order(i));
        } else {
            assert(y == an[k - r.len() - o.len() - at.len() - ef.len()]);
            lemma_numbered(m, i, " references unknown animation clip '"@ + a + "'"@, q_order(i));
        }
    }
    if m == i && i > 0 && f32_le(tiers[i as int].threshold, tiers[i - 1].threshold) {
        assert(tp[r.len() as int] == xo);
    }
}

proof fn lemma_contains_concat(a: Seq<ProblemView>, b: Seq<ProblemView>, x: ProblemView)
    ensures
        (a + b).contains(x) <==> (a.contains(x) || b.contains(x)),
{
    let w = a + b;
    if a.contains(x) {
        let k = choose|k: int| 0 <= k < a.len() && a[k] == x;
        assert(w[k] == x);
    }
    if b.contains(x) {
        let k = choose|k: int| 0 <= k < b.len() && b[k] == x;
        assert(w[a.len() + k] == x);
    }
    if w.contains(x) {
        let k = choose|k: int| 0 <= k < w.len() && w[k] == x;
        if k < a.len() {
            assert(a[k] == x);
        } else {
            assert(b[k - a.len()] == x);
        }
    }
}

/// Over the first `n` tiers, the threshold messages name exactly the tiers that break the rules.
proof fn lemma_tiers_contains(names: KnownNames, tiers: Seq<ChargeTier>, n: nat, i: nat)
    requires
        n <= tiers.len(),
    ensures
        tiers_problems(names, tiers, n).contains(blocking(charge_target(), msg_tier_range(i))) <==> (i < n
            && !in_unit(tiers[i as int].threshold)),
        tiers_problems(names, tiers, n).contains(blocking(charge_target(), msg_tier_order(i))) <==> (i < n && i > 0
            && f32_le(tiers[i as int].threshold, tiers[i - 1].threshold)),
    decreases n,
{
    if n > 0 {
        let m = (n - 1) as nat;
        lemma_tiers_contains(names, tiers, m, i);
        lemma_tier_contains(names, tiers, m, i);
        let a = tiers_problems(names, tiers, m);
        let b = tier_problems(names, tiers, m);
        assert(tiers_problems(names, tiers, n) == a + b);
        lemma_contains_concat(a, b, blocking(charge_target(), msg_tier_range(i)));
        lemma_contains_concat(a, b, blocking(charge_target(), msg_tier_order(i)));
    }
}

/// What a filter keeps was there before.
proof fn lemma_targeted_in(ps: Seq<ProblemView>, t: Seq<char>, x: ProblemView)
    requires
        targeted(ps, t).contains(x),
    ensures
        ps.contains(x),
    decreases ps.len(),
{
    if ps.len() > 0 {
        let init = ps.drop_last();
        let f = targeted(init, t);
        if ps.last() == x {
            assert(ps[ps.len() - 1] == x);
        } else {
            if ps.last().0 == t {
                let k = choose|k: int| 0 <= k < targeted(ps, t).len() && targeted(ps, t)[k] == x;
                assert(targeted(ps, t) == f.push(ps.last()));
                assert(k < f.len());
                assert(f[k] == x);
            }
            lemma_targeted_in(init, t, x);
            let k = choose|k: int| 0 <= k < init.len() && init[k] == x;
            assert(ps[k] == x);
        }
    }
}

/// Every cue binding's problem carries a `cue '…` message, never a charge tier's.
proof fn lemma_cues_not_charge(names: KnownNames, cues: Seq<CueEntry>)
    ensures
        forall|j: int|
            0 <= j < cues_problems(names, cues).len() ==> !charge_message(
                (#[trigger] cues_problems(names, cues)[j]).1,
            ),
    decreases cues.len(),
{
    if cues.len() > 0 {
        lemma_cues_not_charge(names, cues.drop_last());
        let c = cues.last();
        let a = cues_problems(names, cues.drop_last());
        let b = cue_problems(names, c);
        let whole = cues_problems(names, cues);
        assert(whole == a + b);
        if let Some(e) = c.binding.effect {
            lemma_cue_messages_not_charge(c.slot@, e@);
        }
        if let Some(x) = c.binding.anim {
            lemma_cue_messages_not_charge(c.slot@, x@);
        }
        assert forall|j: int| 0 <= j < whole.len() implies !charge_message((#[trigger] whole[j]).1) by {
            if j < a.len() {
                assert(whole[j] == a[j]);
            } else {
                assert(whole[j] == b[j - a.len()]);
            }
        }
    }
}

/// The `charge` cue row reports the tier thresholds: in a report `validate_skill` gives, it shows
/// a blocking "charge tier {i} threshold must be within 0-100%" exactly when tier `i`'s threshold
/// lies outside `[0, 1]`, and a blocking "charge tier {i} threshold must be greater than tier
/// {i-1}'s" exactly when `i` is not the first tier and its threshold is not above the previous
/// tier's (so equal thresholds are refused).
pub proof fn law_charge_row_reports_tier_thresholds(
    entry: SkillEntry,
    library: SkillLibrary,
    names: KnownNames,
    check: Result<(), String>,
    report: Seq<Problem>,
    i: nat,
)
    requires
        views(report) == expected_problems(entry, library, names, check),
        i < entry.timeline.charge_cues@.len(),
    ensures
        ({
            let tiers = entry.timeline.charge_cues@;
            let shown = views(with_target(report, charge_target()));
            &&& shown.contains(blocking(charge_target(), msg_tier_range(i))) <==> !in_unit(
                tiers[i as int].threshold,
            )
            &&& shown.contains(blocking(charge_target(), msg_tier_order(i))) <==> (i > 0 && f32_le(
                tiers[i as int].threshold,
                tiers[i - 1].threshold,
            ))
        }),
{
    let t = charge_target();
    let tiers = entry.timeline.charge_cues@;
    let ws = entry.timeline.collision_windows@;
    lemma_views_with_target(report, t);
    lemma_sections(entry, library, names, check, t);
    reveal_strlit("cue:charge");
    assert(kind_of(t) == 1);
    lemma_conditions_targeted(entry, library, entry.rules.conditions@.len(), 0);
    lemma_targeted_other_kind(conditions_problems(entry, library, entry.rules.conditions@.len()), t, 0);
    lemma_charge_kind(names, entry);
    let ch = charge_problems(names, entry);
    lemma_targeted_all(ch, t);
    lemma_paints_kind(names, ws);
    lemma_targeted_other_kind(paints_problems(names, ws), t, 2);
    lemma_on_surface_kind(names, entry.timeline.acquisition);
    lemma_targeted_other_kind(on_surface_problems(names, entry.timeline.acquisition), t, 2);
    lemma_anchor_kind(ws);
    lemma_targeted_other_kind(anchor_problems(ws), t, 2);
    lemma_tail_kinds(entry, library, check);
    lemma_targeted_other_kind(depth_problems(entry, library), t, 3);
    lemma_targeted_earlier_kind(structural_problems(ws, check), t, 2);
    let cp = targeted(cues_problems(names, entry.timeline.cues@), t);
    let shown = views(with_target(report, t));
    assert(shown =~= cp + ch);
    let tp = tiers_problems(names, tiers, tiers.len());
    let tail = if tiers.len() > 0 && !entry.timeline.chargeable {
        seq![crate::validation::warning(t, msg_tiers_unplayed())]
    } else {
        Seq::<ProblemView>::empty()
    };
    assert(ch == tp + tail);
    lemma_tiers_contains(names, tiers, tiers.len(), i);
    lemma_cues_not_charge(names, entry.timeline.cues@);
    let xr = blocking(t, msg_tier_range(i));
    let xo = blocking(t, msg_tier_order(i));
    lemma_tier_message_shapes(i, seq![]);
    lemma_charge_prefix(decimal(i) + q_range());
    lemma_charge_prefix(decimal(i) + q_order(i));
    assert(msg_tier_range(i) == "charge tier "@ + (decimal(i) + q_range()));
    assert(msg_tier_order(i) == "charge tier "@ + (decimal(i) + q_order(i)));
    let cues_all = cues_problems(names, entry.timeline.cues@);
    if cp.contains(xr) {
        lemma_targeted_in(cues_all, t, xr);
        let k = choose|k: int| 0 <= k < cues_all.len() && cues_all[k] == xr;
        assert(!charge_message(cues_all[k].1));
    }
    if cp.contains(xo) {
        lemma_targeted_in(cues_all, t, xo);
        let k = choose|k: int| 0 <= k < cues_all.len() && cues_all[k] == xo;
        assert(!charge_message(cues_all[k].1));
    }
    lemma_contains_concat(cp, ch, xr);
    lemma_contains_concat(cp, ch, xo);
    lemma_contains_concat(tp, tail, xr);
    lemma_contains_concat(tp, tail, xo);
}

/// The skill row shows the depth rule: in a report `validate_skill` gives, the problems that
/// target the whole skill are its depth problem followed by the structural check's error when
/// that names no window. So with a clean structural check the row holds exactly one problem,
/// the blocking "trigger graph exceeds depth 8 from this skill (possible cycle)", when some chain
/// of trigger hops leaving the skill is longer than `MAX_TRIGGER_DEPTH` hops (see
/// `law_depth_rule_is_longest_chain`), and nothing otherwise.
pub proof fn law_skill_row_shows_the_depth_rule(
    entry: SkillEntry,
    library: SkillLibrary,
    names: KnownNames,
    check: Result<(), String>,
    report: Seq<Problem>,
)
    requires
        views(report) == expected_problems(entry, library, names, check),
    ensures
        views(with_target(report, "skill"@)) == depth_problems(entry, library) + targeted(
            structural_problems(entry.timeline.collision_windows@, check),
            "skill"@,
        ),
        check is Ok ==> views(with_target(report, "skill"@)) == (if exists|p: Seq<Seq<char>>|
            #[trigger] trigger_chain(entry, library, p, entry.key()) && p.len() > MAX_TRIGGER_DEPTH + 1 {
            seq![blocking("skill"@, msg_depth())]
        } else {
            Seq::<ProblemView>::empty()
        }),
{
    let t = "skill"@;
    let ws = entry.timeline.collision_windows@;
    reveal_strlit("skill");
    assert(kind_of(t) == 3);
    lemma_views_with_target(report, t);
    lemma_sections(entry, library, names, check, t);
    lemma_conditions_targeted(entry, library, entry.rules.conditions@.len(), 0);
    lemma_targeted_other_kind(conditions_problems(entry, library, entry.rules.conditions@.len()), t, 0);
    lemma_cues_kind(names, entry.timeline.cues@);
    lemma_targeted_other_kind(cues_problems(names, entry.timeline.cues@), t, 1);
    lemma_charge_kind(names, entry);
    lemma_targeted_other_kind(charge_problems(names, entry), t, 1);
    lemma_paints_kind(names, ws);
    lemma_targeted_other_kind(paints_problems(names, ws), t, 2);
    lemma_on_surface_kind(names, entry.timeline.acquisition);
    lemma_targeted_other_kind(on_surface_problems(names, entry.timeline.acquisition), t, 2);
    lemma_anchor_kind(ws);
    lemma_targeted_other_kind(anchor_problems(ws), t, 2);
    lemma_tail_kinds(entry, library, check);
    lemma_targeted_all(depth_problems(entry, library), t);
    let shown = views(with_target(report, t));
    assert(shown =~= depth_problems(entry, library) + targeted(structural_problems(ws, check), t));
    law_depth_rule_is_longest_chain(entry, library);
    if check is Ok {
        assert(targeted(structural_problems(ws, check), t) =~= Seq::<ProblemView>::empty());
        assert(shown =~= depth_problems(entry, library));
    }
}

} // verus!
