//! How many strikes a cast can land — the integer half of the Rules region's live readout.
//!
//! - one strike per collision window that is both scheduled (on the phase schedule, not a
//!   template only an emitter instantiates) and striking;
//! - plus `chain_count` when the skill chains;
//! - plus one per trigger condition whose target skill has a real timeline (a one-level-deep
//!   approximation: the triggered skill's own triggers and chains are not followed, so the total
//!   is flagged approximate whenever this part is nonzero).
//!
//! Emitted template instances are excluded from the count entirely and only flagged: they spawn
//! for as long as their parent volume lives, which is not a fixed number.
use vstd::prelude::*;

use crate::library::{SkillEntry, SkillLibrary};
use crate::model::{CastTimeline, CollisionWindow, SkillCondition, SkillRules, WindowSpawn};
use crate::text::{contains_str, taken_has};

verus! {

/// How a skill's max-strike count breaks down.
#[derive(Debug, Clone, Copy, PartialEq, Eq, Default, Structural)]
pub struct StrikeBreakdown {
    /// Scheduled, striking collision windows.
    pub scheduled: u32,
    /// `chain_count` when the skill chains, else 0.
    pub chain: u32,
    /// One per trigger condition whose target has a real timeline.
    pub triggered: u32,
    /// Some window carries an emitter (its instances are not counted).
    pub has_unbounded_emitter: bool,
}

impl StrikeBreakdown {
    /// `scheduled + chain + triggered`, floored at 1.
    pub open spec fn spec_total(self) -> int {
        let sum = self.scheduled + self.chain + self.triggered;
        if sum < 1 {
            1
        } else {
            sum
        }
    }

    /// The glanceable total: scheduled + chain + triggered, floored at 1 so a skill that lands no
    /// scheduled strike does not read as "deals damage zero times".
    pub fn total(&self) -> (r: u32)
        requires
            self.scheduled + self.chain + self.triggered <= u32::MAX,
        ensures
            r == self.spec_total(),
    {
        let sum = self.scheduled + self.chain + self.triggered;
        if sum < 1 {
            1
        } else {
            sum
        }
    }

    /// True when the total includes a triggered-skill contribution.
    pub fn approximate(&self) -> (r: bool)
        ensures
            r == (self.triggered > 0),
    {
        self.triggered > 0
    }
}

/// Scheduled, striking windows among `ws`.
pub open spec fn scheduled_striking(ws: Seq<CollisionWindow>) -> nat
    decreases ws.len(),
{
    if ws.len() == 0 {
        0
    } else {
        scheduled_striking(ws.drop_last()) + (if ws.last().strikes && ws.last().spawn is Scheduled {
            1nat
        } else {
            0nat
        })
    }
}

/// Conditions among `conds` whose target satisfies `has_timeline`.
pub open spec fn triggered_count(conds: Seq<SkillCondition>, has_timeline: spec_fn(Seq<char>) -> bool) -> nat
    decreases conds.len(),
{
    if conds.len() == 0 {
        0
    } else {
        triggered_count(conds.drop_last(), has_timeline) + (if has_timeline(conds.last().trigger_skill@) {
            1nat
        } else {
            0nat
        })
    }
}

/// Some window of `ws` carries an emitter.
pub open spec fn any_emitter(ws: Seq<CollisionWindow>) -> bool {
    exists|i: int| 0 <= i < ws.len() && (#[trigger] ws[i]).emitter is Some
}

/// The breakdown for `rules`/`timeline` when `has_timeline` tells which targets have a real
/// timeline.
pub open spec fn breakdown_of(
    rules: SkillRules,
    timeline: CastTimeline,
    has_timeline: spec_fn(Seq<char>) -> bool,
) -> StrikeBreakdown {
    StrikeBreakdown {
        scheduled: scheduled_striking(timeline.collision_windows@) as u32,
        chain: if rules.can_chain {
            rules.chain_count
        } else {
            0
        },
        triggered: triggered_count(rules.conditions@, has_timeline) as u32,
        has_unbounded_emitter: any_emitter(timeline.collision_windows@),
    }
}

fn count_scheduled_striking(ws: &Vec<CollisionWindow>) -> (r: usize)
    ensures
        r == scheduled_striking(ws@),
{
    let n = ws.len();
    let mut count: usize = 0;
    let mut i: usize = 0;
    while i < n
        invariant
            n == ws@.len(),
            i <= n,
            count <= i,
            count == scheduled_striking(ws@.take(i as int)),
        decreases n - i,
    {
        proof {
            assert(ws@.take(i + 1).drop_last() =~= ws@.take(i as int));
        }
        let scheduled = match ws[i].spawn {
            WindowSpawn::Scheduled { .. } => true,
            WindowSpawn::Template => false,
        };
        if ws[i].strikes && scheduled {
            count = count + 1;
        }
        i = i + 1;
    }
    proof {
        assert(ws@.take(n as int) =~= ws@);
    }
    count
}

fn has_any_emitter(ws: &Vec<CollisionWindow>) -> (r: bool)
    ensures
        r == any_emitter(ws@),
{
    let n = ws.len();
    let mut i: usize = 0;
    while i < n
        invariant
            n == ws@.len(),
            i <= n,
            forall|j: int| 0 <= j < i ==> (#[trigger] ws@[j]).emitter is None,
        decreases n - i,
    {
        if ws[i].emitter.is_some() {
            return true;
        }
        i = i + 1;
    }
    false
}

/// `f`, put the target `target`, answered `b`.
pub open spec fn answered<F: Fn(&str) -> bool>(f: F, target: Seq<char>, b: bool) -> bool {
    exists|s: &str| s@ == target && #[trigger] f.ensures((s,), b)
}

/// `ans` holds, one per condition and in order, what `f` answered for that condition's target.
pub open spec fn answers_for<F: Fn(&str) -> bool>(f: F, conds: Seq<SkillCondition>, ans: Seq<bool>) -> bool {
    &&& ans.len() == conds.len()
    &&& forall|j: int| 0 <= j < conds.len() ==> #[trigger] answered(f, conds[j].trigger_skill@, ans[j])
}

/// How many of `ans` are `true`.
pub open spec fn count_true(ans: Seq<bool>) -> nat
    decreases ans.len(),
{
    if ans.len() == 0 {
        0
    } else {
        count_true(ans.drop_last()) + (if ans.last() {
            1nat
        } else {
            0nat
        })
    }
}

/// `f` always answers what `p` says of the target.
pub open spec fn answers_as<F: Fn(&str) -> bool>(f: F, p: spec_fn(Seq<char>) -> bool) -> bool {
    forall|s: &str, b: bool| #[trigger] f.ensures((s,), b) ==> b == p(s@)
}

/// When `f` answers as `p` does, counting its answers counts the conditions `p` accepts.
proof fn lemma_answers_count<F: Fn(&str) -> bool>(
    f: F,
    conds: Seq<SkillCondition>,
    ans: Seq<bool>,
    p: spec_fn(Seq<char>) -> bool,
)
    requires
        answers_for(f, conds, ans),
        answers_as(f, p),
    ensures
        count_true(ans) == triggered_count(conds, p),
    decreases conds.len(),
{
    if conds.len() > 0 {
        let n = conds.len() - 1;
        assert forall|j: int| 0 <= j < n implies #[trigger] answered(f, conds.drop_last()[j].trigger_skill@, ans.drop_last()[j]) by {
            assert(answered(f, conds[j].trigger_skill@, ans[j]));
        }
        lemma_answers_count(f, conds.drop_last(), ans.drop_last(), p);
        assert(answered(f, conds[n].trigger_skill@, ans[n]));
        let s = choose|s: &str| s@ == conds[n].trigger_skill@ && #[trigger] f.ensures((s,), ans[n]);
        assert(ans[n] == p(s@));
    }
}

/// Compute the strike breakdown for `skill`/`timeline`. `target_has_timeline` tells whether a
/// `trigger_skill` id names a skill with a real timeline; it is asked once per condition, and
/// the triggered part counts its `true` answers. When it answers as a predicate `p` does, the
/// breakdown is `breakdown_of` with `p`.
pub fn strike_breakdown<F: Fn(&str) -> bool>(skill: &SkillRules, timeline: &CastTimeline, target_has_timeline: F) -> (r:
    StrikeBreakdown)
    requires
        forall|s: &str| #[trigger] target_has_timeline.requires((s,)),
    ensures
        r.scheduled == scheduled_striking(timeline.collision_windows@) as u32,
        r.chain == (if skill.can_chain {
            skill.chain_count
        } else {
            0
        }),
        r.has_unbounded_emitter == any_emitter(timeline.collision_windows@),
        exists|ans: Seq<bool>|
            #[trigger] answers_for(target_has_timeline, skill.conditions@, ans) && r.triggered == count_true(ans) as u32,
        forall|p: spec_fn(Seq<char>) -> bool|
            #[trigger] answers_as(target_has_timeline, p) ==> r == breakdown_of(*skill, *timeline, p),
{
    let scheduled = count_scheduled_striking(&timeline.collision_windows);
    let chain = if skill.can_chain {
        skill.chain_count
    } else {
        0
    };
    let conds = &skill.conditions;
    let n = conds.len();
    let mut triggered: usize = 0;
    let mut i: usize = 0;
    let ghost mut ans: Seq<bool> = Seq::empty();
    while i < n
        invariant
            n == conds@.len(),
            conds == &skill.conditions,
            i <= n,
            triggered <= i,
            forall|s: &str| #[trigger] target_has_timeline.requires((s,)),
            answers_for(target_has_timeline, conds@.take(i as int), ans),
            triggered == count_true(ans),
        decreases n - i,
    {
        let target = conds[i].trigger_skill.as_str();
        let b = target_has_timeline(target);
        proof {
            let before = ans;
            ans = ans.push(b);
            assert(ans.drop_last() =~= before);
            let c = conds@.take(i + 1);
            assert forall|j: int| 0 <= j < c.len() implies #[trigger] answered(
                target_has_timeline,
                c[j].trigger_skill@,
                ans[j],
            ) by {
                if j < i {
                    assert(c[j] == conds@.take(i as int)[j]);
                    assert(answered(target_has_timeline, conds@.take(i as int)[j].trigger_skill@, before[j]));
                } else {
                    assert(target_has_timeline.ensures((target,), b));
                }
            }
        }
        if b {
            triggered = triggered + 1;
        }
        i = i + 1;
    }
    proof {
        assert(conds@.take(n as int) =~= conds@);
    }
    let r = StrikeBreakdown {
        scheduled: scheduled as u32,
        chain,
        triggered: triggered as u32,
        has_unbounded_emitter: has_any_emitter(&timeline.collision_windows),
    };
    proof {
        assert(answers_for(target_has_timeline, skill.conditions@, ans));
        assert forall|p: spec_fn(Seq<char>) -> bool| #[trigger] answers_as(target_has_timeline, p) implies r
            == breakdown_of(*skill, *timeline, p) by {
            lemma_answers_count(target_has_timeline, skill.conditions@, ans, p);
        }
    }
    r
}

/// Whether `entry`'s timeline describes spatial behavior at all: at least one collision window
/// (the blank placeholder a rules-only skill gets has none).
pub fn entry_has_real_timeline(entry: &SkillEntry) -> (r: bool)
    ensures
        r == (entry.timeline.collision_windows@.len() > 0),
{
    entry.timeline.collision_windows.len() > 0
}

/// The library's skills that have a real timeline.
pub open spec fn has_real_timeline_in(m: Map<Seq<char>, SkillEntry>) -> spec_fn(Seq<char>) -> bool {
    |t: Seq<char>| m.dom().contains(t) && m[t].timeline.collision_windows@.len() > 0
}

/// Entry `j` of `s` is named `t` and has a real timeline.
pub open spec fn real_at(s: Seq<SkillEntry>, j: int, t: Seq<char>) -> bool {
    s[j].key() == t && s[j].timeline.collision_windows@.len() > 0
}

/// Ids of the library's skills with a real timeline.
pub fn ids_with_real_timeline(library: &SkillLibrary) -> (r: Vec<String>)
    requires
        library.wf(),
    ensures
        forall|t: Seq<char>| #[trigger] taken_has(r@, t) == has_real_timeline_in(library.map())(t),
{
    let mut r: Vec<String> = Vec::new();
    let n = library.len();
    let mut i: usize = 0;
    while i < n
        invariant
            n == library.entries().len(),
            library.wf(),
            i <= n,
            forall|t: Seq<char>|
                #[trigger] taken_has(r@, t) == exists|j: int|
                    0 <= j < i && #[trigger] real_at(library.entries(), j, t),
        decreases n - i,
    {
        let ghost before = r@;
        if entry_has_real_timeline(&library.entry_at(i)) {
            r.push(library.entry_at(i).rules.id.clone());
        }
        proof {
            assert forall|t: Seq<char>| #[trigger] taken_has(r@, t) == exists|j: int|
                0 <= j < i + 1 && #[trigger] real_at(library.entries(), j, t) by {
                if taken_has(r@, t) {
                    let k = choose|k: int| 0 <= k < r@.len() && #[trigger] r@[k]@ == t;
                    if k < before.len() {
                        assert(before[k]@ == t);
                        assert(taken_has(before, t));
                        let j = choose|j: int| 0 <= j < i && #[trigger] real_at(library.entries(), j, t);
                        assert(0 <= j < i + 1 && real_at(library.entries(), j, t));
                    } else {
                        assert(real_at(library.entries(), i as int, t));
                    }
                }
                if exists|j: int| 0 <= j < i + 1 && #[trigger] real_at(library.entries(), j, t) {
                    let j = choose|j: int| 0 <= j < i + 1 && #[trigger] real_at(library.entries(), j, t);
                    if j < i {
                        assert(taken_has(before, t));
                        let k = choose|k: int| 0 <= k < before.len() && #[trigger] before[k]@ == t;
                        assert(r@[k] == before[k]);
                    } else {
                        assert(r@[before.len() as int]@ == t);
                    }
                }
            }
        }
        i = i + 1;
    }
    proof {
        assert forall|t: Seq<char>| #[trigger] taken_has(r@, t) == has_real_timeline_in(library.map())(t) by {
            if has_real_timeline_in(library.map())(t) {
                let j = choose|j: int| 0 <= j < n && #[trigger] library.entries()[j].key() == t;
                crate::library::lemma_map_at(library.entries(), j);
                assert(real_at(library.entries(), j, t));
            }
            if taken_has(r@, t) {
                let j = choose|j: int| 0 <= j < n && #[trigger] real_at(library.entries(), j, t);
                crate::library::lemma_map_at(library.entries(), j);
            }
        }
    }
    r
}

proof fn lemma_triggered_count_ext(
    conds: Seq<SkillCondition>,
    p: spec_fn(Seq<char>) -> bool,
    q: spec_fn(Seq<char>) -> bool,
)
    requires
        forall|t: Seq<char>| #[trigger] p(t) == q(t),
    ensures
        triggered_count(conds, p) == triggered_count(conds, q),
    decreases conds.len(),
{
    if conds.len() > 0 {
        lemma_triggered_count_ext(conds.drop_last(), p, q);
    }
}

/// The strike breakdown of the library's skill `id`, resolving every trigger target against the
/// library's own skills. `None` when `id` is not in the library.
pub fn strike_breakdown_in_library(id: &str, library: &SkillLibrary) -> (r: Option<StrikeBreakdown>)
    requires
        library.wf(),
    ensures
        !library.map().dom().contains(id@) ==> r is None,
        library.map().dom().contains(id@) ==> r == Some(
            breakdown_of(
                library.map()[id@].rules,
                library.map()[id@].timeline,
                has_real_timeline_in(library.map()),
            ),
        ),
{
    let entry = match library.get(id) {
        Some(e) => e,
        None => return None,
    };
    let targets = ids_with_real_timeline(library);
    let has_timeline = |t: &str| -> (b: bool)
        ensures
            b == taken_has(targets@, t@),
        { contains_str(&targets, t) };
    let r = strike_breakdown(&entry.rules, &entry.timeline, has_timeline);
    proof {
        let p = |t: Seq<char>| taken_has(targets@, t);
        assert(answers_as(has_timeline, p));
        lemma_triggered_count_ext(entry.rules.conditions@, p, has_real_timeline_in(library.map()));
    }
    Some(r)
}

} // verus!
