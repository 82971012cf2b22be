//! Relationship chips: one "→ {target}" chip per distinct trigger target, in authoring order,
//! plus one "↺ ×{chain_count}" chip when the skill chains.
//!
//! A chain hop re-runs this same skill's windows against a new target; it never opens another
//! skill, so the chain chip targets the skill's own id and never navigates.
use vstd::prelude::*;

use crate::library::{SkillEntry, SkillLibrary};
use crate::model::SkillCondition;
use crate::text::{concat, contains_str, decimal, decimal_string};

verus! {

/// What kind of causality edge a chip represents.
#[derive(Debug, Clone, Copy, PartialEq, Eq, Structural)]
pub enum ChipKind {
    /// A trigger-condition edge — navigable.
    Trigger,
    /// The skill chains — not navigable; targets the skill's own id.
    Chain,
}

/// One relationship chip.
#[derive(Debug, PartialEq, Eq)]
pub struct Chip {
    pub target_id: String,
    pub label: String,
    pub kind: ChipKind,
}

impl Clone for Chip {
    fn clone(&self) -> (r: Self)
        ensures
            r == *self,
    {
        Chip { target_id: self.target_id.clone(), label: self.label.clone(), kind: self.kind }
    }
}

/// A chip as plain values.
pub open spec fn chip_view(c: Chip) -> (Seq<char>, Seq<char>, ChipKind) {
    (c.target_id@, c.label@, c.kind)
}

/// The trigger chip for target `t`.
pub open spec fn trigger_chip_view(t: Seq<char>) -> (Seq<char>, Seq<char>, ChipKind) {
    (t, "\u{2192} "@ + t, ChipKind::Trigger)
}

/// Distinct non-empty trigger targets, in order of first occurrence.
pub open spec fn chip_targets(conds: Seq<SkillCondition>) -> Seq<Seq<char>>
    decreases conds.len(),
{
    if conds.len() == 0 {
        seq![]
    } else {
        let prev = chip_targets(conds.drop_last());
        let t = conds.last().trigger_skill@;
        if t.len() == 0 || prev.contains(t) {
            prev
        } else {
            prev.push(t)
        }
    }
}

/// The chips of `entry`'s current rules.
pub open spec fn expected_chips(entry: SkillEntry) -> Seq<(Seq<char>, Seq<char>, ChipKind)> {
    let triggers = chip_targets(entry.rules.conditions@).map_values(|t: Seq<char>| trigger_chip_view(t));
    if entry.rules.can_chain {
        triggers.push(
            (entry.rules.id@, "\u{21ba} \u{d7}"@ + decimal(entry.rules.chain_count as nat), ChipKind::Chain),
        )
    } else {
        triggers
    }
}

/// Derive `entry`'s causality chips from its current rules. `library` is not consulted: a
/// target that exists nowhere still gets a chip (dangling references are validation's concern).
pub fn causality_chips(entry: &SkillEntry, _library: &SkillLibrary) -> (r: Vec<Chip>)
    ensures
        r@.map_values(|c: Chip| chip_view(c)) == expected_chips(*entry),
{
    let conds = &entry.rules.conditions;
    let n = conds.len();
    let mut chips: Vec<Chip> = Vec::new();
    let mut seen: Vec<String> = Vec::new();
    let mut i: usize = 0;
    while i < n
        invariant
            n == conds@.len(),
            conds == &entry.rules.conditions,
            i <= n,
            seen@.map_values(|s: String| s@) == chip_targets(conds@.take(i as int)),
            chips@.map_values(|c: Chip| chip_view(c)) == chip_targets(conds@.take(i as int)).map_values(
                |t: Seq<char>| trigger_chip_view(t),
            ),
        decreases n - i,
    {
        proof {
            assert(conds@.take(i + 1).drop_last() =~= conds@.take(i as int));
            assert(conds@.take(i + 1).last() == conds@[i as int]);
        }
        let t = &conds[i].trigger_skill;
        if t.as_str().unicode_len() > 0 {
            let already = contains_str(&seen, t.as_str());
            proof {
                let prev = chip_targets(conds@.take(i as int));
                if already {
                    let k = choose|k: int| 0 <= k < seen@.len() && #[trigger] seen@[k]@ == t@;
                    assert(prev[k] == t@);
                } else {
                    assert forall|k: int| 0 <= k < prev.len() implies prev[k] != t@ by {
                        assert(seen@[k]@ == prev[k]);
                    }
                }
            }
            if !already {
                let ghost before = chips@;
                seen.push(t.clone());
                chips.push(Chip { target_id: t.clone(), label: concat("\u{2192} ", t.as_str()), kind: ChipKind::Trigger });
                proof {
                    assert(chips@.map_values(|c: Chip| chip_view(c)) =~= before.map_values(
                        |c: Chip| chip_view(c),
                    ).push(trigger_chip_view(t@)));
                    assert(chip_targets(conds@.take(i + 1)).map_values(|x: Seq<char>| trigger_chip_view(x))
                        =~= chip_targets(conds@.take(i as int)).map_values(
                        |x: Seq<char>| trigger_chip_view(x),
                    ).push(trigger_chip_view(t@)));
                }
            }
        }
        proof {
            assert(seen@.map_values(|s: String| s@) =~= chip_targets(conds@.take(i + 1)));
        }
        i = i + 1;
    }
    proof {
        assert(conds@.take(n as int) =~= conds@);
    }
    if entry.rules.can_chain {
        let count = decimal_string(entry.rules.chain_count as u128);
        let ghost before = chips@;
        chips.push(
            Chip {
                target_id: entry.rules.id.clone(),
                label: concat("\u{21ba} \u{d7}", count.as_str()),
                kind: ChipKind::Chain,
            },
        );
        proof {
            assert(chips@.map_values(|c: Chip| chip_view(c)) =~= before.map_values(
                |c: Chip| chip_view(c),
            ).push(chip_view(chips@.last())));
        }
    }
    chips
}

/// The trigger chips name each non-empty trigger target exactly once, in order of first
/// occurrence: distinct, each one some condition's target, and every non-empty target among them.
pub proof fn lemma_chip_targets_distinct_and_complete(conds: Seq<SkillCondition>)
    ensures
        chip_targets(conds).no_duplicates(),
        forall|k: int|
            #![trigger chip_targets(conds)[k]]
            0 <= k < chip_targets(conds).len() ==> chip_targets(conds)[k].len() > 0 && exists|i: int|
                0 <= i < conds.len() && (#[trigger] conds[i]).trigger_skill@ == chip_targets(conds)[k],
        forall|i: int|
            0 <= i < conds.len() && (#[trigger] conds[i]).trigger_skill@.len() > 0 ==> chip_targets(
                conds,
            ).contains(conds[i].trigger_skill@),
    decreases conds.len(),
{
    if conds.len() > 0 {
        let init = conds.drop_last();
        lemma_chip_targets_distinct_and_complete(init);
        let prev = chip_targets(init);
        assert forall|k: int|
            #![trigger chip_targets(conds)[k]]
            0 <= k < chip_targets(conds).len() implies chip_targets(conds)[k].len() > 0 && exists|i: int|
                0 <= i < conds.len() && (#[trigger] conds[i]).trigger_skill@ == chip_targets(conds)[k] by {
            if k < prev.len() {
                let i = choose|i: int| 0 <= i < init.len() && (#[trigger] init[i]).trigger_skill@ == prev[k];
                assert(conds[i] == init[i]);
            } else {
                assert(conds[conds.len() - 1] == conds.last());
            }
        }
        assert forall|i: int|
            0 <= i < conds.len() && (#[trigger] conds[i]).trigger_skill@.len() > 0 implies chip_targets(
                conds,
            ).contains(conds[i].trigger_skill@) by {
            let t = conds[i].trigger_skill@;
            if i < init.len() {
                assert(conds[i] == init[i]);
                let k = choose|k: int| 0 <= k < prev.len() && prev[k] == t;
                assert(chip_targets(conds)[k] == prev[k]);
            } else if prev.contains(t) {
                let k = choose|k: int| 0 <= k < prev.len() && prev[k] == t;
                assert(chip_targets(conds)[k] == prev[k]);
            } else {
                assert(chip_targets(conds)[prev.len() as int] == t);
            }
        }
    }
}

} // verus!
