//! The pure half of a content-root scan: merging every rules file's parsed skills into one batch
//! (a later file's skill of the same id wins), finding trigger references that land on no skill
//! of the batch (kept, only reported), pairing each skill with its timeline, and merging the
//! scanned entries into the live library.
use vstd::prelude::*;

use crate::library::{
    blank_timeline, clone_path, is_blank_timeline, path_eq, path_view, spec_timeline_path, timeline_path_for,
    PathParts, SkillEntry, SkillLibrary,
};
use crate::model::SkillRules;
use crate::save::TimelineRead;
use crate::text::{lemma_seq_lt_irreflexive, lemma_seq_lt_total, lemma_seq_lt_transitive, seq_lt, str_eq, str_lt};

verus! {

/// One skill parsed from a rules file, before it is paired with its timeline.
#[derive(Debug)]
pub struct ParsedRules {
    pub rules: SkillRules,
    pub path: PathParts,
    /// Hash of the rules file's bytes.
    pub rules_hash: u64,
}

pub open spec fn pid(p: ParsedRules) -> Seq<char> {
    p.rules.id@
}

/// `batch[k]` is the last skill of the batch with id `id`.
pub open spec fn last_with_id(batch: Seq<ParsedRules>, id: Seq<char>, k: int) -> bool {
    &&& 0 <= k < batch.len()
    &&& pid(batch[k]) == id
    &&& forall|j: int| k < j < batch.len() ==> pid(#[trigger] batch[j]) != id
}

/// Some skill of `s` has id `id`.
pub open spec fn has_pid(s: Seq<ParsedRules>, id: Seq<char>) -> bool {
    exists|a: int| 0 <= a < s.len() && #[trigger] pid(s[a]) == id
}

/// Strictly increasing ids.
pub open spec fn sorted_pids(s: Seq<ParsedRules>) -> bool {
    forall|a: int, b: int| 0 <= a < b < s.len() ==> seq_lt(pid(#[trigger] s[a]), pid(#[trigger] s[b]))
}

/// `x` is the batch's last skill with its id.
pub open spec fn is_last_of(batch: Seq<ParsedRules>, x: ParsedRules) -> bool {
    exists|k: int| last_with_id(batch, pid(x), k) && x == batch[k]
}

/// `r` is `batch` merged by id: one skill per id of the batch, in id order, each the batch's
/// last skill with that id.
pub open spec fn is_merged(r: Seq<ParsedRules>, batch: Seq<ParsedRules>) -> bool {
    &&& sorted_pids(r)
    &&& forall|a: int| 0 <= a < r.len() ==> is_last_of(batch, #[trigger] r[a])
    &&& forall|k: int| 0 <= k < batch.len() ==> has_pid(r, pid(#[trigger] batch[k]))
}

/// Merge the skills parsed from every rules file of a root (in file order) into one batch.
pub fn merge_parsed(batch: Vec<ParsedRules>) -> (r: Vec<ParsedRules>)
    ensures
        is_merged(r@, batch@),
{
    let ghost all = batch@;
    let n = batch.len();
    let mut rest = batch;
    let mut out: Vec<ParsedRules> = Vec::new();
    while rest.len() > 0
        invariant
            n == all.len(),
            rest@.len() <= n,
            rest@ == all.take(rest@.len() as int),
            sorted_pids(out@),
            forall|a: int| 0 <= a < out@.len() ==> exists|k: int|
                rest@.len() <= k && last_with_id(all, pid(#[trigger] out@[a]), k) && out@[a] == all[k],
            forall|k: int| rest@.len() <= k < n ==> has_pid(out@, pid(#[trigger] all[k])),
        decreases rest@.len(),
    {
        let ghost m = (rest@.len() - 1) as int;
        let x = rest.pop().unwrap();
        assert(x == all[m]);
        assert(rest@ =~= all.take(m));
        let mut j: usize = 0;
        let mut present = false;
        while j < out.len()
            invariant_except_break
                !present,
            invariant
                j <= out@.len(),
                forall|a: int| 0 <= a < j ==> seq_lt(pid(#[trigger] out@[a]), pid(x)),
            ensures
                j <= out@.len(),
                forall|a: int| 0 <= a < j ==> seq_lt(pid(#[trigger] out@[a]), pid(x)),
                present ==> j < out@.len() && pid(out@[j as int]) == pid(x),
                !present && j < out@.len() ==> seq_lt(pid(x), pid(out@[j as int])),
            decreases out@.len() - j,
        {
            if str_eq(out[j].rules.id.as_str(), x.rules.id.as_str()) {
                present = true;
                break;
            }
            if str_lt(x.rules.id.as_str(), out[j].rules.id.as_str()) {
                break;
            }
            proof {
                lemma_seq_lt_total(pid(out@[j as int]), pid(x));
            }
            j = j + 1;
        }
        if present {
            proof {
                assert(has_pid(out@, pid(all[m])));
                assert forall|k: int| rest@.len() <= k < n implies has_pid(out@, pid(#[trigger] all[k])) by {
                    if k == m {
                        assert(has_pid(out@, pid(all[m])));
                    }
                }
                assert forall|a: int| 0 <= a < out@.len() implies exists|k: int|
                    rest@.len() <= k && last_with_id(all, pid(#[trigger] out@[a]), k) && out@[a] == all[k] by {
                    let k = choose|k: int| m + 1 <= k && last_with_id(all, pid(out@[a]), k) && out@[a] == all[k];
                    assert(rest@.len() <= k && last_with_id(all, pid(out@[a]), k) && out@[a] == all[k]);
                }
            }
        } else {
            let ghost old_out = out@;
            proof {
                // x's id is new: every later skill's id is already in `out`, so x is the last.
                assert forall|jj: int| m < jj < n implies pid(#[trigger] all[jj]) != pid(x) by {
                    assert(has_pid(old_out, pid(all[jj])));
                    let a = choose|a: int| 0 <= a < old_out.len() && #[trigger] pid(old_out[a]) == pid(all[jj]);
                    if a < j {
                        lemma_seq_lt_irreflexive(pid(x));
                    } else if a == j {
                        lemma_seq_lt_irreflexive(pid(x));
                    } else {
                        lemma_seq_lt_transitive(pid(x), pid(old_out[j as int]), pid(old_out[a]));
                        lemma_seq_lt_irreflexive(pid(x));
                    }
                }
                assert(last_with_id(all, pid(x), m));
            }
            out.insert(j, x);
            proof {
                old_out.insert_ensures(j as int, all[m]);
                assert forall|a: int, b: int| 0 <= a < b < out@.len() implies seq_lt(
                    pid(#[trigger] out@[a]),
                    pid(#[trigger] out@[b]),
                ) by {
                    if b < j {
                    } else if b == j {
                        assert(out@[a] == old_out[a]);
                    } else if a < j {
                        assert(out@[b] == old_out[b - 1]);
                        assert(out@[a] == old_out[a]);
                        if b - 1 > j {
                            lemma_seq_lt_transitive(pid(x), pid(old_out[j as int]), pid(old_out[b - 1]));
                        }
                        lemma_seq_lt_transitive(pid(old_out[a]), pid(x), pid(old_out[b - 1]));
                    } else if a == j {
                        assert(out@[b] == old_out[b - 1]);
                        if b - 1 > j {
                            lemma_seq_lt_transitive(pid(x), pid(old_out[j as int]), pid(old_out[b - 1]));
                        }
                    } else {
                        assert(out@[b] == old_out[b - 1]);
                        assert(out@[a] == old_out[a - 1]);
                    }
                }
                assert forall|a: int| 0 <= a < out@.len() implies exists|k: int|
                    rest@.len() <= k && last_with_id(all, pid(#[trigger] out@[a]), k) && out@[a] == all[k] by {
                    if a < j {
                        assert(out@[a] == old_out[a]);
                        let k = choose|k: int| m + 1 <= k && last_with_id(all, pid(old_out[a]), k) && old_out[a] == all[k];
                        assert(rest@.len() <= k && last_with_id(all, pid(out@[a]), k) && out@[a] == all[k]);
                    } else if a == j {
                        assert(rest@.len() <= m && last_with_id(all, pid(out@[a]), m) && out@[a] == all[m]);
                    } else {
                        assert(out@[a] == old_out[a - 1]);
                        let k = choose|k: int| m + 1 <= k && last_with_id(all, pid(old_out[a - 1]), k) && old_out[a - 1] == all[k];
                        assert(rest@.len() <= k && last_with_id(all, pid(out@[a]), k) && out@[a] == all[k]);
                    }
                }
                assert forall|k: int| rest@.len() <= k < n implies has_pid(out@, pid(#[trigger] all[k])) by {
                    if k == m {
                        assert(pid(out@[j as int]) == pid(all[m]));
                    } else {
                        let a = choose|a: int| 0 <= a < old_out.len() && #[trigger] pid(old_out[a]) == pid(all[k]);
                        if a < j {
                            assert(pid(out@[a]) == pid(all[k]));
                        } else {
                            assert(out@[a + 1] == old_out[a]);
                            assert(pid(out@[a + 1]) == pid(all[k]));
                        }
                    }
                }
            }
        }
    }
    proof {
        assert forall|a: int| 0 <= a < out@.len() implies is_last_of(batch@, #[trigger] out@[a]) by {
            let k = choose|k: int| rest@.len() <= k && last_with_id(all, pid(out@[a]), k) && out@[a] == all[k];
            assert(last_with_id(batch@, pid(out@[a]), k) && out@[a] == batch@[k]);
        }
        assert(rest@.len() == 0);
        assert forall|k: int| 0 <= k < batch@.len() implies has_pid(out@, pid(#[trigger] batch@[k])) by {
            assert(has_pid(out@, pid(all[k])));
        }
    }
    out
}

/// A trigger reference that lands on no skill of the merged batch.
#[derive(Debug)]
pub struct DanglingReference {
    pub skill_id: String,
    pub path: PathParts,
    pub trigger_skill: String,
}

pub open spec fn dangling_view(d: DanglingReference) -> (Seq<char>, Seq<Seq<char>>, Seq<char>) {
    (d.skill_id@, path_view(d.path@), d.trigger_skill@)
}

/// The dangling references among the first `n` conditions of `p`, in order.
pub open spec fn dangling_in(merged: Seq<ParsedRules>, p: ParsedRules, n: nat) -> Seq<(Seq<char>, Seq<Seq<char>>, Seq<char>)>
    decreases n,
{
    if n == 0 {
        seq![]
    } else {
        let t = p.rules.conditions@[n - 1].trigger_skill@;
        dangling_in(merged, p, (n - 1) as nat) + if has_pid(merged, t) {
            seq![]
        } else {
            seq![(pid(p), path_view(p.path@), t)]
        }
    }
}

/// The dangling references of the first `n` skills of the batch, skill by skill.
pub open spec fn dangling_all(merged: Seq<ParsedRules>, n: nat) -> Seq<(Seq<char>, Seq<Seq<char>>, Seq<char>)>
    decreases n,
{
    if n == 0 {
        seq![]
    } else {
        let p = merged[n - 1];
        dangling_all(merged, (n - 1) as nat) + dangling_in(merged, p, p.rules.conditions@.len())
    }
}

fn has_pid_exec(merged: &Vec<ParsedRules>, id: &str) -> (r: bool)
    ensures
        r == has_pid(merged@, id@),
{
    let n = merged.len();
    let mut a: usize = 0;
    while a < n
        invariant
            n == merged@.len(),
            a <= n,
            forall|b: int| 0 <= b < a ==> pid(#[trigger] merged@[b]) != id@,
        decreases n - a,
    {
        if str_eq(merged[a].rules.id.as_str(), id) {
            assert(pid(merged@[a as int]) == id@);
            return true;
        }
        a = a + 1;
    }
    false
}

/// Every trigger reference of the merged batch that names no skill of the batch. Such skills
/// are still loaded; the references are only reported.
pub fn dangling_references(merged: &Vec<ParsedRules>) -> (r: Vec<DanglingReference>)
    ensures
        r@.map_values(|d: DanglingReference| dangling_view(d)) == dangling_all(merged@, merged@.len()),
{
    let n = merged.len();
    let mut out: Vec<DanglingReference> = Vec::new();
    let mut i: usize = 0;
    while i < n
        invariant
            n == merged@.len(),
            i <= n,
            out@.map_values(|d: DanglingReference| dangling_view(d)) == dangling_all(merged@, i as nat),
        decreases n - i,
    {
        let p = &merged[i];
        let conds = &p.rules.conditions;
        let m = conds.len();
        let ghost base = out@.map_values(|d: DanglingReference| dangling_view(d));
        let mut c: usize = 0;
        while c < m
            invariant
                m == conds@.len(),
                conds == &p.rules.conditions,
                p == &merged@[i as int],
                c <= m,
                out@.map_values(|d: DanglingReference| dangling_view(d)) == base + dangling_in(merged@, *p, c as nat),
            decreases m - c,
        {
            let t = conds[c].trigger_skill.as_str();
            let ghost before = out@;
            if !has_pid_exec(merged, t) {
                out.push(DanglingReference {
                    skill_id: p.rules.id.clone(),
                    path: clone_path(&p.path),
                    trigger_skill: String::from_str(t),
                });
                proof {
                    assert(out@.map_values(|d: DanglingReference| dangling_view(d)) =~= before.map_values(
                        |d: DanglingReference| dangling_view(d),
                    ).push(dangling_view(out@.last())));
                }
            }
            assert(out@.map_values(|d: DanglingReference| dangling_view(d)) =~= base + dangling_in(merged@, *p, (c + 1) as nat));
            c = c + 1;
        }
        i = i + 1;
    }
    out
}

/// `e` is `p` paired with its timeline read from under `root`: the parsed timeline and its hash
/// when it parsed, else a blank timeline and hash `0` (no file, or an unparsable one); clean.
pub open spec fn is_scanned_entry(e: SkillEntry, root: Seq<Seq<char>>, p: ParsedRules, timeline: TimelineRead) -> bool {
    &&& e.rules == p.rules
    &&& e.rules_path == p.path
    &&& path_view(e.timeline_path@) == spec_timeline_path(root, pid(p))
    &&& !e.dirty_rules
    &&& !e.dirty_timeline
    &&& match timeline {
        Some(Ok((tl, h))) => e.timeline == tl && e.disk_hash == (p.rules_hash, h),
        _ => is_blank_timeline(e.timeline, pid(p)) && e.disk_hash == (p.rules_hash, 0u64),
    }
}

/// Pair a merged skill with its timeline (see [`is_scanned_entry`]).
pub fn scanned_entry(root: &PathParts, p: ParsedRules, timeline: TimelineRead) -> (r: SkillEntry)
    ensures
        is_scanned_entry(r, path_view(root@), p, timeline),
{
    let timeline_path = timeline_path_for(root, p.rules.id.as_str());
    let (tl, h) = match timeline {
        Some(Ok((tl, h))) => (tl, h),
        _ => (blank_timeline(p.rules.id.as_str()), 0u64),
    };
    SkillEntry {
        rules: p.rules,
        timeline: tl,
        rules_path: p.path,
        timeline_path,
        dirty_rules: false,
        dirty_timeline: false,
        disk_hash: (p.rules_hash, h),
    }
}

/// `m` with each of `s` filed under its id, in order (a later one wins).
pub open spec fn map_with(m: Map<Seq<char>, SkillEntry>, s: Seq<SkillEntry>) -> Map<Seq<char>, SkillEntry>
    decreases s.len(),
{
    if s.len() == 0 {
        m
    } else {
        map_with(m, s.drop_last()).insert(s.last().key(), s.last())
    }
}

/// The roots as plain paths.
pub open spec fn roots_view(roots: Seq<PathParts>) -> Seq<Seq<Seq<char>>> {
    roots.map_values(|p: PathParts| path_view(p@))
}

/// `roots` with `root` registered: unchanged when already there, else appended.
pub open spec fn with_root(roots: Seq<Seq<Seq<char>>>, root: Seq<Seq<char>>) -> Seq<Seq<Seq<char>>> {
    if roots.contains(root) {
        roots
    } else {
        roots.push(root)
    }
}

/// Merge a scanned root into the library: every scanned entry replaces the library's entry of
/// the same id, and the root is registered unless it already is. The open skill is kept.
pub fn merge_into_library(library: &mut SkillLibrary, scanned: Vec<SkillEntry>, root: &PathParts)
    requires
        old(library).wf(),
    ensures
        final(library).wf(),
        final(library).map() == map_with(old(library).map(), scanned@),
        final(library).open_skill() == old(library).open_skill(),
        roots_view(final(library).roots()) == with_root(roots_view(old(library).roots()), path_view(root@)),
{
    let ghost m0 = library.map();
    let ghost all = scanned@;
    let n = scanned.len();
    let mut rest = scanned;
    let mut items: Vec<SkillEntry> = Vec::new();
    // Entries come off the end; reverse them so the batch is filed in its own order.
    while rest.len() > 0
        invariant
            n == all.len(),
            rest@.len() + items@.len() == n,
            rest@ == all.take(rest@.len() as int),
            forall|q: int| 0 <= q < items@.len() ==> #[trigger] items@[q] == all[n - 1 - q],
        decreases rest@.len(),
    {
        let e = rest.pop().unwrap();
        items.push(e);
    }
    let ghost roots0 = library.roots();
    let ghost open0 = library.open_skill();
    let mut filed: usize = 0;
    while items.len() > 0
        invariant
            n == all.len(),
            items@.len() + filed == n,
            forall|q: int| 0 <= q < items@.len() ==> #[trigger] items@[q] == all[n - 1 - q],
            library.wf(),
            library.map() == map_with(m0, all.take(filed as int)),
            library.roots() == roots0,
            library.open_skill() == open0,
        decreases items@.len(),
    {
        let e = items.pop().unwrap();
        assert(e == all[filed as int]);
        library.insert(e);
        proof {
            assert(all.take(filed + 1).drop_last() =~= all.take(filed as int));
            assert(all.take(filed + 1).last() == all[filed as int]);
        }
        filed = filed + 1;
    }
    assert(all.take(n as int) =~= all);
    let k = library.root_list().len();
    let mut i: usize = 0;
    let mut known = false;
    while i < k
        invariant
            k == library.roots().len(),
            i <= k,
            !known ==> forall|j: int| 0 <= j < i ==> path_view(#[trigger] library.roots()[j]@) != path_view(root@),
            known ==> roots_view(library.roots()).contains(path_view(root@)),
        decreases k - i,
    {
        if path_eq(&library.root_list()[i], root) {
            known = true;
            assert(roots_view(library.roots())[i as int] == path_view(root@));
        }
        i = i + 1;
    }
    if !known {
        proof {
            assert forall|j: int| 0 <= j < roots_view(library.roots()).len() implies roots_view(library.roots())[j] != path_view(root@) by {
                assert(path_view(library.roots()[j]@) != path_view(root@));
            }
        }
        let ghost before = library.roots();
        library.push_root(clone_path(root));
        assert(roots_view(library.roots()) =~= roots_view(before).push(path_view(root@)));
    }
}

} // verus!
