//! `SkillLibrary`: every known skill (rules + timeline + disk bookkeeping), kept as a map from
//! skill id to entry in id order, plus the lifecycle operations the palette offers (new,
//! duplicate, rename, delete, back-references, fresh ids) and the pure half of a content-root
//! scan (merging a scanned batch, finding dangling trigger references).
use vstd::prelude::*;

use crate::model::{CastTimeline, SkillRules};
use crate::floatbits::{F32_ONE, F32_ZERO};
use crate::model::{Acquisition, PhaseDurations};
use crate::text::{
    concat, fresh_id, fresh_in, lemma_seq_lt_irreflexive, lemma_seq_lt_total,
    lemma_seq_lt_transitive, seq_lt, str_eq, str_lt, taken_has, taken_set,
};

verus! {

/// A file-system path as its components; the last component is the file name.
pub type PathParts = Vec<String>;

/// The components' views.
pub open spec fn path_view(p: Seq<String>) -> Seq<Seq<char>> {
    p.map_values(|c: String| c@)
}

/// One loaded skill: paired rules and behavior timeline, plus disk bookkeeping.
#[derive(Debug)]
pub struct SkillEntry {
    pub rules: SkillRules,
    pub timeline: CastTimeline,
    pub rules_path: PathParts,
    pub timeline_path: PathParts,
    pub dirty_rules: bool,
    pub dirty_timeline: bool,
    /// `(hash of rules file bytes, hash of timeline file bytes)` at last load/save; `0` for a
    /// file that did not exist.
    pub disk_hash: (u64, u64),
}

impl SkillEntry {
    /// Field-wise equality, with lists compared by content.
    pub open spec fn same_as(self, o: SkillEntry) -> bool {
        &&& self.rules.same_as(o.rules)
        &&& self.timeline.same_as(o.timeline)
        &&& self.rules_path@ == o.rules_path@
        &&& self.timeline_path@ == o.timeline_path@
        &&& self.dirty_rules == o.dirty_rules
        &&& self.dirty_timeline == o.dirty_timeline
        &&& self.disk_hash == o.disk_hash
    }

    /// The id the entry is filed under.
    pub open spec fn key(self) -> Seq<char> {
        self.rules.id@
    }
}

impl Clone for SkillEntry {
    fn clone(&self) -> (r: Self)
        ensures
            r.same_as(*self),
    {
        let rules_path = self.rules_path.clone();
        let timeline_path = self.timeline_path.clone();
        proof {
            assert(rules_path@ =~= self.rules_path@);
            assert(timeline_path@ =~= self.timeline_path@);
        }
        SkillEntry {
            rules: self.rules.clone(),
            timeline: self.timeline.clone(),
            rules_path,
            timeline_path,
            dirty_rules: self.dirty_rules,
            dirty_timeline: self.dirty_timeline,
            disk_hash: self.disk_hash,
        }
    }
}

/// Entries strictly ordered by id (hence no id twice) — the `BTreeMap<String, _>` shape.
pub open spec fn sorted_ids(s: Seq<SkillEntry>) -> bool {
    forall|i: int, j: int| 0 <= i < j < s.len() ==> seq_lt(#[trigger] s[i].key(), #[trigger] s[j].key())
}

/// Some entry of `s` has id `k`.
pub open spec fn has_id(s: Seq<SkillEntry>, k: Seq<char>) -> bool {
    exists|i: int| 0 <= i < s.len() && #[trigger] s[i].key() == k
}

/// The entries as a map from id.
pub open spec fn skills_map(s: Seq<SkillEntry>) -> Map<Seq<char>, SkillEntry> {
    Map::new(
        |k: Seq<char>| has_id(s, k),
        |k: Seq<char>| s[choose|i: int| 0 <= i < s.len() && #[trigger] s[i].key() == k],
    )
}

/// Strictly ordered ids differ.
pub proof fn lemma_lt_ne(a: Seq<char>, b: Seq<char>)
    requires
        seq_lt(a, b),
    ensures
        a != b,
{
    lemma_seq_lt_irreflexive(a);
}

/// In a sorted sequence, the map entry for `s[i]`'s id is `s[i]`.
pub proof fn lemma_map_at(s: Seq<SkillEntry>, i: int)
    requires
        sorted_ids(s),
        0 <= i < s.len(),
    ensures
        skills_map(s).dom().contains(s[i].key()),
        skills_map(s)[s[i].key()] == s[i],
{
    assert(has_id(s, s[i].key()));
    let j = choose|j: int| 0 <= j < s.len() && #[trigger] s[j].key() == s[i].key();
    if j < i {
        lemma_lt_ne(s[j].key(), s[i].key());
    } else if i < j {
        lemma_lt_ne(s[i].key(), s[j].key());
    }
}

/// The editor's live skill library. Its entries are private, so only this module's operations,
/// which keep them in id order, can change them.
#[derive(Debug)]
pub struct SkillLibrary {
    skills: Vec<SkillEntry>,
    /// Registered content roots, first registered first.
    roots: Vec<PathParts>,
    /// The skill open in the panel, if any.
    open: Option<String>,
}

impl SkillLibrary {
    /// The entries, in the order they are kept.
    pub closed spec fn entries(&self) -> Seq<SkillEntry> {
        self.skills@
    }

    /// The registered content roots, first registered first.
    pub closed spec fn roots(&self) -> Seq<PathParts> {
        self.roots@
    }

    /// The skill open in the panel, if any.
    pub closed spec fn open_skill(&self) -> Option<String> {
        self.open
    }

    /// Entries are kept in id order with no id twice.
    pub open spec fn wf(&self) -> bool {
        sorted_ids(self.entries())
    }

    /// The skills as a map from id.
    pub open spec fn map(&self) -> Map<Seq<char>, SkillEntry> {
        skills_map(self.entries())
    }

    /// How many skills the library holds.
    pub fn len(&self) -> (r: usize)
        ensures
            r == self.entries().len(),
    {
        self.skills.len()
    }

    /// Whether the library holds no skill.
    pub fn is_empty(&self) -> (r: bool)
        ensures
            r == (self.entries().len() == 0),
    {
        self.skills.len() == 0
    }

    /// The registered content roots.
    pub fn root_list(&self) -> (r: &Vec<PathParts>)
        ensures
            r@ == self.roots(),
    {
        &self.roots
    }

    /// Register `root` after the others.
    pub fn push_root(&mut self, root: PathParts)
        ensures
            final(self).entries() == old(self).entries(),
            final(self).open_skill() == old(self).open_skill(),
            final(self).roots() == old(self).roots().push(root),
    {
        self.roots.push(root);
    }

    /// The skill open in the panel, if any.
    pub fn open_id(&self) -> (r: &Option<String>)
        ensures
            *r == self.open_skill(),
    {
        &self.open
    }

    /// Open skill `id` in the panel (`None`: none).
    pub fn set_open(&mut self, id: Option<String>)
        ensures
            final(self).entries() == old(self).entries(),
            final(self).roots() == old(self).roots(),
            final(self).open_skill() == id,
    {
        self.open = id;
    }

    /// The `i`-th entry in id order.
    pub fn entry_at(&self, i: usize) -> (r: &SkillEntry)
        requires
            i < self.entries().len(),
        ensures
            *r == self.entries()[i as int],
    {
        &self.skills[i]
    }

    /// An empty library.
    pub fn new() -> (r: Self)
        ensures
            r.wf(),
            r.map() == Map::<Seq<char>, SkillEntry>::empty(),
            r.roots().len() == 0,
            r.open_skill() is None,
    {
        let r = SkillLibrary { skills: Vec::new(), roots: Vec::new(), open: None };
        assert(r.map() =~= Map::<Seq<char>, SkillEntry>::empty());
        r
    }

    /// Index of the entry with id `id`.
    pub fn find(&self, id: &str) -> (r: Option<usize>)
        ensures
            match r {
                Some(i) => i < self.entries().len() && self.entries()[i as int].key() == id@,
                None => !has_id(self.entries(), id@),
            },
    {
        let n = self.skills.len();
        let mut i: usize = 0;
        while i < n
            invariant
                n == self.entries().len(),
                i <= n,
                forall|j: int| 0 <= j < i ==> #[trigger] self.entries()[j].key() != id@,
            decreases n - i,
        {
            if str_eq(self.skills[i].rules.id.as_str(), id) {
                return Some(i);
            }
            i = i + 1;
        }
        None
    }

    /// Whether a skill `id` exists.
    pub fn contains_key(&self, id: &str) -> (r: bool)
        ensures
            r == self.map().dom().contains(id@),
    {
        self.find(id).is_some()
    }

    /// The entry filed under `id`.
    pub fn get(&self, id: &str) -> (r: Option<&SkillEntry>)
        requires
            self.wf(),
        ensures
            match r {
                Some(e) => self.map().dom().contains(id@) && *e == self.map()[id@],
                None => !self.map().dom().contains(id@),
            },
    {
        match self.find(id) {
            Some(i) => {
                proof {
                    lemma_map_at(self.entries(), i as int);
                }
                Some(&self.skills[i])
            },
            None => None,
        }
    }

    /// File `e` under its id, replacing any entry already there.
    pub fn insert(&mut self, e: SkillEntry)
        requires
            old(self).wf(),
        ensures
            final(self).wf(),
            final(self).map() == old(self).map().insert(e.key(), e),
            final(self).roots() == old(self).roots(),
            final(self).open_skill() == old(self).open_skill(),
    {
        let ghost s = self.entries();
        let ghost k = e.key();
        let n = self.skills.len();
        let mut p: usize = 0;
        let mut below = true;
        while below && p < n
            invariant
                n == self.entries().len(),
                self.entries() == s,
                k == e.key(),
                p <= n,
                forall|j: int| 0 <= j < p ==> seq_lt(#[trigger] s[j].key(), k),
                !below ==> p < n && !seq_lt(s[p as int].key(), k),
            decreases (n - p) + (if below { 1int } else { 0int }),
        {
            if str_lt(self.skills[p].rules.id.as_str(), e.rules.id.as_str()) {
                p = p + 1;
            } else {
                below = false;
            }
        }
        // every entry at or past `p` is not below `k`
        proof {
            assert forall|j: int| p <= j < n implies !seq_lt(#[trigger] s[j].key(), k) by {
                if j > p {
                    if seq_lt(s[j].key(), k) {
                        lemma_seq_lt_transitive(s[p as int].key(), s[j].key(), k);
                    }
                }
            }
        }
        if p < n && str_eq(self.skills[p].rules.id.as_str(), e.rules.id.as_str()) {
            self.skills.set(p, e);
            proof {
                let t = self.entries();
                assert forall|i: int, j: int| 0 <= i < j < t.len() implies seq_lt(
                    #[trigger] t[i].key(),
                    #[trigger] t[j].key(),
                ) by {
                    assert(t[i].key() == s[i].key());
                    assert(t[j].key() == s[j].key());
                }
                assert forall|kk: Seq<char>| #[trigger] skills_map(t).dom().contains(kk) <==> skills_map(s).insert(k, e).dom().contains(kk) by {
                    if has_id(s, kk) && kk != k {
                        let j = choose|j: int| 0 <= j < s.len() && #[trigger] s[j].key() == kk;
                        assert(t[j].key() == kk);
                    }
                    if has_id(t, kk) && kk != k {
                        let j = choose|j: int| 0 <= j < t.len() && #[trigger] t[j].key() == kk;
                        assert(s[j].key() == kk);
                    }
                    assert(t[p as int].key() == k);
                }
                assert forall|kk: Seq<char>| #[trigger] skills_map(t).dom().contains(kk) implies skills_map(t)[kk] == skills_map(s).insert(k, e)[kk] by {
                    let j = choose|j: int| 0 <= j < t.len() && #[trigger] t[j].key() == kk;
                    lemma_map_at(t, j);
                    if j != p {
                        lemma_map_at(s, j);
                        if j < p {
                            lemma_lt_ne(s[j].key(), s[p as int].key());
                        } else {
                            lemma_lt_ne(s[p as int].key(), s[j].key());
                        }
                    }
                }
                assert(skills_map(t) =~= skills_map(s).insert(k, e));
            }
        } else {
            proof {
                if p < n {
                    lemma_seq_lt_total(s[p as int].key(), k);
                }
                assert forall|m: int| p <= m < n implies seq_lt(k, #[trigger] s[m].key()) by {
                    if m > p {
                        lemma_seq_lt_transitive(k, s[p as int].key(), s[m].key());
                    }
                }
            }
            self.skills.insert(p, e);
            proof {
                let t = self.entries();
                assert forall|i: int, j: int| 0 <= i < j < t.len() implies seq_lt(
                    #[trigger] t[i].key(),
                    #[trigger] t[j].key(),
                ) by {
                    if j < p {
                    } else if j == p {
                    } else if i < p {
                        assert(t[j] == s[j - 1]);
                        lemma_seq_lt_transitive(t[i].key(), k, t[j].key());
                    } else if i == p {
                        assert(t[j] == s[j - 1]);
                    } else {
                        assert(t[i] == s[i - 1] && t[j] == s[j - 1]);
                    }
                }
                assert forall|kk: Seq<char>| #[trigger] skills_map(t).dom().contains(kk) <==> skills_map(s).insert(k, e).dom().contains(kk) by {
                    if has_id(s, kk) {
                        let j = choose|j: int| 0 <= j < s.len() && #[trigger] s[j].key() == kk;
                        if j < p {
                            assert(t[j].key() == kk);
                        } else {
                            assert(t[j + 1].key() == kk);
                        }
                    }
                    if has_id(t, kk) && kk != k {
                        let j = choose|j: int| 0 <= j < t.len() && #[trigger] t[j].key() == kk;
                        if j < p {
                            assert(s[j].key() == kk);
                        } else {
                            assert(s[j - 1].key() == kk);
                        }
                    }
                    assert(t[p as int].key() == k);
                }
                assert forall|kk: Seq<char>| #[trigger] skills_map(t).dom().contains(kk) implies skills_map(t)[kk] == skills_map(s).insert(k, e)[kk] by {
                    let j = choose|j: int| 0 <= j < t.len() && #[trigger] t[j].key() == kk;
                    lemma_map_at(t, j);
                    if j < p {
                        lemma_map_at(s, j);
                        lemma_lt_ne(s[j].key(), k);
                    } else if j > p {
                        lemma_map_at(s, j - 1);
                        lemma_lt_ne(k, s[j - 1].key());
                    }
                }
                assert(skills_map(t) =~= skills_map(s).insert(k, e));
            }
        }
    }

    /// Remove and return the entry filed under `id`.
    pub fn remove(&mut self, id: &str) -> (r: Option<SkillEntry>)
        requires
            old(self).wf(),
        ensures
            final(self).wf(),
            final(self).map() == old(self).map().remove(id@),
            final(self).roots() == old(self).roots(),
            final(self).open_skill() == old(self).open_skill(),
            match r {
                Some(e) => old(self).map().dom().contains(id@) && e == old(self).map()[id@],
                None => !old(self).map().dom().contains(id@),
            },
    {
        let ghost s = self.entries();
        match self.find(id) {
            None => {
                proof {
                    assert(skills_map(s) =~= skills_map(s).remove(id@));
                }
                None
            },
            Some(p) => {
                proof {
                    lemma_map_at(s, p as int);
                }
                let e = self.skills.remove(p);
                proof {
                    let t = self.entries();
                    assert forall|i: int, j: int| 0 <= i < j < t.len() implies seq_lt(
                        #[trigger] t[i].key(),
                        #[trigger] t[j].key(),
                    ) by {
                        if i >= p {
                            assert(t[i] == s[i + 1]);
                        }
                        if j >= p {
                            assert(t[j] == s[j + 1]);
                        }
                    }
                    assert forall|kk: Seq<char>| #[trigger] skills_map(t).dom().contains(kk) <==> skills_map(s).remove(id@).dom().contains(kk) by {
                        if has_id(s, kk) && kk != id@ {
                            let j = choose|j: int| 0 <= j < s.len() && #[trigger] s[j].key() == kk;
                            if j < p {
                                assert(t[j].key() == kk);
                            } else {
                                assert(j != p);
                                assert(t[j - 1].key() == kk);
                            }
                        }
                        if has_id(t, kk) {
                            let j = choose|j: int| 0 <= j < t.len() && #[trigger] t[j].key() == kk;
                            if j < p {
                                assert(s[j].key() == kk);
                                lemma_lt_ne(s[j].key(), s[p as int].key());
                            } else {
                                assert(s[j + 1].key() == kk);
                                lemma_lt_ne(s[p as int].key(), s[j + 1].key());
                            }
                        }
                    }
                    assert forall|kk: Seq<char>| #[trigger] skills_map(t).dom().contains(kk) implies skills_map(t)[kk] == skills_map(s).remove(id@)[kk] by {
                        let j = choose|j: int| 0 <= j < t.len() && #[trigger] t[j].key() == kk;
                        lemma_map_at(t, j);
                        if j < p {
                            lemma_map_at(s, j);
                        } else {
                            lemma_map_at(s, j + 1);
                        }
                    }
                    assert(skills_map(t) =~= skills_map(s).remove(id@));
                }
                Some(e)
            },
        }
    }
}

// ---------------------------------------------------------------------------
// Paths
// ---------------------------------------------------------------------------

/// `root/config/skills/{id}.toml`.
pub open spec fn spec_rules_path(root: Seq<Seq<char>>, id: Seq<char>) -> Seq<Seq<char>> {
    root + seq!["config"@, "skills"@, id + ".toml"@]
}

/// `root/assets/skills/{id}.cast.ron`.
pub open spec fn spec_timeline_path(root: Seq<Seq<char>>, id: Seq<char>) -> Seq<Seq<char>> {
    root + seq!["assets"@, "skills"@, id + ".cast.ron"@]
}

/// `path.parent().map(|p| p.join(name)).unwrap_or(name)`.
pub open spec fn spec_with_file_name(path: Seq<Seq<char>>, name: Seq<char>) -> Seq<Seq<char>> {
    if path.len() == 0 {
        seq![name]
    } else {
        path.drop_last().push(name)
    }
}

/// A copy of `p`.
pub fn clone_path(p: &PathParts) -> (r: PathParts)
    ensures
        r@ == p@,
{
    let r = p.clone();
    assert(r@ =~= p@);
    r
}

fn path_plus(root: &PathParts, a: &str, b: &str, c: String) -> (r: PathParts)
    ensures
        path_view(r@) == path_view(root@) + seq![a@, b@, c@],
{
    let mut r = clone_path(root);
    r.push(String::from_str(a));
    r.push(String::from_str(b));
    r.push(c);
    assert(path_view(r@) =~= path_view(root@) + seq![a@, b@, c@]);
    r
}

/// Where a skill id's rules TOML lives under content root `root`.
pub fn rules_path_for(root: &PathParts, id: &str) -> (r: PathParts)
    ensures
        path_view(r@) == spec_rules_path(path_view(root@), id@),
{
    path_plus(root, "config", "skills", concat(id, ".toml"))
}

/// Where a skill id's `.cast.ron` timeline lives under content root `root`.
pub fn timeline_path_for(root: &PathParts, id: &str) -> (r: PathParts)
    ensures
        path_view(r@) == spec_timeline_path(path_view(root@), id@),
{
    path_plus(root, "assets", "skills", concat(id, ".cast.ron"))
}

/// `path` with its file name replaced by `name` (`name` alone when `path` has no parent).
pub fn with_file_name(path: &PathParts, name: String) -> (r: PathParts)
    ensures
        path_view(r@) == spec_with_file_name(path_view(path@), name@),
{
    let mut r = clone_path(path);
    if r.len() == 0 {
        r.push(name);
        assert(path_view(r@) =~= spec_with_file_name(path_view(path@), name@));
    } else {
        let last = r.len() - 1;
        r.set(last, name);
        assert(path_view(r@) =~= spec_with_file_name(path_view(path@), name@));
    }
    r
}

/// Whether two paths are the same.
pub fn path_eq(a: &PathParts, b: &PathParts) -> (r: bool)
    ensures
        r == (path_view(a@) == path_view(b@)),
{
    if a.len() != b.len() {
        assert(path_view(a@).len() != path_view(b@).len());
        return false;
    }
    let n = a.len();
    let mut i: usize = 0;
    while i < n
        invariant
            n == a@.len(),
            n == b@.len(),
            i <= n,
            forall|j: int| 0 <= j < i ==> a@[j]@ == b@[j]@,
        decreases n - i,
    {
        if a[i] != b[i] {
            assert(path_view(a@)[i as int] != path_view(b@)[i as int]);
            return false;
        }
        i = i + 1;
    }
    assert(path_view(a@) =~= path_view(b@));
    true
}

/// The blank timeline a skill with no `.cast.ron` gets: no windows, no cues, zero phases.
pub open spec fn is_blank_timeline(tl: CastTimeline, skill_id: Seq<char>) -> bool {
    &&& tl.skill_id@ == skill_id
    &&& tl.phase_durations == PhaseDurations { windup: F32_ZERO, active: F32_ZERO, recovery: F32_ZERO }
    &&& tl.collision_windows@.len() == 0
    &&& tl.acquisition == Acquisition::Aim
    &&& tl.vfx_cues@.len() == 0
    &&& tl.chain_radius == 0x40C0_0000u32
    &&& !tl.chargeable
    &&& tl.max_hold == F32_ONE
    &&& tl.cues@.len() == 0
    &&& tl.charge_cues@.len() == 0
}

/// A blank placeholder timeline for `skill_id` (chain radius `6.0`, max hold `1.0`).
pub fn blank_timeline(skill_id: &str) -> (r: CastTimeline)
    ensures
        is_blank_timeline(r, skill_id@),
{
    CastTimeline {
        skill_id: String::from_str(skill_id),
        phase_durations: PhaseDurations { windup: F32_ZERO, active: F32_ZERO, recovery: F32_ZERO },
        collision_windows: Vec::new(),
        acquisition: Acquisition::Aim,
        vfx_cues: Vec::new(),
        chain_radius: 0x40C0_0000u32,
        chargeable: false,
        max_hold: F32_ONE,
        cues: Vec::new(),
        charge_cues: Vec::new(),
    }
}

// ---------------------------------------------------------------------------
// Lifecycle operations
// ---------------------------------------------------------------------------

/// `e`'s rules name `id` as a trigger target.
pub open spec fn references(e: SkillEntry, id: Seq<char>) -> bool {
    exists|c: int|
        0 <= c < e.rules.conditions@.len() && #[trigger] e.rules.conditions@[c].trigger_skill@ == id
}

/// Ids, in library order, of the other skills whose conditions trigger `id`.
pub open spec fn referencing_ids(s: Seq<SkillEntry>, id: Seq<char>) -> Seq<Seq<char>>
    decreases s.len(),
{
    if s.len() == 0 {
        seq![]
    } else {
        let prev = referencing_ids(s.drop_last(), id);
        if s.last().key() != id && references(s.last(), id) {
            prev.push(s.last().key())
        } else {
            prev
        }
    }
}

fn entry_references(e: &SkillEntry, id: &str) -> (r: bool)
    ensures
        r == references(*e, id@),
{
    let n = e.rules.conditions.len();
    let mut c: usize = 0;
    while c < n
        invariant
            n == e.rules.conditions@.len(),
            c <= n,
            forall|m: int| 0 <= m < c ==> #[trigger] e.rules.conditions@[m].trigger_skill@ != id@,
        decreases n - c,
    {
        if str_eq(e.rules.conditions[c].trigger_skill.as_str(), id) {
            return true;
        }
        c = c + 1;
    }
    false
}

/// Ids of the skills whose rules name `id` as a `trigger_skill` — the back-reference check a
/// delete or rename confirms against.
pub fn skills_referencing(id: &str, library: &SkillLibrary) -> (r: Vec<String>)
    ensures
        r@.map_values(|s: String| s@) == referencing_ids(library.entries(), id@),
{
    let mut out: Vec<String> = Vec::new();
    let n = library.skills.len();
    let mut i: usize = 0;
    while i < n
        invariant
            n == library.entries().len(),
            i <= n,
            out@.map_values(|s: String| s@) == referencing_ids(library.entries().take(i as int), id@),
        decreases n - i,
    {
        let e = &library.skills[i];
        proof {
            assert(library.entries().take(i + 1).drop_last() =~= library.entries().take(i as int));
        }
        if !str_eq(e.rules.id.as_str(), id) && entry_references(e, id) {
            out.push(e.rules.id.clone());
        }
        proof {
            assert(out@.map_values(|s: String| s@) =~= referencing_ids(library.entries().take(i + 1), id@));
        }
        i = i + 1;
    }
    proof {
        assert(library.entries().take(n as int) =~= library.entries());
    }
    out
}

impl SkillLibrary {
    /// The ids, in order.
    pub fn keys(&self) -> (r: Vec<String>)
        ensures
            r@.len() == self.entries().len(),
            forall|i: int| 0 <= i < r@.len() ==> #[trigger] r@[i]@ == self.entries()[i].key(),
            taken_set(r@) == self.map().dom(),
    {
        let mut r: Vec<String> = Vec::new();
        let n = self.skills.len();
        let mut i: usize = 0;
        while i < n
            invariant
                n == self.entries().len(),
                i <= n,
                r@.len() == i,
                forall|j: int| 0 <= j < i ==> #[trigger] r@[j]@ == self.entries()[j].key(),
            decreases n - i,
        {
            r.push(self.skills[i].rules.id.clone());
            i = i + 1;
        }
        assert forall|s: Seq<char>| taken_set(r@).contains(s) <==> self.map().dom().contains(s) by {
            if taken_has(r@, s) {
                let k = choose|k: int| 0 <= k < r@.len() && #[trigger] r@[k]@ == s;
                assert(self.entries()[k].key() == s);
            }
            if has_id(self.entries(), s) {
                let k = choose|k: int| 0 <= k < self.entries().len() && #[trigger] self.entries()[k].key() == s;
                assert(r@[k]@ == s);
            }
        }
        assert(taken_set(r@) =~= self.map().dom());
        r
    }

    /// The default write target for newly authored skills: the first root ever registered.
    pub fn default_root(&self) -> (r: Option<&PathParts>)
        ensures
            self.roots().len() == 0 ==> r is None,
            self.roots().len() > 0 ==> r == Some(&self.roots()[0]),
    {
        if self.roots.len() == 0 {
            None
        } else {
            Some(&self.roots[0])
        }
    }
}

/// Pick an id not already in `library`, starting from `base` and appending `_2`, `_3`, ... on
/// collision.
pub fn unique_id(base: &str, library: &SkillLibrary) -> (r: String)
    ensures
        fresh_in(library.map().dom(), base@, r@),
{
    let keys = library.keys();
    fresh_id(base, &keys)
}

/// `e` is a freshly authored, unsaved entry for `rules`/`timeline`, pathed under `root`.
pub open spec fn is_new_entry(
    e: SkillEntry,
    rules: SkillRules,
    timeline: CastTimeline,
    root: Seq<Seq<char>>,
) -> bool {
    &&& e.rules == rules
    &&& e.timeline == timeline
    &&& path_view(e.rules_path@) == spec_rules_path(root, rules.id@)
    &&& path_view(e.timeline_path@) == spec_timeline_path(root, rules.id@)
    &&& e.dirty_rules
    &&& e.dirty_timeline
    &&& e.disk_hash == (0u64, 0u64)
}

/// Insert a freshly authored (unsaved, dirty) skill, pathed under `write_root`. Does nothing
/// and returns `None` when there is no write root or the id is already taken; otherwise returns
/// the id.
pub fn insert_new_skill(
    library: &mut SkillLibrary,
    rules: SkillRules,
    timeline: CastTimeline,
    write_root: Option<&PathParts>,
) -> (r: Option<String>)
    requires
        old(library).wf(),
    ensures
        final(library).wf(),
        final(library).roots() == old(library).roots(),
        final(library).open_skill() == old(library).open_skill(),
        r is None <==> (write_root is None || old(library).map().dom().contains(rules.id@)),
        r is None ==> final(library).map() == old(library).map(),
        match r {
            Some(id) => {
                &&& id@ == rules.id@
                &&& final(library).map().dom() == old(library).map().dom().insert(id@)
                &&& forall|k: Seq<char>|
                    k != id@ && #[trigger] old(library).map().dom().contains(k)
                        ==> final(library).map()[k] == old(library).map()[k]
                &&& is_new_entry(final(library).map()[id@], rules, timeline, path_view(write_root->0@))
            },
            None => true,
        },
{
    let write_root = match write_root {
        Some(root) => root,
        None => return None,
    };
    if library.contains_key(rules.id.as_str()) {
        return None;
    }
    let id = rules.id.clone();
    let rules_path = rules_path_for(write_root, id.as_str());
    let timeline_path = timeline_path_for(write_root, id.as_str());
    let entry = SkillEntry {
        rules,
        timeline,
        rules_path,
        timeline_path,
        dirty_rules: true,
        dirty_timeline: true,
        disk_hash: (0, 0),
    };
    library.insert(entry);
    Some(id)
}

/// `a`'s rules are `b`'s with the id replaced by `id`.
pub open spec fn rules_with_id(a: SkillRules, b: SkillRules, id: Seq<char>) -> bool {
    &&& a.id@ == id
    &&& a.name == b.name
    &&& a.mana_cost == b.mana_cost
    &&& a.cooldown == b.cooldown
    &&& a.delivery == b.delivery
    &&& a.damage.same_as(b.damage)
    &&& a.can_chain == b.can_chain
    &&& a.chain_count == b.chain_count
    &&& a.conditions@ == b.conditions@
    &&& a.effect_applications@ == b.effect_applications@
}

/// `a` is timeline `b` with its `skill_id` replaced by `id`.
pub open spec fn timeline_with_id(a: CastTimeline, b: CastTimeline, id: Seq<char>) -> bool {
    &&& a.skill_id@ == id
    &&& a.phase_durations == b.phase_durations
    &&& a.collision_windows@ == b.collision_windows@
    &&& a.acquisition == b.acquisition
    &&& a.vfx_cues@ == b.vfx_cues@
    &&& a.chain_radius == b.chain_radius
    &&& a.chargeable == b.chargeable
    &&& a.max_hold == b.max_hold
    &&& a.cues@.len() == b.cues@.len()
    &&& forall|i: int| 0 <= i < a.cues@.len() ==> #[trigger] a.cues@[i].same_as(b.cues@[i])
    &&& a.charge_cues@.len() == b.charge_cues@.len()
    &&& forall|i: int|
        0 <= i < a.charge_cues@.len() ==> #[trigger] a.charge_cues@[i].same_as(b.charge_cues@[i])
}

/// Duplicate `source_id`'s entry under a fresh id derived from it (`{source_id}_copy`,
/// `{source_id}_copy_2`, ...), re-pathed under `write_root` and marked unsaved. Returns the new
/// id, or `None` (library unchanged) if `source_id` does not exist.
pub fn duplicate_skill(library: &mut SkillLibrary, source_id: &str, write_root: &PathParts) -> (r:
    Option<String>)
    requires
        old(library).wf(),
    ensures
        final(library).wf(),
        final(library).roots() == old(library).roots(),
        final(library).open_skill() == old(library).open_skill(),
        r is None <==> !old(library).map().dom().contains(source_id@),
        r is None ==> final(library).map() == old(library).map(),
        match r {
            Some(new_id) => {
                let src = old(library).map()[source_id@];
                let e = final(library).map()[new_id@];
                &&& fresh_in(old(library).map().dom(), source_id@ + "_copy"@, new_id@)
                &&& final(library).map().dom() == old(library).map().dom().insert(new_id@)
                &&& forall|k: Seq<char>|
                    k != new_id@ && #[trigger] old(library).map().dom().contains(k)
                        ==> final(library).map()[k] == old(library).map()[k]
                &&& rules_with_id(e.rules, src.rules, new_id@)
                &&& timeline_with_id(e.timeline, src.timeline, new_id@)
                &&& path_view(e.rules_path@) == spec_rules_path(path_view(write_root@), new_id@)
                &&& path_view(e.timeline_path@) == spec_timeline_path(path_view(write_root@), new_id@)
                &&& e.dirty_rules && e.dirty_timeline
                &&& e.disk_hash == (0u64, 0u64)
            },
            None => true,
        },
{
    let source = match library.get(source_id) {
        Some(e) => e.clone(),
        None => return None,
    };
    let base = concat(source_id, "_copy");
    let new_id = unique_id(base.as_str(), library);
    let mut rules = source.rules;
    rules.id = new_id.clone();
    let mut timeline = source.timeline;
    timeline.skill_id = new_id.clone();
    let rules_path = rules_path_for(write_root, new_id.as_str());
    let timeline_path = timeline_path_for(write_root, new_id.as_str());
    let entry = SkillEntry {
        rules,
        timeline,
        rules_path,
        timeline_path,
        dirty_rules: true,
        dirty_timeline: true,
        disk_hash: (0, 0),
    };
    library.insert(entry);
    Some(new_id)
}

/// The open skill is `id`.
pub open spec fn open_is(open: Option<String>, id: Seq<char>) -> bool {
    match open {
        Some(o) => o@ == id,
        None => false,
    }
}

/// Entry `e` is `src` renamed to `new_id`: ids replaced, re-pathed within the same parent
/// directories, both halves marked unsaved.
pub open spec fn is_renamed_entry(e: SkillEntry, src: SkillEntry, new_id: Seq<char>) -> bool {
    &&& rules_with_id(e.rules, src.rules, new_id)
    &&& timeline_with_id(e.timeline, src.timeline, new_id)
    &&& path_view(e.rules_path@) == spec_with_file_name(path_view(src.rules_path@), new_id + ".toml"@)
    &&& path_view(e.timeline_path@) == spec_with_file_name(
        path_view(src.timeline_path@),
        new_id + ".cast.ron"@,
    )
    &&& e.dirty_rules && e.dirty_timeline
    &&& e.disk_hash == src.disk_hash
}

/// Rename `old_id`'s entry to `new_id`. Does nothing and returns `false` if `old_id` is missing,
/// `new_id` is already taken, or they are equal. The open skill follows the rename.
pub fn rename_skill(library: &mut SkillLibrary, old_id: &str, new_id: &str) -> (r: bool)
    requires
        old(library).wf(),
    ensures
        final(library).wf(),
        final(library).roots() == old(library).roots(),
        r == (old_id@ != new_id@ && !old(library).map().dom().contains(new_id@)
            && old(library).map().dom().contains(old_id@)),
        !r ==> final(library).map() == old(library).map() && final(library).open_skill() == old(library).open_skill(),
        r ==> {
            &&& final(library).map().dom() == old(library).map().dom().remove(old_id@).insert(new_id@)
            &&& forall|k: Seq<char>|
                k != new_id@ && k != old_id@ && #[trigger] old(library).map().dom().contains(k)
                    ==> final(library).map()[k] == old(library).map()[k]
            &&& is_renamed_entry(final(library).map()[new_id@], old(library).map()[old_id@], new_id@)
            &&& final(library).open_skill() == (if open_is(old(library).open_skill(), old_id@) {
                Some(final(library).map()[new_id@].rules.id)
            } else {
                old(library).open_skill()
            })
        },
{
    if str_eq(old_id, new_id) || library.contains_key(new_id) {
        return false;
    }
    let mut entry = match library.remove(old_id) {
        Some(e) => e,
        None => return false,
    };
    let ghost src = entry;
    let ghost mid = library.map();
    entry.rules.id = String::from_str(new_id);
    entry.timeline.skill_id = String::from_str(new_id);
    entry.rules_path = with_file_name(&entry.rules_path, concat(new_id, ".toml"));
    entry.timeline_path = with_file_name(&entry.timeline_path, concat(new_id, ".cast.ron"));
    entry.dirty_rules = true;
    entry.dirty_timeline = true;
    let renamed_id = entry.rules.id.clone();
    library.insert(entry);
    let is_open = match &library.open {
        Some(o) => str_eq(o.as_str(), old_id),
        None => false,
    };
    if is_open {
        library.open = Some(renamed_id);
    }
    true
}

/// Delete `id`'s entry. Returns `false` (library unchanged) if it did not exist. Closes the
/// panel's skill if it was the one deleted.
pub fn delete_skill(library: &mut SkillLibrary, id: &str) -> (r: bool)
    requires
        old(library).wf(),
    ensures
        final(library).wf(),
        final(library).roots() == old(library).roots(),
        r == old(library).map().dom().contains(id@),
        final(library).map() == old(library).map().remove(id@),
        final(library).open_skill() == (if r && open_is(old(library).open_skill(), id@) {
            None
        } else {
            old(library).open_skill()
        }),
{
    let removed = library.remove(id).is_some();
    if removed {
        let is_open = match &library.open {
            Some(o) => str_eq(o.as_str(), id),
            None => false,
        };
        if is_open {
            library.open = None;
        }
    }
    removed
}

} // verus!
