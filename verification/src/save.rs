//! Explicit save of a skill's two files, the decision half: which dirty halves to write, the
//! stale-disk guard, the bookkeeping after a write, and applying a reload from disk.
//!
//! Every dirty half is compared against `entry.disk_hash` before either file is touched: when a
//! file's current bytes hash differently from what was last loaded or saved, nothing at all is
//! written and the save reports `StaleDisk` for the first such half (rules before timeline). An
//! overwrite skips that guard. A file that does not exist hashes as `0`, so a never-saved entry
//! (`disk_hash == (0, 0)`) is never stale.
use vstd::prelude::*;

use crate::library::{blank_timeline, is_blank_timeline, SkillEntry};
use crate::model::{CastTimeline, SkillRules};
use crate::text::{concat, concat3, decimal, decimal_string, join_with, joined, str_eq};
use crate::validation::{blocking_msgs, lemma_blocking_iff_messages, Problem, ValidationReport};

verus! {

/// Which disk file a save or stale-check failure is about.
#[derive(Debug, Clone, Copy, PartialEq, Eq, Structural)]
pub enum SaveTarget {
    Rules,
    Timeline,
}

pub open spec fn target_label(t: SaveTarget) -> Seq<char> {
    match t {
        SaveTarget::Rules => "rules"@,
        SaveTarget::Timeline => "timeline"@,
    }
}

impl SaveTarget {
    /// `"rules"` or `"timeline"`.
    pub fn label(&self) -> (r: &'static str)
        ensures
            r@ == target_label(*self),
    {
        match self {
            SaveTarget::Rules => "rules",
            SaveTarget::Timeline => "timeline",
        }
    }
}

/// Why a save did not (fully) happen.
#[derive(Debug)]
pub enum SaveError {
    /// A filesystem or (de)serialization failure on `which`.
    Io { which: SaveTarget, message: String },
    /// `which` changed on disk since it was loaded or saved; nothing was written.
    StaleDisk { which: SaveTarget },
    /// Validation has blocking problems (these messages); the save was never attempted.
    Blocked(Vec<String>),
}

impl Clone for SaveError {
    fn clone(&self) -> (r: Self)
        ensures
            error_view(r) == error_view(*self),
    {
        match self {
            SaveError::Io { which, message } => SaveError::Io { which: *which, message: message.clone() },
            SaveError::StaleDisk { which } => SaveError::StaleDisk { which: *which },
            SaveError::Blocked(reasons) => {
                let r = reasons.clone();
                assert(r@ =~= reasons@);
                SaveError::Blocked(r)
            },
        }
    }
}

/// A save error as plain values.
pub enum SaveErrorView {
    Io { which: SaveTarget, message: Seq<char> },
    StaleDisk { which: SaveTarget },
    Blocked(Seq<Seq<char>>),
}

pub open spec fn error_view(e: SaveError) -> SaveErrorView {
    match e {
        SaveError::Io { which, message } => SaveErrorView::Io { which, message: message@ },
        SaveError::StaleDisk { which } => SaveErrorView::StaleDisk { which },
        SaveError::Blocked(reasons) => SaveErrorView::Blocked(reasons@.map_values(|s: String| s@)),
    }
}

/// The human-readable text of a save error.
pub open spec fn error_message(e: SaveError) -> Seq<char> {
    match e {
        SaveError::Io { which, message } => target_label(which) + " save failed: "@ + message@,
        SaveError::StaleDisk { which } => target_label(which)
            + " file changed on disk since it was loaded \u{2014} reload or overwrite"@,
        SaveError::Blocked(reasons) => "blocked by "@ + decimal(reasons@.len()) + " validation problem(s)"@,
    }
}

impl SaveError {
    /// The error as text for the panel.
    pub fn message(&self) -> (r: String)
        ensures
            r@ == error_message(*self),
    {
        match self {
            SaveError::Io { which, message } => concat3(which.label(), " save failed: ", message.as_str()),
            SaveError::StaleDisk { which } => concat(
                which.label(),
                " file changed on disk since it was loaded \u{2014} reload or overwrite",
            ),
            SaveError::Blocked(reasons) => {
                let n = decimal_string(reasons.len() as u128);
                concat3("blocked by ", n.as_str(), " validation problem(s)")
            },
        }
    }
}

/// What the save header offers.
pub enum SaveControl {
    /// The stale-disk prompt: Overwrite and Reload, beside `note`.
    StalePrompt { note: String },
    /// The Save button, enabled or not, and the hover text it shows when it has one.
    SaveButton { enabled: bool, hover: Option<String> },
}

/// The save header of the open skill: a marker for each dirty half, and the control.
pub struct SaveHeader {
    pub rules_marker: bool,
    pub timeline_marker: bool,
    pub control: SaveControl,
}

/// The save header for `entry` with validation `problems`, while the stale-disk prompt for
/// `stale_prompt` is up (if it is): the prompt names the changed file; otherwise Save is enabled
/// when something is dirty and nothing blocks, and explains itself when it is not: the blocking
/// messages one per line, or that there is nothing to save.
pub open spec fn is_save_header(r: SaveHeader, entry: SkillEntry, problems: Seq<Problem>, stale_prompt: Option<SaveTarget>) -> bool {
    let dirty = entry.dirty_rules || entry.dirty_timeline;
    let blocks = blocking_msgs(problems);
    &&& r.rules_marker == entry.dirty_rules
    &&& r.timeline_marker == entry.dirty_timeline
    &&& match stale_prompt {
        Some(which) => r.control matches SaveControl::StalePrompt { note } && note@ == target_label(which)
            + " changed on disk"@,
        None => r.control matches SaveControl::SaveButton { enabled, hover } && enabled == (dirty && blocks.len()
            == 0) && (if blocks.len() > 0 {
            hover matches Some(h) && h@ == "Blocked by validation:\n"@ + joined(blocks, "\n"@)
        } else if !dirty {
            hover matches Some(h) && h@ == "No changes to save"@
        } else {
            hover is None
        }),
    }
}

/// The save header (see [`is_save_header`]).
pub fn save_header(entry: &SkillEntry, report: &ValidationReport, stale_prompt: Option<SaveTarget>) -> (r: SaveHeader)
    ensures
        is_save_header(r, *entry, report.problems@, stale_prompt),
{
    let control = match stale_prompt {
        Some(which) => SaveControl::StalePrompt { note: concat(which.label(), " changed on disk") },
        None => {
            let dirty = entry.dirty_rules || entry.dirty_timeline;
            let messages = report.blocking_messages();
            proof {
                lemma_blocking_iff_messages(report.problems@);
                assert(messages@.len() == blocking_msgs(report.problems@).len());
            }
            let blocking = messages.len() > 0;
            let hover = if blocking {
                let lines = join_with(&messages, "\n");
                Some(concat("Blocked by validation:\n", lines.as_str()))
            } else if !dirty {
                Some(String::from_str("No changes to save"))
            } else {
                None
            };
            SaveControl::SaveButton { enabled: dirty && !blocking, hover }
        },
    };
    SaveHeader { rules_marker: entry.dirty_rules, timeline_marker: entry.dirty_timeline, control }
}

/// The text of an optional owned string.
pub open spec fn opt_string(o: Option<String>) -> Option<Seq<char>> {
    match o {
        Some(t) => Some(t@),
        None => None,
    }
}

/// The panel's memory of the last save attempt: the stale-disk prompt and the last error, for
/// the skill they were raised for.
pub struct SkillSaveState {
    /// The skill the prompt and error belong to.
    pub for_id: Option<String>,
    /// Set while the stale-disk prompt is up.
    pub stale_prompt: Option<SaveTarget>,
    /// The last attempt's error text.
    pub last_error: Option<String>,
}

impl Default for SkillSaveState {
    /// Nothing raised.
    fn default() -> (r: Self)
        ensures
            r.for_id is None,
            r.stale_prompt is None,
            r.last_error is None,
    {
        SkillSaveState { for_id: None, stale_prompt: None, last_error: None }
    }
}

fn same_id(a: &Option<String>, b: &Option<String>) -> (r: bool)
    ensures
        r == (opt_string(*a) == opt_string(*b)),
{
    match (a, b) {
        (None, None) => true,
        (Some(x), Some(y)) => str_eq(x.as_str(), y.as_str()),
        _ => false,
    }
}

impl SkillSaveState {
    /// The prompt and error the panel shows while skill `open` is open: the remembered ones when
    /// they belong to it, none otherwise (they lapse when another skill is opened).
    pub fn shown_for(&self, open: &Option<String>) -> (r: (Option<SaveTarget>, Option<String>))
        ensures
            opt_string(self.for_id) == opt_string(*open) ==> r.0 == self.stale_prompt && opt_string(r.1)
                == opt_string(self.last_error),
            opt_string(self.for_id) != opt_string(*open) ==> r.0 is None && r.1 is None,
    {
        if same_id(&self.for_id, open) {
            let e = match &self.last_error {
                Some(m) => Some(m.clone()),
                None => None,
            };
            (self.stale_prompt, e)
        } else {
            (None, None)
        }
    }

    /// Remember the outcome of a save, reload or overwrite of skill `open`: success clears the
    /// prompt and the error; a stale file raises the prompt for it, with the note
    /// `{file} file changed on disk since it was loaded`; any other failure records its text
    /// and leaves the prompt as it was.
    pub fn record_outcome(&mut self, open: Option<String>, result: &Result<(), SaveError>)
        ensures
            opt_string(final(self).for_id) == opt_string(open),
            match *result {
                Ok(()) => final(self).stale_prompt is None && final(self).last_error is None,
                Err(SaveError::StaleDisk { which }) => final(self).stale_prompt == Some(which) && opt_string(
                    final(self).last_error,
                ) == Some(target_label(which) + " file changed on disk since it was loaded"@),
                Err(e) => final(self).stale_prompt == old(self).stale_prompt && opt_string(final(self).last_error)
                    == Some(error_message(e)),
            },
    {
        self.for_id = open;
        match result {
            Ok(()) => {
                self.stale_prompt = None;
                self.last_error = None;
            },
            Err(SaveError::StaleDisk { which }) => {
                self.stale_prompt = Some(*which);
                self.last_error = Some(concat(which.label(), " file changed on disk since it was loaded"));
            },
            Err(e) => {
                self.last_error = Some(e.message());
            },
        }
    }
}

/// What a save writes.
#[derive(Debug, Clone, Copy, PartialEq, Eq, Structural)]
pub struct SavePlan {
    pub write_rules: bool,
    pub write_timeline: bool,
}

/// The stale-disk guard's verdict, given the current hashes of the two files (`0` for a file
/// that does not exist).
pub open spec fn stale_target(entry: SkillEntry, rules_now: u64, timeline_now: u64) -> Option<SaveTarget> {
    if entry.dirty_rules && rules_now != entry.disk_hash.0 {
        Some(SaveTarget::Rules)
    } else if entry.dirty_timeline && timeline_now != entry.disk_hash.1 {
        Some(SaveTarget::Timeline)
    } else {
        None
    }
}

/// The stale-disk guard: `StaleDisk` for the first dirty half whose file changed on disk.
pub fn check_stale(entry: &SkillEntry, rules_now: u64, timeline_now: u64) -> (r: Result<(), SaveError>)
    ensures
        match stale_target(*entry, rules_now, timeline_now) {
            Some(which) => r matches Err(SaveError::StaleDisk { which: w }) && w == which,
            None => r is Ok,
        },
{
    if entry.dirty_rules && rules_now != entry.disk_hash.0 {
        return Err(SaveError::StaleDisk { which: SaveTarget::Rules });
    }
    if entry.dirty_timeline && timeline_now != entry.disk_hash.1 {
        return Err(SaveError::StaleDisk { which: SaveTarget::Timeline });
    }
    Ok(())
}

/// Plan a save: the dirty halves, unless the guard finds one of them stale.
pub fn plan_save(entry: &SkillEntry, rules_now: u64, timeline_now: u64) -> (r: Result<SavePlan, SaveError>)
    ensures
        match stale_target(*entry, rules_now, timeline_now) {
            Some(which) => r matches Err(SaveError::StaleDisk { which: w }) && w == which,
            None => r == Ok::<SavePlan, SaveError>(
                SavePlan { write_rules: entry.dirty_rules, write_timeline: entry.dirty_timeline },
            ),
        },
{
    match check_stale(entry, rules_now, timeline_now) {
        Err(e) => Err(e),
        Ok(()) => Ok(plan_overwrite(entry)),
    }
}

/// Plan an overwrite: every dirty half, with no stale guard.
pub fn plan_overwrite(entry: &SkillEntry) -> (r: SavePlan)
    ensures
        r == (SavePlan { write_rules: entry.dirty_rules, write_timeline: entry.dirty_timeline }),
{
    SavePlan { write_rules: entry.dirty_rules, write_timeline: entry.dirty_timeline }
}

/// `e` once `which` was written with bytes hashing to `h`: that half's hash is `h` and it is
/// no longer dirty; nothing else changes.
pub open spec fn recorded(e: SkillEntry, which: SaveTarget, h: u64) -> SkillEntry {
    match which {
        SaveTarget::Rules => SkillEntry { disk_hash: (h, e.disk_hash.1), dirty_rules: false, ..e },
        SaveTarget::Timeline => SkillEntry { disk_hash: (e.disk_hash.0, h), dirty_timeline: false, ..e },
    }
}

/// `which` was just written with bytes hashing to `written_hash`: remember the hash and clear
/// that half's dirty flag (see [`recorded`]).
pub fn record_saved(entry: &mut SkillEntry, which: SaveTarget, written_hash: u64)
    ensures
        *final(entry) == recorded(*old(entry), which, written_hash),
{
    match which {
        SaveTarget::Rules => {
            entry.disk_hash = (written_hash, entry.disk_hash.1);
            entry.dirty_rules = false;
        },
        SaveTarget::Timeline => {
            entry.disk_hash = (entry.disk_hash.0, written_hash);
            entry.dirty_timeline = false;
        },
    }
}

/// The first of `parsed` whose id is `id`.
pub open spec fn first_with_id(parsed: Seq<SkillRules>, id: Seq<char>, k: int) -> bool {
    &&& 0 <= k < parsed.len()
    &&& parsed[k].id@ == id
    &&& forall|j: int| 0 <= j < k ==> (#[trigger] parsed[j]).id@ != id
}

pub open spec fn msg_not_found(id: Seq<char>, path: Seq<char>) -> Seq<char> {
    "skill '"@ + id + "' not found in "@ + path
}

/// The timeline half of a reload: `None` when the timeline file does not exist, else the parsed
/// timeline with its file's hash, or the parse error's text.
pub type TimelineRead = Option<Result<(CastTimeline, u64), String>>;

/// Apply a reload of both files from disk, discarding in-memory edits: `parsed` is every skill
/// the rules file holds (its bytes hash to `rules_hash`), `rules_path_text` the rules path as
/// shown in messages. The entry takes the first parsed skill with its id, and the read timeline
/// (or a blank one, hash `0`, when there is no timeline file); both dirty flags clear. When the
/// rules file lacks the id, or the timeline failed to parse, the entry is left untouched.
pub fn apply_reload(
    entry: &mut SkillEntry,
    parsed: Vec<SkillRules>,
    rules_hash: u64,
    timeline: TimelineRead,
    rules_path_text: &str,
) -> (r: Result<(), SaveError>)
    ensures
        !(exists|k: int| first_with_id(parsed@, old(entry).key(), k)) ==> {
            &&& r matches Err(SaveError::Io { which, message })
            &&& which == SaveTarget::Rules
            &&& message@ == msg_not_found(old(entry).key(), rules_path_text@)
            &&& *final(entry) == *old(entry)
        },
        (exists|k: int| first_with_id(parsed@, old(entry).key(), k)) ==> match timeline {
            Some(Err(m)) => {
                &&& r matches Err(SaveError::Io { which, message })
                &&& which == SaveTarget::Timeline
                &&& message@ == m@
                &&& *final(entry) == *old(entry)
            },
            _ => {
                &&& r is Ok
                &&& first_with_id(parsed@, old(entry).key(), choose|k: int| first_with_id(parsed@, old(entry).key(), k))
                &&& final(entry).rules == parsed@[choose|k: int| first_with_id(parsed@, old(entry).key(), k)]
                &&& match timeline {
                    Some(Ok((tl, h))) => final(entry).timeline == tl && final(entry).disk_hash == (rules_hash, h),
                    _ => is_blank_timeline(final(entry).timeline, old(entry).key())
                        && final(entry).disk_hash == (rules_hash, 0u64),
                }
                &&& !final(entry).dirty_rules
                &&& !final(entry).dirty_timeline
                &&& final(entry).rules_path == old(entry).rules_path
                &&& final(entry).timeline_path == old(entry).timeline_path
            },
        },
{
    let n = parsed.len();
    let mut k: usize = 0;
    while k < n
        invariant
            n == parsed@.len(),
            k <= n,
            forall|j: int| 0 <= j < k ==> (#[trigger] parsed@[j]).id@ != entry.rules.id@,
        ensures
            k <= n,
            forall|j: int| 0 <= j < k ==> (#[trigger] parsed@[j]).id@ != entry.rules.id@,
            k < n ==> parsed@[k as int].id@ == entry.rules.id@,
        decreases n - k,
    {
        if str_eq(parsed[k].id.as_str(), entry.rules.id.as_str()) {
            break;
        }
        k = k + 1;
    }
    if k == n {
        proof {
            assert forall|kk: int| !first_with_id(parsed@, entry.key(), kk) by {
                if first_with_id(parsed@, entry.key(), kk) {
                    assert(parsed@[kk].id@ != entry.rules.id@);
                }
            }
        }
        let message = concat3("skill '", entry.rules.id.as_str(), "' not found in ");
        let message = concat(message.as_str(), rules_path_text);
        return Err(SaveError::Io { which: SaveTarget::Rules, message });
    }
    proof {
        assert(first_with_id(parsed@, entry.key(), k as int));
        let kk = choose|kk: int| first_with_id(parsed@, entry.key(), kk);
        if kk < k {
            assert(parsed@[kk].id@ != entry.rules.id@);
        } else if kk > k {
            assert(parsed@[k as int].id@ != entry.key());
        }
    }
    let (new_timeline, timeline_hash) = match timeline {
        Some(Err(m)) => {
            return Err(SaveError::Io { which: SaveTarget::Timeline, message: m });
        },
        Some(Ok((tl, h))) => (tl, h),
        None => (blank_timeline(entry.rules.id.as_str()), 0u64),
    };
    let mut parsed = parsed;
    let rules = parsed.swap_remove(k);
    entry.rules = rules;
    entry.timeline = new_timeline;
    entry.disk_hash = (rules_hash, timeline_hash);
    entry.dirty_rules = false;
    entry.dirty_timeline = false;
    Ok(())
}

/// The rules fields the editor owns: the only keys a save ever writes into an existing rules
/// document (every other key, and every comment, is left as it is).
pub open spec fn owned_rules_fields() -> Seq<Seq<char>> {
    seq!["id"@, "name"@, "mana_cost"@, "cooldown"@, "damage"@, "conditions"@, "effect_applications"@]
}

/// The owned rules fields (see [`owned_rules_fields`]), in patch order.
pub fn owned_rules_field_names() -> (r: Vec<&'static str>)
    ensures
        r@.map_values(|k: &'static str| k@) == owned_rules_fields(),
{
    let r = vec!["id", "name", "mana_cost", "cooldown", "damage", "conditions", "effect_applications"];
    assert(r@.map_values(|k: &'static str| k@) =~= owned_rules_fields());
    r
}

/// What locating a skill reads of a rules document: `skills` is `Some` when the document's
/// `skills` key is an array of tables, holding each table's string `id` (if it has one);
/// `root_id` is the root table's string `id` (if it has one).
#[derive(Debug)]
pub struct RulesLayout {
    pub skills: Option<Vec<Option<String>>>,
    pub root_id: Option<String>,
}

/// Where a skill's table sits in a rules document.
#[derive(Debug, Clone, Copy, PartialEq, Eq, Structural)]
pub enum TablePos {
    /// The document's own root table (one skill per file).
    Root,
    /// Entry `i` of the `[[skills]]` array.
    Skills(usize),
}

/// A rules document's layout as plain values: `(skills, root_id)` (see [`RulesLayout`]).
pub type LayoutView = (Option<Seq<Option<Seq<char>>>>, Option<Seq<char>>);

pub open spec fn opt_str_view(o: Option<String>) -> Option<Seq<char>> {
    match o {
        Some(s) => Some(s@),
        None => None,
    }
}

pub open spec fn layout_view(l: RulesLayout) -> LayoutView {
    (
        match l.skills {
            Some(ids) => Some(ids@.map_values(|o: Option<String>| opt_str_view(o))),
            None => None,
        },
        opt_str_view(l.root_id),
    )
}

/// `ids[k]` is the first array entry whose id is `id`.
pub open spec fn first_table_with_id(ids: Seq<Option<Seq<char>>>, id: Seq<char>, k: int) -> bool {
    &&& 0 <= k < ids.len()
    &&& ids[k] == Some(id)
    &&& forall|j: int| 0 <= j < k ==> #[trigger] ids[j] != Some(id)
}

/// The table of skill `id`: in an array-of-tables document the first entry with that id (and
/// nothing else is considered); otherwise the root table when its id matches.
pub open spec fn table_of(layout: LayoutView, id: Seq<char>) -> Option<TablePos> {
    match layout.0 {
        Some(ids) => if exists|k: int| first_table_with_id(ids, id, k) {
            Some(TablePos::Skills((choose|k: int| first_table_with_id(ids, id, k)) as usize))
        } else {
            None
        },
        None => if layout.1 == Some(id) {
            Some(TablePos::Root)
        } else {
            None
        },
    }
}

/// Find the table describing skill `id` in a rules document (see [`table_of`]).
pub fn find_skill_table(layout: &RulesLayout, id: &str) -> (r: Option<TablePos>)
    ensures
        r == table_of(layout_view(*layout), id@),
{
    match &layout.skills {
        Some(ids) => {
            let ghost v = ids@.map_values(|o: Option<String>| opt_str_view(o));
            let n = ids.len();
            let mut k: usize = 0;
            while k < n
                invariant
                    n == ids@.len(),
                    k <= n,
                    v == ids@.map_values(|o: Option<String>| opt_str_view(o)),
                    layout_view(*layout).0 == Some(v),
                    forall|j: int| 0 <= j < k ==> #[trigger] v[j] != Some(id@),
                decreases n - k,
            {
                if let Some(s) = &ids[k] {
                    if str_eq(s.as_str(), id) {
                        proof {
                            assert(v[k as int] == Some(id@));
                            assert(first_table_with_id(v, id@, k as int));
                            let kk = choose|kk: int| first_table_with_id(v, id@, kk);
                            if kk < k {
                            } else if kk > k {
                                assert(v[k as int] != Some(id@));
                            }
                            assert(kk == k as int);
                            assert((kk as usize) == k);
                            assert(exists|k2: int| first_table_with_id(v, id@, k2));
                            let lv = layout_view(*layout);
                            assert(lv.0 == Some(v));
                            assert(lv.0->0 == v);
                            let k3 = choose|k: int| first_table_with_id(lv.0->0, id@, k);
                            assert(k3 == kk);
                            assert(table_of(lv, id@) == Some(TablePos::Skills(k)));
                        }
                        return Some(TablePos::Skills(k));
                    }
                }
                assert(v[k as int] != Some(id@));
                k = k + 1;
            }
            None
        },
        None => match &layout.root_id {
            Some(r) => if str_eq(r.as_str(), id) {
                Some(TablePos::Root)
            } else {
                None
            },
            None => None,
        },
    }
}

/// What reading a rules document's text gives: its layout, or the parse error's text.
pub uninterp spec fn toml_read(text: Seq<char>) -> Result<LayoutView, Seq<char>>;

/// `toml_edit::DocumentMut`'s `FromStr` (toml_edit): parses `text`; on success the document's
/// `skills` item is read as an array of tables (`Item::as_array_of_tables`), each table's `id`
/// as a string (`Table::get`, `Item::as_str`), and the root table's `id` likewise; on failure
/// the error's `Display` text is returned. Claimed: the outcome is the named [`toml_read`] of
/// the text, nothing more.
#[verifier::external_body]
fn read_rules_layout(text: &str) -> (r: Result<RulesLayout, String>)
    ensures
        match r {
            Ok(l) => toml_read(text@) == Ok::<LayoutView, Seq<char>>(layout_view(l)),
            Err(m) => toml_read(text@) == Err::<LayoutView, Seq<char>>(m@),
        },
{
    let doc: toml_edit::DocumentMut = match text.parse() {
        Ok(doc) => doc,
        Err(e) => return Err(toml_edit::TomlError::to_string(&e)),
    };
    let id_of = |t: &toml_edit::Table| t.get("id").and_then(|i| i.as_str()).map(String::from);
    let skills = doc.get("skills").and_then(|s| s.as_array_of_tables()).map(|a| a.iter().map(id_of).collect());
    Ok(RulesLayout { skills, root_id: id_of(doc.as_table()) })
}

/// `toml_edit::DocumentMut`, a parsed TOML document that keeps the source's formatting.
#[verifier::external_type_specification]
#[verifier::external_body]
pub struct ExTomlDocument(toml_edit::DocumentMut);

/// What a document holds: the text it was parsed from.
pub uninterp spec fn toml_doc_source(d: toml_edit::DocumentMut) -> Seq<char>;

/// What a document holds beyond its source: the keys set in it since, in order, each as
/// `(table, fresh, key)` — the table (the root for `None`, else that entry of its `[[skills]]`
/// array) that took the item `key` of the document parsed from `fresh`.
pub uninterp spec fn toml_doc_edits(d: toml_edit::DocumentMut) -> Seq<(Option<usize>, Seq<char>, Seq<char>)>;

/// Whether the root table of the document parsed from `text` holds `key`.
pub uninterp spec fn toml_has(text: Seq<char>, key: Seq<char>) -> bool;

/// The text a document parsed from `source`, with `edits` applied in order, renders to.
pub uninterp spec fn toml_render_of(source: Seq<char>, edits: Seq<(Option<usize>, Seq<char>, Seq<char>)>) -> Seq<char>;

/// `toml_edit::DocumentMut`'s `FromStr` (toml_edit): parses `text`. Claimed: it succeeds exactly
/// when [`toml_read`] of the text does, with the same error text; the document holds `text` and
/// no edits.
#[verifier::external_body]
fn parse_document(text: &str) -> (r: Result<toml_edit::DocumentMut, String>)
    ensures
        match r {
            Ok(d) => toml_read(text@) is Ok && toml_doc_source(d) == text@ && toml_doc_edits(d) == Seq::<
                (Option<usize>, Seq<char>, Seq<char>),
            >::empty(),
            Err(m) => toml_read(text@) == Err::<LayoutView, Seq<char>>(m@),
        },
{
    text.parse::<toml_edit::DocumentMut>().map_err(|e| e.to_string())
}

/// `toml_edit::Table::contains_key` on the document's root table. Claimed: the answer is
/// [`toml_has`] of the text the (unedited) document was parsed from.
#[verifier::external_body]
fn document_has_key(d: &toml_edit::DocumentMut, key: &str) -> (r: bool)
    requires
        toml_doc_edits(*d).len() == 0,
    ensures
        r == toml_has(toml_doc_source(*d), key@),
{
    d.contains_key(key)
}

/// `Table`'s `IndexMut` on the document's root table (toml_edit), assigned a clone of `fresh`'s
/// item `key` (`Index`, which panics on a missing key: `fresh` must hold it). Claimed: the
/// document records the edit.
#[verifier::external_body]
fn set_root_key(doc: &mut toml_edit::DocumentMut, fresh: &toml_edit::DocumentMut, key: &str)
    requires
        toml_doc_edits(*fresh).len() == 0,
        toml_has(toml_doc_source(*fresh), key@),
    ensures
        toml_doc_source(*final(doc)) == toml_doc_source(*old(doc)),
        toml_doc_edits(*final(doc)) == toml_doc_edits(*old(doc)).push((None::<usize>, toml_doc_source(*fresh), key@)),
{
    doc[key] = fresh[key].clone();
}

/// Entry `i` of the document's `[[skills]]` array (`IndexMut` on `"skills"`,
/// `Item::as_array_of_tables_mut`, `ArrayOfTables::get_mut`, each of which must find it), whose
/// `key` (`Table`'s `IndexMut`) is assigned a clone of `fresh`'s item `key` (`Index`). The array
/// exists with more than `i` entries when the source's layout says so and no edit has reached the
/// root table's `skills`. Claimed: the document records the edit.
#[verifier::external_body]
fn set_skill_key(doc: &mut toml_edit::DocumentMut, i: usize, fresh: &toml_edit::DocumentMut, key: &str)
    requires
        toml_read(toml_doc_source(*old(doc))) matches Ok(l) && l.0 matches Some(ids) && i < ids.len(),
        forall|j: int|
            0 <= j < toml_doc_edits(*old(doc)).len() ==> (#[trigger] toml_doc_edits(*old(doc))[j]).0 is Some,
        toml_doc_edits(*fresh).len() == 0,
        toml_has(toml_doc_source(*fresh), key@),
    ensures
        toml_doc_source(*final(doc)) == toml_doc_source(*old(doc)),
        toml_doc_edits(*final(doc)) == toml_doc_edits(*old(doc)).push((Some(i), toml_doc_source(*fresh), key@)),
{
    let skills = doc["skills"].as_array_of_tables_mut().expect("an array of tables");
    let table = skills.get_mut(i).expect("an entry at the position");
    table[key] = fresh[key].clone();
}

/// `Display` for `toml_edit::DocumentMut`. Claimed: the text is [`toml_render_of`] what the
/// document holds.
#[verifier::external_body]
fn render_document(d: &toml_edit::DocumentMut) -> (r: String)
    ensures
        r@ == toml_render_of(toml_doc_source(*d), toml_doc_edits(*d)),
{
    d.to_string()
}

/// The keys of `keys` that `fresh` holds, as edits of table `pos`, in order.
pub open spec fn patch_edits(pos: Option<usize>, fresh: Seq<char>, keys: Seq<Seq<char>>) -> Seq<(Option<usize>, Seq<char>, Seq<char>)>
    decreases keys.len(),
{
    if keys.len() == 0 {
        seq![]
    } else if toml_has(fresh, keys.last()) {
        patch_edits(pos, fresh, keys.drop_last()).push((pos, fresh, keys.last()))
    } else {
        patch_edits(pos, fresh, keys.drop_last())
    }
}

pub open spec fn pos_view(p: TablePos) -> Option<usize> {
    match p {
        TablePos::Root => None,
        TablePos::Skills(i) => Some(i),
    }
}

/// What rendering the rules half gives: a brand-new file (`existing` is `None`) gets `fresh`
/// as it is; an existing document that does not parse is an error (its parse error's text); one
/// without a table for `id` is replaced by `fresh`; otherwise only the owned fields of its
/// table for `id` are patched from `fresh`, and everything else in it is kept.
pub open spec fn rendered_rules(existing: Option<Seq<char>>, fresh: Seq<char>, id: Seq<char>) -> Result<Seq<char>, Seq<char>> {
    match existing {
        None => Ok(fresh),
        Some(t) => match toml_read(t) {
            Err(m) => Err(m),
            Ok(layout) => match table_of(layout, id) {
                None => Ok(fresh),
                Some(pos) => match toml_read(fresh) {
                    Err(m) => Err(m),
                    Ok(_) => Ok(toml_render_of(t, patch_edits(pos_view(pos), fresh, owned_rules_fields()))),
                },
            },
        },
    }
}

pub open spec fn opt_text(o: Option<&str>) -> Option<Seq<char>> {
    match o {
        Some(t) => Some(t@),
        None => None,
    }
}

/// Render skill `id`'s rules text for saving, given the text of the rules file already on disk
/// (`None` when there is none) and the freshly serialized rules (see [`rendered_rules`]).
pub fn render_rules_text(existing: Option<&str>, fresh: &str, id: &str) -> (r: Result<String, String>)
    ensures
        match r {
            Ok(s) => rendered_rules(opt_text(existing), fresh@, id@) == Ok::<Seq<char>, Seq<char>>(s@),
            Err(m) => rendered_rules(opt_text(existing), fresh@, id@) == Err::<Seq<char>, Seq<char>>(m@),
        },
{
    let text = match existing {
        None => {
            return Ok(String::from_str(fresh));
        },
        Some(t) => t,
    };
    let layout = match read_rules_layout(text) {
        Err(m) => {
            return Err(m);
        },
        Ok(layout) => layout,
    };
    match find_skill_table(&layout, id) {
        None => Ok(String::from_str(fresh)),
        Some(pos) => {
            let fdoc = match parse_document(fresh) {
                Err(m) => {
                    return Err(m);
                },
                Ok(d) => d,
            };
            let mut doc = match parse_document(text) {
                Err(m) => {
                    return Err(m);
                },
                Ok(d) => d,
            };
            let ghost p = pos_view(pos);
            let ghost lv = layout_view(layout);
            proof {
                if let TablePos::Skills(i) = pos {
                    let ids = lv.0->0;
                    assert(lv.0 is Some);
                    assert(exists|k: int| first_table_with_id(ids, id@, k));
                    let k = choose|k: int| first_table_with_id(ids, id@, k);
                    assert(i == k as usize);
                    assert(i < ids.len());
                }
            }
            let keys = owned_rules_field_names();
            let ghost kv = keys@.map_values(|k: &'static str| k@);
            let n = keys.len();
            let mut j: usize = 0;
            while j < n
                invariant
                    n == keys@.len(),
                    kv == keys@.map_values(|k: &'static str| k@),
                    j <= n,
                    p == pos_view(pos),
                    toml_read(text@) == Ok::<LayoutView, Seq<char>>(lv),
                    pos matches TablePos::Skills(i) ==> lv.0 matches Some(ids) && i < ids.len(),
                    toml_doc_source(fdoc) == fresh@,
                    toml_doc_edits(fdoc).len() == 0,
                    toml_doc_source(doc) == text@,
                    toml_doc_edits(doc) == patch_edits(p, fresh@, kv.take(j as int)),
                    forall|e: int| 0 <= e < toml_doc_edits(doc).len() ==> (#[trigger] toml_doc_edits(doc)[e]).0 == p,
                decreases n - j,
            {
                proof {
                    assert(kv.take(j + 1).drop_last() =~= kv.take(j as int));
                    assert(kv.take(j + 1).last() == keys@[j as int]@);
                }
                if document_has_key(&fdoc, keys[j]) {
                    match pos {
                        TablePos::Root => set_root_key(&mut doc, &fdoc, keys[j]),
                        TablePos::Skills(i) => set_skill_key(&mut doc, i, &fdoc, keys[j]),
                    }
                }
                j = j + 1;
            }
            proof {
                assert(kv.take(n as int) =~= kv);
            }
            Ok(render_document(&doc))
        },
    }
}

} // verus!
