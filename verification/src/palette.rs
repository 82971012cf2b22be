//! The skill palette's rows and its "new skill" action: one row per archetype, a rescan row,
//! then every skill in id order; a new skill takes an id derived from the typed query (or the
//! archetype's name) and is authored under the library's default content root.
use vstd::prelude::*;

use crate::library::{
    clone_path, insert_new_skill, path_view, spec_rules_path, spec_timeline_path, unique_id, SkillLibrary,
};
use crate::templates::{is_template, skill_archetype_label, SkillArchetype};
use crate::text::{concat3, fresh_in, slug, slugify, trim_query, trimmed};

verus! {

/// What selecting a palette row does.
#[derive(Debug)]
pub enum PaletteRow {
    NewSkill(SkillArchetype),
    Rescan,
    Existing(String),
}

/// One palette row and its label.
#[derive(Debug)]
pub struct PaletteItem {
    pub label: String,
    pub row: PaletteRow,
}

/// A row as plain values.
pub enum RowView {
    NewSkill(SkillArchetype),
    Rescan,
    Existing(Seq<char>),
}

pub open spec fn item_view(i: PaletteItem) -> (Seq<char>, RowView) {
    (
        i.label@,
        match i.row {
            PaletteRow::NewSkill(a) => RowView::NewSkill(a),
            PaletteRow::Rescan => RowView::Rescan,
            PaletteRow::Existing(id) => RowView::Existing(id@),
        },
    )
}

pub open spec fn new_skill_row(a: SkillArchetype) -> (Seq<char>, RowView) {
    ("+ New Skill ("@ + skill_archetype_label(a) + ")"@, RowView::NewSkill(a))
}

/// The palette's rows: a new-skill row per archetype, the rescan row, then each skill's id in
/// the library's (id) order.
pub open spec fn expected_items(library: SkillLibrary) -> Seq<(Seq<char>, RowView)> {
    seq![
        new_skill_row(SkillArchetype::Strike),
        new_skill_row(SkillArchetype::Projectile),
        new_skill_row(SkillArchetype::Zone),
        new_skill_row(SkillArchetype::Beam),
        ("Rescan content roots"@, RowView::Rescan),
    ] + library.entries().map_values(|e: crate::library::SkillEntry| (e.key(), RowView::Existing(e.key())))
}

/// Whether a row stays visible whatever is typed (every row but an existing skill's).
pub fn always_visible(item: &PaletteItem) -> (r: bool)
    ensures
        r == !(item.row is Existing),
{
    match item.row {
        PaletteRow::Existing(_) => false,
        _ => true,
    }
}

fn new_skill_item(a: SkillArchetype) -> (r: PaletteItem)
    ensures
        item_view(r) == new_skill_row(a),
{
    PaletteItem { label: concat3("+ New Skill (", a.label(), ")"), row: PaletteRow::NewSkill(a) }
}

/// The palette's rows (see [`expected_items`]).
pub fn palette_items(library: &SkillLibrary) -> (r: Vec<PaletteItem>)
    ensures
        r@.map_values(|i: PaletteItem| item_view(i)) == expected_items(*library),
{
    let mut out: Vec<PaletteItem> = Vec::new();
    out.push(new_skill_item(SkillArchetype::Strike));
    out.push(new_skill_item(SkillArchetype::Projectile));
    out.push(new_skill_item(SkillArchetype::Zone));
    out.push(new_skill_item(SkillArchetype::Beam));
    out.push(PaletteItem { label: String::from_str("Rescan content roots"), row: PaletteRow::Rescan });
    let ghost head = out@.map_values(|i: PaletteItem| item_view(i));
    assert(head =~= expected_items(*library).take(5));
    let n = library.len();
    let mut k: usize = 0;
    while k < n
        invariant
            n == library.entries().len(),
            k <= n,
            head.len() == 5,
            head == expected_items(*library).take(5),
            out@.map_values(|i: PaletteItem| item_view(i)) == head + library.entries().take(k as int).map_values(
                |e: crate::library::SkillEntry| (e.key(), RowView::Existing(e.key())),
            ),
        decreases n - k,
    {
        let ghost before = out@;
        let id = library.entry_at(k).rules.id.clone();
        out.push(PaletteItem { label: library.entry_at(k).rules.id.clone(), row: PaletteRow::Existing(id) });
        proof {
            assert(library.entries().take(k + 1) =~= library.entries().take(k as int).push(library.entries()[k as int]));
            assert(out@.map_values(|i: PaletteItem| item_view(i)) =~= before.map_values(|i: PaletteItem| item_view(i)).push(
                item_view(out@.last()),
            ));
            assert(out@.map_values(|i: PaletteItem| item_view(i)) =~= head + library.entries().take(k + 1).map_values(
                |e: crate::library::SkillEntry| (e.key(), RowView::Existing(e.key())),
            ));
        }
        k = k + 1;
    }
    assert(library.entries().take(n as int) =~= library.entries());
    assert(out@.map_values(|i: PaletteItem| item_view(i)) =~= expected_items(*library));
    out
}

/// The id base a new skill starts from: the slug of the trimmed query, or of the archetype's
/// label when nothing was typed; `"skill"` when that slug is empty.
pub open spec fn new_skill_base(a: SkillArchetype, query: Seq<char>) -> Seq<char> {
    let s = if query.len() == 0 {
        slug(skill_archetype_label(a))
    } else {
        slug(query)
    };
    if s.len() == 0 {
        "skill"@
    } else {
        s
    }
}

/// Create a skill from archetype `a`, named from the typed `query` (trimmed): a fresh id derived
/// from [`new_skill_base`], the archetype's template, pathed under the library's default root,
/// unsaved, and opened in the panel. With no content root registered nothing is created (no
/// root is ever made up) and `None` is returned.
pub fn create_skill_from_palette(library: &mut SkillLibrary, a: SkillArchetype, query: &str) -> (r: Option<String>)
    requires
        old(library).wf(),
    ensures
        final(library).wf(),
        final(library).roots() == old(library).roots(),
        old(library).roots().len() == 0 ==> r is None && final(library).map() == old(library).map()
            && final(library).open_skill() == old(library).open_skill(),
        old(library).roots().len() > 0 ==> match r {
            None => false,
            Some(id) => {
                let root = path_view(old(library).roots()[0]@);
                let e = final(library).map()[id@];
                &&& fresh_in(old(library).map().dom(), new_skill_base(a, trimmed(query@)), id@)
                &&& final(library).map().dom() == old(library).map().dom().insert(id@)
                &&& forall|k: Seq<char>|
                    k != id@ && #[trigger] old(library).map().dom().contains(k) ==> final(library).map()[k]
                        == old(library).map()[k]
                &&& is_template((e.rules, e.timeline), a, id@)
                &&& path_view(e.rules_path@) == spec_rules_path(root, id@)
                &&& path_view(e.timeline_path@) == spec_timeline_path(root, id@)
                &&& e.dirty_rules && e.dirty_timeline
                &&& e.disk_hash == (0u64, 0u64)
                &&& final(library).open_skill() == Some(id)
            },
        },
{
    let root = match library.default_root() {
        Some(root) => clone_path(root),
        None => {
            return None;
        },
    };
    let query = trim_query(query);
    let s = if query.as_str().is_empty() {
        slugify(a.label())
    } else {
        slugify(query.as_str())
    };
    let base = if s.as_str().is_empty() {
        String::from_str("skill")
    } else {
        s
    };
    let id = unique_id(base.as_str(), library);
    let (rules, timeline) = a.build(id.as_str());
    match insert_new_skill(library, rules, timeline, Some(&root)) {
        Some(new_id) => {
            library.set_open(Some(new_id.clone()));
            Some(new_id)
        },
        None => None,
    }
}

} // verus!
