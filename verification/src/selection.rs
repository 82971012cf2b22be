//! Which collision window the viewport proxy previews: the panel's window selection, honoured
//! only while it belongs to the skill open in the panel; and writing a radius dragged on the
//! proxy back into that window.
use vstd::prelude::*;

use crate::edits::same_except_windows;
use crate::floatbits::F32Bits;
use crate::library::{SkillEntry, SkillLibrary};
use crate::model::{CollisionShape, CollisionWindow};
use crate::text::str_eq;

verus! {

/// The window selected for viewport preview, and the skill it was selected in.
#[derive(Debug)]
pub struct SkillSelection {
    pub for_id: Option<String>,
    pub window: Option<usize>,
}

/// The selected window's index, when the selection belongs to the open skill and names one of
/// its windows.
pub open spec fn selected_index(library: SkillLibrary, selection: SkillSelection) -> Option<usize> {
    match library.open_skill() {
        None => None,
        Some(open) => match selection.for_id {
            Some(f) => if f@ != open@ {
                None
            } else {
                match selection.window {
                    None => None,
                    Some(i) => if library.map().dom().contains(open@) && i
                        < library.map()[open@].timeline.collision_windows@.len() {
                        Some(i)
                    } else {
                        None
                    },
                }
            },
            None => None,
        },
    }
}

/// The selected window of the open skill, with its shape (see [`selected_index`]); a stale
/// selection from another skill resolves to nothing.
pub fn selected_window(library: &SkillLibrary, selection: &SkillSelection) -> (r: Option<(usize, CollisionShape)>)
    requires
        library.wf(),
    ensures
        match selected_index(*library, *selection) {
            None => r is None,
            Some(i) => r == Some(
                (i, library.map()[library.open_skill()->0@].timeline.collision_windows@[i as int].shape),
            ),
        },
{
    let open = match library.open_id() {
        Some(o) => o,
        None => {
            return None;
        },
    };
    match &selection.for_id {
        Some(f) => {
            if !str_eq(f.as_str(), open.as_str()) {
                return None;
            }
        },
        None => {
            return None;
        },
    }
    let i = match selection.window {
        Some(i) => i,
        None => {
            return None;
        },
    };
    match library.get(open.as_str()) {
        Some(entry) => {
            if i < entry.timeline.collision_windows.len() {
                Some((i, entry.timeline.collision_windows[i].shape))
            } else {
                None
            }
        },
        None => None,
    }
}

/// `w2` is `w` with its sphere's or capsule's radius set to `radius`.
pub open spec fn with_radius(w2: CollisionWindow, w: CollisionWindow, radius: F32Bits) -> bool {
    &&& w2.id == w.id
    &&& w2.spawn == w.spawn
    &&& w2.anchor == w.anchor
    &&& w2.anchor_offset == w.anchor_offset
    &&& w2.strikes == w.strikes
    &&& w2.active_duration == w.active_duration
    &&& w2.motion == w.motion
    &&& w2.hit_filter == w.hit_filter
    &&& w2.hit_mode == w.hit_mode
    &&& w2.rehit_interval == w.rehit_interval
    &&& w2.emitter == w.emitter
    &&& w2.paints == w.paints
    &&& match w.shape {
        CollisionShape::Sphere { .. } => w2.shape == CollisionShape::Sphere { radius },
        CollisionShape::Capsule { height, .. } => w2.shape == CollisionShape::Capsule { radius, height },
        CollisionShape::Cone { .. } => w2.shape == w.shape,
    }
}

/// `e2` is `e` with window `i`'s radius set to `radius` and its timeline marked unsaved.
pub open spec fn radius_written(e2: SkillEntry, e: SkillEntry, i: int, radius: F32Bits) -> bool {
    let ws = e.timeline.collision_windows@;
    let ws2 = e2.timeline.collision_windows@;
    &&& e2.rules == e.rules
    &&& e2.rules_path == e.rules_path
    &&& e2.timeline_path == e.timeline_path
    &&& e2.dirty_rules == e.dirty_rules
    &&& e2.dirty_timeline
    &&& e2.disk_hash == e.disk_hash
    &&& same_except_windows(e2.timeline, e.timeline)
    &&& ws2.len() == ws.len()
    &&& forall|k: int| 0 <= k < ws.len() && k != i ==> #[trigger] ws2[k] == ws[k]
    &&& with_radius(ws2[i], ws[i], radius)
}

/// Write a radius dragged on the viewport proxy into the selected window (see
/// [`selected_index`]): a sphere's or capsule's radius takes `radius` and the skill's timeline is
/// marked unsaved; with no such selection, or a cone selected, nothing changes. Returns whether it
/// wrote.
pub fn write_dragged_radius(library: &mut SkillLibrary, selection: &SkillSelection, radius: F32Bits) -> (r: bool)
    requires
        old(library).wf(),
    ensures
        final(library).wf(),
        final(library).roots() == old(library).roots(),
        final(library).open_skill() == old(library).open_skill(),
        match selected_index(*old(library), *selection) {
            None => !r && final(library).map() == old(library).map(),
            Some(i) => {
                let id = old(library).open_skill()->0@;
                let e = old(library).map()[id];
                if e.timeline.collision_windows@[i as int].shape is Cone {
                    !r && final(library).map() == old(library).map()
                } else {
                    &&& r
                    &&& final(library).map().dom() == old(library).map().dom()
                    &&& forall|k: Seq<char>| k != id && #[trigger] old(library).map().dom().contains(k)
                        ==> final(library).map()[k] == old(library).map()[k]
                    &&& radius_written(final(library).map()[id], e, i as int, radius)
                }
            },
        },
{
    let i = match selected_window(library, selection) {
        None => {
            return false;
        },
        Some((i, shape)) => {
            if let CollisionShape::Cone { .. } = shape {
                return false;
            }
            i
        },
    };
    let id = match library.open_id() {
        Some(o) => o.clone(),
        None => {
            return false;
        },
    };
    let ghost old_map = library.map();
    let mut e = match library.remove(id.as_str()) {
        Some(e) => e,
        None => {
            return false;
        },
    };
    let ghost e0 = e;
    proof {
        let s = old(library).entries();
        let j = choose|j: int| 0 <= j < s.len() && #[trigger] s[j].key() == id@;
        assert(e0.key() == id@);
    }
    let mut w = e.timeline.collision_windows[i].clone();
    w.shape = match w.shape {
        CollisionShape::Sphere { .. } => CollisionShape::Sphere { radius },
        CollisionShape::Capsule { height, .. } => CollisionShape::Capsule { radius, height },
        CollisionShape::Cone { angle, range } => CollisionShape::Cone { angle, range },
    };
    e.timeline.collision_windows.set(i, w);
    e.dirty_timeline = true;
    library.insert(e);
    proof {
        assert(library.map() =~= old_map.insert(id@, library.map()[id@]));
    }
    true
}

} // verus!
