//! The Presentation region's pure helpers: the effect and animation-clip picker options, the
//! charge-param names a bound vfx preset exposes, and keeping the cue map free of inert
//! bindings.
use vstd::prelude::*;

use crate::model::{cues_in_slot_order, CastTimeline, CueAttach, CueBinding, CueEntry};
use crate::text::{
    concat, contains_str, lemma_seq_lt_total, lemma_seq_lt_transitive, seq_lt, str_eq,
    str_lt, taken_has, taken_set,
};

verus! {

/// No name occurs twice (the keys of a map).
pub open spec fn distinct_names(s: Seq<String>) -> bool {
    forall|i: int, j: int| 0 <= i < j < s.len() ==> #[trigger] s[i]@ != #[trigger] s[j]@
}

/// Strictly increasing in `String` order.
pub open spec fn sorted_strict(s: Seq<String>) -> bool {
    forall|i: int, j: int| 0 <= i < j < s.len() ==> seq_lt(#[trigger] s[i]@, #[trigger] s[j]@)
}

/// `r` is `names` sorted: the same names, strictly increasing.
pub open spec fn is_sorted_of(r: Seq<String>, names: Seq<String>) -> bool {
    &&& sorted_strict(r)
    &&& taken_set(r) == taken_set(names)
    &&& r.len() == names.len()
}

proof fn lemma_taken_push(s: Seq<String>, x: String)
    ensures
        taken_set(s.push(x)) == taken_set(s).insert(x@),
{
    assert forall|v: Seq<char>| taken_set(s.push(x)).contains(v) == taken_set(s).insert(x@).contains(v) by {
        if taken_has(s.push(x), v) {
            let k = choose|k: int| 0 <= k < s.push(x).len() && #[trigger] s.push(x)[k]@ == v;
            if k < s.len() {
                assert(s[k]@ == v);
            }
        }
        if taken_has(s, v) {
            let k = choose|k: int| 0 <= k < s.len() && #[trigger] s[k]@ == v;
            assert(s.push(x)[k]@ == v);
        }
        if v == x@ {
            assert(s.push(x)[s.len() as int]@ == v);
        }
    }
    assert(taken_set(s.push(x)) =~= taken_set(s).insert(x@));
}

proof fn lemma_taken_insert(s: Seq<String>, j: int, x: String)
    requires
        0 <= j <= s.len(),
    ensures
        taken_set(s.insert(j, x)) == taken_set(s).insert(x@),
{
    s.insert_ensures(j, x);
    let t = s.insert(j, x);
    assert forall|v: Seq<char>| taken_set(t).contains(v) == taken_set(s).insert(x@).contains(v) by {
        if taken_has(t, v) {
            let k = choose|k: int| 0 <= k < t.len() && #[trigger] t[k]@ == v;
            if k < j {
                assert(s[k]@ == v);
            } else if k > j {
                assert(t[(k - 1) + 1] == s[k - 1]);
                assert(s[k - 1]@ == v);
            }
        }
        if taken_has(s, v) {
            let k = choose|k: int| 0 <= k < s.len() && #[trigger] s[k]@ == v;
            if k < j {
                assert(t[k]@ == v);
            } else {
                assert(t[k + 1]@ == v);
            }
        }
        if v == x@ {
            assert(t[j]@ == v);
        }
    }
    assert(taken_set(t) =~= taken_set(s).insert(x@));
}

/// `names` in `String` order.
pub fn sorted_names(names: &Vec<String>) -> (r: Vec<String>)
    requires
        distinct_names(names@),
    ensures
        is_sorted_of(r@, names@),
{
    let n = names.len();
    let mut out: Vec<String> = Vec::new();
    let mut i: usize = 0;
    assert(taken_set(out@) =~= taken_set(names@.take(0))) by {
        assert(names@.take(0) =~= Seq::<String>::empty());
        assert forall|v: Seq<char>| !taken_set(names@.take(0)).contains(v) by {}
        assert forall|v: Seq<char>| !taken_set(out@).contains(v) by {}
    }
    while i < n
        invariant
            n == names@.len(),
            distinct_names(names@),
            i <= n,
            out@.len() == i,
            sorted_strict(out@),
            taken_set(out@) == taken_set(names@.take(i as int)),
        decreases n - i,
    {
        let name = &names[i];
        proof {
            if taken_has(out@, name@) {
                assert(taken_set(names@.take(i as int)).contains(name@));
                let k = choose|k: int| 0 <= k < names@.take(i as int).len() && #[trigger] names@.take(i as int)[k]@ == name@;
                assert(names@[k]@ == names@[i as int]@);
            }
        }
        let mut j: usize = 0;
        while j < out.len() && !str_lt(name.as_str(), out[j].as_str())
            invariant
                j <= out@.len(),
                forall|k: int| 0 <= k < j ==> !seq_lt(name@, #[trigger] out@[k]@),
            decreases out@.len() - j,
        {
            j = j + 1;
        }
        let ghost old_out = out@;
        out.insert(j, name.clone());
        proof {
            old_out.insert_ensures(j as int, *name);
            assert forall|k: int| 0 <= k < j implies seq_lt(old_out[k]@, name@) by {
                lemma_seq_lt_total(old_out[k]@, name@);
                assert(old_out[k]@ != name@) by {
                    if old_out[k]@ == name@ {
                        assert(taken_has(old_out, name@));
                    }
                }
            }
            if j < old_out.len() {
                assert forall|k: int| j <= k < old_out.len() implies seq_lt(name@, old_out[k]@) by {
                    if k > j {
                        lemma_seq_lt_transitive(name@, old_out[j as int]@, old_out[k]@);
                    }
                }
            }
            assert forall|a: int, b: int| 0 <= a < b < out@.len() implies seq_lt(#[trigger] out@[a]@, #[trigger] out@[b]@) by {
                if b < j {
                } else if b == j {
                    assert(out@[a] == old_out[a]);
                } else if a < j {
                    assert(out@[b] == old_out[b - 1]);
                    assert(out@[a] == old_out[a]);
                    if b - 1 > a {
                    }
                    lemma_seq_lt_transitive(old_out[a]@, name@, old_out[b - 1]@);
                } else if a == j {
                    assert(out@[b] == old_out[b - 1]);
                } else {
                    assert(out@[b] == old_out[b - 1]);
                    assert(out@[a] == old_out[a - 1]);
                }
            }
            lemma_taken_insert(old_out, j as int, *name);
            assert(names@.take(i + 1) =~= names@.take(i as int).push(names@[i as int]));
            lemma_taken_push(names@.take(i as int), names@[i as int]);
        }
        i = i + 1;
    }
    assert(names@.take(n as int) =~= names@);
    out
}

/// Animation clip keys, sorted; none when no animation library is loaded.
pub fn anim_clip_options(anims: &Option<Vec<String>>) -> (r: Vec<String>)
    requires
        anims matches Some(clips) ==> distinct_names(clips@),
    ensures
        match anims {
            Some(clips) => is_sorted_of(r@, clips@),
            None => r@.len() == 0,
        },
{
    match anims {
        Some(clips) => sorted_names(clips),
        None => Vec::new(),
    }
}

/// One effect picker row: `(display label, stored name)`.
pub open spec fn option_view(o: (String, String)) -> (Seq<char>, Seq<char>) {
    (o.0@, o.1@)
}

pub open spec fn option_views(os: Seq<(String, String)>) -> Seq<(Seq<char>, Seq<char>)> {
    os.map_values(|o: (String, String)| option_view(o))
}

/// The effect-library rows: each name (sorted), labelled as itself, or flagged
/// `" (effect; also vfx)"` when the vfx library has the same name.
pub open spec fn effect_rows(sorted_effects: Seq<String>, vfx: Seq<String>) -> Seq<(Seq<char>, Seq<char>)> {
    sorted_effects.map_values(
        |n: String|
            (if taken_has(vfx, n@) {
                n@ + " (effect; also vfx)"@
            } else {
                n@
            }, n@),
    )
}

/// The vfx-only rows: each name (sorted), labelled with a `" (vfx)"` suffix.
pub open spec fn vfx_rows(sorted_vfx_only: Seq<String>) -> Seq<(Seq<char>, Seq<char>)> {
    sorted_vfx_only.map_values(|n: String| (n@ + " (vfx)"@, n@))
}

/// The names of `vfx` the effect library lacks.
pub open spec fn vfx_only_set(effects: Seq<String>, vfx: Seq<String>) -> Set<Seq<char>> {
    taken_set(vfx).filter(|v: Seq<char>| !taken_has(effects, v))
}

/// `r` is the combined picker list: every effect-library name first, then every vfx-only name,
/// each group sorted.
pub open spec fn is_combined_options(
    r: Seq<(Seq<char>, Seq<char>)>,
    effects: Seq<String>,
    vfx: Seq<String>,
) -> bool {
    exists|se: Seq<String>, sv: Seq<String>|
        {
            &&& is_sorted_of(se, effects)
            &&& sorted_strict(sv)
            &&& taken_set(sv) == vfx_only_set(effects, vfx)
            &&& r == effect_rows(se, vfx) + vfx_rows(sv)
        }
}

/// Effect picker options over both preset libraries: one row per name (a name in both is listed
/// once, among the effect-library rows, with its collision flagged in the label).
pub fn combined_effect_options(effects: &Vec<String>, vfx: &Vec<String>) -> (r: Vec<(String, String)>)
    requires
        distinct_names(effects@),
        distinct_names(vfx@),
    ensures
        is_combined_options(option_views(r@), effects@, vfx@),
{
    let se = sorted_names(effects);
    let mut vfx_only: Vec<String> = Vec::new();
    let nv = vfx.len();
    let mut k: usize = 0;
    while k < nv
        invariant
            nv == vfx@.len(),
            distinct_names(vfx@),
            k <= nv,
            distinct_names(vfx_only@),
            taken_set(vfx_only@) == taken_set(vfx@.take(k as int)).filter(|v: Seq<char>| !taken_has(effects@, v)),
        decreases nv - k,
    {
        let ghost before = vfx_only@;
        if !contains_str(effects, vfx[k].as_str()) {
            proof {
                assert forall|a: int| 0 <= a < before.len() implies before[a]@ != vfx@[k as int]@ by {
                    assert(taken_set(before).contains(before[a]@));
                    let m = choose|m: int| 0 <= m < vfx@.take(k as int).len() && #[trigger] vfx@.take(k as int)[m]@ == before[a]@;
                    assert(vfx@[m]@ != vfx@[k as int]@);
                }
            }
            vfx_only.push(vfx[k].clone());
            proof {
                lemma_taken_push(before, vfx@[k as int]);
            }
        }
        proof {
            assert(vfx@.take(k + 1) =~= vfx@.take(k as int).push(vfx@[k as int]));
            lemma_taken_push(vfx@.take(k as int), vfx@[k as int]);
            assert(taken_set(vfx_only@) =~= taken_set(vfx@.take(k + 1)).filter(|v: Seq<char>| !taken_has(effects@, v)));
        }
        k = k + 1;
    }
    assert(vfx@.take(nv as int) =~= vfx@);
    let sv = sorted_names(&vfx_only);
    let mut out: Vec<(String, String)> = Vec::new();
    let ne = se.len();
    let mut i: usize = 0;
    while i < ne
        invariant
            ne == se@.len(),
            i <= ne,
            option_views(out@) == effect_rows(se@.take(i as int), vfx@),
        decreases ne - i,
    {
        let n = &se[i];
        let label = if contains_str(vfx, n.as_str()) {
            concat(n.as_str(), " (effect; also vfx)")
        } else {
            n.clone()
        };
        let ghost before = out@;
        out.push((label, n.clone()));
        proof {
            assert(se@.take(i + 1) =~= se@.take(i as int).push(se@[i as int]));
            assert(option_views(out@) =~= option_views(before).push(option_view(out@.last())));
            assert(option_views(out@) =~= effect_rows(se@.take(i + 1), vfx@));
        }
        i = i + 1;
    }
    assert(se@.take(ne as int) =~= se@);
    let ghost head = option_views(out@);
    let nvo = sv.len();
    let mut j: usize = 0;
    while j < nvo
        invariant
            nvo == sv@.len(),
            j <= nvo,
            option_views(out@) == head + vfx_rows(sv@.take(j as int)),
        decreases nvo - j,
    {
        let n = &sv[j];
        let ghost before = out@;
        out.push((concat(n.as_str(), " (vfx)"), n.clone()));
        proof {
            assert(sv@.take(j + 1) =~= sv@.take(j as int).push(sv@[j as int]));
            assert(option_views(out@) =~= option_views(before).push(option_view(out@.last())));
            assert(option_views(out@) =~= head + vfx_rows(sv@.take(j + 1)));
        }
        j = j + 1;
    }
    assert(sv@.take(nvo as int) =~= sv@);
    assert(option_views(out@) == effect_rows(se@, vfx@) + vfx_rows(sv@));
    out
}

/// A vfx-library preset's exposed params, by name.
#[derive(Debug)]
pub struct VfxParams {
    pub preset: String,
    pub params: Vec<String>,
}

/// The param names of the vfx preset named exactly `name` (the first such), if any.
pub open spec fn params_of(vfx: Seq<VfxParams>, name: Seq<char>) -> Option<Seq<Seq<char>>> {
    if exists|k: int| 0 <= k < vfx.len() && #[trigger] vfx[k].preset@ == name {
        let k = choose|k: int|
            0 <= k < vfx.len() && #[trigger] vfx[k].preset@ == name && forall|j: int|
                0 <= j < k ==> (#[trigger] vfx[j]).preset@ != name;
        Some(vfx[k].params@.map_values(|p: String| p@))
    } else {
        None
    }
}

/// The charge-param names the bound effect exposes: only a name that is itself a vfx-library
/// preset counts; nothing when no effect is bound or the name is no vfx preset.
pub fn discoverable_params(effect_name: Option<&str>, vfx: &Vec<VfxParams>) -> (r: Vec<String>)
    ensures
        r@.map_values(|p: String| p@) == match effect_name {
            Some(name) => match params_of(vfx@, name@) {
                Some(ps) => ps,
                None => Seq::<Seq<char>>::empty(),
            },
            None => Seq::<Seq<char>>::empty(),
        },
{
    let name = match effect_name {
        Some(name) => name,
        None => {
            return Vec::new();
        },
    };
    let n = vfx.len();
    let mut k: usize = 0;
    while k < n
        invariant
            n == vfx@.len(),
            k <= n,
            effect_name == Some(name),
            forall|j: int| 0 <= j < k ==> (#[trigger] vfx@[j]).preset@ != name@,
        decreases n - k,
    {
        if str_eq(vfx[k].preset.as_str(), name) {
            let ps = vfx[k].params.clone();
            proof {
                assert(ps@ =~= vfx@[k as int].params@);
                let kk = choose|kk: int|
                    0 <= kk < vfx@.len() && #[trigger] vfx@[kk].preset@ == name@ && forall|j: int|
                        0 <= j < kk ==> (#[trigger] vfx@[j]).preset@ != name@;
                assert(0 <= k < vfx@.len() && vfx@[k as int].preset@ == name@ && forall|j: int|
                        0 <= j < k ==> (#[trigger] vfx@[j]).preset@ != name@);
                if kk < k {
                } else if kk > k {
                    assert(vfx@[k as int].preset@ != name@);
                }
                assert(kk == k);
                assert(params_of(vfx@, name@) == Some(vfx@[k as int].params@.map_values(|p: String| p@)));
                assert(ps@.map_values(|p: String| p@) =~= vfx@[k as int].params@.map_values(|p: String| p@));
            }
            return ps;
        }
        k = k + 1;
    }
    Vec::new()
}

/// A binding that authors nothing: no effect, no animation, no params, `World` attach, no
/// duration.
pub open spec fn is_inert_binding(b: CueBinding) -> bool {
    &&& b.effect is None
    &&& b.anim is None
    &&& b.params@.len() == 0
    &&& b.attach == CueAttach::World
    &&& b.duration is None
}

/// The index of the cue bound to `slot`.
pub open spec fn cue_at(cues: Seq<CueEntry>, slot: Seq<char>, k: int) -> bool {
    0 <= k < cues.len() && cues[k].slot@ == slot
}

fn find_cue(cues: &Vec<CueEntry>, slot: &str) -> (r: Option<usize>)
    ensures
        match r {
            Some(k) => cue_at(cues@, slot@, k as int) && forall|j: int| 0 <= j < k ==> (#[trigger] cues@[j]).slot@ != slot@,
            None => forall|j: int| 0 <= j < cues@.len() ==> (#[trigger] cues@[j]).slot@ != slot@,
        },
{
    let n = cues.len();
    let mut k: usize = 0;
    while k < n
        invariant
            n == cues@.len(),
            k <= n,
            forall|j: int| 0 <= j < k ==> (#[trigger] cues@[j]).slot@ != slot@,
        decreases n - k,
    {
        if str_eq(cues[k].slot.as_str(), slot) {
            return Some(k);
        }
        k = k + 1;
    }
    None
}

/// Remove `slot`'s binding when it authors nothing, so no inert entry is kept; any other
/// binding, and every other slot, stays as it is.
pub fn prune_if_empty(tl: &mut CastTimeline, slot: &str)
    ensures
        cues_in_slot_order(*old(tl)) ==> cues_in_slot_order(*final(tl)),
        (exists|k: int| cue_at(old(tl).cues@, slot@, k) && is_inert_binding(old(tl).cues@[k].binding) && forall|j: int|
            0 <= j < k ==> (#[trigger] old(tl).cues@[j]).slot@ != slot@) ==> {
            let k = choose|k: int| cue_at(old(tl).cues@, slot@, k) && is_inert_binding(old(tl).cues@[k].binding) && forall|j: int|
                0 <= j < k ==> (#[trigger] old(tl).cues@[j]).slot@ != slot@;
            &&& final(tl).cues@ == old(tl).cues@.remove(k)
            &&& *final(tl) == (CastTimeline { cues: final(tl).cues, ..*old(tl) })
        },
        !(exists|k: int| cue_at(old(tl).cues@, slot@, k) && is_inert_binding(old(tl).cues@[k].binding) && forall|j: int|
            0 <= j < k ==> (#[trigger] old(tl).cues@[j]).slot@ != slot@) ==> *final(tl) == *old(tl),
{
    match find_cue(&tl.cues, slot) {
        Some(k) => {
            let b = &tl.cues[k].binding;
            let inert = b.effect.is_none() && b.anim.is_none() && b.params.len() == 0 && match b.attach {
                CueAttach::World => true,
                _ => false,
            } && b.duration.is_none();
            if inert {
                proof {
                    let kk = choose|kk: int| cue_at(tl.cues@, slot@, kk) && is_inert_binding(tl.cues@[kk].binding) && forall|j: int|
                        0 <= j < kk ==> (#[trigger] tl.cues@[j]).slot@ != slot@;
                    assert(cue_at(tl.cues@, slot@, k as int) && is_inert_binding(tl.cues@[k as int].binding));
                    if kk < k {
                    } else if kk > k {
                        assert(tl.cues@[k as int].slot@ != slot@);
                    }
                }
                let ghost before = tl.cues@;
                tl.cues.remove(k);
                proof {
                    let after = tl.cues@;
                    if cues_in_slot_order(*old(tl)) {
                        assert forall|i: int, j: int| 0 <= i < j < after.len() implies seq_lt(
                            #[trigger] after[i].slot@,
                            #[trigger] after[j].slot@,
                        ) by {
                            if j < k {
                                assert(after[i] == before[i] && after[j] == before[j]);
                            } else if i < k {
                                assert(after[i] == before[i] && after[j] == before[j + 1]);
                            } else {
                                assert(after[i] == before[i + 1] && after[j] == before[j + 1]);
                            }
                        }
                    }
                }
            } else {
                proof {
                    if exists|kk: int| cue_at(tl.cues@, slot@, kk) && is_inert_binding(tl.cues@[kk].binding) && forall|j: int|
                        0 <= j < kk ==> (#[trigger] tl.cues@[j]).slot@ != slot@ {
                        let kk = choose|kk: int| cue_at(tl.cues@, slot@, kk) && is_inert_binding(tl.cues@[kk].binding) && forall|j: int|
                            0 <= j < kk ==> (#[trigger] tl.cues@[j]).slot@ != slot@;
                        if kk < k {
                        } else if kk > k {
                            assert(tl.cues@[k as int].slot@ != slot@);
                        }
                    }
                }
            }
        },
        None => {},
    }
}

/// The index of `slot`'s binding, adding an inert one in slot order when the slot has none —
/// the binding a picker then edits in place. A timeline whose cues are in slot order stays so.
pub fn binding_slot(tl: &mut CastTimeline, slot: &str) -> (r: usize)
    ensures
        r < final(tl).cues@.len(),
        final(tl).cues@[r as int].slot@ == slot@,
        cues_in_slot_order(*old(tl)) ==> cues_in_slot_order(*final(tl)),
        (exists|k: int| cue_at(old(tl).cues@, slot@, k)) ==> {
            &&& *final(tl) == *old(tl)
            &&& forall|j: int| 0 <= j < r ==> (#[trigger] old(tl).cues@[j]).slot@ != slot@
        },
        !(exists|k: int| cue_at(old(tl).cues@, slot@, k)) ==> {
            &&& r <= old(tl).cues@.len()
            &&& forall|j: int| 0 <= j < r ==> !seq_lt(slot@, (#[trigger] old(tl).cues@[j]).slot@)
            &&& r < old(tl).cues@.len() ==> seq_lt(slot@, old(tl).cues@[r as int].slot@)
            &&& final(tl).cues@.remove(r as int) == old(tl).cues@
            &&& is_inert_binding(final(tl).cues@[r as int].binding)
            &&& *final(tl) == (CastTimeline { cues: final(tl).cues, ..*old(tl) })
        },
{
    match find_cue(&tl.cues, slot) {
        Some(k) => k,
        None => {
            let ghost before = tl.cues@;
            let n = tl.cues.len();
            let mut p: usize = 0;
            while p < n
                invariant
                    n == tl.cues@.len(),
                    tl.cues@ == before,
                    p <= n,
                    forall|j: int| 0 <= j < p ==> !seq_lt(slot@, (#[trigger] before[j]).slot@),
                ensures
                    p <= n,
                    tl.cues@ == before,
                    forall|j: int| 0 <= j < p ==> !seq_lt(slot@, (#[trigger] before[j]).slot@),
                    p < n ==> seq_lt(slot@, before[p as int].slot@),
                decreases n - p,
            {
                if str_lt(slot, tl.cues[p].slot.as_str()) {
                    break;
                }
                p = p + 1;
            }
            tl.cues.insert(
                p,
                CueEntry {
                    slot: String::from_str(slot),
                    binding: CueBinding { effect: None, attach: CueAttach::World, anim: None, params: Vec::new(), duration: None },
                },
            );
            proof {
                let after = tl.cues@;
                assert(after.remove(p as int) =~= before);
                if cues_in_slot_order(*old(tl)) {
                    assert forall|j: int| 0 <= j < p implies seq_lt((#[trigger] before[j]).slot@, slot@) by {
                        assert(before[j].slot@ != slot@);
                        lemma_seq_lt_total(before[j].slot@, slot@);
                    }
                    assert forall|j: int| p <= j < before.len() implies seq_lt(slot@, (#[trigger] before[j]).slot@) by {
                        if j > p {
                            assert(seq_lt(before[p as int].slot@, before[j].slot@));
                            lemma_seq_lt_transitive(slot@, before[p as int].slot@, before[j].slot@);
                        }
                    }
                    assert forall|i: int, j: int| 0 <= i < j < after.len() implies seq_lt(
                        #[trigger] after[i].slot@,
                        #[trigger] after[j].slot@,
                    ) by {
                        if j < p {
                            assert(after[i] == before[i] && after[j] == before[j]);
                        } else if j == p {
                            assert(after[i] == before[i]);
                        } else if i < p {
                            assert(after[i] == before[i] && after[j] == before[j - 1]);
                            assert(seq_lt(before[i].slot@, slot@));
                            assert(seq_lt(slot@, before[j - 1].slot@));
                            lemma_seq_lt_transitive(before[i].slot@, slot@, before[j - 1].slot@);
                        } else if i == p {
                            assert(after[j] == before[j - 1]);
                        } else {
                            assert(after[i] == before[i - 1] && after[j] == before[j - 1]);
                        }
                    }
                }
            }
            p
        },
    }
}

} // verus!
