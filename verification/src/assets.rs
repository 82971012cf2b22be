//! The asset browser's pure rules: which files a browse lists and in what order, where "save as"
//! writes a scene, what picking an item does for each kind of browse, and the name a placed model
//! takes from its path.
use vstd::prelude::*;

use crate::presets::{ends_with, trim_suffixes};
use crate::text::{
    ascii_lower, concat, concat3, lemma_seq_lt_irreflexive, lemma_seq_lt_total,
    lemma_seq_lt_transitive, push_char, seq_lt, spec_ascii_lower, str_eq, str_lt, trim_query, trimmed,
};

verus! {

/// `s` with ASCII letters lowered.
pub open spec fn lower(s: Seq<char>) -> Seq<char> {
    s.map_values(|c: char| spec_ascii_lower(c))
}

/// A file is listed when its lowered name ends with one of `extensions`.
pub open spec fn listed_file(file_name: Seq<char>, extensions: Seq<&str>) -> bool {
    exists|k: int| 0 <= k < extensions.len() && ends_with(lower(file_name), (#[trigger] extensions[k])@)
}

fn lowered(s: &str) -> (r: String)
    ensures
        r@ == lower(s@),
{
    let n = s.unicode_len();
    let mut out = String::new();
    let mut i: usize = 0;
    while i < n
        invariant
            n == s@.len(),
            i <= n,
            out@ == lower(s@.take(i as int)),
        decreases n - i,
    {
        push_char(&mut out, ascii_lower(s.get_char(i)));
        assert(s@.take(i + 1) =~= s@.take(i as int).push(s@[i as int]));
        assert(out@ =~= lower(s@.take(i + 1)));
        i = i + 1;
    }
    assert(s@.take(n as int) =~= s@);
    out
}

fn ends_with_exec(s: &str, suffix: &str) -> (r: bool)
    ensures
        r == ends_with(s@, suffix@),
{
    let n = s.unicode_len();
    let m = suffix.unicode_len();
    if m > n {
        return false;
    }
    str_eq(s.substring_char(n - m, n), suffix)
}

/// Whether the browse lists a file named `file_name` (case-insensitive extension match).
pub fn is_listed_file(file_name: &str, extensions: &Vec<&str>) -> (r: bool)
    ensures
        r == listed_file(file_name@, extensions@),
{
    let low = lowered(file_name);
    let n = extensions.len();
    let mut k: usize = 0;
    while k < n
        invariant
            n == extensions@.len(),
            k <= n,
            low@ == lower(file_name@),
            forall|j: int| 0 <= j < k ==> !ends_with(lower(file_name@), (#[trigger] extensions@[j])@),
        decreases n - k,
    {
        if ends_with_exec(low.as_str(), extensions[k]) {
            return true;
        }
        k = k + 1;
    }
    false
}

/// The scene name "save as" uses for the typed (trimmed) query: `"scene"` when empty, else the
/// query without a trailing `.scn.ron` or, failing that, `.ron`.
pub open spec fn save_as_name(query: Seq<char>) -> Seq<char> {
    if query.len() == 0 {
        "scene"@
    } else if ends_with(query, ".scn.ron"@) {
        query.subrange(0, query.len() - 8)
    } else if ends_with(query, ".ron"@) {
        query.subrange(0, query.len() - 4)
    } else {
        query
    }
}

/// Where "save as" writes the scene named by the typed (trimmed) query:
/// `assets/scenes/{name}.scn.ron`.
pub fn save_as_scene_path(query: &str) -> (r: String)
    ensures
        r@ == "assets/scenes/"@ + save_as_name(query@) + ".scn.ron"@,
{
    proof {
        reveal_strlit(".scn.ron");
        reveal_strlit(".ron");
    }
    let n = query.unicode_len();
    let name: &str = if n == 0 {
        "scene"
    } else if ends_with_exec(query, ".scn.ron") {
        query.substring_char(0, n - 8)
    } else if ends_with_exec(query, ".ron") {
        query.substring_char(0, n - 4)
    } else {
        query
    };
    concat3("assets/scenes/", name, ".scn.ron")
}

/// The file path a browse selection at asset-relative `relative_path` loads from.
pub fn asset_file_path(relative_path: &str) -> (r: String)
    ensures
        r@ == "assets/"@ + relative_path@,
{
    concat("assets/", relative_path)
}

/// Which texture slot a texture pick fills.
#[derive(Debug, Clone, Copy, PartialEq, Eq, Structural)]
pub enum TextureSlot {
    BaseColor,
    NormalMap,
    MetallicRoughness,
    Emissive,
    Occlusion,
    DepthMap,
    ParticleTexture,
    DecalBaseColor,
    DecalNormalMap,
    DecalEmissive,
    EffectDecalTexture,
}

/// What kind of file operation the browser performs. A pick names the entity it is for by the
/// entity's bits, which the library only hands back.
#[derive(Debug, Clone, Copy, PartialEq, Eq, Structural)]
pub enum BrowseOperation {
    LoadScene,
    SaveScene,
    InsertGltf,
    InsertScene,
    InsertSplat,
    PickTexture { slot: TextureSlot, entity: Option<u64> },
    PickGltf { entity: Option<u64> },
}

/// The texts the browser's frame shows for an operation.
pub struct BrowseLabels {
    pub title: &'static str,
    pub subtitle: &'static str,
    pub hint: &'static str,
    pub action_label: &'static str,
}

/// Title, subtitle, search hint and action word of each operation, in that order.
pub open spec fn labels_of(op: BrowseOperation) -> (Seq<char>, Seq<char>, Seq<char>, Seq<char>) {
    match op {
        BrowseOperation::LoadScene => ("LOAD SCENE"@, "Open a scene file"@, "Type to search scenes..."@, "load"@),
        BrowseOperation::SaveScene => ("SAVE SCENE"@, "Save to file"@, "Type filename or search..."@, "save"@),
        BrowseOperation::InsertGltf => ("INSERT GLTF"@, "Pick a model to insert"@, "Type to search models..."@, "insert"@),
        BrowseOperation::InsertScene => ("INSERT SCENE"@, "Pick a scene to insert"@, "Type to search scenes..."@, "insert"@),
        BrowseOperation::InsertSplat => (
            "INSERT SPLAT"@,
            "Pick a gaussian splat to insert"@,
            "Type to search splats..."@,
            "insert"@,
        ),
        BrowseOperation::PickTexture { .. } => (
            "PICK TEXTURE"@,
            "Select a texture image"@,
            "Type to search textures..."@,
            "select"@,
        ),
        BrowseOperation::PickGltf { .. } => ("PICK MODEL"@, "Select a GLTF/GLB model"@, "Type to search models..."@, "select"@),
    }
}

/// The frame texts for `op`.
pub fn browse_labels(op: &BrowseOperation) -> (r: BrowseLabels)
    ensures
        (r.title@, r.subtitle@, r.hint@, r.action_label@) == labels_of(*op),
{
    match op {
        BrowseOperation::LoadScene => BrowseLabels {
            title: "LOAD SCENE",
            subtitle: "Open a scene file",
            hint: "Type to search scenes...",
            action_label: "load",
        },
        BrowseOperation::SaveScene => BrowseLabels {
            title: "SAVE SCENE",
            subtitle: "Save to file",
            hint: "Type filename or search...",
            action_label: "save",
        },
        BrowseOperation::InsertGltf => BrowseLabels {
            title: "INSERT GLTF",
            subtitle: "Pick a model to insert",
            hint: "Type to search models...",
            action_label: "insert",
        },
        BrowseOperation::InsertScene => BrowseLabels {
            title: "INSERT SCENE",
            subtitle: "Pick a scene to insert",
            hint: "Type to search scenes...",
            action_label: "insert",
        },
        BrowseOperation::InsertSplat => BrowseLabels {
            title: "INSERT SPLAT",
            subtitle: "Pick a gaussian splat to insert",
            hint: "Type to search splats...",
            action_label: "insert",
        },
        BrowseOperation::PickTexture { .. } => BrowseLabels {
            title: "PICK TEXTURE",
            subtitle: "Select a texture image",
            hint: "Type to search textures...",
            action_label: "select",
        },
        BrowseOperation::PickGltf { .. } => BrowseLabels {
            title: "PICK MODEL",
            subtitle: "Select a GLTF/GLB model",
            hint: "Type to search models...",
            action_label: "select",
        },
    }
}

/// One file a browse lists (or the virtual "save as" entry).
pub struct AssetFileItem {
    /// Path relative to the scanned root, such as `textures/brick.png`.
    pub relative_path: String,
    /// The file's name alone.
    pub filename: String,
    /// The parent directory relative to the root; empty for a file at the root.
    pub directory: String,
    /// Set only on the virtual "save as" entry.
    pub is_save_as: bool,
}

impl AssetFileItem {
    /// The text the palette shows for the item: its file name.
    pub fn label(&self) -> (r: &str)
        ensures
            r@ == self.filename@,
    {
        self.filename.as_str()
    }

    /// The group the palette files the item under: its directory, none for a root file.
    pub fn category(&self) -> (r: Option<&str>)
        ensures
            match r {
                None => self.directory@.len() == 0,
                Some(d) => self.directory@.len() > 0 && d@ == self.directory@,
            },
    {
        let d = self.directory.as_str();
        if d.is_empty() {
            None
        } else {
            Some(d)
        }
    }
}

/// What picking an item does.
pub enum BrowseAction {
    /// Load the scene file at `path`.
    LoadScene { path: String },
    /// Save the current scene to `path`.
    SaveScene { path: String },
    /// Start placing the model at asset path `path`.
    InsertGltf { path: String },
    /// Start placing the scene file at `path`.
    InsertScene { path: String },
    /// Spawn the splat at asset path `path`.
    InsertSplat { path: String },
    /// Fill `slot` of `entity` with the texture at asset path `path`.
    PickTexture { slot: TextureSlot, entity: Option<u64>, path: String },
    /// Hand the model at asset path `path` to `entity`.
    PickGltf { entity: Option<u64>, path: String },
}

/// What picking `item` under `op` does; `query` is the typed query (trimmed before use).
pub open spec fn is_selection_of(r: BrowseAction, op: BrowseOperation, item: AssetFileItem, query: Seq<char>) -> bool {
    let rel = item.relative_path@;
    match op {
        BrowseOperation::LoadScene => r matches BrowseAction::LoadScene { path } && path@ == "assets/"@ + rel,
        BrowseOperation::SaveScene => r matches BrowseAction::SaveScene { path } && path@ == (if item.is_save_as {
            "assets/scenes/"@ + save_as_name(trimmed(query)) + ".scn.ron"@
        } else {
            "assets/"@ + rel
        }),
        BrowseOperation::InsertGltf => r matches BrowseAction::InsertGltf { path } && path@ == rel,
        BrowseOperation::InsertScene => r matches BrowseAction::InsertScene { path } && path@ == "assets/"@ + rel,
        BrowseOperation::InsertSplat => r matches BrowseAction::InsertSplat { path } && path@ == rel,
        BrowseOperation::PickTexture { slot, entity } => r matches BrowseAction::PickTexture {
            slot: s,
            entity: e,
            path,
        } && s == slot && e == entity && path@ == rel,
        BrowseOperation::PickGltf { entity } => r matches BrowseAction::PickGltf { entity: e, path } && e == entity
            && path@ == rel,
    }
}

/// What picking `item` does under `op`, given the typed query.
pub fn browse_selection(op: &BrowseOperation, item: &AssetFileItem, query: &str) -> (r: BrowseAction)
    ensures
        is_selection_of(r, *op, *item, query@),
{
    let rel = item.relative_path.clone();
    match op {
        BrowseOperation::LoadScene => BrowseAction::LoadScene { path: asset_file_path(rel.as_str()) },
        BrowseOperation::SaveScene => {
            if item.is_save_as {
                let query = trim_query(query);
                BrowseAction::SaveScene { path: save_as_scene_path(query.as_str()) }
            } else {
                BrowseAction::SaveScene { path: asset_file_path(rel.as_str()) }
            }
        },
        BrowseOperation::InsertGltf => BrowseAction::InsertGltf { path: rel },
        BrowseOperation::InsertScene => BrowseAction::InsertScene { path: asset_file_path(rel.as_str()) },
        BrowseOperation::InsertSplat => BrowseAction::InsertSplat { path: rel },
        BrowseOperation::PickTexture { slot, entity } => BrowseAction::PickTexture {
            slot: *slot,
            entity: *entity,
            path: rel,
        },
        BrowseOperation::PickGltf { entity } => BrowseAction::PickGltf { entity: *entity, path: rel },
    }
}

/// `p` maps each place of a sequence of length `n` to a distinct place of another of length `n`.
pub open spec fn is_permutation(p: Seq<int>, n: int) -> bool {
    &&& p.len() == n
    &&& forall|k: int| 0 <= k < n ==> 0 <= #[trigger] p[k] < n
    &&& forall|a: int, b: int| 0 <= a < b < n ==> #[trigger] p[a] != #[trigger] p[b]
}

/// `r` takes item `p[k]` of `items` to place `k`, is ordered by relative path, and keeps items
/// with equal paths in their order in `items`.
pub open spec fn is_path_sort_by(r: Seq<AssetFileItem>, items: Seq<AssetFileItem>, p: Seq<int>) -> bool {
    &&& r.len() == items.len()
    &&& is_permutation(p, items.len() as int)
    &&& forall|k: int| 0 <= k < r.len() ==> #[trigger] r[k] == items[p[k]]
    &&& forall|a: int, b: int|
        0 <= a < b < r.len() ==> !seq_lt(#[trigger] r[b].relative_path@, #[trigger] r[a].relative_path@)
    &&& forall|a: int, b: int|
        0 <= a < b < r.len() && #[trigger] r[a].relative_path@ == #[trigger] r[b].relative_path@ ==> p[a] < p[b]
}

/// `r` is `items` stably sorted by relative path.
pub open spec fn is_path_sort(r: Seq<AssetFileItem>, items: Seq<AssetFileItem>) -> bool {
    exists|p: Seq<int>| is_path_sort_by(r, items, p)
}

/// The listed files in the order the browser shows them: by relative path, stably.
pub fn sort_by_relative_path(items: Vec<AssetFileItem>) -> (r: Vec<AssetFileItem>)
    ensures
        is_path_sort(r@, items@),
{
    let ghost orig = items@;
    let mut rest = items;
    let mut out: Vec<AssetFileItem> = Vec::new();
    let ghost mut p: Seq<int> = Seq::empty();
    let n = rest.len();
    let mut i: usize = 0;
    proof {
        assert(orig.skip(0) =~= orig);
    }
    while i < n
        invariant
            n == orig.len(),
            i <= n,
            rest@ == orig.skip(i as int),
            out@.len() == i,
            p.len() == i,
            forall|k: int| 0 <= k < i ==> 0 <= #[trigger] p[k] < i,
            forall|a: int, b: int| 0 <= a < b < i ==> #[trigger] p[a] != #[trigger] p[b],
            forall|k: int| 0 <= k < i ==> #[trigger] out@[k] == orig[p[k]],
            forall|a: int, b: int|
                0 <= a < b < i ==> !seq_lt(#[trigger] out@[b].relative_path@, #[trigger] out@[a].relative_path@),
            forall|a: int, b: int|
                0 <= a < b < i && #[trigger] out@[a].relative_path@ == #[trigger] out@[b].relative_path@ ==> p[a] < p[b],
        decreases n - i,
    {
        proof {
            assert(rest@[0] == orig[i as int]);
        }
        let x = rest.remove(0);
        let mut j: usize = 0;
        while j < out.len() && !str_lt(x.relative_path.as_str(), out[j].relative_path.as_str())
            invariant
                j <= out@.len(),
                forall|k: int| 0 <= k < j ==> !seq_lt(x.relative_path@, #[trigger] out@[k].relative_path@),
            decreases out@.len() - j,
        {
            j = j + 1;
        }
        let ghost old_out = out@;
        let ghost old_p = p;
        let ghost key = x.relative_path@;
        out.insert(j, x);
        proof {
            p = old_p.insert(j as int, i as int);
            old_out.insert_ensures(j as int, x);
            old_p.insert_ensures(j as int, i as int);
            assert(rest@ =~= orig.skip(i + 1));
            // Every item after the insertion point sorts strictly after the new one.
            assert forall|k: int| j <= k < old_out.len() implies seq_lt(key, #[trigger] old_out[k].relative_path@) by {
                if k > j {
                    lemma_seq_lt_total(old_out[j as int].relative_path@, old_out[k].relative_path@);
                    if seq_lt(old_out[j as int].relative_path@, old_out[k].relative_path@) {
                        lemma_seq_lt_transitive(key, old_out[j as int].relative_path@, old_out[k].relative_path@);
                    }
                }
            }
            assert forall|k: int| j <= k < old_out.len() implies !seq_lt(#[trigger] old_out[k].relative_path@, key)
                && old_out[k].relative_path@ != key by {
                if seq_lt(old_out[k].relative_path@, key) {
                    lemma_seq_lt_transitive(key, old_out[k].relative_path@, key);
                    lemma_seq_lt_irreflexive(key);
                }
                if old_out[k].relative_path@ == key {
                    lemma_seq_lt_irreflexive(key);
                }
            }
            assert forall|k: int| 0 <= k < i + 1 implies 0 <= #[trigger] p[k] < i + 1 by {
                if k > j {
                    assert(p[k] == old_p[k - 1]);
                }
            }
            assert forall|a: int, b: int| 0 <= a < b < i + 1 implies #[trigger] p[a] != #[trigger] p[b] by {
                if a < j && b < j {
                } else if a < j && b == j {
                } else if a < j {
                    assert(p[b] == old_p[b - 1]);
                } else if a == j {
                    assert(p[b] == old_p[b - 1]);
                } else {
                    assert(p[a] == old_p[a - 1]);
                    assert(p[b] == old_p[b - 1]);
                }
            }
            assert forall|k: int| 0 <= k < i + 1 implies #[trigger] out@[k] == orig[p[k]] by {
                if k > j {
                    assert(out@[k] == old_out[k - 1]);
                    assert(p[k] == old_p[k - 1]);
                }
            }
            assert forall|a: int, b: int| 0 <= a < b < i + 1 implies !seq_lt(
                #[trigger] out@[b].relative_path@,
                #[trigger] out@[a].relative_path@,
            ) by {
                if b < j {
                } else if b == j {
                    assert(out@[a] == old_out[a]);
                } else if a < j {
                    assert(out@[b] == old_out[b - 1]);
                    assert(out@[a] == old_out[a]);
                } else if a == j {
                    assert(out@[b] == old_out[b - 1]);
                } else {
                    assert(out@[b] == old_out[b - 1]);
                    assert(out@[a] == old_out[a - 1]);
                }
            }
            assert forall|a: int, b: int|
                0 <= a < b < i + 1 && #[trigger] out@[a].relative_path@ == #[trigger] out@[b].relative_path@ implies p[a]
                < p[b] by {
                if b < j {
                } else if b == j {
                    assert(p[a] == old_p[a]);
                } else if a < j {
                    assert(out@[b] == old_out[b - 1]);
                    assert(out@[a] == old_out[a]);
                    assert(p[b] == old_p[b - 1]);
                } else if a == j {
                    assert(out@[b] == old_out[b - 1]);
                } else {
                    assert(out@[b] == old_out[b - 1]);
                    assert(out@[a] == old_out[a - 1]);
                    assert(p[a] == old_p[a - 1]);
                    assert(p[b] == old_p[b - 1]);
                }
            }
        }
        i = i + 1;
    }
    proof {
        assert(is_path_sort_by(out@, orig, p));
    }
    out
}

/// `s` with every trailing repetition of `suffix` removed (`str::trim_end_matches`); an empty
/// `suffix` leaves `s` as it is.
pub fn trim_end_matches(s: &str, suffix: &str) -> (r: String)
    ensures
        r@ == trim_suffixes(s@, suffix@),
{
    let m = suffix.unicode_len();
    let n = s.unicode_len();
    if m == 0 {
        return String::from_str(s);
    }
    let mut end: usize = n;
    assert(s@.subrange(0, n as int) =~= s@);
    while end >= m && str_eq(s.substring_char(end - m, end), suffix)
        invariant
            n == s@.len(),
            m == suffix@.len(),
            m > 0,
            end <= n,
            trim_suffixes(s@, suffix@) == trim_suffixes(s@.subrange(0, end as int), suffix@),
        decreases end,
    {
        proof {
            let t = s@.subrange(0, end as int);
            assert(t.subrange(t.len() - m, t.len() as int) =~= s@.subrange(end - m, end as int));
            assert(t.subrange(0, t.len() - m) =~= s@.subrange(0, end - m));
        }
        end = end - m;
    }
    proof {
        let t = s@.subrange(0, end as int);
        if end >= m {
            assert(t.subrange(t.len() - m, t.len() as int) =~= s@.subrange(end - m, end as int));
        }
        assert(!ends_with(t, suffix@));
    }
    String::from_str(s.substring_char(0, end))
}

/// `r` is the part of `path` after its last `/` (all of it when it has none).
pub open spec fn is_last_segment(r: Seq<char>, path: Seq<char>) -> bool {
    exists|i: int|
        {
            &&& 0 <= i <= path.len()
            &&& r == path.subrange(i, path.len() as int)
            &&& forall|k: int| i <= k < path.len() ==> #[trigger] path[k] != '/'
            &&& (i == 0 || path[i - 1] == '/')
        }
}

/// The part of `path` after its last `/`.
pub open spec fn last_segment(path: Seq<char>) -> Seq<char> {
    choose|r: Seq<char>| is_last_segment(r, path)
}

/// A path has one last segment.
pub proof fn lemma_last_segment_unique(path: Seq<char>, r1: Seq<char>, r2: Seq<char>)
    requires
        is_last_segment(r1, path),
        is_last_segment(r2, path),
    ensures
        r1 == r2,
{
    let i1 = choose|i: int|
        {
            &&& 0 <= i <= path.len()
            &&& r1 == path.subrange(i, path.len() as int)
            &&& forall|k: int| i <= k < path.len() ==> #[trigger] path[k] != '/'
            &&& (i == 0 || path[i - 1] == '/')
        };
    let i2 = choose|i: int|
        {
            &&& 0 <= i <= path.len()
            &&& r2 == path.subrange(i, path.len() as int)
            &&& forall|k: int| i <= k < path.len() ==> #[trigger] path[k] != '/'
            &&& (i == 0 || path[i - 1] == '/')
        };
    if i1 < i2 {
        assert(path[i2 - 1] == '/');
    } else if i2 < i1 {
        assert(path[i1 - 1] == '/');
    }
}

fn last_path_segment(path: &str) -> (r: &str)
    ensures
        r@ == last_segment(path@),
{
    let n = path.unicode_len();
    let mut i: usize = n;
    while i > 0 && path.get_char(i - 1) != '/'
        invariant
            n == path@.len(),
            i <= n,
            forall|k: int| i <= k < n ==> #[trigger] path@[k] != '/',
        decreases i,
    {
        i = i - 1;
    }
    let r = path.substring_char(i, n);
    proof {
        assert(is_last_segment(r@, path@));
        lemma_last_segment_unique(path@, r@, last_segment(path@));
    }
    r
}

/// The name a model placed from asset path `path` takes: the path's last segment with every
/// trailing `.gltf` removed, then every trailing `.glb`.
pub fn gltf_entity_name(path: &str) -> (r: String)
    ensures
        r@ == trim_suffixes(trim_suffixes(last_segment(path@), ".gltf"@), ".glb"@),
{
    proof {
        reveal_strlit(".gltf");
        reveal_strlit(".glb");
    }
    let seg = last_path_segment(path);
    let no_gltf = trim_end_matches(seg, ".gltf");
    trim_end_matches(no_gltf.as_str(), ".glb")
}

} // verus!
