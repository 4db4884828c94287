//! The report entries of a tile-map job: one entry per rendered z-level.
use vstd::prelude::*;
use crate::map::{BoundType, Rect};
use crate::report::{assemble_outputs, packed, views, CheckOutputs, output_texts, REPORT_CEILING};
use crate::text::{decimal, decimal_spec, file_index, file_index_spec};

verus! {

/// A map file that was added or removed, with its number of z-levels.
pub struct WholeMap {
    pub name: String,
    pub levels: usize,
}

/// A modified map file: its size and the classification of each z-level, or
/// the error that stopped it from being loaded.
pub enum ModifiedMap {
    Compared { name: String, dim_x: u64, dim_y: u64, bounds: Vec<BoundType> },
    Failed { name: String, error: String },
}

/// The heading of z-level `z` (counted from 0) of `file`, counted from 1.
pub open spec fn level_name(file: Seq<char>, z: nat) -> Seq<char> {
    file + " (Z-level: "@ + decimal_spec(z + 1) + ")"@
}

/// The link to an image of z-level `z` of `file` under the directory `dir`.
pub open spec fn level_link(link_base: Seq<char>, dir: Seq<char>, file: Seq<char>, z: nat) -> Seq<char> {
    link_base + "/"@ + dir + "/"@ + file_index_spec(file) + "/"@ + decimal_spec(z)
}

/// The entry of one z-level of a map that was added (`added` true) or removed.
pub open spec fn whole_level_entry(link_base: Seq<char>, file: Seq<char>, z: nat, added: bool) -> Seq<char> {
    if added {
        "#### "@ + level_name(file, z) + " [ADDED]\n\n![Added]("@ + level_link(link_base, "a"@, file, z)
            + "-added.png)\n\n"@
    } else {
        "#### "@ + level_name(file, z) + " [REMOVED]\n\n![Removed]("@ + level_link(
            link_base,
            "r"@,
            file,
            z,
        ) + "-removed.png)\n\n"@
    }
}

/// The entries of every z-level of a map that was added or removed.
pub open spec fn whole_map_entries(link_base: Seq<char>, file: Seq<char>, levels: nat, added: bool) -> Seq<
    Seq<char>,
> {
    Seq::new(levels, |z: int| whole_level_entry(link_base, file, z as nat, added))
}

/// A table of the old, new and difference images of one z-level.
pub open spec fn modified_entry_spec(
    name: Seq<char>,
    bounds: Seq<char>,
    old: Seq<char>,
    new: Seq<char>,
    diff: Seq<char>,
) -> Seq<char> {
    "#### "@ + name + " "@ + bounds + "\n\n| Old | New | Difference |\n| --- | --- | --- |\n| "@ + old
        + " | "@ + new + " | "@ + diff + " |\n\n"@
}

/// An image in a table cell.
pub open spec fn image_cell(link: Seq<char>) -> Seq<char> {
    "![If the image doesn't load, use the raw link]("@ + link + ")"@
}

/// The text of a rectangle of tiles.
pub open spec fn rect_text(r: Rect) -> Seq<char> {
    "("@ + decimal_spec(r.min_x as nat) + ", "@ + decimal_spec(r.min_y as nat) + ") to ("@
        + decimal_spec(r.max_x as nat) + ", "@ + decimal_spec(r.max_y as nat) + ")"@
}

/// The text of the size of a map at z-level `z`.
pub open spec fn dims_text(dim_x: u64, dim_y: u64, z: nat) -> Seq<char> {
    "("@ + decimal_spec(dim_x as nat) + ", "@ + decimal_spec(dim_y as nat) + ", "@ + decimal_spec(
        z + 1,
    ) + ")"@
}

/// The entry of z-level `z` of a modified map; unchanged levels have none.
pub open spec fn modified_level_entry(
    link_base: Seq<char>,
    file: Seq<char>,
    dim_x: u64,
    dim_y: u64,
    z: nat,
    bound: BoundType,
) -> Option<Seq<char>> {
    let link = level_link(link_base, "m"@, file, z);
    let name = level_name(file, z);
    match bound {
        BoundType::Unchanged => None,
        BoundType::OnlyHead => Some(
            modified_entry_spec(
                name,
                dims_text(dim_x, dim_y, z),
                "Z-LEVEL ADDED"@,
                image_cell(link + "-after.png"@),
                "Z-LEVEL ADDED"@,
            ),
        ),
        BoundType::OnlyBase => Some(
            modified_entry_spec(
                name,
                dims_text(dim_x, dim_y, z),
                "Z-LEVEL DELETED"@,
                "Z-LEVEL DELETED"@,
                "Z-LEVEL DELETED"@,
            ),
        ),
        BoundType::Both(rect) => Some(
            modified_entry_spec(
                name,
                rect_text(rect),
                image_cell(link + "-before.png"@),
                image_cell(link + "-after.png"@),
                image_cell(link + "-diff.png"@),
            ),
        ),
    }
}

/// The entries of the first `n` z-levels of a modified map, in order.
pub open spec fn modified_levels_prefix(
    link_base: Seq<char>,
    file: Seq<char>,
    dim_x: u64,
    dim_y: u64,
    bounds: Seq<BoundType>,
    n: nat,
) -> Seq<Seq<char>>
    decreases n,
{
    if n == 0 {
        Seq::empty()
    } else {
        let prev = modified_levels_prefix(link_base, file, dim_x, dim_y, bounds, (n - 1) as nat);
        match modified_level_entry(link_base, file, dim_x, dim_y, (n - 1) as nat, bounds[n - 1]) {
            Some(e) => prev.push(e),
            None => prev,
        }
    }
}

/// The entry shown for a modified map that could not be compared.
pub open spec fn error_entry(file: Seq<char>, error: Seq<char>) -> Seq<char> {
    "#### "@ + file + " [ERROR]\n\n```\n"@ + error + "\n```\n\n"@
}

/// The entries of one modified map.
pub open spec fn modified_map_entries(link_base: Seq<char>, m: ModifiedMap) -> Seq<Seq<char>> {
    match m {
        ModifiedMap::Compared { name, dim_x, dim_y, bounds } => modified_levels_prefix(
            link_base,
            name@,
            dim_x,
            dim_y,
            bounds@,
            bounds@.len(),
        ),
        ModifiedMap::Failed { name, error } => seq![error_entry(name@, error@)],
    }
}

/// Builds the text of `r`.
fn rect_string(r: Rect) -> (s: String)
    ensures
        s@ == rect_text(r),
{
    let mut s = String::from_str("(");
    s.append(decimal(r.min_x as u64).as_str());
    s.append(", ");
    s.append(decimal(r.min_y as u64).as_str());
    s.append(") to (");
    s.append(decimal(r.max_x as u64).as_str());
    s.append(", ");
    s.append(decimal(r.max_y as u64).as_str());
    s.append(")");
    s
}

/// Builds the heading of z-level `z` of `file`.
fn level_name_string(file: &str, z: usize) -> (s: String)
    requires
        z < usize::MAX,
    ensures
        s@ == level_name(file@, z as nat),
{
    let mut s = String::from_str(file);
    s.append(" (Z-level: ");
    s.append(decimal((z + 1) as u64).as_str());
    s.append(")");
    s
}

/// Builds the link to an image of z-level `z` of `file` under `dir`.
fn level_link_string(link_base: &str, dir: &str, file: &str, z: usize) -> (s: String)
    ensures
        s@ == level_link(link_base@, dir@, file@, z as nat),
{
    let mut s = String::from_str(link_base);
    s.append("/");
    s.append(dir);
    s.append("/");
    s.append(file_index(file).as_str());
    s.append("/");
    s.append(decimal(z as u64).as_str());
    s
}

/// Builds the entries of every z-level of a map that was added or removed.
pub fn whole_map_entry_list(link_base: &str, map: &WholeMap, added: bool) -> (r: Vec<String>)
    ensures
        views(r@) == whole_map_entries(link_base@, map.name@, map.levels as nat, added),
{
    let ghost goal = whole_map_entries(link_base@, map.name@, map.levels as nat, added);
    let mut out: Vec<String> = Vec::new();
    let mut z: usize = 0;
    while z < map.levels
        invariant
            z <= map.levels,
            goal == whole_map_entries(link_base@, map.name@, map.levels as nat, added),
            views(out@) == goal.take(z as int),
        decreases map.levels - z,
    {
        let mut e = String::from_str("#### ");
        e.append(level_name_string(map.name.as_str(), z).as_str());
        if added {
            e.append(" [ADDED]\n\n![Added](");
            e.append(level_link_string(link_base, "a", map.name.as_str(), z).as_str());
            e.append("-added.png)\n\n");
        } else {
            e.append(" [REMOVED]\n\n![Removed](");
            e.append(level_link_string(link_base, "r", map.name.as_str(), z).as_str());
            e.append("-removed.png)\n\n");
        }
        proof {
            reveal_strlit("a");
            reveal_strlit("r");
        }
        assert(e@ =~= goal[z as int]);
        let ghost before = out@;
        out.push(e);
        assert(views(out@) =~= views(before).push(goal[z as int]));
        assert(views(out@) =~= goal.take(z + 1));
        z = z + 1;
    }
    assert(goal.take(z as int) =~= goal);
    out
}

fn modified_entry(name: &str, bounds: &str, old: &str, new: &str, diff: &str) -> (r: String)
    ensures
        r@ == modified_entry_spec(name@, bounds@, old@, new@, diff@),
{
    let mut s = String::from_str("#### ");
    s.append(name);
    s.append(" ");
    s.append(bounds);
    s.append("\n\n| Old | New | Difference |\n| --- | --- | --- |\n| ");
    s.append(old);
    s.append(" | ");
    s.append(new);
    s.append(" | ");
    s.append(diff);
    s.append(" |\n\n");
    s
}

fn image_cell_string(link: &str, suffix: &str) -> (r: String)
    ensures
        r@ == image_cell(link@ + suffix@),
{
    let mut s = String::from_str("![If the image doesn't load, use the raw link](");
    s.append(link);
    s.append(suffix);
    s.append(")");
    assert(s@ =~= image_cell(link@ + suffix@));
    s
}

fn dims_string(dim_x: u64, dim_y: u64, z: usize) -> (r: String)
    requires
        z < usize::MAX,
    ensures
        r@ == dims_text(dim_x, dim_y, z as nat),
{
    let mut s = String::from_str("(");
    s.append(decimal(dim_x).as_str());
    s.append(", ");
    s.append(decimal(dim_y).as_str());
    s.append(", ");
    s.append(decimal((z + 1) as u64).as_str());
    s.append(")");
    s
}

/// Builds the entries of one modified map.
pub fn modified_map_entry_list(link_base: &str, map: &ModifiedMap) -> (r: Vec<String>)
    ensures
        views(r@) == modified_map_entries(link_base@, *map),
{
    match map {
        ModifiedMap::Failed { name, error } => {
            let mut e = String::from_str("#### ");
            e.append(name.as_str());
            e.append(" [ERROR]\n\n```\n");
            e.append(error.as_str());
            e.append("\n```\n\n");
            let mut out: Vec<String> = Vec::new();
            out.push(e);
            assert(views(out@) =~= seq![error_entry(name@, error@)]);
            out
        },
        ModifiedMap::Compared { name, dim_x, dim_y, bounds } => {
            let mut out: Vec<String> = Vec::new();
            let mut z: usize = 0;
            while z < bounds.len()
                invariant
                    z <= bounds.len(),
                    views(out@) == modified_levels_prefix(
                        link_base@,
                        name@,
                        *dim_x,
                        *dim_y,
                        bounds@,
                        z as nat,
                    ),
                decreases bounds.len() - z,
            {
                let link = level_link_string(link_base, "m", name.as_str(), z);
                let title = level_name_string(name.as_str(), z);
                let ghost expected = modified_level_entry(
                    link_base@,
                    name@,
                    *dim_x,
                    *dim_y,
                    z as nat,
                    bounds@[z as int],
                );
                let ghost before = out@;
                match bounds[z] {
                    BoundType::Unchanged => {},
                    BoundType::OnlyHead => {
                        let dims = dims_string(*dim_x, *dim_y, z);
                        let after = image_cell_string(link.as_str(), "-after.png");
                        let e = modified_entry(
                            title.as_str(),
                            dims.as_str(),
                            "Z-LEVEL ADDED",
                            after.as_str(),
                            "Z-LEVEL ADDED",
                        );
                        out.push(e);
                    },
                    BoundType::OnlyBase => {
                        let dims = dims_string(*dim_x, *dim_y, z);
                        let e = modified_entry(
                            title.as_str(),
                            dims.as_str(),
                            "Z-LEVEL DELETED",
                            "Z-LEVEL DELETED",
                            "Z-LEVEL DELETED",
                        );
                        out.push(e);
                    },
                    BoundType::Both(rect) => {
                        let bounds_text = rect_string(rect);
                        let before_cell = image_cell_string(link.as_str(), "-before.png");
                        let after = image_cell_string(link.as_str(), "-after.png");
                        let diff = image_cell_string(link.as_str(), "-diff.png");
                        let e = modified_entry(
                            title.as_str(),
                            bounds_text.as_str(),
                            before_cell.as_str(),
                            after.as_str(),
                            diff.as_str(),
                        );
                        out.push(e);
                    },
                }
                proof {
                    match expected {
                        Some(e) => {
                            assert(views(out@) =~= views(before).push(e));
                        },
                        None => {
                            assert(views(out@) =~= views(before));
                        },
                    }
                }
                z = z + 1;
            }
            out
        },
    }
}

/// The entries of all maps: added maps, then removed maps, then modified
/// maps, each in the given order.
pub open spec fn map_entries(
    link_base: Seq<char>,
    added: Seq<WholeMap>,
    removed: Seq<WholeMap>,
    modified: Seq<ModifiedMap>,
) -> Seq<Seq<char>> {
    added.map_values(|m: WholeMap| whole_map_entries(link_base, m.name@, m.levels as nat, true)).flatten()
        + removed.map_values(
        |m: WholeMap| whole_map_entries(link_base, m.name@, m.levels as nat, false),
    ).flatten() + modified.map_values(|m: ModifiedMap| modified_map_entries(link_base, m)).flatten()
}

fn append_all(out: &mut Vec<String>, more: Vec<String>)
    ensures
        views(final(out)@) == views(old(out)@) + views(more@),
{
    let mut k: usize = 0;
    let ghost start = out@;
    while k < more.len()
        invariant
            k <= more.len(),
            views(out@) == views(start) + views(more@).take(k as int),
        decreases more.len() - k,
    {
        let ghost mid = out@;
        out.push(more[k].clone());
        assert(views(out@) =~= views(mid).push(more@[k as int]@));
        assert(views(out@) =~= views(start) + views(more@).take(k + 1));
        k = k + 1;
    }
    assert(views(more@).take(k as int) =~= views(more@));
}

proof fn lemma_flatten_push<A>(s: Seq<Seq<A>>, x: Seq<A>)
    ensures
        s.push(x).flatten() == s.flatten() + x,
{
    vstd::seq_lib::lemma_flatten_concat(s, seq![x]);
    assert(s.push(x) =~= s + seq![x]);
    seq![x].lemma_flatten_one_element();
}

fn whole_maps_entries(link_base: &str, maps: &Vec<WholeMap>, added: bool) -> (r: Vec<String>)
    ensures
        views(r@) == maps@.map_values(
            |m: WholeMap| whole_map_entries(link_base@, m.name@, m.levels as nat, added),
        ).flatten(),
{
    let ghost all = maps@.map_values(
        |m: WholeMap| whole_map_entries(link_base@, m.name@, m.levels as nat, added),
    );
    let mut out: Vec<String> = Vec::new();
    let mut i: usize = 0;
    while i < maps.len()
        invariant
            i <= maps.len(),
            all == maps@.map_values(
                |m: WholeMap| whole_map_entries(link_base@, m.name@, m.levels as nat, added),
            ),
            views(out@) == all.take(i as int).flatten(),
        decreases maps.len() - i,
    {
        let more = whole_map_entry_list(link_base, &maps[i], added);
        append_all(&mut out, more);
        proof {
            assert(all.take(i + 1) =~= all.take(i as int).push(all[i as int]));
            lemma_flatten_push(all.take(i as int), all[i as int]);
        }
        i = i + 1;
    }
    assert(all.take(i as int) =~= all);
    out
}

fn modified_maps_entries(link_base: &str, maps: &Vec<ModifiedMap>) -> (r: Vec<String>)
    ensures
        views(r@) == maps@.map_values(|m: ModifiedMap| modified_map_entries(link_base@, m)).flatten(),
{
    let ghost all = maps@.map_values(|m: ModifiedMap| modified_map_entries(link_base@, m));
    let mut out: Vec<String> = Vec::new();
    let mut i: usize = 0;
    while i < maps.len()
        invariant
            i <= maps.len(),
            all == maps@.map_values(|m: ModifiedMap| modified_map_entries(link_base@, m)),
            views(out@) == all.take(i as int).flatten(),
        decreases maps.len() - i,
    {
        let more = modified_map_entry_list(link_base, &maps[i]);
        append_all(&mut out, more);
        proof {
            assert(all.take(i + 1) =~= all.take(i as int).push(all[i as int]));
            lemma_flatten_push(all.take(i as int), all[i as int]);
        }
        i = i + 1;
    }
    assert(all.take(i as int) =~= all);
    out
}

/// Builds the report entries of a tile-map job: added maps, then removed
/// maps, then modified maps, with image links under `link_base`.
pub fn map_report_entries(
    link_base: &str,
    added: &Vec<WholeMap>,
    removed: &Vec<WholeMap>,
    modified: &Vec<ModifiedMap>,
) -> (r: Vec<String>)
    ensures
        views(r@) == map_entries(link_base@, added@, removed@, modified@),
{
    let mut out = whole_maps_entries(link_base, added, true);
    append_all(&mut out, whole_maps_entries(link_base, removed, false));
    append_all(&mut out, modified_maps_entries(link_base, modified));
    out
}

/// The root of the image links of a job: the file host's address followed by
/// the job's image directory.
pub fn link_base(file_url: &str, directory: &str) -> (r: String)
    ensures
        r@ == file_url@ + "/"@ + directory@,
{
    let mut s = String::from_str(file_url);
    s.append("/");
    s.append(directory);
    s
}

/// The report of a tile-map job: its entries packed into payloads.
pub fn map_report(
    link_base: &str,
    added: &Vec<WholeMap>,
    removed: &Vec<WholeMap>,
    modified: &Vec<ModifiedMap>,
) -> (r: Option<CheckOutputs>)
    ensures
        r is None <==> packed(map_entries(link_base@, added@, removed@, modified@), REPORT_CEILING as nat).len() == 0,
        r matches Some(o) ==> output_texts(o) == packed(
            map_entries(link_base@, added@, removed@, modified@),
            REPORT_CEILING as nat,
        ),
{
    let entries = map_report_entries(link_base, added, removed, modified);
    assemble_outputs(
        &entries,
        "Map renderings",
        "*Please file any issues [here](https://github.com/spacestation13/BYONDDiffBots/issues).*\n\n*Github may fail to render some images, appearing as cropped on large map changes. Please use the raw links in this case.*\n\nMaps with diff:",
    )
}

/// The directory a job's images go to, relative to the served root: by
/// repository and check run, or a fixed name when the job has no check run.
pub open spec fn image_directory_spec(repo_id: u64, check_run_id: Option<u64>) -> Seq<char> {
    "images/"@ + decimal_spec(repo_id as nat) + "/"@ + match check_run_id {
        Some(id) => decimal_spec(id as nat),
        None => "TEST"@,
    }
}

/// The directory a job's images go to.
pub fn image_directory(repo_id: u64, check_run_id: Option<u64>) -> (r: String)
    ensures
        r@ == image_directory_spec(repo_id, check_run_id),
{
    let mut s = String::from_str("images/");
    s.append(decimal(repo_id).as_str());
    s.append("/");
    match check_run_id {
        Some(id) => s.append(decimal(id).as_str()),
        None => s.append("TEST"),
    }
    s
}

} // verus!
