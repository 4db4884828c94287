//! Sprite-sheet diffing: which states were added, removed or changed, and
//! the report lines that present them.
use vstd::prelude::*;
use crate::names::{select, select_names};
use crate::report::views;
use crate::text::{decimal, decimal_spec};

verus! {

/// The state names of a modified sprite sheet, split three ways.
pub struct StateSplit {
    /// Names only in the base revision, in base order.
    pub removed: Vec<String>,
    /// Names only in the head revision, in head order.
    pub added: Vec<String>,
    /// Names in both revisions, in base order.
    pub common: Vec<String>,
}

/// Splits the state names of the two revisions of a modified sprite sheet.
pub fn split_states(base: &Vec<String>, head: &Vec<String>) -> (r: StateSplit)
    ensures
        views(r.removed@) == select(views(base@), views(head@), false),
        views(r.added@) == select(views(head@), views(base@), false),
        views(r.common@) == select(views(base@), views(head@), true),
{
    StateSplit {
        removed: select_names(base, head, false),
        added: select_names(head, base, false),
        common: select_names(base, head, true),
    }
}

/// Names present in exactly one revision are exactly those reported as
/// added or removed, and names present in both are exactly the candidates
/// for a modification check.
pub proof fn lemma_split_partitions(base: Seq<Seq<char>>, head: Seq<Seq<char>>)
    ensures
        select(base, head, false).to_set() + select(head, base, false).to_set() == (base.to_set()
            - head.to_set()) + (head.to_set() - base.to_set()),
        select(base, head, true).to_set() == base.to_set().intersect(head.to_set()),
{
    broadcast use vstd::seq_lib::group_filter_ensures;

    let p_rem = |x: Seq<char>| head.contains(x) == false;
    let p_add = |x: Seq<char>| base.contains(x) == false;
    let p_com = |x: Seq<char>| head.contains(x) == true;
    assert forall|x: Seq<char>| #[trigger] base.filter(p_rem).contains(x) <==> base.contains(x)
        && !head.contains(x) by {
        if base.contains(x) && !head.contains(x) {
            let j = choose|j: int| 0 <= j < base.len() && base[j] == x;
            base.lemma_filter_contains(p_rem, j);
        }
        if base.filter(p_rem).contains(x) {
            let i = choose|i: int| 0 <= i < base.filter(p_rem).len() && base.filter(p_rem)[i] == x;
            base.lemma_filter_pred(p_rem, i);
            base.lemma_filter_contains_rev(p_rem, x);
        }
    }
    assert forall|x: Seq<char>| #[trigger] head.filter(p_add).contains(x) <==> head.contains(x)
        && !base.contains(x) by {
        if head.contains(x) && !base.contains(x) {
            let j = choose|j: int| 0 <= j < head.len() && head[j] == x;
            head.lemma_filter_contains(p_add, j);
        }
        if head.filter(p_add).contains(x) {
            let i = choose|i: int| 0 <= i < head.filter(p_add).len() && head.filter(p_add)[i] == x;
            head.lemma_filter_pred(p_add, i);
            head.lemma_filter_contains_rev(p_add, x);
        }
    }
    assert forall|x: Seq<char>| #[trigger] base.filter(p_com).contains(x) <==> base.contains(x)
        && head.contains(x) by {
        if base.contains(x) && head.contains(x) {
            let j = choose|j: int| 0 <= j < base.len() && base[j] == x;
            base.lemma_filter_contains(p_com, j);
        }
        if base.filter(p_com).contains(x) {
            let i = choose|i: int| 0 <= i < base.filter(p_com).len() && base.filter(p_com)[i] == x;
            base.lemma_filter_pred(p_com, i);
            base.lemma_filter_contains_rev(p_com, x);
        }
    }
    assert(select(base, head, false).to_set() + select(head, base, false).to_set() =~= (
    base.to_set() - head.to_set()) + (head.to_set() - base.to_set()));
    assert(select(base, head, true).to_set() =~= base.to_set().intersect(head.to_set()));
}

/// Whether a state present in both revisions is reported as modified, given
/// whether its metadata is equal and, where it was rendered, whether its
/// frames are equal. Differing metadata decides alone.
pub open spec fn state_modified(metadata_equal: bool, frames_equal: Option<bool>) -> bool {
    !metadata_equal || frames_equal == Some(false)
}

/// Whether the frames of a common state must be rendered and compared: only
/// when the cheap metadata comparison found no difference.
pub fn needs_frame_comparison(metadata_equal: bool) -> (r: bool)
    ensures
        r == metadata_equal,
{
    metadata_equal
}

/// The names among the first `n` common states that are reported as modified.
pub open spec fn modified_prefix(
    names: Seq<Seq<char>>,
    metadata_equal: Seq<bool>,
    frames_equal: Seq<Option<bool>>,
    n: nat,
) -> Seq<Seq<char>>
    decreases n,
{
    if n == 0 {
        Seq::empty()
    } else {
        let prev = modified_prefix(names, metadata_equal, frames_equal, (n - 1) as nat);
        if state_modified(metadata_equal[n - 1], frames_equal[n - 1]) {
            prev.push(names[n - 1])
        } else {
            prev
        }
    }
}

/// The common states, in order, that are reported as modified. A state whose
/// metadata differs needs no frame comparison (its entry may be `None`); one
/// whose metadata is equal must have been compared.
pub fn modified_states(
    common: &Vec<String>,
    metadata_equal: &Vec<bool>,
    frames_equal: &Vec<Option<bool>>,
) -> (r: Vec<String>)
    requires
        metadata_equal@.len() == common@.len(),
        frames_equal@.len() == common@.len(),
        forall|i: int| 0 <= i < common@.len() && #[trigger] metadata_equal@[i] ==> frames_equal@[i] is Some,
    ensures
        views(r@) == modified_prefix(views(common@), metadata_equal@, frames_equal@, common@.len()),
{
    let mut out: Vec<String> = Vec::new();
    let mut i: usize = 0;
    while i < common.len()
        invariant
            i <= common.len(),
            metadata_equal@.len() == common@.len(),
            frames_equal@.len() == common@.len(),
            views(out@) == modified_prefix(views(common@), metadata_equal@, frames_equal@, i as nat),
        decreases common.len() - i,
    {
        let modified = !metadata_equal[i] || frames_equal[i] == Some(false);
        if modified {
            let ghost before = out@;
            out.push(common[i].clone());
            assert(views(out@) =~= views(before).push(common@[i as int]@));
        }
        i = i + 1;
    }
    out
}

proof fn lemma_modified_prefix_contains(
    names: Seq<Seq<char>>,
    metadata_equal: Seq<bool>,
    frames_equal: Seq<Option<bool>>,
    n: nat,
    x: Seq<char>,
)
    requires
        n <= names.len(),
    ensures
        modified_prefix(names, metadata_equal, frames_equal, n).contains(x) <==> exists|i: int|
            0 <= i < n && names[i] == x && state_modified(metadata_equal[i], frames_equal[i]),
    decreases n,
{
    if n > 0 {
        lemma_modified_prefix_contains(names, metadata_equal, frames_equal, (n - 1) as nat, x);
        let prev = modified_prefix(names, metadata_equal, frames_equal, (n - 1) as nat);
        let k = n - 1;
        if state_modified(metadata_equal[k], frames_equal[k]) {
            assert(prev.push(names[k])[prev.len() as int] == names[k]);
            if prev.push(names[k]).contains(x) {
                let j = choose|j: int| 0 <= j < prev.push(names[k]).len() && prev.push(names[k])[j] == x;
                if j < prev.len() {
                    assert(prev[j] == x);
                }
            }
            if prev.contains(x) {
                let j = choose|j: int| 0 <= j < prev.len() && prev[j] == x;
                assert(prev.push(names[k])[j] == x);
            }
        }
    }
}

/// A common state whose metadata and frames are both equal is never reported
/// as modified.
pub proof fn lemma_identical_state_not_reported(
    names: Seq<Seq<char>>,
    metadata_equal: Seq<bool>,
    frames_equal: Seq<Option<bool>>,
    i: int,
)
    requires
        names.no_duplicates(),
        0 <= i < names.len(),
        metadata_equal[i],
        frames_equal[i] == Some(true),
    ensures
        !modified_prefix(names, metadata_equal, frames_equal, names.len()).contains(names[i]),
{
    lemma_modified_prefix_contains(names, metadata_equal, frames_equal, names.len(), names[i]);
}

/// A common state whose metadata differs is always reported as modified,
/// whether or not its frames were rendered.
pub proof fn lemma_metadata_change_reported(
    names: Seq<Seq<char>>,
    metadata_equal: Seq<bool>,
    frames_equal: Seq<Option<bool>>,
    i: int,
)
    requires
        0 <= i < names.len(),
        !metadata_equal[i],
    ensures
        modified_prefix(names, metadata_equal, frames_equal, names.len()).contains(names[i]),
{
    lemma_modified_prefix_contains(names, metadata_equal, frames_equal, names.len(), names[i]);
}

/// The name shown for a state: the unnamed default state gets a placeholder.
pub open spec fn display_name_spec(name: Seq<char>) -> Seq<char> {
    if name.len() == 0 {
        "{{DEFAULT}}"@
    } else {
        name
    }
}

/// The name shown for the state `name`.
pub fn display_name(name: &str) -> (r: String)
    ensures
        r@ == display_name_spec(name@),
{
    if name.unicode_len() == 0 {
        String::from_str("{{DEFAULT}}")
    } else {
        String::from_str(name)
    }
}

/// One table row of a sprite-sheet report: state, old image, new image and
/// what happened to the state.
pub open spec fn diff_line_spec(
    name: Seq<char>,
    old: Seq<char>,
    new: Seq<char>,
    change: Seq<char>,
) -> Seq<char> {
    "|"@ + name + "|![]("@ + old + ")|![]("@ + new + ")|"@ + change + "|"@
}

/// Builds one table row of a sprite-sheet report.
pub fn diff_line(name: &str, old: &str, new: &str, change: &str) -> (r: String)
    ensures
        r@ == diff_line_spec(name@, old@, new@, change@),
{
    let mut line = String::from_str("|");
    line.append(name);
    line.append("|![](");
    line.append(old);
    line.append(")|![](");
    line.append(new);
    line.append(")|");
    line.append(change);
    line.append("|");
    line
}

/// The rows for a sprite sheet that was added (`added` true) or removed:
/// one per rendered state, given as (state name, image link), in order.
pub open spec fn whole_file_line(state: (Seq<char>, Seq<char>), added: bool) -> Seq<char> {
    if added {
        diff_line_spec(display_name_spec(state.0), ""@, state.1, "Created"@)
    } else {
        diff_line_spec(display_name_spec(state.0), state.1, ""@, "Deleted"@)
    }
}

/// Builds the rows for a whole sprite sheet that was added or removed.
pub fn whole_file_lines(states: &Vec<(String, String)>, added: bool) -> (r: Vec<String>)
    ensures
        r@.len() == states@.len(),
        forall|i: int|
            0 <= i < states@.len() ==> #[trigger] r@[i]@ == whole_file_line(
                (states@[i].0@, states@[i].1@),
                added,
            ),
{
    let mut out: Vec<String> = Vec::new();
    let mut i: usize = 0;
    while i < states.len()
        invariant
            i <= states.len(),
            out@.len() == i,
            forall|j: int|
                0 <= j < i ==> #[trigger] out@[j]@ == whole_file_line(
                    (states@[j].0@, states@[j].1@),
                    added,
                ),
        decreases states.len() - i,
    {
        let name = display_name(states[i].0.as_str());
        let line = if added {
            diff_line(name.as_str(), "", states[i].1.as_str(), "Created")
        } else {
            diff_line(name.as_str(), states[i].1.as_str(), "", "Deleted")
        };
        out.push(line);
        i = i + 1;
    }
    out
}

/// A state whose two renderings differ: its name and both image links.
pub struct ModifiedState {
    pub name: String,
    pub before: String,
    pub after: String,
}

/// The rows of a modified sprite sheet: removed states, then added states,
/// then modified states, each in the given order.
pub open spec fn modified_sheet_rows(
    removed: Seq<(Seq<char>, Seq<char>)>,
    added: Seq<(Seq<char>, Seq<char>)>,
    modified: Seq<(Seq<char>, Seq<char>, Seq<char>)>,
) -> Seq<Seq<char>> {
    removed.map_values(|s: (Seq<char>, Seq<char>)| diff_line_spec(s.0, s.1, ""@, "Deleted"@))
        + added.map_values(|s: (Seq<char>, Seq<char>)| diff_line_spec(s.0, ""@, s.1, "Created"@))
        + modified.map_values(
        |s: (Seq<char>, Seq<char>, Seq<char>)| diff_line_spec(s.0, s.1, s.2, "Modified"@),
    )
}

/// A (name, link) pair as plain sequences.
pub open spec fn pair_view(p: (String, String)) -> (Seq<char>, Seq<char>) {
    (p.0@, p.1@)
}

/// A modified state as plain sequences.
pub open spec fn modified_view(m: ModifiedState) -> (Seq<char>, Seq<char>, Seq<char>) {
    (m.name@, m.before@, m.after@)
}

/// Builds the rows of a modified sprite sheet from the rendered states that
/// were removed, added and modified, each given with its image links.
pub fn modified_sheet_lines(
    removed: &Vec<(String, String)>,
    added: &Vec<(String, String)>,
    modified: &Vec<ModifiedState>,
) -> (r: Vec<String>)
    ensures
        views(r@) == modified_sheet_rows(
            removed@.map_values(|p: (String, String)| pair_view(p)),
            added@.map_values(|p: (String, String)| pair_view(p)),
            modified@.map_values(|m: ModifiedState| modified_view(m)),
        ),
{
    let ghost goal = modified_sheet_rows(
        removed@.map_values(|p: (String, String)| pair_view(p)),
        added@.map_values(|p: (String, String)| pair_view(p)),
        modified@.map_values(|m: ModifiedState| modified_view(m)),
    );
    let ghost n1 = removed@.len();
    let ghost n2 = removed@.len() + added@.len();
    let mut out: Vec<String> = Vec::new();
    let mut i: usize = 0;
    while i < removed.len()
        invariant
            i <= removed.len(),
            n1 == removed@.len(),
            n2 == n1 + added@.len(),
            goal.len() == n2 + modified@.len(),
            forall|j: int| 0 <= j < n1 ==> #[trigger] goal[j] == diff_line_spec(removed@[j].0@, removed@[j].1@, ""@, "Deleted"@),
            views(out@) == goal.take(i as int),
        decreases removed.len() - i,
    {
        let line = diff_line(removed[i].0.as_str(), removed[i].1.as_str(), "", "Deleted");
        let ghost before = out@;
        out.push(line);
        assert(views(out@) =~= views(before).push(goal[i as int]));
        assert(views(out@) =~= goal.take(i + 1));
        i = i + 1;
    }
    let mut k: usize = 0;
    while k < added.len()
        invariant
            k <= added.len(),
            n1 == removed@.len(),
            n2 == n1 + added@.len(),
            goal.len() == n2 + modified@.len(),
            forall|j: int| 0 <= j < added@.len() ==> #[trigger] goal[n1 + j] == diff_line_spec(added@[j].0@, ""@, added@[j].1@, "Created"@),
            views(out@) == goal.take(n1 + k),
        decreases added.len() - k,
    {
        let line = diff_line(added[k].0.as_str(), "", added[k].1.as_str(), "Created");
        let ghost before = out@;
        out.push(line);
        assert(views(out@) =~= views(before).push(goal[n1 + k]));
        assert(views(out@) =~= goal.take(n1 + k + 1));
        k = k + 1;
    }
    let mut m: usize = 0;
    while m < modified.len()
        invariant
            m <= modified.len(),
            n2 == removed@.len() + added@.len(),
            goal.len() == n2 + modified@.len(),
            forall|j: int| 0 <= j < modified@.len() ==> #[trigger] goal[n2 + j] == diff_line_spec(modified@[j].name@, modified@[j].before@, modified@[j].after@, "Modified"@),
            views(out@) == goal.take(n2 + m),
        decreases modified.len() - m,
    {
        let line = diff_line(
            modified[m].name.as_str(),
            modified[m].before.as_str(),
            modified[m].after.as_str(),
            "Modified",
        );
        let ghost before = out@;
        out.push(line);
        assert(views(out@) =~= views(before).push(goal[n2 + m]));
        assert(views(out@) =~= goal.take(n2 + m + 1));
        m = m + 1;
    }
    assert(goal.take(n2 + m) =~= goal);
    out
}

/// The directory, under the image root, of a job's rendered states.
pub open spec fn render_prefix_spec(installation: u64, pull_request: u64) -> Seq<char> {
    decimal_spec(installation as nat) + "/"@ + decimal_spec(pull_request as nat)
}

/// The directory, under the image root, of a job's rendered states.
pub fn render_prefix(installation: u64, pull_request: u64) -> (r: String)
    ensures
        r@ == render_prefix_spec(installation, pull_request),
{
    let mut s = decimal(installation);
    s.append("/");
    s.append(decimal(pull_request).as_str());
    s
}

/// The public link of a rendered state: file host, job directory, the
/// state's content-derived file name and the extension it was written with.
pub fn state_url(host: &str, prefix: &str, file_stem: &str, extension: &str) -> (r: String)
    ensures
        r@ == host@ + "/"@ + prefix@ + "/"@ + file_stem@ + "."@ + extension@,
{
    let mut s = String::from_str(host);
    s.append("/");
    s.append(prefix);
    s.append("/");
    s.append(file_stem);
    s.append(".");
    s.append(extension);
    s
}

} // verus!
