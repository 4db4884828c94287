//! Greedy packing of text pieces into size-bounded chunks.
use vstd::prelude::*;
use crate::text::{decimal, decimal_spec};

verus! {

/// The character sequences held by a sequence of strings.
pub open spec fn views(v: Seq<String>) -> Seq<Seq<char>> {
    v.map_values(|s: String| s@)
}

/// One packing step: the open chunk is closed when it is non-empty and the
/// next piece would push it past the ceiling; otherwise the piece is appended.
pub open spec fn pack_step(
    state: (Seq<Seq<char>>, Seq<char>),
    piece: Seq<char>,
    ceiling: nat,
) -> (Seq<Seq<char>>, Seq<char>) {
    if state.1.len() > 0 && state.1.len() + piece.len() > ceiling {
        (state.0.push(state.1), piece)
    } else {
        (state.0, state.1 + piece)
    }
}

/// The closed chunks and the open chunk after packing `pieces` in order.
pub open spec fn pack_prefix(pieces: Seq<Seq<char>>, ceiling: nat) -> (Seq<Seq<char>>, Seq<char>)
    decreases pieces.len(),
{
    if pieces.len() == 0 {
        (Seq::empty(), Seq::empty())
    } else {
        pack_step(pack_prefix(pieces.drop_last(), ceiling), pieces.last(), ceiling)
    }
}

/// All chunks of a packing, the open one flushed when it is non-empty.
pub open spec fn packed(pieces: Seq<Seq<char>>, ceiling: nat) -> Seq<Seq<char>> {
    let state = pack_prefix(pieces, ceiling);
    if state.1.len() > 0 {
        state.0.push(state.1)
    } else {
        state.0
    }
}

proof fn lemma_pack_prefix_facts(pieces: Seq<Seq<char>>, ceiling: nat)
    ensures
        pack_prefix(pieces, ceiling).0.flatten_alt() + pack_prefix(pieces, ceiling).1
            == pieces.flatten_alt(),
        forall|j: int|
            0 <= j < pack_prefix(pieces, ceiling).0.len() ==> (
            #[trigger] pack_prefix(pieces, ceiling).0[j]).len() > 0,
        (forall|k: int| 0 <= k < pieces.len() ==> (#[trigger] pieces[k]).len() <= ceiling) ==> {
            &&& pack_prefix(pieces, ceiling).1.len() <= ceiling
            &&& forall|j: int|
                0 <= j < pack_prefix(pieces, ceiling).0.len() ==> (
                #[trigger] pack_prefix(pieces, ceiling).0[j]).len() <= ceiling
        },
    decreases pieces.len(),
{
    if pieces.len() > 0 {
        let prev = pieces.drop_last();
        lemma_pack_prefix_facts(prev, ceiling);
        let st = pack_prefix(prev, ceiling);
        let p = pieces.last();
        if st.1.len() > 0 && st.1.len() + p.len() > ceiling {
            assert(st.0.push(st.1).drop_last() =~= st.0);
            assert(st.0.push(st.1).flatten_alt() == st.0.flatten_alt() + st.1);
        } else {
            assert(st.0.flatten_alt() + (st.1 + p) =~= (st.0.flatten_alt() + st.1) + p);
        }
        if forall|k: int| 0 <= k < pieces.len() ==> (#[trigger] pieces[k]).len() <= ceiling {
            assert forall|k: int| 0 <= k < prev.len() implies (#[trigger] prev[k]).len()
                <= ceiling by {
                assert(prev[k] == pieces[k]);
            }
            assert(p == pieces[pieces.len() - 1]);
        }
    }
}

/// Packing keeps everything: the chunks, concatenated in order, are the
/// pieces concatenated in order.
pub proof fn lemma_packed_concat(pieces: Seq<Seq<char>>, ceiling: nat)
    ensures
        packed(pieces, ceiling).flatten() == pieces.flatten(),
{
    lemma_pack_prefix_facts(pieces, ceiling);
    let st = pack_prefix(pieces, ceiling);
    if st.1.len() > 0 {
        assert(st.0.push(st.1).drop_last() =~= st.0);
    } else {
        assert(st.0.flatten_alt() + st.1 =~= st.0.flatten_alt());
    }
    packed(pieces, ceiling).lemma_flatten_and_flatten_alt_are_equivalent();
    pieces.lemma_flatten_and_flatten_alt_are_equivalent();
}

/// No chunk is empty, and no chunk exceeds the ceiling when no piece does.
pub proof fn lemma_packed_bounds(pieces: Seq<Seq<char>>, ceiling: nat)
    ensures
        forall|j: int|
            0 <= j < packed(pieces, ceiling).len() ==> (#[trigger] packed(pieces, ceiling)[j]).len()
                > 0,
        (forall|k: int| 0 <= k < pieces.len() ==> (#[trigger] pieces[k]).len() <= ceiling)
            ==> forall|j: int|
            0 <= j < packed(pieces, ceiling).len() ==> (#[trigger] packed(pieces, ceiling)[j]).len()
                <= ceiling,
{
    lemma_pack_prefix_facts(pieces, ceiling);
    let st = pack_prefix(pieces, ceiling);
    assert forall|j: int| 0 <= j < packed(pieces, ceiling).len() implies
        (#[trigger] packed(pieces, ceiling)[j]).len() > 0 by {
        if j < st.0.len() {
            assert(packed(pieces, ceiling)[j] == st.0[j]);
        }
    }
    if forall|k: int| 0 <= k < pieces.len() ==> (#[trigger] pieces[k]).len() <= ceiling {
        assert forall|j: int| 0 <= j < packed(pieces, ceiling).len() implies
            (#[trigger] packed(pieces, ceiling)[j]).len() <= ceiling by {
            if j < st.0.len() {
                assert(packed(pieces, ceiling)[j] == st.0[j]);
            }
        }
    }
}

/// Nothing is dropped at the end: when the pieces hold any character there is
/// at least one chunk, and the last chunk is non-empty; when they hold none
/// there is no chunk.
pub proof fn lemma_packed_last_flushed(pieces: Seq<Seq<char>>, ceiling: nat)
    ensures
        pieces.flatten().len() > 0 ==> packed(pieces, ceiling).len() > 0 && packed(
            pieces,
            ceiling,
        ).last().len() > 0,
        pieces.flatten().len() == 0 ==> packed(pieces, ceiling).len() == 0,
{
    lemma_packed_concat(pieces, ceiling);
    lemma_packed_bounds(pieces, ceiling);
    let out = packed(pieces, ceiling);
    if out.len() > 0 {
        out.lemma_flatten_length_ge_single_element_length(0);
        assert(out[out.len() - 1].len() > 0);
    }
}

/// Packs `pieces`, in order, into chunks: a chunk is closed before the piece
/// that would take it past `ceiling` characters, and the last chunk is
/// flushed when it is non-empty.
pub fn pack_pieces(pieces: &Vec<String>, ceiling: usize) -> (r: Vec<String>)
    ensures
        views(r@) == packed(views(pieces@), ceiling as nat),
{
    let mut done: Vec<String> = Vec::new();
    let mut cur: String = String::new();
    let mut cur_len: usize = 0;
    let mut i: usize = 0;
    while i < pieces.len()
        invariant
            i <= pieces.len(),
            cur_len == cur@.len(),
            (views(done@), cur@) == pack_prefix(views(pieces@).take(i as int), ceiling as nat),
        decreases pieces.len() - i,
    {
        let piece = &pieces[i];
        let piece_len = piece.as_str().unicode_len();
        proof {
            assert(views(pieces@).take(i + 1).drop_last() =~= views(pieces@).take(i as int));
            assert(views(pieces@).take(i + 1).last() == piece@);
        }
        let ghost done_before = done@;
        let ghost cur_before = cur@;
        if cur_len > 0 && (cur_len > ceiling || piece_len > ceiling - cur_len) {
            done.push(cur);
            cur = piece.clone();
            cur_len = piece_len;
            proof {
                assert(views(done@) =~= views(done_before).push(cur_before));
            }
        } else {
            cur.append(piece.as_str());
            cur_len = cur_len + piece_len;
        }
        i = i + 1;
    }
    proof {
        assert(views(pieces@).take(pieces@.len() as int) =~= views(pieces@));
    }
    if cur_len > 0 {
        done.push(cur);
    }
    done
}

/// Ceiling, in characters, of the table inside one detail block.
pub const DETAIL_CEILING: usize = 55_000;

/// Ceiling, in characters, of the body of one report chunk.
pub const REPORT_CEILING: usize = 60_000;

/// The rows reported for one changed file, with its change label.
pub struct FileSection {
    pub file_name: String,
    pub change: String,
    pub lines: Vec<String>,
}

/// A file section as plain sequences: name, change label and rows.
pub open spec fn section_view(s: FileSection) -> (Seq<char>, Seq<char>, Seq<Seq<char>>) {
    (s.file_name@, s.change@, views(s.lines@))
}

/// Each row followed by a line break.
pub open spec fn line_pieces(lines: Seq<Seq<char>>) -> Seq<Seq<char>> {
    lines.map_values(|l: Seq<char>| l + "\n"@)
}

/// The title of the `k`-th detail block of a file.
pub open spec fn block_title(file_name: Seq<char>, k: nat) -> Seq<char> {
    file_name + " ("@ + decimal_spec(k) + ")"@
}

/// A detail block: a collapsible section holding one table of rows.
pub open spec fn details_spec(title: Seq<char>, change: Seq<char>, table: Seq<char>) -> Seq<char> {
    "<details><summary>"@ + title + " ["@ + change
        + "]</summary>\n\n| Icon State | Old | New | Status |\n| --- | --- | --- | --- |\n"@ + table
        + "\n</details>\n\n"@
}

/// The detail blocks of one file: its rows packed under the detail ceiling,
/// each table titled with the file name and a counter.
pub open spec fn section_blocks(section: (Seq<char>, Seq<char>, Seq<Seq<char>>)) -> Seq<Seq<char>> {
    packed(line_pieces(section.2), DETAIL_CEILING as nat).map(
        |k: int, table: Seq<char>| details_spec(block_title(section.0, k as nat), section.1, table),
    )
}

/// The detail blocks of all files, file after file.
pub open spec fn all_blocks(sections: Seq<(Seq<char>, Seq<char>, Seq<Seq<char>>)>) -> Seq<Seq<char>>
    decreases sections.len(),
{
    if sections.len() == 0 {
        Seq::empty()
    } else {
        all_blocks(sections.drop_last()) + section_blocks(sections.last())
    }
}

/// Builds a detail block.
pub fn details(title: &str, change: &str, table: &str) -> (r: String)
    ensures
        r@ == details_spec(title@, change@, table@),
{
    let mut s = String::from_str("<details><summary>");
    s.append(title);
    s.append(" [");
    s.append(change);
    s.append("]</summary>\n\n| Icon State | Old | New | Status |\n| --- | --- | --- | --- |\n");
    s.append(table);
    s.append("\n</details>\n\n");
    s
}

/// Builds the detail blocks of one file.
pub fn file_blocks(section: &FileSection) -> (r: Vec<String>)
    ensures
        views(r@) == section_blocks(section_view(*section)),
{
    let mut pieces: Vec<String> = Vec::new();
    let mut i: usize = 0;
    while i < section.lines.len()
        invariant
            i <= section.lines.len(),
            views(pieces@) == line_pieces(views(section.lines@)).take(i as int),
        decreases section.lines.len() - i,
    {
        let mut line = section.lines[i].clone();
        line.append("\n");
        let ghost before = pieces@;
        pieces.push(line);
        assert(views(pieces@) =~= views(before).push(section.lines@[i as int]@ + "\n"@));
        assert(views(pieces@) =~= line_pieces(views(section.lines@)).take(i + 1));
        i = i + 1;
    }
    assert(line_pieces(views(section.lines@)).take(i as int) =~= line_pieces(views(section.lines@)));
    let tables = pack_pieces(&pieces, DETAIL_CEILING);
    let ghost goal = section_blocks(section_view(*section));
    let mut out: Vec<String> = Vec::new();
    let mut k: usize = 0;
    while k < tables.len()
        invariant
            k <= tables.len(),
            goal.len() == tables@.len(),
            goal == section_blocks(section_view(*section)),
            views(tables@) == packed(line_pieces(views(section.lines@)), DETAIL_CEILING as nat),
            views(out@) == goal.take(k as int),
        decreases tables.len() - k,
    {
        let mut title = section.file_name.clone();
        title.append(" (");
        let counter = decimal(k as u64);
        title.append(counter.as_str());
        title.append(")");
        let block = details(title.as_str(), section.change.as_str(), tables[k].as_str());
        assert(block@ == goal[k as int]);
        let ghost before = out@;
        out.push(block);
        assert(views(out@) =~= views(before).push(goal[k as int]));
        assert(views(out@) =~= goal.take(k + 1));
        k = k + 1;
    }
    assert(goal.take(k as int) =~= goal);
    out
}

/// Builds the detail blocks of all files, file after file.
pub fn all_file_blocks(sections: &Vec<FileSection>) -> (r: Vec<String>)
    ensures
        views(r@) == all_blocks(sections@.map_values(|s: FileSection| section_view(s))),
{
    let ghost sv = sections@.map_values(|s: FileSection| section_view(s));
    let mut out: Vec<String> = Vec::new();
    let mut i: usize = 0;
    while i < sections.len()
        invariant
            i <= sections.len(),
            sv == sections@.map_values(|s: FileSection| section_view(s)),
            views(out@) == all_blocks(sv.take(i as int)),
        decreases sections.len() - i,
    {
        let blocks = file_blocks(&sections[i]);
        let ghost before = out@;
        let mut k: usize = 0;
        while k < blocks.len()
            invariant
                k <= blocks.len(),
                views(out@) == views(before) + views(blocks@).take(k as int),
            decreases blocks.len() - k,
        {
            let ghost mid = out@;
            out.push(blocks[k].clone());
            assert(views(out@) =~= views(mid).push(blocks@[k as int]@));
            assert(views(out@) =~= views(before) + views(blocks@).take(k + 1));
            k = k + 1;
        }
        assert(views(blocks@).take(k as int) =~= views(blocks@));
        assert(sv.take(i + 1).drop_last() =~= sv.take(i as int));
        assert(sv.take(i + 1).last() == section_view(sections@[i as int]));
        i = i + 1;
    }
    assert(sv.take(i as int) =~= sv);
    out
}

/// One report payload: title, summary and body.
pub struct ReportChunk {
    pub title: String,
    pub summary: String,
    pub text: String,
}

/// The payloads of one report: the primary one and, when the body did not
/// fit, continuations.
pub enum CheckOutputs {
    One(ReportChunk),
    Many(ReportChunk, Vec<ReportChunk>),
}

/// All payloads of a report, primary first.
pub open spec fn output_chunks(o: CheckOutputs) -> Seq<ReportChunk> {
    match o {
        CheckOutputs::One(first) => seq![first],
        CheckOutputs::Many(first, rest) => seq![first] + rest@,
    }
}

/// The bodies of all payloads of a report, primary first.
pub open spec fn output_texts(o: CheckOutputs) -> Seq<Seq<char>> {
    output_chunks(o).map_values(|c: ReportChunk| c.text@)
}

/// Packs `blocks` into report payloads under the report ceiling, each with
/// the given title and summary; `None` when the blocks hold no text.
pub fn assemble_outputs(blocks: &Vec<String>, title: &str, summary: &str) -> (r: Option<CheckOutputs>)
    ensures
        r is None <==> packed(views(blocks@), REPORT_CEILING as nat).len() == 0,
        r matches Some(o) ==> {
            &&& output_texts(o) == packed(views(blocks@), REPORT_CEILING as nat)
            &&& forall|j: int|
                0 <= j < output_chunks(o).len() ==> (#[trigger] output_chunks(o)[j]).title@ == title@
                    && output_chunks(o)[j].summary@ == summary@
            &&& o matches CheckOutputs::Many(_, rest) ==> rest@.len() > 0
        },
{
    let texts = pack_pieces(blocks, REPORT_CEILING);
    if texts.len() == 0 {
        return None;
    }
    let ghost goal = views(texts@);
    let first = ReportChunk {
        title: String::from_str(title),
        summary: String::from_str(summary),
        text: texts[0].clone(),
    };
    let mut rest: Vec<ReportChunk> = Vec::new();
    let mut i: usize = 1;
    while i < texts.len()
        invariant
            1 <= i <= texts.len(),
            goal == views(texts@),
            rest@.len() == i - 1,
            forall|j: int|
                0 <= j < rest@.len() ==> (#[trigger] rest@[j]).text@ == goal[j + 1]
                    && rest@[j].title@ == title@ && rest@[j].summary@ == summary@,
        decreases texts.len() - i,
    {
        rest.push(
            ReportChunk {
                title: String::from_str(title),
                summary: String::from_str(summary),
                text: texts[i].clone(),
            },
        );
        i = i + 1;
    }
    let out = if rest.len() == 0 {
        CheckOutputs::One(first)
    } else {
        CheckOutputs::Many(first, rest)
    };
    assert(output_texts(out) =~= goal);
    Some(out)
}

/// The report of a sprite-sheet job: the rows of each changed file packed
/// into titled detail blocks, and those packed into payloads.
pub fn icon_report(sections: &Vec<FileSection>) -> (r: Option<CheckOutputs>)
    ensures
        r is None <==> packed(
            all_blocks(sections@.map_values(|s: FileSection| section_view(s))),
            REPORT_CEILING as nat,
        ).len() == 0,
        r matches Some(o) ==> output_texts(o) == packed(
            all_blocks(sections@.map_values(|s: FileSection| section_view(s))),
            REPORT_CEILING as nat,
        ),
{
    let blocks = all_file_blocks(sections);
    assemble_outputs(
        &blocks,
        "Icon difference rendering",
        "*This is still a beta. Please file any issues [here](https://github.com/spacestation13/BYONDDiffBots/).*\n\nIcons with diff:",
    )
}

} // verus!
