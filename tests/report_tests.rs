use diffbot::report::{
    assemble_outputs, details, icon_report, pack_pieces, CheckOutputs, FileSection,
    DETAIL_CEILING, REPORT_CEILING,
};

fn strings(v: &[&str]) -> Vec<String> {
    v.iter().map(|s| s.to_string()).collect()
}

#[test]
fn pack_closes_chunk_before_overflow() {
    let out = pack_pieces(&strings(&["ab", "cd", "ef"]), 4);
    assert_eq!(out, strings(&["abcd", "ef"]));
}

#[test]
fn pack_empty_input_gives_no_chunk() {
    assert!(pack_pieces(&Vec::new(), 10).is_empty());
    assert!(pack_pieces(&strings(&["", ""]), 10).is_empty());
}

#[test]
fn pack_oversized_piece_stands_alone() {
    let out = pack_pieces(&strings(&["a", "bcdef", "g"]), 3);
    assert_eq!(out, strings(&["a", "bcdef", "g"]));
}

#[test]
fn pack_keeps_all_text_in_order() {
    let pieces = strings(&["one ", "two ", "three ", "four ", "five"]);
    let out = pack_pieces(&pieces, 9);
    assert_eq!(out.concat(), pieces.concat());
    for chunk in &out {
        assert!(!chunk.is_empty());
        assert!(chunk.chars().count() <= 9);
    }
}

#[test]
fn pack_ceiling_is_inclusive() {
    let out = pack_pieces(&strings(&["aa", "bb"]), 4);
    assert_eq!(out, strings(&["aabb"]));
}

#[test]
fn report_of_130000_units_has_three_chunks() {
    let block = "x".repeat(10_000);
    let blocks: Vec<String> = (0..13).map(|_| block.clone()).collect();
    let out = assemble_outputs(&blocks, "T", "S").expect("a report");
    match out {
        CheckOutputs::Many(first, rest) => {
            assert_eq!(rest.len(), 2);
            assert_eq!(first.text.len(), 60_000);
            assert_eq!(rest[0].text.len(), 60_000);
            assert_eq!(rest[1].text.len(), 10_000);
            for c in std::iter::once(&first).chain(rest.iter()) {
                assert!(c.text.len() <= REPORT_CEILING);
                assert_eq!(c.title, "T");
                assert_eq!(c.summary, "S");
            }
        }
        CheckOutputs::One(_) => panic!("expected three chunks"),
    }
}

#[test]
fn empty_report_has_no_output() {
    assert!(assemble_outputs(&Vec::new(), "T", "S").is_none());
}

#[test]
fn small_report_has_one_output() {
    match assemble_outputs(&strings(&["abc"]), "T", "S") {
        Some(CheckOutputs::One(c)) => assert_eq!(c.text, "abc"),
        _ => panic!("expected one chunk"),
    }
}

#[test]
fn details_block_text() {
    let d = details("icons/a.dmi (0)", "MODIFIED", "row\n");
    assert_eq!(
        d,
        "<details><summary>icons/a.dmi (0) [MODIFIED]</summary>\n\n| Icon State | Old | New | Status |\n| --- | --- | --- | --- |\nrow\n\n</details>\n\n"
    );
}

#[test]
fn icon_report_numbers_blocks_of_a_long_file() {
    let line = "y".repeat(20_000);
    let section = FileSection {
        file_name: "icons/big.dmi".to_string(),
        change: "ADDED".to_string(),
        lines: vec![line.clone(), line.clone(), line.clone()],
    };
    let out = icon_report(&vec![section]).expect("a report");
    let texts: Vec<String> = match out {
        CheckOutputs::One(c) => vec![c.text],
        CheckOutputs::Many(c, rest) => std::iter::once(c.text).chain(rest.into_iter().map(|c| c.text)).collect(),
    };
    let all = texts.concat();
    assert!(all.contains("icons/big.dmi (0) [ADDED]"));
    assert!(all.contains("icons/big.dmi (1) [ADDED]"));
    assert!(!all.contains("icons/big.dmi (2)"));
    for t in &texts {
        assert!(t.chars().count() <= REPORT_CEILING);
    }
    assert!(DETAIL_CEILING < REPORT_CEILING);
}

#[test]
fn icon_report_of_nothing_is_none() {
    assert!(icon_report(&Vec::new()).is_none());
}
