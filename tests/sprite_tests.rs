use diffbot::sprite::{render_prefix, state_url};
use diffbot::names::{contains_name, select_names};
use diffbot::sprite::{
    diff_line, display_name, modified_sheet_lines, modified_states, needs_frame_comparison,
    split_states, whole_file_lines, ModifiedState,
};

fn strings(v: &[&str]) -> Vec<String> {
    v.iter().map(|s| s.to_string()).collect()
}

#[test]
fn split_states_three_ways() {
    let base = strings(&["a", "b", "c"]);
    let head = strings(&["d", "c", "b"]);
    let split = split_states(&base, &head);
    assert_eq!(split.removed, strings(&["a"]));
    assert_eq!(split.added, strings(&["d"]));
    assert_eq!(split.common, strings(&["b", "c"]));
}

#[test]
fn split_states_identical_sets() {
    let names = strings(&["x", ""]);
    let split = split_states(&names, &names);
    assert!(split.removed.is_empty());
    assert!(split.added.is_empty());
    assert_eq!(split.common, names);
}

#[test]
fn select_and_contains() {
    let a = strings(&["p", "q"]);
    assert!(contains_name(&a, &"q".to_string()));
    assert!(!contains_name(&a, &"r".to_string()));
    assert_eq!(select_names(&a, &strings(&["q"]), true), strings(&["q"]));
}

#[test]
fn identical_state_not_reported() {
    let common = strings(&["same", "meta", "pixels"]);
    let out = modified_states(
        &common,
        &vec![true, false, true],
        &vec![Some(true), None, Some(false)],
    );
    assert_eq!(out, strings(&["meta", "pixels"]));
}

#[test]
fn metadata_difference_needs_no_render() {
    assert!(!needs_frame_comparison(false));
    assert!(needs_frame_comparison(true));
    let out = modified_states(&strings(&["s"]), &vec![false], &vec![None]);
    assert_eq!(out, strings(&["s"]));
}

#[test]
fn default_state_gets_placeholder() {
    assert_eq!(display_name(""), "{{DEFAULT}}");
    assert_eq!(display_name("idle"), "idle");
}

#[test]
fn diff_line_text() {
    assert_eq!(diff_line("s", "o", "n", "Modified"), "|s|![](o)|![](n)|Modified|");
}

#[test]
fn added_sheet_with_five_states() {
    let states: Vec<(String, String)> = ["", "walk", "run", "idle", "dead"]
        .iter()
        .enumerate()
        .map(|(i, s)| (s.to_string(), format!("http://host/{i}.png")))
        .collect();
    let lines = whole_file_lines(&states, true);
    assert_eq!(lines.len(), 5);
    assert_eq!(lines[0], "|{{DEFAULT}}|![]()|![](http://host/0.png)|Created|");
    assert_eq!(lines[1], "|walk|![]()|![](http://host/1.png)|Created|");
    assert_eq!(lines.iter().filter(|l| l.contains("{{DEFAULT}}")).count(), 1);
}

#[test]
fn removed_sheet_lines() {
    let states = vec![("gone".to_string(), "u".to_string())];
    let lines = whole_file_lines(&states, false);
    assert_eq!(lines, strings(&["|gone|![](u)|![]()|Deleted|"]));
}

#[test]
fn modified_sheet_rows_in_order() {
    let removed = vec![("old".to_string(), "u1".to_string())];
    let added = vec![("new".to_string(), "u2".to_string())];
    let modified = vec![ModifiedState {
        name: "mid".to_string(),
        before: "b".to_string(),
        after: "a".to_string(),
    }];
    let lines = modified_sheet_lines(&removed, &added, &modified);
    assert_eq!(
        lines,
        vec![
            "|old|![](u1)|![]()|Deleted|".to_string(),
            "|new|![]()|![](u2)|Created|".to_string(),
            "|mid|![](b)|![](a)|Modified|".to_string(),
        ]
    );
}

#[test]
fn render_prefix_and_state_url() {
    assert_eq!(render_prefix(12, 345), "12/345");
    assert_eq!(state_url("https://h", "12/345", "998877", "png"), "https://h/12/345/998877.png");
}
