use emojisplit::index::EmojiIndex;
use emojisplit::options::{Cli, EmojiOpts, OutputMode, SplitFileMode};
use emojisplit::scanner::{scan_clusters, split_every, split_text, wildcard};
use std::path::PathBuf;

const STAR: &str = "\u{2734}\u{fe0f}";
const BLUE: &str = "\u{1f535}";
const GREEN: &str = "\u{1f7e2}";
const RED: &str = "\u{1f534}";

fn star_blue_index() -> EmojiIndex {
    EmojiIndex::new(&format!("{}\n{}\n", STAR, BLUE))
}

fn example_source() -> String {
    format!("A{}BC{}DE", STAR, BLUE)
}

#[test]
fn wildcard_is_eight_pointed_star() {
    assert_eq!(wildcard(), STAR);
}

#[test]
fn example_target_blue_keeps_wildcard_section() {
    let index = star_blue_index();
    assert_eq!(split_text(&example_source(), BLUE, &index), "ABCDE");
}

#[test]
fn example_target_not_in_index() {
    let index = star_blue_index();
    let src = format!("{}BC{}DE", RED, BLUE);
    let idx = EmojiIndex::new(&format!("{}\n{}\n", RED, BLUE));
    assert_eq!(split_text(&src, GREEN, &idx), "");
    assert_eq!(split_text(&format!("{}X", BLUE), GREEN, &index), "");
}

#[test]
fn every_marker_mode_writes_one_per_marker() {
    let index = star_blue_index();
    let r = split_every(&example_source(), &index);
    assert_eq!(r.len(), 2);
    assert_eq!(r[0], (STAR.to_string(), "ABC".to_string()));
    assert_eq!(r[1], (BLUE.to_string(), "ABCDE".to_string()));
}

#[test]
fn every_marker_mode_skips_empty_sections() {
    let index = EmojiIndex::new(&format!("{}\n{}\n", RED, BLUE));
    let src = format!("{}one{}two", RED, BLUE);
    let r = split_every(&src, &index);
    assert_eq!(r, vec![(RED.to_string(), "one".to_string()), (BLUE.to_string(), "two".to_string())]);
    let r2 = split_every(&format!("{}{}", RED, BLUE), &index);
    assert!(r2.is_empty());
}

#[test]
fn round_trip_is_lossy() {
    let index = EmojiIndex::new(&format!("{}\n{}\n", RED, BLUE));
    let src = format!("head{}one{}two", RED, BLUE);
    let mut all = String::new();
    for (_, s) in split_every(&src, &index) {
        all.push_str(&s);
    }
    assert_eq!(all, "headoneheadtwo");
    assert_ne!(all, src);
}

#[test]
fn no_markers_copies_source() {
    let index = star_blue_index();
    let src = "plain text\nwith e\u{301} and \r\n lines";
    assert_eq!(split_text(src, BLUE, &index), src);
    assert_eq!(split_text(src, GREEN, &index), src);
    let empty = EmojiIndex::new("");
    let src2 = format!("a{}b", BLUE);
    assert_eq!(split_text(&src2, BLUE, &empty), src2);
}

#[test]
fn empty_source_gives_empty_output() {
    let index = star_blue_index();
    assert_eq!(split_text("", BLUE, &index), "");
}

#[test]
fn content_after_unselected_run_is_dropped() {
    let index = EmojiIndex::new(&format!("{}\n{}\n", RED, BLUE));
    let src = format!("{}red{}blue{}red again", RED, BLUE, RED);
    assert_eq!(split_text(&src, BLUE, &index), "blue");
    assert_eq!(split_text(&src, RED, &index), "redred again");
}

#[test]
fn wildcard_run_selected_for_any_target() {
    let index = EmojiIndex::new(&format!("{}\n{}\n{}\n", STAR, RED, BLUE));
    let src = format!("{}x{}shared{}y", RED, STAR, BLUE);
    assert_eq!(split_text(&src, RED, &index), "xshared");
    assert_eq!(split_text(&src, BLUE, &index), "sharedy");
    assert_eq!(split_text(&src, GREEN, &index), "shared");
}

#[test]
fn run_is_judged_as_a_whole() {
    let index = EmojiIndex::new(&format!("{}\n{}\n{}\n", GREEN, RED, BLUE));
    let first = format!("{}{}{}body", BLUE, RED, GREEN);
    let middle = format!("{}{}{}body", RED, BLUE, GREEN);
    let last = format!("{}{}{}body", RED, GREEN, BLUE);
    assert_eq!(split_text(&first, BLUE, &index), "body");
    assert_eq!(split_text(&middle, BLUE, &index), "body");
    assert_eq!(split_text(&last, BLUE, &index), "body");
    let none = format!("{}{}body", RED, GREEN);
    assert_eq!(split_text(&none, BLUE, &index), "");
}

#[test]
fn unknown_target_gives_empty_output() {
    let index = EmojiIndex::new(&format!("{}\n{}\n", RED, BLUE));
    let src = format!("{}a{}b{}{}c", RED, BLUE, BLUE, RED);
    assert_eq!(split_text(&src, GREEN, &index), "");
}

#[test]
fn wildcard_target_selects_wildcard_runs_only() {
    let index = EmojiIndex::new(&format!("{}\n{}\n", STAR, RED));
    let src = format!("{}a{}b", RED, STAR);
    assert_eq!(split_text(&src, STAR, &index), "b");
}

#[test]
fn first_cluster_after_unselected_run_is_dropped() {
    let index = EmojiIndex::new(&format!("{}\n", RED));
    let src = format!("ab{}cd", RED);
    assert_eq!(split_text(&src, BLUE, &index), "ab");
}

#[test]
fn scan_clusters_on_given_clusters() {
    let index = star_blue_index();
    let cs: Vec<String> = vec!["x".to_string(), BLUE.to_string(), "y".to_string(), "e\u{301}".to_string()];
    assert_eq!(scan_clusters(&cs, &BLUE.to_string(), &index), "xye\u{301}");
    assert_eq!(scan_clusters(&cs, &GREEN.to_string(), &index), "x");
}

#[test]
fn index_takes_first_cluster_of_each_line() {
    let index = EmojiIndex::new(&format!("{} blue section\n\n{}\n{}again\ne\u{301}x\n", BLUE, RED, BLUE));
    let ms: Vec<String> = index.markers().clone();
    assert_eq!(ms, vec![BLUE.to_string(), RED.to_string(), "e\u{301}".to_string()]);
    assert!(index.contains(&"e\u{301}".to_string()));
    assert!(!index.contains(&"e".to_string()));
    assert!(!index.contains(&GREEN.to_string()));
}

#[test]
fn index_keeps_crlf_remainder_out() {
    let index = EmojiIndex::new(&format!("{}\r\n{}\r\n", RED, BLUE));
    assert_eq!(index.markers().clone(), vec![RED.to_string(), BLUE.to_string()]);
}

#[test]
fn empty_index_has_no_markers() {
    assert!(EmojiIndex::new("").markers().is_empty());
    assert!(EmojiIndex::new("\n\n").markers().is_empty());
}

#[test]
fn marker_split_in_graphemes() {
    let index = EmojiIndex::new("e\u{301}\n");
    let src = "ae\u{301}be";
    assert_eq!(split_text(src, "x", &index), "a");
}

#[test]
fn options_select_one_marker() {
    let cli = Cli { emoji: BLUE.to_string(), split: false, infile: PathBuf::from("t.conf") };
    let opts = EmojiOpts::new(&cli);
    match opts.mode {
        OutputMode::SelectedEmoji(e) => assert_eq!(e, BLUE),
        OutputMode::EveryEmoji => panic!("expected a selected marker"),
    }
    assert_eq!(opts.infile, PathBuf::from("t.conf"));
}

#[test]
fn options_split_every_marker() {
    let cli = Cli { emoji: BLUE.to_string(), split: true, infile: PathBuf::from("t.conf") };
    let opts = EmojiOpts::new(&cli);
    assert!(matches!(opts.mode, OutputMode::EveryEmoji));
    assert_eq!(opts.infile, PathBuf::from("t.conf"));
}

#[test]
fn output_extensions() {
    assert_eq!(SplitFileMode::RemoveExtension.extension(BLUE), "");
    assert_eq!(SplitFileMode::EmojiExtension.extension(BLUE), BLUE);
}
