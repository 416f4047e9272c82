use dirscribe::{
    apply_summary, apply_summary_text, filter_dirscribe_sections, get_summaries_from_files,
};

#[test]
fn strips_block_at_top_of_file() {
    let content = "'''\n[DIRSCRIBE]\nold summary\n[/DIRSCRIBE]\n'''\nfn main() {}\ndone";
    assert_eq!(filter_dirscribe_sections(content, true), "fn main() {}\ndone");
}

#[test]
fn extracts_block_at_top_of_file() {
    let content = "'''\n[DIRSCRIBE]\nold summary\n[/DIRSCRIBE]\n'''\nfn main() {}";
    assert_eq!(
        filter_dirscribe_sections(content, false),
        "'''\n[DIRSCRIBE]\nold summary\n[/DIRSCRIBE]\n'''"
    );
}

#[test]
fn block_below_the_top_is_kept() {
    // The opening sentinel is only honoured on the first two lines.
    let content = "a\nb\nc\n[DIRSCRIBE]\nx\n[/DIRSCRIBE]\nd";
    assert_eq!(filter_dirscribe_sections(content, true), content);
    assert_eq!(filter_dirscribe_sections(content, false), "");
}

#[test]
fn empty_content_stays_empty() {
    assert_eq!(filter_dirscribe_sections("", true), "");
    assert_eq!(filter_dirscribe_sections("", false), "");
}

#[test]
fn apply_writes_block_with_timestamp_before_closing_sentinel() {
    let summary = "'''\n[DIRSCRIBE]\nnew summary\n[/DIRSCRIBE]\n'''";
    let content = "fn main() {}\n";
    let out = apply_summary_text("src.py", summary, content, "TS").expect("valid summary");
    assert_eq!(
        out,
        "'''\n[DIRSCRIBE]\nnew summary\nTS\n[/DIRSCRIBE]\n'''\nfn main() {}"
    );
}

#[test]
fn apply_replaces_prior_block() {
    let summary = "'''\n[DIRSCRIBE]\nnew\n[/DIRSCRIBE]\n'''";
    let content = "'''\n[DIRSCRIBE]\nold\nOLDTS\n[/DIRSCRIBE]\n'''\nbody line";
    let out = apply_summary_text("src.py", summary, content, "TS").expect("valid summary");
    assert_eq!(out, "'''\n[DIRSCRIBE]\nnew\nTS\n[/DIRSCRIBE]\n'''\nbody line");
}

#[test]
fn apply_twice_differs_only_in_timestamp_line() {
    // Idempotence: re-applying the same summary only renews the timestamp.
    let summary = "'''\n[DIRSCRIBE]\nstable summary\n[/DIRSCRIBE]\n'''";
    let content = "line one\nline two";
    let once = apply_summary_text("src.py", summary, content, "TS-1").unwrap();
    let twice = apply_summary_text("src.py", summary, &once, "TS-2").unwrap();
    let direct = apply_summary_text("src.py", summary, content, "TS-2").unwrap();
    assert_eq!(twice, direct);
    let from_once: Vec<&str> = once.lines().collect();
    let from_twice: Vec<&str> = twice.lines().collect();
    assert_eq!(from_once.len(), from_twice.len());
    for (i, (a, b)) in from_once.iter().zip(from_twice.iter()).enumerate() {
        if i == 3 {
            assert_eq!(*a, "TS-1");
            assert_eq!(*b, "TS-2");
        } else {
            assert_eq!(a, b);
        }
    }
}

#[test]
fn apply_rejects_uncommented_summary() {
    let err = apply_summary_text("src.py", "just plain text\nmore", "content", "TS").unwrap_err();
    assert!(err.starts_with("Summary is not a correctly formatted comment."));
}

#[test]
fn apply_accepts_prefix_heuristic_summary() {
    // A summary that fails the structural contract but passes the loose
    // per-line heuristic is still applied.
    let summary = "// alpha\n// beta";
    let out = apply_summary_text("src.zzz", summary, "body", "TS").unwrap();
    assert_eq!(out, "TS\n// alpha\n// beta\nbody");
}

#[test]
fn apply_with_clock_inserts_parseable_rfc3339_line() {
    let summary = "'''\n[DIRSCRIBE]\nok\n[/DIRSCRIBE]\n'''";
    let out = apply_summary("src.py", summary, "content line").unwrap();
    let lines: Vec<&str> = out.lines().collect();
    // block of five summary lines plus the timestamp, then the content
    assert_eq!(lines.len(), 7);
    assert_eq!(lines[0], "'''");
    assert_eq!(lines[1], "[DIRSCRIBE]");
    assert_eq!(lines[2], "ok");
    assert_eq!(lines[4], "[/DIRSCRIBE]");
    assert_eq!(lines[5], "'''");
    assert_eq!(lines[6], "content line");
    assert!(chrono::DateTime::parse_from_rfc3339(lines[3]).is_ok());
}

#[test]
fn retrieve_mode_extracts_stored_summaries() {
    let files = vec![String::from("a.py"), String::from("b.py")];
    let contents = vec![
        (
            String::from("a.py"),
            String::from("'''\n[DIRSCRIBE]\nstored a\n[/DIRSCRIBE]\n'''\ncode"),
        ),
        (String::from("b.py"), String::from("no block here")),
    ];
    let summaries = get_summaries_from_files(&files, &contents);
    assert_eq!(summaries.len(), 2);
    assert_eq!(summaries[0], "'''\n[DIRSCRIBE]\nstored a\n[/DIRSCRIBE]\n'''");
    assert_eq!(summaries[1], "");
}

#[test]
fn retrieve_mode_missing_file_yields_empty() {
    let files = vec![String::from("gone.py")];
    let contents: Vec<(String, String)> = Vec::new();
    let summaries = get_summaries_from_files(&files, &contents);
    assert_eq!(summaries, vec![String::new()]);
}
