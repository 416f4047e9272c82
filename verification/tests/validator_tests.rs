use dirscribe::{
    check_prefix, check_summary, comment_contract_for, make_summary, validate_summary, CommentEnd,
};

#[test]
fn python_block_summary_accepted() {
    // Extension `.py`, contract (''', '''): the exact structural reply is accepted.
    let reply = "'''\n[DIRSCRIBE]\nsummary text\n[/DIRSCRIBE]\n'''";
    assert!(check_summary("foo.py", reply));
    let contract = comment_contract_for("py").expect("py has a contract");
    assert!(validate_summary(reply, &contract));
}

#[test]
fn python_block_summary_altered_sentinel_rejected() {
    assert!(!check_summary("foo.py", "'''\n[DIRSCRIBE!]\nsummary text\n[/DIRSCRIBE]\n'''"));
    assert!(!check_summary("foo.py", "'''\n[DIRSCRIBE]\nsummary text\n[DIRSCRIBE]\n'''"));
    assert!(!check_summary("foo.py", "\"\"\"\n[DIRSCRIBE]\nsummary text\n[/DIRSCRIBE]\n'''"));
    assert!(!check_summary("foo.py", "'''\n[DIRSCRIBE]\nsummary text\n[/DIRSCRIBE]\n''"));
}

#[test]
fn shell_line_summary_accepted_and_truncated_rejected() {
    // Extension `.sh`, line-mode prefix `#`.
    let good = "#\n# [DIRSCRIBE]\nsummary\n# [/DIRSCRIBE]\n#";
    assert!(check_summary("run.sh", good));
    let missing_tail = "#\n# [DIRSCRIBE]\nsummary\n# [/DIRSCRIBE]";
    assert!(!check_summary("run.sh", missing_tail));
}

#[test]
fn summary_shorter_than_four_lines_rejected() {
    assert!(!check_summary("foo.py", "'''\n[DIRSCRIBE]\n'''"));
    assert!(!check_summary("foo.py", ""));
}

#[test]
fn unknown_extension_rejected_outright() {
    // Strict default: no registry entry means the validator reports failure.
    let reply = "'''\n[DIRSCRIBE]\nsummary text\n[/DIRSCRIBE]\n'''";
    assert!(!check_summary("foo.zzz", reply));
    assert!(!check_summary("no_extension", reply));
    assert!(!check_summary(".bashrc", reply));
}

#[test]
fn summary_is_trimmed_before_validation() {
    let reply = "  \n'''\n[DIRSCRIBE]\nsummary text\n[/DIRSCRIBE]\n'''  \n";
    assert!(check_summary("foo.py", reply));
}

#[test]
fn registry_covers_known_extensions() {
    let py = comment_contract_for("py").unwrap();
    assert_eq!(py.start, "'''");
    assert!(matches!(py.end, CommentEnd::Block(ref e) if e == "'''"));
    let rs = comment_contract_for("rs").unwrap();
    assert_eq!(rs.start, "/*");
    assert!(matches!(rs.end, CommentEnd::Block(ref e) if e == "*/"));
    let sh = comment_contract_for("sh").unwrap();
    assert_eq!(sh.start, "#");
    assert!(matches!(sh.end, CommentEnd::PerLine));
    let ini = comment_contract_for("ini").unwrap();
    assert_eq!(ini.start, ";");
    assert!(matches!(ini.end, CommentEnd::PerLine));
    let json = comment_contract_for("json").unwrap();
    assert_eq!(json.start, "//");
    assert!(matches!(json.end, CommentEnd::PerLine));
    assert!(comment_contract_for("zzz").is_none());
    assert!(comment_contract_for("").is_none());
}

#[test]
fn generated_template_matches_its_contract() {
    // A summary built from the structural template is accepted, for block
    // and line contracts alike.
    let py = comment_contract_for("py").unwrap();
    let body = vec![String::from("first line"), String::from("second line")];
    let generated = make_summary(&py, &body);
    assert_eq!(
        generated,
        "'''\n[DIRSCRIBE]\nfirst line\nsecond line\n[/DIRSCRIBE]\n'''"
    );
    assert!(validate_summary(&generated, &py));
    assert!(check_summary("m.py", &generated));

    let sh = comment_contract_for("sh").unwrap();
    let generated_sh = make_summary(&sh, &body);
    assert_eq!(
        generated_sh,
        "#\n# [DIRSCRIBE]\n# first line\n# second line\n# [/DIRSCRIBE]\n#"
    );
    assert!(validate_summary(&generated_sh, &sh));
    assert!(check_summary("m.sh", &generated_sh));
}

#[test]
fn check_prefix_accepts_uniform_comment_lines() {
    assert!(check_prefix("# one\n# two\n  # three"));
    assert!(check_prefix("// one\n// two"));
    assert!(!check_prefix("// one\nplain text"));
    assert!(!check_prefix("# one\n// two"));
}
