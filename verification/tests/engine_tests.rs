use dirscribe::{
    build_prompt, build_report, check_for_keywords, filter_diff_for_file, load_prompts,
    process_with_template, Scheduler,
};

#[test]
fn scheduler_bounds_permits_and_collects_in_order() {
    let mut s = Scheduler::new(3, 2);
    assert!(s.try_acquire());
    assert!(s.try_acquire());
    // No more than max_concurrent_requests permits are ever out at once.
    assert!(!s.try_acquire());
    s.record(1, Ok(String::from("second")));
    s.release();
    assert!(s.try_acquire());
    s.record(0, Ok(String::from("first")));
    s.record(2, Err(String::from("boom")));
    s.release();
    s.release();
    assert!(s.is_complete());
    let out = s.collect();
    assert_eq!(out.len(), 3);
    assert_eq!(out[0], "first");
    assert_eq!(out[1], "second");
    assert_eq!(out[2], "Error: boom");
}

#[test]
fn scheduler_incomplete_batch_reports_so() {
    let mut s = Scheduler::new(2, 1);
    s.record(0, Ok(String::from("only")));
    assert!(!s.is_complete());
}

#[test]
fn prompt_templates_carry_the_placeholder() {
    let prompts = load_prompts("prompts");
    assert_eq!(prompts.len(), 3);
    assert_eq!(prompts[0].0, "summary-0.2");
    assert_eq!(prompts[1].0, "summary-keywords-0.1");
    assert_eq!(prompts[2].0, "summary-diff-0.1");
    for (_, t) in &prompts {
        assert!(t.contains("${${CONTENT}$}$"));
    }
}

#[test]
fn template_substitution_replaces_placeholder() {
    let r = process_with_template("BODY", "before ${${CONTENT}$}$ after").unwrap();
    assert_eq!(r, "before BODY after");
    let err = process_with_template("BODY", "no placeholder here").unwrap_err();
    assert_eq!(err, "Template file must contain the placeholder '${${CONTENT}$}$'");
}

#[test]
fn prompt_for_block_contract_appends_block_instructions() {
    let p = build_prompt("Summarize: ${${CONTENT}$}$", "code here", "a.py", false);
    assert_eq!(
        p,
        "Summarize: code here\n\nPlease use the following structure: line 1: ''''', line 2: \
         '[DIRSCRIBE]', lines 3 to N -2: *the summary*, line N-1: '[/DIRSCRIBE]', line N: '''''"
    );
}

#[test]
fn prompt_for_line_contract_appends_prefix_instructions() {
    let p = build_prompt("T ${${CONTENT}$}$", "x", "run.sh", false);
    assert!(p.starts_with("T x\n\nPlease make sure to start every line of the summary with '#'."));
    assert!(p.contains("line 2: '# [DIRSCRIBE]'"));
    assert!(p.ends_with("line N: '#'"));
}

#[test]
fn prompt_for_unknown_extension_appends_fallback_instructions() {
    let p = build_prompt("T ${${CONTENT}$}$", "x", "strange.zzz", false);
    assert!(p.starts_with("T x\n\nPlease make sure to return the summary as a comment block"));
}

#[test]
fn prompt_in_diff_mode_has_no_instructions() {
    let p = build_prompt("T ${${CONTENT}$}$", "x", "a.py", true);
    assert_eq!(p, "T x");
}

#[test]
fn prompt_strips_prior_summary_block_from_content() {
    let content = "'''\n[DIRSCRIBE]\nold\n[/DIRSCRIBE]\n'''\nreal code";
    let p = build_prompt("${${CONTENT}$}$", content, "a.py", true);
    assert_eq!(p, "real code");
}

#[test]
fn diff_filter_keeps_only_the_named_file() {
    let diff = "diff --git a/src/a.py b/src/a.py\n+line a\ndiff --git a/b.py b/b.py\n+line b\ncontext b";
    assert_eq!(
        filter_diff_for_file(diff, "dir/b.py"),
        "diff --git a/b.py b/b.py\n+line b\ncontext b"
    );
    assert_eq!(
        filter_diff_for_file(diff, "src/a.py"),
        "diff --git a/src/a.py b/src/a.py\n+line a"
    );
    assert_eq!(filter_diff_for_file(diff, "c.py"), "");
}

#[test]
fn keyword_filters_admit_and_reject() {
    let ors = vec![String::from("alpha"), String::from("beta")];
    let ands = vec![String::from("fn"), String::from("main")];
    let excludes = vec![String::from("GENERATED")];
    let none: Vec<String> = Vec::new();
    assert!(check_for_keywords("fn main alpha", &ors, &ands, &excludes));
    assert!(!check_for_keywords("fn main", &ors, &ands, &excludes));
    assert!(!check_for_keywords("fn alpha", &ors, &ands, &excludes));
    assert!(!check_for_keywords("fn main alpha GENERATED", &ors, &ands, &excludes));
    assert!(check_for_keywords("anything", &none, &none, &none));
}

#[test]
fn report_lists_paths_then_sections_in_order() {
    let files = vec![String::from("a.py"), String::from("b.py")];
    let bodies = vec![String::from("sa"), String::from("sb")];
    let r = build_report(&files, &bodies, true, false);
    assert_eq!(
        r,
        "File Paths:\na.py\nb.py\n\nFile Summaries:\n\n\nSummary of a.py:\n\nsa\n\nSummary of b.py:\n\nsb\n"
    );
    let r = build_report(&files, &bodies, false, true);
    assert!(r.contains("File Contents:"));
    assert!(r.contains("\nDiff of a.py:\n\nsa\n"));
    let r = build_report(&files, &bodies, false, false);
    assert!(r.contains("\nFile Content of b.py:\n\nsb\n"));
}
