use dirscribe::{
    validate_cli_args, validate_git_args, validate_keywords, validate_output_path,
    validate_path_filters, validate_suffixes, validate_template_path, Cli,
};

fn base_cli() -> Cli {
    Cli {
        suffixes: String::from("rs,md"),
        prompt_template_path: None,
        output_path: None,
        dont_use_gitignore: false,
        summarize: false,
        apply: false,
        exclude_paths: None,
        include_paths: None,
        or_keywords: None,
        and_keywords: None,
        exclude_keywords: None,
        diff_only: false,
        start_commit_id: None,
        end_commit_id: None,
    }
}

#[test]
fn suffix_rules() {
    assert!(validate_suffixes("rs,md").is_ok());
    assert!(validate_suffixes("*").is_ok());
    assert_eq!(validate_suffixes("").unwrap_err().0, "Suffixes cannot be empty");
    assert_eq!(
        validate_suffixes("rs,,md").unwrap_err().0,
        "Empty suffix found after splitting"
    );
    assert_eq!(
        validate_suffixes("r-s").unwrap_err().0,
        "Invalid suffix 'r-s': must be alphanumeric"
    );
    assert_eq!(
        validate_suffixes("abcdefghijk").unwrap_err().0,
        "Suffix 'abcdefghijk' exceeds maximum length of 10"
    );
}

#[test]
fn keyword_rules() {
    assert!(validate_keywords(&None, "or_keywords").is_ok());
    assert!(validate_keywords(&Some(String::from("a,b")), "or_keywords").is_ok());
    assert_eq!(
        validate_keywords(&Some(String::from("a,,b")), "or_keywords").unwrap_err().0,
        "Empty keyword found in or_keywords"
    );
    let long = "x".repeat(101);
    assert_eq!(
        validate_keywords(&Some(long), "and_keywords").unwrap_err().0,
        "Keyword in and_keywords exceeds maximum length of 100"
    );
    assert_eq!(
        validate_keywords(&Some(String::from("caf\u{e9}")), "exclude_keywords").unwrap_err().0,
        "Non-ASCII characters found in exclude_keywords keyword: caf\u{e9}"
    );
}

#[test]
fn git_argument_combinations() {
    assert!(validate_git_args(false, &None, &None).is_ok());
    assert!(validate_git_args(true, &Some(String::from("abc")), &None).is_ok());
    assert_eq!(
        validate_git_args(true, &None, &None).unwrap_err().0,
        "--start-commit-id must be provided when using --diff-only"
    );
    assert_eq!(
        validate_git_args(false, &Some(String::from("abc")), &None).unwrap_err().0,
        "--diff-only must be set when using --start-commit-id"
    );
    assert_eq!(
        validate_git_args(false, &None, &Some(String::from("abc"))).unwrap_err().0,
        "--diff-only must be set when using --end-commit-id"
    );
}

#[test]
fn path_filter_conflicts() {
    assert!(validate_path_filters(&None, &None).is_ok());
    assert!(validate_path_filters(&Some(String::from("src")), &Some(String::from("docs"))).is_ok());
    assert_eq!(
        validate_path_filters(&Some(String::from("src")), &Some(String::from("src/sub")))
            .unwrap_err()
            .0,
        "Include path conflicts with exclude path: src/sub"
    );
    // component-wise: `srcfoo` does not lie under `src`
    assert!(
        validate_path_filters(&Some(String::from("src")), &Some(String::from("srcfoo"))).is_ok()
    );
}

#[test]
fn template_and_output_path_rules() {
    assert!(validate_template_path("t.txt", true, true, 10).is_ok());
    assert_eq!(
        validate_template_path("t.txt", false, false, 0).unwrap_err().0,
        "Template file does not exist: t.txt"
    );
    assert_eq!(
        validate_template_path("t.txt", true, false, 0).unwrap_err().0,
        "Template path is not a file: t.txt"
    );
    assert_eq!(
        validate_template_path("t.txt", true, true, 100_000_001).unwrap_err().0,
        "Template file is too large (max 100MB)"
    );
    assert!(validate_output_path("out.txt", false).is_ok());
    assert_eq!(
        validate_output_path("out", true).unwrap_err().0,
        "Output path is a directory: out"
    );
}

#[test]
fn cli_args_check_in_order() {
    assert!(validate_cli_args(&base_cli()).is_ok());
    let mut cli = base_cli();
    cli.suffixes = String::new();
    cli.diff_only = true;
    // the suffix error comes first
    assert_eq!(validate_cli_args(&cli).unwrap_err().0, "Suffixes cannot be empty");
    let mut cli = base_cli();
    cli.diff_only = true;
    assert_eq!(
        validate_cli_args(&cli).unwrap_err().0,
        "--start-commit-id must be provided when using --diff-only"
    );
    let mut cli = base_cli();
    cli.or_keywords = Some(String::from("a,,b"));
    assert_eq!(validate_cli_args(&cli).unwrap_err().0, "Empty keyword found in or_keywords");
}
