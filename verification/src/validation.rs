//! Validation of command-line arguments: the syntactic rules on suffixes,
//! keywords, commit-argument combinations and path filters. Checks that need
//! the file system or the repository stay with the caller; the rules here are
//! decided from the argument text alone.

use vstd::prelude::*;
use crate::text;
use crate::text::split_char_spec;

verus! {

/// The command-line options, as plain values.
#[derive(Debug)]
pub struct Cli {
    pub suffixes: String,
    pub prompt_template_path: Option<String>,
    pub output_path: Option<String>,
    pub dont_use_gitignore: bool,
    pub summarize: bool,
    pub apply: bool,
    pub exclude_paths: Option<String>,
    pub include_paths: Option<String>,
    pub or_keywords: Option<String>,
    pub and_keywords: Option<String>,
    pub exclude_keywords: Option<String>,
    pub diff_only: bool,
    pub start_commit_id: Option<String>,
    pub end_commit_id: Option<String>,
}

/// A rejected argument, with its message.
#[derive(Debug)]
pub struct ValidationError(pub String);

impl ValidationError {
    /// The message text.
    pub fn message(&self) -> (r: &str)
        ensures
            r@ == self.0@,
    {
        self.0.as_str()
    }
}

/// Whether `char::is_alphanumeric` holds of the character: the Unicode
/// letter and number categories.
pub uninterp spec fn alphanumeric(c: char) -> bool;

/// Relies on `char::is_alphanumeric`: membership in the Unicode `Alphabetic`
/// and `Nd`/`Nl`/`No` categories, a function of the character alone.
pub assume_specification[ char::is_alphanumeric ](c: char) -> (r: bool)
    ensures
        r == alphanumeric(c),
;

/// The UTF-8 encoding length of one character.
pub open spec fn utf8_len_char(c: char) -> int {
    if (c as u32) < 0x80 {
        1
    } else if (c as u32) < 0x800 {
        2
    } else if (c as u32) < 0x10000 {
        3
    } else {
        4
    }
}

/// The UTF-8 byte length of the text: what `str::len` counts.
pub open spec fn utf8_len_spec(s: Seq<char>) -> int
    decreases s.len(),
{
    if s.len() == 0 {
        0
    } else {
        utf8_len_char(s[0]) + utf8_len_spec(s.drop_first())
    }
}

proof fn lemma_utf8_len_nonneg(s: Seq<char>)
    ensures
        utf8_len_spec(s) >= 0,
    decreases s.len(),
{
    if s.len() > 0 {
        lemma_utf8_len_nonneg(s.drop_first());
    }
}

/// Is the UTF-8 byte length of `s` greater than `limit`?
fn byte_len_exceeds(s: &[char], limit: usize) -> (r: bool)
    requires
        limit <= 1000000,
    ensures
        r == (utf8_len_spec(s@) > limit),
{
    let mut count: usize = 0;
    let mut i: usize = 0;
    proof {
        assert(s@.skip(0) =~= s@);
    }
    while i < s.len()
        invariant
            limit <= 1000000,
            i <= s@.len(),
            count <= limit,
            utf8_len_spec(s@) == count + utf8_len_spec(s@.skip(i as int)),
        decreases s@.len() - i,
    {
        let c = s[i];
        let step: usize = if (c as u32) < 0x80 {
            1
        } else if (c as u32) < 0x800 {
            2
        } else if (c as u32) < 0x10000 {
            3
        } else {
            4
        };
        proof {
            assert(s@.skip(i as int)[0] == s@[i as int]);
            assert(s@.skip(i as int).drop_first() =~= s@.skip(i as int + 1));
            lemma_utf8_len_nonneg(s@.skip(i as int + 1));
        }
        if count + step > limit {
            return true;
        }
        count = count + step;
        i = i + 1;
    }
    proof {
        assert(s@.skip(s@.len() as int) =~= Seq::<char>::empty());
    }
    false
}

/// Is every character of the part alphanumeric?
pub open spec fn all_alphanumeric(p: Seq<char>) -> bool {
    forall|i: int| 0 <= i < p.len() ==> alphanumeric(#[trigger] p[i])
}

/// Why one suffix is rejected, if it is: empty, not alphanumeric, or longer
/// than ten bytes.
pub open spec fn spec_suffix_error(p: Seq<char>) -> Option<Seq<char>> {
    if p.len() == 0 {
        Some("Empty suffix found after splitting"@)
    } else if !all_alphanumeric(p) {
        Some("Invalid suffix '"@ + p + "': must be alphanumeric"@)
    } else if utf8_len_spec(p) > 10 {
        Some("Suffix '"@ + p + "' exceeds maximum length of 10"@)
    } else {
        None
    }
}

/// The first rejected part's message, scanning in order.
pub open spec fn spec_first_suffix_error(parts: Seq<Seq<char>>) -> Option<Seq<char>>
    decreases parts.len(),
{
    if parts.len() == 0 {
        None
    } else {
        match spec_suffix_error(parts[0]) {
            Some(e) => Some(e),
            None => spec_first_suffix_error(parts.drop_first()),
        }
    }
}

/// Why the suffix list is rejected, if it is: it must be `*` alone or a
/// comma-separated list of nonempty alphanumeric parts of at most ten bytes.
pub open spec fn spec_validate_suffixes(s: Seq<char>) -> Option<Seq<char>> {
    if s.len() == 0 {
        Some("Suffixes cannot be empty"@)
    } else if s == "*"@ {
        None
    } else {
        spec_first_suffix_error(split_char_spec(s, ','))
    }
}

fn check_one_suffix(p: &[char]) -> (r: Option<String>)
    ensures
        match r {
            Some(e) => spec_suffix_error(p@) == Some(e@),
            None => spec_suffix_error(p@) is None,
        },
{
    if p.len() == 0 {
        return Some(String::from_str("Empty suffix found after splitting"));
    }
    let mut i: usize = 0;
    while i < p.len()
        invariant
            p@.len() > 0,
            i <= p@.len(),
            forall|j: int| 0 <= j < i ==> alphanumeric(#[trigger] p@[j]),
        decreases p@.len() - i,
    {
        if !p[i].is_alphanumeric() {
            let mut msg = text::chars_of("Invalid suffix '");
            text::append_slice(&mut msg, p);
            text::append_str(&mut msg, "': must be alphanumeric");
            return Some(text::string_of(msg.as_slice()));
        }
        i = i + 1;
    }
    if byte_len_exceeds(p, 10) {
        let mut msg = text::chars_of("Suffix '");
        text::append_slice(&mut msg, p);
        text::append_str(&mut msg, "' exceeds maximum length of 10");
        return Some(text::string_of(msg.as_slice()));
    }
    None
}

/// Checks the comma-separated suffix list: `*` alone, or nonempty
/// alphanumeric parts of at most ten bytes each.
pub fn validate_suffixes(suffixes: &str) -> (r: Result<(), ValidationError>)
    ensures
        match r {
            Ok(_) => spec_validate_suffixes(suffixes@) is None,
            Err(e) => spec_validate_suffixes(suffixes@) == Some(e.0@),
        },
{
    let cs = text::chars_of(suffixes);
    if cs.len() == 0 {
        return Err(ValidationError(String::from_str("Suffixes cannot be empty")));
    }
    if text::eq_str(cs.as_slice(), "*") {
        return Ok(());
    }
    let parts = text::split_char(cs.as_slice(), ',');
    let ghost all = parts.deep_view();
    let mut i: usize = 0;
    proof {
        assert(all.skip(0) =~~= all);
    }
    while i < parts.len()
        invariant
            all == parts.deep_view(),
            all == split_char_spec(suffixes@, ','),
            suffixes@.len() != 0,
            suffixes@ != "*"@,
            all.len() == parts@.len(),
            i <= parts@.len(),
            spec_first_suffix_error(all) == spec_first_suffix_error(all.skip(i as int)),
            forall|j: int| 0 <= j < i ==> spec_suffix_error(#[trigger] all[j]) is None,
        decreases parts@.len() - i,
    {
        proof {
            assert(all.skip(i as int)[0] == all[i as int]);
            assert(all[i as int] == parts@[i as int]@);
            assert(all.skip(i as int).drop_first() =~= all.skip(i as int + 1));
        }
        match check_one_suffix(parts[i].as_slice()) {
            Some(e) => {
                return Err(ValidationError(e));
            },
            None => {},
        }
        i = i + 1;
    }
    proof {
        assert(all.skip(all.len() as int) =~= Seq::<Seq<char>>::empty());
    }
    Ok(())
}

/// Is the character plain ASCII?
pub open spec fn is_ascii_char(c: char) -> bool {
    (c as u32) < 128
}

/// Why one keyword of the named field is rejected, if it is.
pub open spec fn spec_keyword_error(p: Seq<char>, field: Seq<char>) -> Option<Seq<char>> {
    if p.len() == 0 {
        Some("Empty keyword found in "@ + field)
    } else if utf8_len_spec(p) > 100 {
        Some("Keyword in "@ + field + " exceeds maximum length of 100"@)
    } else if !(forall|i: int| 0 <= i < p.len() ==> is_ascii_char(#[trigger] p[i])) {
        Some("Non-ASCII characters found in "@ + field + " keyword: "@ + p)
    } else {
        None
    }
}

pub open spec fn spec_first_keyword_error(parts: Seq<Seq<char>>, field: Seq<char>) -> Option<
    Seq<char>,
>
    decreases parts.len(),
{
    if parts.len() == 0 {
        None
    } else {
        match spec_keyword_error(parts[0], field) {
            Some(e) => Some(e),
            None => spec_first_keyword_error(parts.drop_first(), field),
        }
    }
}

/// Why the comma-separated keyword list is rejected, if it is: every keyword
/// must be nonempty ASCII of at most a hundred bytes. An absent list is
/// always accepted.
pub open spec fn spec_validate_keywords(ks: Option<Seq<char>>, field: Seq<char>) -> Option<
    Seq<char>,
> {
    match ks {
        None => None,
        Some(s) => spec_first_keyword_error(split_char_spec(s, ','), field),
    }
}

fn check_one_keyword(p: &[char], field_name: &str) -> (r: Option<String>)
    ensures
        match r {
            Some(e) => spec_keyword_error(p@, field_name@) == Some(e@),
            None => spec_keyword_error(p@, field_name@) is None,
        },
{
    if p.len() == 0 {
        let mut msg = text::chars_of("Empty keyword found in ");
        text::append_str(&mut msg, field_name);
        return Some(text::string_of(msg.as_slice()));
    }
    if byte_len_exceeds(p, 100) {
        let mut msg = text::chars_of("Keyword in ");
        text::append_str(&mut msg, field_name);
        text::append_str(&mut msg, " exceeds maximum length of 100");
        return Some(text::string_of(msg.as_slice()));
    }
    let mut i: usize = 0;
    while i < p.len()
        invariant
            p@.len() > 0,
            utf8_len_spec(p@) <= 100,
            i <= p@.len(),
            forall|j: int| 0 <= j < i ==> is_ascii_char(#[trigger] p@[j]),
        decreases p@.len() - i,
    {
        if (p[i] as u32) >= 128 {
            let mut msg = text::chars_of("Non-ASCII characters found in ");
            text::append_str(&mut msg, field_name);
            text::append_str(&mut msg, " keyword: ");
            text::append_slice(&mut msg, p);
            return Some(text::string_of(msg.as_slice()));
        }
        i = i + 1;
    }
    None
}

/// Checks a comma-separated keyword list: every keyword nonempty, ASCII, and
/// at most a hundred bytes.
pub fn validate_keywords(keywords: &Option<String>, field_name: &str) -> (r: Result<
    (),
    ValidationError,
>)
    ensures
        ({
            let ks = match keywords {
                Some(s) => Some(s@),
                None => None,
            };
            match r {
                Ok(_) => spec_validate_keywords(ks, field_name@) is None,
                Err(e) => spec_validate_keywords(ks, field_name@) == Some(e.0@),
            }
        }),
{
    let s = match keywords {
        Some(s) => s,
        None => {
            return Ok(());
        },
    };
    let cs = text::chars_of(s.as_str());
    let parts = text::split_char(cs.as_slice(), ',');
    let ghost all = parts.deep_view();
    let mut i: usize = 0;
    proof {
        assert(all.skip(0) =~~= all);
    }
    while i < parts.len()
        invariant
            all == parts.deep_view(),
            match keywords {
                Some(k) => all == split_char_spec(k@, ','),
                None => false,
            },
            all.len() == parts@.len(),
            i <= parts@.len(),
            spec_first_keyword_error(all, field_name@) == spec_first_keyword_error(
                all.skip(i as int),
                field_name@,
            ),
            forall|j: int| 0 <= j < i ==> spec_keyword_error(#[trigger] all[j], field_name@)
                is None,
        decreases parts@.len() - i,
    {
        proof {
            assert(all.skip(i as int)[0] == all[i as int]);
            assert(all[i as int] == parts@[i as int]@);
            assert(all.skip(i as int).drop_first() =~= all.skip(i as int + 1));
        }
        match check_one_keyword(parts[i].as_slice(), field_name) {
            Some(e) => {
                return Err(ValidationError(e));
            },
            None => {},
        }
        i = i + 1;
    }
    proof {
        assert(all.skip(all.len() as int) =~= Seq::<Seq<char>>::empty());
    }
    Ok(())
}

/// Why the commit arguments are rejected, if they are: diff mode requires a
/// start commit, and commit arguments require diff mode.
pub open spec fn spec_validate_git_args(
    diff_only: bool,
    start: Option<Seq<char>>,
    end: Option<Seq<char>>,
) -> Option<Seq<char>> {
    if diff_only && start is None {
        Some("--start-commit-id must be provided when using --diff-only"@)
    } else if start is Some && !diff_only {
        Some("--diff-only must be set when using --start-commit-id"@)
    } else if end is Some && !diff_only {
        Some("--diff-only must be set when using --end-commit-id"@)
    } else if end is Some && start is None {
        Some("--start-commit-id must be set when using --end-commit-id"@)
    } else {
        None
    }
}

/// Checks how the diff flag and the commit arguments may be combined.
/// Whether the named commits exist in the repository is the caller's check.
pub fn validate_git_args(
    diff_only: bool,
    start_commit: &Option<String>,
    end_commit: &Option<String>,
) -> (r: Result<(), ValidationError>)
    ensures
        ({
            let sv = match start_commit {
                Some(s) => Some(s@),
                None => None,
            };
            let ev = match end_commit {
                Some(s) => Some(s@),
                None => None,
            };
            match r {
                Ok(_) => spec_validate_git_args(diff_only, sv, ev) is None,
                Err(e) => spec_validate_git_args(diff_only, sv, ev) == Some(e.0@),
            }
        }),
{
    if diff_only && start_commit.is_none() {
        Err(ValidationError(String::from_str("--start-commit-id must be provided when using --diff-only")))
    } else if start_commit.is_some() && !diff_only {
        Err(ValidationError(String::from_str("--diff-only must be set when using --start-commit-id")))
    } else if end_commit.is_some() && !diff_only {
        Err(ValidationError(String::from_str("--diff-only must be set when using --end-commit-id")))
    } else if end_commit.is_some() && start_commit.is_none() {
        Err(ValidationError(String::from_str("--start-commit-id must be set when using --end-commit-id")))
    } else {
        Ok(())
    }
}

/// Whether the template file may be used, decided from the facts the caller
/// observed: it must exist, be a regular file, and be at most 100 MB.
pub open spec fn spec_validate_template_path(
    path: Seq<char>,
    exists: bool,
    is_file: bool,
    size: u64,
) -> Option<Seq<char>> {
    if !exists {
        Some("Template file does not exist: "@ + path)
    } else if !is_file {
        Some("Template path is not a file: "@ + path)
    } else if size > 100000000 {
        Some("Template file is too large (max 100MB)"@)
    } else {
        None
    }
}

/// Checks the prompt-template path from the observed file facts.
pub fn validate_template_path(path: &str, exists: bool, is_file: bool, size: u64) -> (r: Result<
    (),
    ValidationError,
>)
    ensures
        match r {
            Ok(_) => spec_validate_template_path(path@, exists, is_file, size) is None,
            Err(e) => spec_validate_template_path(path@, exists, is_file, size) == Some(e.0@),
        },
{
    if !exists {
        let mut msg = text::chars_of("Template file does not exist: ");
        text::append_str(&mut msg, path);
        Err(ValidationError(text::string_of(msg.as_slice())))
    } else if !is_file {
        let mut msg = text::chars_of("Template path is not a file: ");
        text::append_str(&mut msg, path);
        Err(ValidationError(text::string_of(msg.as_slice())))
    } else if size > 100000000 {
        Err(ValidationError(String::from_str("Template file is too large (max 100MB)")))
    } else {
        Ok(())
    }
}

/// Whether the output path may be used: it must not be a directory.
pub open spec fn spec_validate_output_path(path: Seq<char>, is_dir: bool) -> Option<Seq<char>> {
    if is_dir {
        Some("Output path is a directory: "@ + path)
    } else {
        None
    }
}

/// Checks the output path from the observed file fact.
pub fn validate_output_path(path: &str, is_dir: bool) -> (r: Result<(), ValidationError>)
    ensures
        match r {
            Ok(_) => spec_validate_output_path(path@, is_dir) is None,
            Err(e) => spec_validate_output_path(path@, is_dir) == Some(e.0@),
        },
{
    if is_dir {
        let mut msg = text::chars_of("Output path is a directory: ");
        text::append_str(&mut msg, path);
        Err(ValidationError(text::string_of(msg.as_slice())))
    } else {
        Ok(())
    }
}

/// The nonempty comma-separated parts of a path list.
pub open spec fn spec_nonempty_parts(ps: Seq<Seq<char>>) -> Seq<Seq<char>>
    decreases ps.len(),
{
    if ps.len() == 0 {
        Seq::<Seq<char>>::empty()
    } else {
        let rest = spec_nonempty_parts(ps.drop_first());
        if ps[0].len() > 0 {
            seq![ps[0]] + rest
        } else {
            rest
        }
    }
}

pub open spec fn spec_path_list(s: Seq<char>) -> Seq<Seq<char>> {
    spec_nonempty_parts(split_char_spec(s, ','))
}

/// Component-wise path prefix: the components of `base` lead the components
/// of `p`, as `Path::starts_with` compares.
pub open spec fn spec_path_prefix(base: Seq<char>, p: Seq<char>) -> bool {
    split_char_spec(base, '/').is_prefix_of(split_char_spec(p, '/'))
}

/// The first include path that an exclude path is a prefix of, if any.
pub open spec fn spec_first_conflict(inc: Seq<Seq<char>>, exc: Seq<Seq<char>>) -> Option<Seq<char>>
    decreases inc.len(),
{
    if inc.len() == 0 {
        None
    } else if exists|j: int| 0 <= j < exc.len() && spec_path_prefix(#[trigger] exc[j], inc[0]) {
        Some(inc[0])
    } else {
        spec_first_conflict(inc.drop_first(), exc)
    }
}

/// Why the include and exclude path lists are rejected, if they are: no
/// include path may lie under an exclude path. Whether each path exists is
/// the caller's check.
pub open spec fn spec_validate_path_filters(
    excluded: Option<Seq<char>>,
    included: Option<Seq<char>>,
) -> Option<Seq<char>> {
    let exc = match excluded {
        Some(s) => spec_path_list(s),
        None => Seq::<Seq<char>>::empty(),
    };
    match included {
        None => None,
        Some(s) => match spec_first_conflict(spec_path_list(s), exc) {
            None => None,
            Some(p) => Some("Include path conflicts with exclude path: "@ + p),
        },
    }
}

fn nonempty_parts(s: &[char]) -> (r: Vec<Vec<char>>)
    ensures
        r.deep_view() == spec_path_list(s@),
{
    let parts = text::split_char(s, ',');
    let ghost all = parts.deep_view();
    let mut r: Vec<Vec<char>> = Vec::new();
    let mut i: usize = 0;
    proof {
        assert(all.skip(0) =~~= all);
        assert(r.deep_view() + spec_nonempty_parts(all) =~~= spec_nonempty_parts(all));
    }
    while i < parts.len()
        invariant
            all == parts.deep_view(),
            all.len() == parts@.len(),
            i <= parts@.len(),
            spec_nonempty_parts(all) == r.deep_view() + spec_nonempty_parts(all.skip(i as int)),
        decreases parts@.len() - i,
    {
        proof {
            assert(all.skip(i as int)[0] == all[i as int]);
            assert(all[i as int] == parts@[i as int]@);
            assert(all.skip(i as int).drop_first() =~= all.skip(i as int + 1));
        }
        if parts[i].len() > 0 {
            let mut piece: Vec<char> = Vec::new();
            text::append_slice(&mut piece, parts[i].as_slice());
            proof {
                assert(piece.deep_view() =~= piece@);
            }
            let ghost old_dv = r.deep_view();
            r.push(piece);
            proof {
                assert(r.deep_view() =~~= old_dv.push(all[i as int]));
                assert(old_dv + (seq![all[i as int]] + spec_nonempty_parts(all.skip(i as int + 1)))
                    =~~= r.deep_view() + spec_nonempty_parts(all.skip(i as int + 1)));
            }
        }
        i = i + 1;
    }
    proof {
        assert(all.skip(all.len() as int) =~= Seq::<Seq<char>>::empty());
        assert(r.deep_view() + Seq::<Seq<char>>::empty() =~~= r.deep_view());
    }
    r
}

fn path_prefix(base: &[char], p: &[char]) -> (r: bool)
    ensures
        r == spec_path_prefix(base@, p@),
{
    let bs = text::split_char(base, '/');
    let ps = text::split_char(p, '/');
    if bs.len() > ps.len() {
        proof {
            assert(!split_char_spec(base@, '/').is_prefix_of(split_char_spec(p@, '/')));
        }
        return false;
    }
    let mut i: usize = 0;
    while i < bs.len()
        invariant
            bs.deep_view() == split_char_spec(base@, '/'),
            ps.deep_view() == split_char_spec(p@, '/'),
            bs.deep_view().len() == bs@.len(),
            ps.deep_view().len() == ps@.len(),
            bs@.len() <= ps@.len(),
            i <= bs@.len(),
            forall|j: int| 0 <= j < i ==> bs.deep_view()[j] == ps.deep_view()[j],
        decreases bs@.len() - i,
    {
        proof {
            assert(bs.deep_view()[i as int] == bs@[i as int]@);
            assert(ps.deep_view()[i as int] == ps@[i as int]@);
        }
        if !text::eq_chars(bs[i].as_slice(), ps[i].as_slice()) {
            proof {
                assert(!split_char_spec(base@, '/').is_prefix_of(split_char_spec(p@, '/')));
            }
            return false;
        }
        i = i + 1;
    }
    proof {
        assert(split_char_spec(base@, '/').is_prefix_of(split_char_spec(p@, '/'))) by {
            assert(bs.deep_view() =~~= ps.deep_view().subrange(0, bs.deep_view().len() as int));
        }
    }
    true
}

/// Checks that no include path lies under an exclude path. Whether the paths
/// exist on disk is the caller's check.
pub fn validate_path_filters(exclude_paths: &Option<String>, include_paths: &Option<String>) -> (r:
    Result<(), ValidationError>)
    ensures
        ({
            let ev = match exclude_paths {
                Some(s) => Some(s@),
                None => None,
            };
            let iv = match include_paths {
                Some(s) => Some(s@),
                None => None,
            };
            match r {
                Ok(_) => spec_validate_path_filters(ev, iv) is None,
                Err(e) => spec_validate_path_filters(ev, iv) == Some(e.0@),
            }
        }),
{
    let exc: Vec<Vec<char>> = match exclude_paths {
        Some(s) => {
            let cs = text::chars_of(s.as_str());
            nonempty_parts(cs.as_slice())
        },
        None => Vec::new(),
    };
    let inc: Vec<Vec<char>> = match include_paths {
        Some(s) => {
            let cs = text::chars_of(s.as_str());
            nonempty_parts(cs.as_slice())
        },
        None => {
            return Ok(());
        },
    };
    proof {
        if exclude_paths is None {
            assert(exc.deep_view() =~~= Seq::<Seq<char>>::empty());
        }
    }
    let ghost incs = inc.deep_view();
    let ghost excs = exc.deep_view();
    let mut i: usize = 0;
    proof {
        assert(incs.skip(0) =~~= incs);
    }
    while i < inc.len()
        invariant
            incs == inc.deep_view(),
            excs == exc.deep_view(),
            match include_paths {
                Some(s) => incs == spec_path_list(s@),
                None => false,
            },
            match exclude_paths {
                Some(s) => excs == spec_path_list(s@),
                None => excs == Seq::<Seq<char>>::empty(),
            },
            incs.len() == inc@.len(),
            excs.len() == exc@.len(),
            i <= inc@.len(),
            spec_first_conflict(incs, excs) == spec_first_conflict(incs.skip(i as int), excs),
        decreases inc@.len() - i,
    {
        proof {
            assert(incs.skip(i as int)[0] == incs[i as int]);
            assert(incs[i as int] == inc@[i as int]@);
            assert(incs.skip(i as int).drop_first() =~= incs.skip(i as int + 1));
        }
        let mut j: usize = 0;
        let mut conflict = false;
        while j < exc.len()
            invariant
                incs == inc.deep_view(),
                excs == exc.deep_view(),
                excs.len() == exc@.len(),
                i < inc@.len(),
                incs.len() == inc@.len(),
                incs[i as int] == inc@[i as int]@,
                j <= exc@.len(),
                !conflict ==> forall|k: int| 0 <= k < j ==> !spec_path_prefix(
                    #[trigger] excs[k],
                    incs[i as int],
                ),
                conflict ==> exists|k: int| 0 <= k < excs.len() && spec_path_prefix(
                    #[trigger] excs[k],
                    incs[i as int],
                ),
            decreases exc@.len() - j,
        {
            proof {
                assert(excs[j as int] == exc@[j as int]@);
            }
            if path_prefix(exc[j].as_slice(), inc[i].as_slice()) {
                conflict = true;
                j = exc.len();
            } else {
                j = j + 1;
            }
        }
        if conflict {
            let mut msg = text::chars_of("Include path conflicts with exclude path: ");
            text::append_slice(&mut msg, inc[i].as_slice());
            return Err(ValidationError(text::string_of(msg.as_slice())));
        }
        i = i + 1;
    }
    proof {
        assert(incs.skip(incs.len() as int) =~= Seq::<Seq<char>>::empty());
    }
    Ok(())
}

/// Why the whole argument set is rejected, if it is: the first failing rule,
/// in the order the rules are checked.
pub open spec fn spec_validate_cli_args(cli: &Cli) -> Option<Seq<char>> {
    let sv = match cli.start_commit_id {
        Some(ref s) => Some(s@),
        None => None,
    };
    let ev = match cli.end_commit_id {
        Some(ref s) => Some(s@),
        None => None,
    };
    let ov = match cli.or_keywords {
        Some(ref s) => Some(s@),
        None => None,
    };
    let av = match cli.and_keywords {
        Some(ref s) => Some(s@),
        None => None,
    };
    let xv = match cli.exclude_keywords {
        Some(ref s) => Some(s@),
        None => None,
    };
    let exv = match cli.exclude_paths {
        Some(ref s) => Some(s@),
        None => None,
    };
    let inv = match cli.include_paths {
        Some(ref s) => Some(s@),
        None => None,
    };
    if spec_validate_suffixes(cli.suffixes@) is Some {
        spec_validate_suffixes(cli.suffixes@)
    } else if spec_validate_git_args(cli.diff_only, sv, ev) is Some {
        spec_validate_git_args(cli.diff_only, sv, ev)
    } else if spec_validate_keywords(ov, "or_keywords"@) is Some {
        spec_validate_keywords(ov, "or_keywords"@)
    } else if spec_validate_keywords(av, "and_keywords"@) is Some {
        spec_validate_keywords(av, "and_keywords"@)
    } else if spec_validate_keywords(xv, "exclude_keywords"@) is Some {
        spec_validate_keywords(xv, "exclude_keywords"@)
    } else {
        spec_validate_path_filters(exv, inv)
    }
}

/// Checks every argument rule that the argument text alone decides, in
/// order: suffixes, the commit-argument combination, the three keyword
/// lists, and the path filters. Path existence, the template file and the
/// repository are checked by the caller alongside.
pub fn validate_cli_args(cli: &Cli) -> (r: Result<(), ValidationError>)
    ensures
        match r {
            Ok(_) => spec_validate_cli_args(cli) is None,
            Err(e) => spec_validate_cli_args(cli) == Some(e.0@),
        },
{
    match validate_suffixes(cli.suffixes.as_str()) {
        Err(e) => {
            return Err(e);
        },
        Ok(_) => {},
    }
    match validate_git_args(cli.diff_only, &cli.start_commit_id, &cli.end_commit_id) {
        Err(e) => {
            return Err(e);
        },
        Ok(_) => {},
    }
    match validate_keywords(&cli.or_keywords, "or_keywords") {
        Err(e) => {
            return Err(e);
        },
        Ok(_) => {},
    }
    match validate_keywords(&cli.and_keywords, "and_keywords") {
        Err(e) => {
            return Err(e);
        },
        Ok(_) => {},
    }
    match validate_keywords(&cli.exclude_keywords, "exclude_keywords") {
        Err(e) => {
            return Err(e);
        },
        Ok(_) => {},
    }
    match validate_path_filters(&cli.exclude_paths, &cli.include_paths) {
        Err(e) => {
            return Err(e);
        },
        Ok(_) => {},
    }
    Ok(())
}

} // verus!
