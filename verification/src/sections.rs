//! Summary blocks inside files: stripping a previously injected
//! sentinel-delimited block from the top of a file, inserting the timestamp
//! line, and computing the idempotent rewrite that prepends a fresh block.

use vstd::prelude::*;
use crate::text;
use crate::text::{contains_sub, join_spec, lines_spec, split_char_spec};
use crate::validate::{check_prefix_spec, check_summary_spec};
use crate::time::rfc3339_line;

verus! {

/// One pass of the section filter from line `i` onward, carrying whether the
/// scan stands inside a sentinel block. A block opens only when a line whose
/// index is 0 or 1 is followed by a line containing `[DIRSCRIBE]`, and closes
/// on the line after one containing `[/DIRSCRIBE]`; boundary lines follow the
/// block. With `exclude` the lines outside the block are kept, without it
/// the lines inside.
pub open spec fn filter_ds_from(ls: Seq<Seq<char>>, exclude: bool, i: int, in_ds: bool) -> Seq<
    Seq<char>,
>
    decreases ls.len() - i,
{
    if i < 0 || i >= ls.len() {
        Seq::<Seq<char>>::empty()
    } else {
        let starts = i < 2 && i + 1 < ls.len() && contains_sub(ls[i + 1], "[DIRSCRIBE]"@);
        let ends = !starts && in_ds && i > 0 && contains_sub(ls[i - 1], "[/DIRSCRIBE]"@);
        let next_in = if starts {
            true
        } else if ends {
            false
        } else {
            in_ds
        };
        let keep = if starts || ends {
            !exclude
        } else if exclude {
            !in_ds
        } else {
            in_ds
        };
        let rest = filter_ds_from(ls, exclude, i + 1, next_in);
        if keep {
            seq![ls[i]] + rest
        } else {
            rest
        }
    }
}

/// The filtered text: the kept lines joined with newlines; empty input stays
/// empty.
pub open spec fn filter_ds_spec(content: Seq<char>, exclude: bool) -> Seq<char> {
    let ls = lines_spec(content);
    if ls.len() == 0 {
        Seq::<char>::empty()
    } else {
        join_spec(filter_ds_from(ls, exclude, 0, false), '\n')
    }
}

/// Removes (with `exclude`) or extracts (without) the sentinel-delimited
/// summary block at the top of `content`.
pub fn filter_dirscribe_sections(content: &str, exclude: bool) -> (r: String)
    ensures
        r@ == filter_ds_spec(content@, exclude),
{
    let cs = text::chars_of(content);
    let ls = text::lines_of(cs.as_slice());
    if ls.len() == 0 {
        return String::new();
    }
    let open_pat = text::chars_of("[DIRSCRIBE]");
    let close_pat = text::chars_of("[/DIRSCRIBE]");
    let ghost d = ls.deep_view();
    let mut out: Vec<Vec<char>> = Vec::new();
    let mut in_ds = false;
    let mut i: usize = 0;
    proof {
        assert(out.deep_view() + filter_ds_from(d, exclude, 0, false) =~~= filter_ds_from(
            d,
            exclude,
            0,
            false,
        ));
    }
    while i < ls.len()
        invariant
            d == ls.deep_view(),
            d.len() == ls@.len(),
            i <= ls@.len(),
            open_pat@ == "[DIRSCRIBE]"@,
            close_pat@ == "[/DIRSCRIBE]"@,
            filter_ds_from(d, exclude, 0, false) == out.deep_view() + filter_ds_from(
                d,
                exclude,
                i as int,
                in_ds,
            ),
        decreases ls@.len() - i,
    {
        proof {
            assert(d[i as int] == ls@[i as int]@);
            if i + 1 < ls@.len() {
                assert(d[i as int + 1] == ls@[i as int + 1]@);
            }
            if i > 0 {
                assert(d[i as int - 1] == ls@[i as int - 1]@);
            }
        }
        let starts = i < 2 && i + 1 < ls.len() && text::contains(
            ls[i + 1].as_slice(),
            open_pat.as_slice(),
        );
        let ends = !starts && in_ds && i > 0 && text::contains(
            ls[i - 1].as_slice(),
            close_pat.as_slice(),
        );
        let keep = if starts || ends {
            !exclude
        } else if exclude {
            !in_ds
        } else {
            in_ds
        };
        let ghost old_dv = out.deep_view();
        let ghost old_in = in_ds;
        if keep {
            let mut line: Vec<char> = Vec::new();
            text::append_slice(&mut line, ls[i].as_slice());
            proof {
                assert(line.deep_view() =~= line@);
            }
            out.push(line);
        }
        if starts {
            in_ds = true;
        } else if ends {
            in_ds = false;
        }
        i = i + 1;
        proof {
            assert(filter_ds_from(d, exclude, i - 1, old_in) == if keep {
                seq![d[i - 1]] + filter_ds_from(d, exclude, i as int, in_ds)
            } else {
                filter_ds_from(d, exclude, i as int, in_ds)
            });
            if keep {
                assert(out.deep_view() =~~= old_dv.push(d[i - 1]));
                assert(out.deep_view() + filter_ds_from(d, exclude, i as int, in_ds) =~~= old_dv
                    + (seq![d[i - 1]] + filter_ds_from(d, exclude, i as int, in_ds)));
            }
        }
    }
    proof {
        assert(filter_ds_from(d, exclude, ls@.len() as int, in_ds) =~~= Seq::<Seq<char>>::empty());
        assert(out.deep_view() + Seq::<Seq<char>>::empty() =~~= out.deep_view());
    }
    let joined = text::join_char(&out, '\n');
    text::string_of(joined.as_slice())
}

/// The text with `ts` inserted as a new line two lines from the end: the
/// timestamp slot immediately before the block's closing sentinel line.
pub open spec fn with_timestamp_spec(s: Seq<char>, ts: Seq<char>) -> Seq<char> {
    let ls = lines_spec(s);
    join_spec(ls.insert(ls.len() - 2, ts), '\n')
}

/// Inserts the given timestamp line two lines from the end of `input`.
pub fn insert_timestamp_line(input: &str, timestamp: &str) -> (r: String)
    requires
        lines_spec(input@).len() >= 2,
    ensures
        r@ == with_timestamp_spec(input@, timestamp@),
{
    let cs = text::chars_of(input);
    let mut ls = text::lines_of(cs.as_slice());
    let ghost d0 = ls.deep_view();
    let ts = text::chars_of(timestamp);
    let idx = ls.len() - 2;
    ls.insert(idx, ts);
    proof {
        assert(ls.deep_view() =~~= d0.insert(idx as int, timestamp@));
    }
    let joined = text::join_char(&ls, '\n');
    text::string_of(joined.as_slice())
}

/// Inserts the current time, rendered per RFC 3339, two lines from the end.
pub fn insert_timestamp(input: &str) -> (r: String)
    requires
        lines_spec(input@).len() >= 2,
    ensures
        exists|ts: Seq<char>|
            #[trigger] rfc3339_line(ts) && r@ == with_timestamp_spec(input@, ts),
{
    let now = crate::time::now_rfc3339();
    let r = insert_timestamp_line(input, now.as_str());
    proof {
        assert(rfc3339_line(now@) && r@ == with_timestamp_spec(input@, now@));
    }
    r
}

/// May a summary be applied to this file? It must satisfy the structural
/// contract of the file's extension, or at least the loose per-line comment
/// heuristic, and must have at least two lines so that the timestamp slot
/// exists.
pub open spec fn apply_ok_spec(path: Seq<char>, summary: Seq<char>) -> bool {
    (check_summary_spec(path, summary) || check_prefix_spec(summary)) && lines_spec(
        summary,
    ).len() >= 2
}

/// The rewritten file: the summary with its timestamp line, a newline, then
/// the old content stripped of any prior summary block.
pub open spec fn applied_content_spec(summary: Seq<char>, ts: Seq<char>, content: Seq<char>) -> Seq<
    char,
> {
    with_timestamp_spec(summary, ts) + seq!['\n'] + filter_ds_spec(content, true)
}

/// Computes the new contents of a file when `summary` is applied with the
/// given timestamp line: any prior block is stripped and the fresh block is
/// prepended. Rejects, without a result, a summary that is not comment
/// shaped for the file.
pub fn apply_summary_text(file_path: &str, summary: &str, content: &str, timestamp: &str) -> (r:
    Result<String, String>)
    ensures
        match r {
            Ok(s) => apply_ok_spec(file_path@, summary@) && s@ == applied_content_spec(
                summary@,
                timestamp@,
                content@,
            ),
            Err(e) => !apply_ok_spec(file_path@, summary@),
        },
{
    let valid = crate::validate::check_summary(file_path, summary) || crate::validate::check_prefix(
        summary,
    );
    let sc = text::chars_of(summary);
    let sl = text::lines_of(sc.as_slice());
    proof {
        assert(sl.deep_view().len() == lines_spec(summary@).len());
    }
    if !(valid && sl.len() >= 2) {
        return Err(String::from_str(
            "Summary is not a correctly formatted comment. (doesn't start with a comment char on every line or doesn't have starting or ending line with multi line comment enclosure)",
        ));
    }
    let stamped = insert_timestamp_line(summary, timestamp);
    let stripped = filter_dirscribe_sections(content, true);
    let mut out = text::chars_of(stamped.as_str());
    out.push('\n');
    text::append_str(&mut out, stripped.as_str());
    proof {
        assert(out@ =~= applied_content_spec(summary@, timestamp@, content@));
    }
    Ok(text::string_of(out.as_slice()))
}

/// Applies `summary` to the file's current `content` with the present time as
/// the timestamp line.
pub fn apply_summary(file_path: &str, summary: &str, content: &str) -> (r: Result<String, String>)
    ensures
        match r {
            Ok(s) => apply_ok_spec(file_path@, summary@) && exists|ts: Seq<char>|
                #[trigger] rfc3339_line(ts) && s@ == applied_content_spec(summary@, ts, content@),
            Err(e) => !apply_ok_spec(file_path@, summary@),
        },
{
    let now = crate::time::now_rfc3339();
    let r = apply_summary_text(file_path, summary, content, now.as_str());
    proof {
        if r is Ok {
            assert(rfc3339_line(now@) && r.unwrap()@ == applied_content_spec(
                summary@,
                now@,
                content@,
            ));
        }
    }
    r
}

/// The first value paired with `k`, or the empty text when none is.
pub open spec fn assoc_get(m: Seq<(Seq<char>, Seq<char>)>, k: Seq<char>) -> Seq<char>
    decreases m.len(),
{
    if m.len() == 0 {
        Seq::<char>::empty()
    } else if m[0].0 == k {
        m[0].1
    } else {
        assoc_get(m.drop_first(), k)
    }
}

/// In retrieve mode no provider is called: each file's summary is the
/// sentinel-delimited block already present in its content.
pub fn get_summaries_from_files(valid_files: &Vec<String>, file_contents: &Vec<(String, String)>)
    -> (r: Vec<String>)
    ensures
        r.deep_view().len() == valid_files@.len(),
        forall|i: int| 0 <= i < valid_files@.len() ==> r.deep_view()[i] == filter_ds_spec(
            assoc_get(file_contents.deep_view(), valid_files.deep_view()[i]),
            false,
        ),
{
    let mut r: Vec<String> = Vec::new();
    let mut i: usize = 0;
    while i < valid_files.len()
        invariant
            i <= valid_files@.len(),
            r.deep_view().len() == i,
            forall|j: int| 0 <= j < i ==> r.deep_view()[j] == filter_ds_spec(
                assoc_get(file_contents.deep_view(), valid_files.deep_view()[j]),
                false,
            ),
        decreases valid_files@.len() - i,
    {
        let content = assoc_lookup(file_contents, &valid_files[i]);
        proof {
            assert(valid_files.deep_view()[i as int] == valid_files@[i as int]@);
        }
        let summary = filter_dirscribe_sections(content.as_str(), false);
        let ghost old_dv = r.deep_view();
        r.push(summary);
        i = i + 1;
        proof {
            assert(r.deep_view() =~~= old_dv.push(r@[i - 1]@));
        }
    }
    r
}

/// Looks `k` up in the association list, returning the first match or empty.
fn assoc_lookup(m: &Vec<(String, String)>, k: &String) -> (r: String)
    ensures
        r@ == assoc_get(m.deep_view(), k@),
{
    let mut j: usize = 0;
    proof {
        assert(m.deep_view().skip(0) =~~= m.deep_view());
    }
    while j < m.len()
        invariant
            j <= m@.len(),
            m.deep_view().len() == m@.len(),
            assoc_get(m.deep_view(), k@) == assoc_get(m.deep_view().skip(j as int), k@),
        decreases m@.len() - j,
    {
        proof {
            assert(m.deep_view()[j as int] == (m@[j as int].0@, m@[j as int].1@));
            assert(m.deep_view().skip(j as int)[0] == m.deep_view()[j as int]);
        }
        if m[j].0 == *k {
            let r = m[j].1.clone();
            return r;
        }
        proof {
            assert(m.deep_view().skip(j as int).drop_first() =~~= m.deep_view().skip(
                j as int + 1,
            ));
        }
        j = j + 1;
    }
    String::new()
}

} // verus!
