//! The crate's cross-cutting guarantees, stated and proved: a summary built
//! from a contract's own structural template is accepted by the validator and
//! rejected once a sentinel line is altered, and applying a summary to a file
//! is idempotent — re-applying the same summary changes nothing but the
//! timestamp line.

use vstd::prelude::*;
use crate::sections::{applied_content_spec, filter_ds_from, filter_ds_spec, with_timestamp_spec};
use crate::text;
use crate::text::{
    contains_sub, is_match_at, join_spec, lines_spec, no_char, split_char_spec, trim_spec,
};
use crate::validate::{block_summary_ok, line_summary_ok, summary_matches};

verus! {

/// The lines of the structural template for a contract: delimiter, opening
/// sentinel, the body lines, closing sentinel, delimiter.
pub open spec fn template_lines(start: Seq<char>, end: Option<Seq<char>>, body: Seq<Seq<char>>)
    -> Seq<Seq<char>> {
    match end {
        Some(e) => seq![start, "[DIRSCRIBE]"@] + body + seq!["[/DIRSCRIBE]"@, e],
        None => seq![start, start + " [DIRSCRIBE]"@] + body.map_values(
            |l: Seq<char>| start + seq![' '] + l,
        ) + seq![start + " [/DIRSCRIBE]"@, start],
    }
}

/// The structural template itself: its lines joined by newlines.
pub open spec fn spec_make_summary(
    start: Seq<char>,
    end: Option<Seq<char>>,
    body: Seq<Seq<char>>,
) -> Seq<char> {
    join_spec(template_lines(start, end, body), '\n')
}

/// Builds the exact structural template for a contract around the given body
/// lines; in line mode each body line is prefixed.
pub fn make_summary(contract: &crate::registry::CommentContract, body: &Vec<String>) -> (r: String)
    ensures
        r@ == spec_make_summary(
            contract.start@,
            contract.end_view(),
            body@.map_values(|s: String| s@),
        ),
{
    let ghost bs = body@.map_values(|s: String| s@);
    let mut lines: Vec<Vec<char>> = Vec::new();
    lines.push(text::chars_of(contract.start.as_str()));
    match &contract.end {
        crate::registry::CommentEnd::Block(end) => {
            lines.push(text::chars_of("[DIRSCRIBE]"));
            let mut i: usize = 0;
            while i < body.len()
                invariant
                    bs == body@.map_values(|s: String| s@),
                    i <= body@.len(),
                    lines.deep_view().len() == i + 2,
                    forall|j: int| 0 <= j < i ==> lines.deep_view()[j + 2] == bs[j],
                    lines.deep_view()[0] == contract.start@,
                    lines.deep_view()[1] == "[DIRSCRIBE]"@,
                decreases body@.len() - i,
            {
                let line = text::chars_of(body[i].as_str());
                proof {
                    assert(line.deep_view() =~= line@);
                }
                lines.push(line);
                i = i + 1;
            }
            lines.push(text::chars_of("[/DIRSCRIBE]"));
            lines.push(text::chars_of(end.as_str()));
            proof {
                assert(lines.deep_view() =~~= template_lines(
                    contract.start@,
                    contract.end_view(),
                    bs,
                ));
            }
        },
        crate::registry::CommentEnd::PerLine => {
            let mut open_line = text::chars_of(contract.start.as_str());
            text::append_str(&mut open_line, " [DIRSCRIBE]");
            proof {
                assert(open_line@ =~= contract.start@ + " [DIRSCRIBE]"@);
            }
            lines.push(open_line);
            let mut i: usize = 0;
            while i < body.len()
                invariant
                    bs == body@.map_values(|s: String| s@),
                    i <= body@.len(),
                    lines.deep_view().len() == i + 2,
                    forall|j: int| 0 <= j < i ==> lines.deep_view()[j + 2] == contract.start@
                        + seq![' '] + bs[j],
                    lines.deep_view()[0] == contract.start@,
                    lines.deep_view()[1] == contract.start@ + " [DIRSCRIBE]"@,
                decreases body@.len() - i,
            {
                let mut line = text::chars_of(contract.start.as_str());
                line.push(' ');
                text::append_str(&mut line, body[i].as_str());
                proof {
                    assert(line@ =~= contract.start@ + seq![' '] + body@[i as int]@);
                    assert(line.deep_view() =~= line@);
                }
                lines.push(line);
                i = i + 1;
            }
            let mut close_line = text::chars_of(contract.start.as_str());
            text::append_str(&mut close_line, " [/DIRSCRIBE]");
            proof {
                assert(close_line@ =~= contract.start@ + " [/DIRSCRIBE]"@);
            }
            lines.push(close_line);
            lines.push(text::chars_of(contract.start.as_str()));
            proof {
                assert(lines.deep_view() =~~= template_lines(
                    contract.start@,
                    contract.end_view(),
                    bs,
                ));
            }
        },
    }
    let joined = text::join_char(&lines, '\n');
    text::string_of(joined.as_slice())
}

/// The sentinel literals hold no newline and are their own trim.
proof fn lemma_sentinel_literals()
    ensures
        no_char("[DIRSCRIBE]"@, '\n'),
        no_char("[/DIRSCRIBE]"@, '\n'),
        trim_spec("[DIRSCRIBE]"@) == "[DIRSCRIBE]"@,
        trim_spec("[/DIRSCRIBE]"@) == "[/DIRSCRIBE]"@,
        " [DIRSCRIBE]"@ == seq![' '] + "[DIRSCRIBE]"@,
        " [/DIRSCRIBE]"@ == seq![' '] + "[/DIRSCRIBE]"@,
        "[DIRSCRIBE]"@.len() == 11,
        "[/DIRSCRIBE]"@.len() == 12,
        "[/DIRSCRIBE]"@[0] == '[',
        " [DIRSCRIBE]"@.len() == 12,
        " [/DIRSCRIBE]"@.len() == 13,
        !crate::text::is_space_spec(" [DIRSCRIBE]"@.last()),
        !crate::text::is_space_spec(" [/DIRSCRIBE]"@.last()),
{
    reveal_strlit("[DIRSCRIBE]");
    reveal_strlit("[/DIRSCRIBE]");
    reveal_strlit(" [DIRSCRIBE]");
    reveal_strlit(" [/DIRSCRIBE]");
    text::lemma_trim_fix("[DIRSCRIBE]"@);
    text::lemma_trim_fix("[/DIRSCRIBE]"@);
    assert(" [DIRSCRIBE]"@ =~= seq![' '] + "[DIRSCRIBE]"@);
    assert(" [/DIRSCRIBE]"@ =~= seq![' '] + "[/DIRSCRIBE]"@);
}

/// A delimiter that is its own nonempty trim, appended with a sentinel tail,
/// is still its own trim.
proof fn lemma_prefixed_trim(start: Seq<char>, tail: Seq<char>)
    requires
        start.len() > 0,
        trim_spec(start) == start,
        tail.len() > 0,
        !crate::text::is_space_spec(tail.last()),
    ensures
        trim_spec(start + tail) == start + tail,
{
    lemma_trim_head_char(start);
    assert((start + tail)[0] == start[0]);
    assert((start + tail).last() == tail.last());
    text::lemma_trim_fix(start + tail);
}

/// A nonempty trim-fixed text neither starts nor ends with whitespace.
proof fn lemma_trim_head_char(s: Seq<char>)
    requires
        s.len() > 0,
        trim_spec(s) == s,
    ensures
        !crate::text::is_space_spec(s[0]),
        !crate::text::is_space_spec(s.last()),
{
    if crate::text::is_space_spec(s[0]) {
        assert(crate::text::trim_start_spec(s) == crate::text::trim_start_spec(s.drop_first()));
        text::lemma_trim_start_len(s.drop_first());
        text::lemma_trim_end_len(crate::text::trim_start_spec(s));
        assert(trim_spec(s).len() < s.len());
    }
    if crate::text::is_space_spec(s.last()) {
        let t = crate::text::trim_start_spec(s);
        text::lemma_trim_start_suffix(s);
        let k = choose|k: int| 0 <= k <= s.len() && crate::text::trim_start_spec(s) == s.skip(k);
        if t.len() > 0 {
            assert(t.last() == s.last());
            assert(crate::text::trim_end_spec(t) == crate::text::trim_end_spec(t.drop_last()));
            text::lemma_trim_end_len(t.drop_last());
            assert(trim_spec(s).len() < s.len());
        } else {
            assert(trim_spec(s).len() == 0);
        }
    }
}

/// A summary built from a contract's structural template is accepted by the
/// validator, for any delimiters that are their own nonempty single-line
/// trim and any single-line body.
pub proof fn lemma_template_accepted(
    start: Seq<char>,
    end: Option<Seq<char>>,
    body: Seq<Seq<char>>,
)
    requires
        start.len() > 0,
        trim_spec(start) == start,
        no_char(start, '\n'),
        end matches Some(e) ==> e.len() > 0 && trim_spec(e) == e && no_char(e, '\n'),
        forall|i: int| 0 <= i < body.len() ==> no_char(#[trigger] body[i], '\n'),
    ensures
        summary_matches(spec_make_summary(start, end, body), start, end),
{
    lemma_sentinel_literals();
    lemma_trim_head_char(start);
    let ls = template_lines(start, end, body);
    let s = spec_make_summary(start, end, body);
    assert forall|i: int| 0 <= i < ls.len() implies no_char(#[trigger] ls[i], '\n') by {
        match end {
            Some(e) => {
                if i >= 2 && i < 2 + body.len() {
                    assert(ls[i] == body[i - 2]);
                }
            },
            None => {
                if i >= 2 && i < 2 + body.len() {
                    assert(ls[i] == start + seq![' '] + body[i - 2]);
                }
            },
        }
    }
    assert(ls.len() >= 4);
    assert(ls[0] == start);
    text::lemma_split_join(ls, '\n');
    assert(ls.last().len() > 0) by {
        match end {
            Some(e) => {
                assert(ls.last() == e);
            },
            None => {
                assert(ls.last() == start);
            },
        }
    }
    text::lemma_join_last(ls, '\n');
    assert(s[0] == ls[0][0]) by {
        assert(s == ls[0] + seq!['\n'] + join_spec(ls.drop_first(), '\n'));
    }
    assert(!crate::text::is_space_spec(s[0]));
    assert(!crate::text::is_space_spec(s.last())) by {
        match end {
            Some(e) => {
                lemma_trim_head_char(e);
            },
            None => {},
        }
    }
    text::lemma_trim_fix(s);
    assert(split_char_spec(trim_spec(s), '\n') == ls);
    match end {
        Some(e) => {
            assert(ls[1] == "[DIRSCRIBE]"@);
            assert(ls[ls.len() - 2] == "[/DIRSCRIBE]"@);
            assert(ls[ls.len() - 1] == e);
            assert(trim_spec(e) == e);
            assert(block_summary_ok(ls, start, e));
        },
        None => {
            assert(ls[1] == start + " [DIRSCRIBE]"@);
            assert(ls[ls.len() - 2] == start + " [/DIRSCRIBE]"@);
            assert(ls[ls.len() - 1] == start);
            lemma_prefixed_trim(start, " [DIRSCRIBE]"@);
            lemma_prefixed_trim(start, " [/DIRSCRIBE]"@);
            assert(line_summary_ok(ls, start));
        },
    }
}

/// Altering any one of the four sentinel lines of an accepted template makes
/// the validator reject it: the altered text no longer matches the contract.
pub proof fn lemma_altered_template_rejected(
    start: Seq<char>,
    end: Option<Seq<char>>,
    body: Seq<Seq<char>>,
    k: int,
    l2: Seq<char>,
)
    requires
        start.len() > 0,
        trim_spec(start) == start,
        no_char(start, '\n'),
        end matches Some(e) ==> e.len() > 0 && trim_spec(e) == e && no_char(e, '\n'),
        forall|i: int| 0 <= i < body.len() ==> no_char(#[trigger] body[i], '\n'),
        ({
            let ls = template_lines(start, end, body);
            (k == 0 || k == 1 || k == ls.len() - 2 || k == ls.len() - 1) && trim_spec(l2)
                != trim_spec(ls[k])
        }),
        l2.len() > 0,
        trim_spec(l2) == l2,
        no_char(l2, '\n'),
    ensures
        !summary_matches(
            join_spec(template_lines(start, end, body).update(k, l2), '\n'),
            start,
            end,
        ),
{
    lemma_sentinel_literals();
    lemma_trim_head_char(start);
    lemma_trim_head_char(l2);
    let ls0 = template_lines(start, end, body);
    let ls = ls0.update(k, l2);
    let s = join_spec(ls, '\n');
    assert forall|i: int| 0 <= i < ls.len() implies no_char(#[trigger] ls[i], '\n') by {
        if i == k {
        } else {
            assert(ls[i] == ls0[i]);
            match end {
                Some(e) => {
                    if i >= 2 && i < 2 + body.len() {
                        assert(ls0[i] == body[i - 2]);
                    }
                },
                None => {
                    if i >= 2 && i < 2 + body.len() {
                        assert(ls0[i] == start + seq![' '] + body[i - 2]);
                    }
                },
            }
        }
    }
    text::lemma_split_join(ls, '\n');
    assert(ls.last().len() > 0) by {
        if k == ls.len() - 1 {
            assert(ls.last() == l2);
        } else {
            assert(ls.last() == ls0.last());
            match end {
                Some(e) => {
                    assert(ls0.last() == e);
                },
                None => {
                    assert(ls0.last() == start);
                },
            }
        }
    }
    assert(ls[0].len() > 0 && !crate::text::is_space_spec(ls[0][0])) by {
        if k == 0 {
        } else {
            assert(ls[0] == start);
        }
    }
    text::lemma_join_last(ls, '\n');
    assert(s[0] == ls[0][0]) by {
        assert(s == ls[0] + seq!['\n'] + join_spec(ls.drop_first(), '\n'));
    }
    assert(!crate::text::is_space_spec(s.last())) by {
        if k == ls.len() - 1 {
            lemma_trim_head_char(l2);
        } else {
            match end {
                Some(e) => {
                    assert(ls.last() == e);
                    lemma_trim_head_char(e);
                },
                None => {
                    assert(ls.last() == start);
                },
            }
        }
    }
    text::lemma_trim_fix(s);
    assert(split_char_spec(trim_spec(s), '\n') == ls);
    let n = ls.len();
    assert(trim_spec(ls[k]) == l2);
    if summary_matches(s, start, end) {
        match end {
            Some(e) => {
                if k == 0 {
                    assert(trim_spec(ls[0]) == start && trim_spec(ls0[0]) == start);
                } else if k == 1 {
                    assert(trim_spec(ls[1]) == "[DIRSCRIBE]"@);
                    assert(trim_spec(ls0[1]) == "[DIRSCRIBE]"@);
                } else if k == n - 2 {
                    assert(trim_spec(ls[n - 2]) == "[/DIRSCRIBE]"@);
                    assert(trim_spec(ls0[n - 2]) == "[/DIRSCRIBE]"@);
                } else {
                    assert(trim_spec(ls[n - 1]) == e && trim_spec(ls0[n - 1]) == e);
                }
            },
            None => {
                lemma_prefixed_trim(start, " [DIRSCRIBE]"@);
                lemma_prefixed_trim(start, " [/DIRSCRIBE]"@);
                if k == 0 {
                    assert(trim_spec(ls[0]) == start && trim_spec(ls0[0]) == start);
                } else if k == 1 {
                    assert(trim_spec(ls[1]) == start + " [DIRSCRIBE]"@);
                    assert(trim_spec(ls0[1]) == start + " [DIRSCRIBE]"@);
                } else if k == n - 2 {
                    assert(trim_spec(ls[n - 2]) == start + " [/DIRSCRIBE]"@);
                    assert(trim_spec(ls0[n - 2]) == start + " [/DIRSCRIBE]"@);
                } else {
                    assert(trim_spec(ls[n - 1]) == start && trim_spec(ls0[n - 1]) == start);
                }
            },
        }
        assert(false);
    }
}

/// The lines of a text hold no newline, and no character the text is free
/// of.
proof fn lemma_lines_pieces(s: Seq<char>, c: char)
    ensures
        forall|i: int| 0 <= i < lines_spec(s).len() ==> no_char(#[trigger] lines_spec(s)[i], '\n'),
        no_char(s, c) ==> forall|i: int| 0 <= i < lines_spec(s).len() ==> no_char(
            #[trigger] lines_spec(s)[i],
            c,
        ),
{
    if s.len() > 0 {
        let p = split_char_spec(s, '\n');
        text::lemma_split_pieces(s, '\n', c);
        let q = if s.last() == '\n' {
            p.drop_last()
        } else {
            p
        };
        let ln = lines_spec(s);
        assert(ln == q.map_values(|l: Seq<char>| crate::text::strip_cr_spec(l)));
        assert forall|i: int| 0 <= i < ln.len() implies no_char(#[trigger] ln[i], '\n') by {
            assert(q[i] == p[i]);
            assert(no_char(p[i], '\n'));
            assert(ln[i] == crate::text::strip_cr_spec(p[i]));
        }
        if no_char(s, c) {
            assert forall|i: int| 0 <= i < ln.len() implies no_char(#[trigger] ln[i], c) by {
                assert(q[i] == p[i]);
                assert(no_char(p[i], c));
                assert(ln[i] == crate::text::strip_cr_spec(p[i]));
            }
        }
    }
}

/// The section filter only keeps lines of its input, so a character absent
/// from every line stays absent.
proof fn lemma_filter_pieces(ls: Seq<Seq<char>>, exclude: bool, i: int, in_ds: bool, c: char)
    requires
        forall|k: int| 0 <= k < ls.len() ==> no_char(#[trigger] ls[k], c),
    ensures
        forall|k: int| 0 <= k < filter_ds_from(ls, exclude, i, in_ds).len() ==> no_char(
            #[trigger] filter_ds_from(ls, exclude, i, in_ds)[k],
            c,
        ),
    decreases ls.len() - i,
{
    if 0 <= i < ls.len() {
        let starts = i < 2 && i + 1 < ls.len() && contains_sub(ls[i + 1], "[DIRSCRIBE]"@);
        let ends = !starts && in_ds && i > 0 && contains_sub(ls[i - 1], "[/DIRSCRIBE]"@);
        let next_in = if starts {
            true
        } else if ends {
            false
        } else {
            in_ds
        };
        lemma_filter_pieces(ls, exclude, i + 1, next_in, c);
        let rest = filter_ds_from(ls, exclude, i + 1, next_in);
        let r = filter_ds_from(ls, exclude, i, in_ds);
        if r != rest {
            assert(r == seq![ls[i]] + rest);
            assert forall|k: int| 0 <= k < r.len() implies no_char(#[trigger] r[k], c) by {
                if k == 0 {
                    assert(r[0] == ls[i]);
                } else {
                    assert(r[k] == rest[k - 1]);
                }
            }
        }
    }
}

/// Inside the block, before the closing sentinel has passed, every line is
/// dropped.
proof fn lemma_filter_inside(ls: Seq<Seq<char>>, i: int, n: int)
    requires
        3 <= n <= ls.len(),
        1 <= i <= n - 1,
        forall|k: int| 0 <= k < n - 2 ==> !contains_sub(#[trigger] ls[k], "[/DIRSCRIBE]"@),
    ensures
        filter_ds_from(ls, true, i, true) == filter_ds_from(ls, true, n - 1, true),
    decreases n - i,
{
    if i < n - 1 {
        assert(!contains_sub(ls[i - 1], "[/DIRSCRIBE]"@));
        lemma_filter_inside(ls, i + 1, n);
    }
}

/// Past the top of the file with the scan outside any block, every remaining
/// line is kept.
proof fn lemma_filter_after(ls: Seq<Seq<char>>, i: int)
    requires
        2 <= i <= ls.len(),
    ensures
        filter_ds_from(ls, true, i, false) == ls.skip(i),
    decreases ls.len() - i,
{
    if i == ls.len() {
        assert(ls.skip(i) =~~= Seq::<Seq<char>>::empty());
    } else {
        lemma_filter_after(ls, i + 1);
        assert(seq![ls[i]] + ls.skip(i + 1) =~~= ls.skip(i));
    }
}

/// Stripping removes exactly the block at the top of the file: with the
/// opening sentinel on the second line and the closing sentinel first
/// appearing on line `n - 2`, the filter keeps exactly the lines after line
/// `n - 1`.
pub proof fn lemma_strip_block(ls: Seq<Seq<char>>, n: int)
    requires
        3 <= n <= ls.len(),
        contains_sub(ls[1], "[DIRSCRIBE]"@),
        forall|k: int| 0 <= k < n - 2 ==> !contains_sub(#[trigger] ls[k], "[/DIRSCRIBE]"@),
        contains_sub(ls[n - 2], "[/DIRSCRIBE]"@),
    ensures
        filter_ds_from(ls, true, 0, false) == ls.skip(n),
{
    assert(filter_ds_from(ls, true, 0, false) == filter_ds_from(ls, true, 1, true));
    lemma_filter_inside(ls, 1, n);
    assert(filter_ds_from(ls, true, n - 1, true) == filter_ds_from(ls, true, n, false));
    lemma_filter_after(ls, n);
}

/// A line whose trim carries the opening or closing sentinel contains it.
proof fn lemma_trimmed_sentinel_contained(l: Seq<char>, pat: Seq<char>, j: int)
    requires
        is_match_at(trim_spec(l), pat, j),
    ensures
        contains_sub(l, pat),
{
    text::lemma_trim_is_match(l);
    let i = choose|i: int| is_match_at(l, trim_spec(l), i);
    text::lemma_contains_trans(l, trim_spec(l), pat, i, j);
}

/// Applying a summary is idempotent: applying the same validated summary to
/// an already-applied file gives exactly the file that applying it to the
/// untouched content gives — only the timestamp line differs between runs.
/// The summary must be its own trim, free of carriage returns, and its lines
/// before the closing sentinel must not mention the closing sentinel; the
/// content must be free of carriage returns and must not leave a trailing
/// empty line after stripping; the first run's timestamp line must be a
/// single line without sentinel brackets.
pub proof fn lemma_apply_idempotent(
    summary: Seq<char>,
    content: Seq<char>,
    start: Seq<char>,
    end: Option<Seq<char>>,
    ts1: Seq<char>,
    ts2: Seq<char>,
)
    requires
        summary_matches(summary, start, end),
        trim_spec(summary) == summary,
        no_char(summary, '\r'),
        no_char(content, '\r'),
        no_char(ts1, '\n'),
        no_char(ts1, '['),
        no_char(ts1, '\r'),
        forall|k: int| 0 <= k < split_char_spec(summary, '\n').len() - 2 ==> !contains_sub(
            #[trigger] split_char_spec(summary, '\n')[k],
            "[/DIRSCRIBE]"@,
        ),
        ({
            let fl = filter_ds_from(lines_spec(content), true, 0, false);
            fl.len() == 0 || fl.last().len() > 0
        }),
    ensures
        applied_content_spec(summary, ts2, applied_content_spec(summary, ts1, content))
            == applied_content_spec(summary, ts2, content),
{
    lemma_sentinel_literals();
    let sl = split_char_spec(summary, '\n');
    let n0 = sl.len();
    assert(n0 >= 4);
    assert(summary.len() > 0) by {
        if summary.len() == 0 {
            assert(trim_spec(summary) == summary);
            assert(split_char_spec(summary, '\n').len() == 1);
        }
    }
    lemma_trim_head_char(summary);
    assert(summary.last() != '\n');
    text::lemma_lines_eq_split(summary);
    assert(lines_spec(summary) == sl);

    // The block as written: the summary's lines with the timestamp inserted.
    let b = sl.insert(n0 - 2, ts1);
    let nb = n0 + 1;
    assert(b.len() == nb);
    assert(b == sl.subrange(0, n0 - 2).push(ts1) + sl.subrange(n0 - 2, n0 as int));
    assert forall|i: int| 0 <= i < n0 - 2 implies b[i] == sl[i] by {}
    assert(b[n0 - 2] == ts1);
    assert(b[n0 - 1] == sl[n0 - 2]);
    assert(b[n0 as int] == sl[n0 - 1]);

    text::lemma_split_pieces(summary, '\n', '\r');
    assert forall|i: int| 0 <= i < b.len() implies no_char(#[trigger] b[i], '\n') && no_char(
        #[trigger] b[i],
        '\r',
    ) by {
        if i < n0 - 2 {
            assert(b[i] == sl[i]);
        } else if i == n0 - 2 {
        } else {
            assert(b[i] == sl[i - 1]);
        }
    }

    // The block's sentinel layout.
    assert(contains_sub(b[1], "[DIRSCRIBE]"@)) by {
        assert(b[1] == sl[1]);
        match end {
            Some(e) => {
                assert(trim_spec(sl[1]) == "[DIRSCRIBE]"@);
                assert(is_match_at(trim_spec(sl[1]), "[DIRSCRIBE]"@, 0)) by {
                    assert(trim_spec(sl[1]).subrange(0, 11) =~= trim_spec(sl[1]));
                }
            },
            None => {
                assert(trim_spec(sl[1]) == start + " [DIRSCRIBE]"@);
                assert(is_match_at(trim_spec(sl[1]), "[DIRSCRIBE]"@, start.len() as int + 1)) by {
                    assert(trim_spec(sl[1]).subrange(
                        start.len() as int + 1,
                        start.len() as int + 12,
                    ) =~= "[DIRSCRIBE]"@);
                }
            },
        }
        let j1: int = if end is Some {
            0
        } else {
            start.len() as int + 1
        };
        lemma_trimmed_sentinel_contained(sl[1], "[DIRSCRIBE]"@, j1);
    }
    assert forall|k: int| 0 <= k < nb - 2 implies !contains_sub(
        #[trigger] b[k],
        "[/DIRSCRIBE]"@,
    ) by {
        if k < n0 - 2 {
            assert(b[k] == sl[k]);
        } else {
            assert(b[k] == ts1);
            text::lemma_no_char_no_match(ts1, "[/DIRSCRIBE]"@, '[', 0);
        }
    }
    assert(contains_sub(b[nb - 2], "[/DIRSCRIBE]"@)) by {
        assert(b[nb - 2] == sl[n0 - 2]);
        match end {
            Some(e) => {
                assert(trim_spec(sl[n0 - 2]) == "[/DIRSCRIBE]"@);
                assert(is_match_at(trim_spec(sl[n0 - 2]), "[/DIRSCRIBE]"@, 0)) by {
                    assert(trim_spec(sl[n0 - 2]).subrange(0, 12) =~= trim_spec(sl[n0 - 2]));
                }
            },
            None => {
                assert(trim_spec(sl[n0 - 2]) == start + " [/DIRSCRIBE]"@);
                assert(is_match_at(trim_spec(sl[n0 - 2]), "[/DIRSCRIBE]"@, start.len() as int + 1)) by {
                    assert(trim_spec(sl[n0 - 2]).subrange(
                        start.len() as int + 1,
                        start.len() as int + 13,
                    ) =~= "[/DIRSCRIBE]"@);
                }
            },
        }
        let j2: int = if end is Some {
            0
        } else {
            start.len() as int + 1
        };
        lemma_trimmed_sentinel_contained(sl[n0 - 2], "[/DIRSCRIBE]"@, j2);
    }

    // The first application.
    let s1 = filter_ds_spec(content, true);
    let jb = join_spec(b, '\n');
    let new1 = applied_content_spec(summary, ts1, content);
    assert(with_timestamp_spec(summary, ts1) == jb);
    assert(new1 == jb + seq!['\n'] + s1);
    text::lemma_join_no_char(b, '\n', '\r');
    text::lemma_split_join(b, '\n');

    // The stripped remainder and its lines.
    let cls = lines_spec(content);
    let fl = filter_ds_from(cls, true, 0, false);
    lemma_lines_pieces(content, '\r');
    lemma_filter_pieces(cls, true, 0, false, '\r');

    if cls.len() == 0 || fl.len() == 0 {
        assert(s1.len() == 0) by {
            if cls.len() != 0 {
                assert(s1 == join_spec(fl, '\n'));
            }
        }
        assert(new1 =~= jb + seq!['\n']);
        assert(new1.len() > 0 && new1.last() == '\n');
        assert(no_char(new1, '\r')) by {
            assert forall|i: int| 0 <= i < new1.len() implies new1[i] != '\r' by {
                if i < jb.len() {
                    assert(new1[i] == jb[i]);
                }
            }
        }
        text::lemma_lines_trailing_newline(new1);
        assert(split_char_spec(new1, '\n') == b + seq![Seq::<char>::empty()]) by {
            assert(new1 =~= jb + seq!['\n'] + Seq::<char>::empty());
            text::lemma_split_concat(jb, Seq::<char>::empty(), '\n');
            assert(split_char_spec(Seq::<char>::empty(), '\n') == seq![Seq::<char>::empty()]);
        }
        assert(lines_spec(new1) =~~= b);
        lemma_strip_block(b, nb as int);
        assert(b.skip(nb as int) =~~= Seq::<Seq<char>>::empty());
        assert(filter_ds_spec(new1, true) =~= s1) by {
            assert(lines_spec(new1).len() != 0);
            assert(join_spec(Seq::<Seq<char>>::empty(), '\n') == Seq::<char>::empty());
        }
    } else {
        assert(s1 == join_spec(fl, '\n'));
        assert(fl.last().len() > 0);
        text::lemma_join_last(fl, '\n');
        assert(forall|k: int| 0 <= k < fl.len() ==> no_char(#[trigger] fl[k], '\n')) by {
            lemma_filter_pieces(cls, true, 0, false, '\n');
            assert(forall|k: int| 0 <= k < cls.len() ==> no_char(#[trigger] cls[k], '\n'));
        }
        assert(s1.last() != '\n');
        text::lemma_join_no_char(fl, '\n', '\r');
        assert(new1.len() > 0 && new1.last() == s1.last());
        assert(no_char(new1, '\r')) by {
            assert forall|i: int| 0 <= i < new1.len() implies new1[i] != '\r' by {
                if i < jb.len() {
                    assert(new1[i] == jb[i]);
                } else if i == jb.len() {
                    assert(new1[i] == '\n');
                } else {
                    assert(new1[i] == s1[i - jb.len() - 1]);
                }
            }
        }
        text::lemma_lines_eq_split(new1);
        text::lemma_split_concat(jb, s1, '\n');
        text::lemma_split_join(fl, '\n');
        assert(lines_spec(new1) == b + fl);
        let l2 = b + fl;
        assert(l2[1] == b[1]);
        assert forall|k: int| 0 <= k < nb - 2 implies !contains_sub(
            #[trigger] l2[k],
            "[/DIRSCRIBE]"@,
        ) by {
            assert(l2[k] == b[k]);
        }
        assert(l2[nb - 2] == b[nb - 2]);
        lemma_strip_block(l2, nb as int);
        assert(l2.skip(nb as int) =~~= fl);
        assert(filter_ds_spec(new1, true) == s1) by {
            assert(lines_spec(new1).len() != 0);
        }
    }

    // The second application rewrites exactly the first block.
    assert(applied_content_spec(summary, ts2, new1) == with_timestamp_spec(summary, ts2)
        + seq!['\n'] + s1);
    assert(applied_content_spec(summary, ts2, content) == with_timestamp_spec(summary, ts2)
        + seq!['\n'] + s1);
}

} // verus!
