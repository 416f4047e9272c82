//! Structural validation of generated summaries: a summary must be shaped as
//! a comment for the file's extension, with the sentinel lines `[DIRSCRIBE]`
//! and `[/DIRSCRIBE]` in fixed positions. Unknown extensions are rejected
//! outright.

use vstd::prelude::*;
use crate::registry::{CommentContract, spec_contract_for};
use crate::text;
use crate::text::{
    contains_sub, is_space_spec, split_char_spec, trim_spec, trim_start_spec,
};

verus! {

/// Does `s` begin with `p`?
pub open spec fn starts_with_spec(s: Seq<char>, p: Seq<char>) -> bool {
    s.len() >= p.len() && s.subrange(0, p.len() as int) == p
}

/// A block-mode summary: at least four lines; the first line is the start
/// delimiter, the second the opening sentinel, the second-to-last the closing
/// sentinel, and the last the end delimiter — each compared after trimming.
pub open spec fn block_summary_ok(ls: Seq<Seq<char>>, start: Seq<char>, end: Seq<char>) -> bool {
    &&& ls.len() >= 4
    &&& trim_spec(ls[0]) == start
    &&& trim_spec(ls[1]) == "[DIRSCRIBE]"@
    &&& trim_spec(ls[ls.len() - 2]) == "[/DIRSCRIBE]"@
    &&& trim_spec(ls[ls.len() - 1]) == end
}

/// A per-line summary: at least four lines; the first and last lines are the
/// prefix alone, and the sentinel lines carry the prefix.
pub open spec fn line_summary_ok(ls: Seq<Seq<char>>, start: Seq<char>) -> bool {
    &&& ls.len() >= 4
    &&& trim_spec(ls[0]) == start
    &&& trim_spec(ls[1]) == start + " [DIRSCRIBE]"@
    &&& trim_spec(ls[ls.len() - 2]) == start + " [/DIRSCRIBE]"@
    &&& trim_spec(ls[ls.len() - 1]) == start
}

/// Does the text, trimmed and split on newlines, satisfy the given contract?
pub open spec fn summary_matches(text: Seq<char>, start: Seq<char>, end: Option<Seq<char>>) -> bool {
    let ls = split_char_spec(trim_spec(text), '\n');
    match end {
        Some(e) => block_summary_ok(ls, start, e),
        None => line_summary_ok(ls, start),
    }
}

/// Checks `s` against the structural contract: the exact delimiter and
/// sentinel lines in the four fixed positions.
pub fn validate_summary(s: &str, contract: &CommentContract) -> (r: bool)
    ensures
        r == summary_matches(s@, contract.start@, contract.end_view()),
{
    let cs = text::chars_of(s);
    let trimmed = text::trim(cs.as_slice());
    let ls = text::split_char(trimmed.as_slice(), '\n');
    proof {
        text::lemma_split_nonempty(trim_spec(s@), '\n');
    }
    if ls.len() < 4 {
        return false;
    }
    let start_chars = text::chars_of(contract.start.as_str());
    let line0 = text::trim(ls[0].as_slice());
    let line1 = text::trim(ls[1].as_slice());
    let line_pen = text::trim(ls[ls.len() - 2].as_slice());
    let line_last = text::trim(ls[ls.len() - 1].as_slice());
    proof {
        assert(ls.deep_view()[0] == ls@[0]@);
        assert(ls.deep_view()[1] == ls@[1]@);
        assert(ls.deep_view()[ls@.len() - 2] == ls@[ls@.len() - 2]@);
        assert(ls.deep_view()[ls@.len() - 1] == ls@[ls@.len() - 1]@);
    }
    match &contract.end {
        crate::registry::CommentEnd::Block(end) => {
            let end_chars = text::chars_of(end.as_str());
            text::eq_chars(line0.as_slice(), start_chars.as_slice()) && text::eq_str(
                line1.as_slice(),
                "[DIRSCRIBE]",
            ) && text::eq_str(line_pen.as_slice(), "[/DIRSCRIBE]") && text::eq_chars(
                line_last.as_slice(),
                end_chars.as_slice(),
            )
        },
        crate::registry::CommentEnd::PerLine => {
            let mut open_line = start_chars.clone();
            text::append_str(&mut open_line, " [DIRSCRIBE]");
            let mut close_line = start_chars.clone();
            text::append_str(&mut close_line, " [/DIRSCRIBE]");
            text::eq_chars(line0.as_slice(), start_chars.as_slice()) && text::eq_chars(
                line1.as_slice(),
                open_line.as_slice(),
            ) && text::eq_chars(line_pen.as_slice(), close_line.as_slice()) && text::eq_chars(
                line_last.as_slice(),
                start_chars.as_slice(),
            )
        },
    }
}

/// The index of the last occurrence of `c` in `s`, if any.
pub open spec fn rfind_spec(s: Seq<char>, c: char) -> Option<int>
    decreases s.len(),
{
    if s.len() == 0 {
        None
    } else if s.last() == c {
        Some(s.len() - 1)
    } else {
        rfind_spec(s.drop_last(), c)
    }
}

/// Finds the last occurrence of `c` in `s`.
pub fn rfind(s: &[char], c: char) -> (r: Option<usize>)
    ensures
        match r {
            Some(i) => i < s@.len() && rfind_spec(s@, c) == Some(i as int),
            None => rfind_spec(s@, c) is None,
        },
{
    let mut i: usize = s.len();
    proof {
        assert(s@.subrange(0, s@.len() as int) =~= s@);
    }
    while i > 0
        invariant
            i <= s@.len(),
            rfind_spec(s@, c) == rfind_spec(s@.subrange(0, i as int), c),
        decreases i,
    {
        if s[i - 1] == c {
            proof {
                assert(s@.subrange(0, i as int).last() == s@[i - 1]);
            }
            return Some(i - 1);
        }
        proof {
            assert(s@.subrange(0, i as int).drop_last() =~= s@.subrange(0, i as int - 1));
        }
        i = i - 1;
    }
    None
}

/// The final path component: everything after the last `'/'`.
pub open spec fn last_component_spec(p: Seq<char>) -> Seq<char> {
    match rfind_spec(p, '/') {
        Some(i) => p.skip(i + 1),
        None => p,
    }
}

/// The extension of a path: the part of its final component after the last
/// `'.'`, provided that dot is not the component's first character; empty
/// when there is none.
pub open spec fn extension_spec(p: Seq<char>) -> Seq<char> {
    let name = last_component_spec(p);
    match rfind_spec(name, '.') {
        Some(i) => if i > 0 {
            name.skip(i + 1)
        } else {
            Seq::<char>::empty()
        },
        None => Seq::<char>::empty(),
    }
}

/// Extracts the extension of a path, as `extension_spec` describes.
pub fn extension_of(path: &[char]) -> (r: Vec<char>)
    ensures
        r@ == extension_spec(path@),
{
    let name_start: usize = match rfind(path, '/') {
        Some(i) => i + 1,
        None => 0,
    };
    let name = vstd::slice::slice_subrange(path, name_start, path.len());
    proof {
        assert(name@ =~= last_component_spec(path@));
    }
    match rfind(name, '.') {
        Some(i) => {
            if i > 0 {
                let ext = vstd::slice::slice_subrange(name, i + 1, name.len());
                proof {
                    assert(ext@ =~= extension_spec(path@));
                }
                let mut r: Vec<char> = Vec::new();
                text::append_slice(&mut r, ext);
                proof {
                    assert(r@ =~= ext@);
                }
                r
            } else {
                Vec::new()
            }
        },
        None => Vec::new(),
    }
}

/// Is the summary structurally valid for this file? The extension is looked
/// up in the registry; a file whose extension has no entry is rejected.
pub open spec fn check_summary_spec(path: Seq<char>, s: Seq<char>) -> bool {
    match spec_contract_for(extension_spec(path)) {
        Some((start, end)) => summary_matches(s, start, end),
        None => false,
    }
}

/// Validates a generated summary against the comment contract of the file's
/// extension; a file with no registry entry is rejected outright.
pub fn check_summary(file_path: &str, s: &str) -> (r: bool)
    ensures
        r == check_summary_spec(file_path@, s@),
{
    let p = text::chars_of(file_path);
    let ext = extension_of(p.as_slice());
    match crate::registry::comment_contract_for_chars(&ext) {
        Some(contract) => validate_summary(s, &contract),
        None => false,
    }
}

/// Every line, after leading whitespace, starts with the comment marker the
/// first line announces: `#` when the first line starts with `#`, `//`
/// otherwise.
pub open spec fn check_prefix_spec(s: Seq<char>) -> bool {
    let ls = split_char_spec(s, '\n');
    let is_hash = starts_with_spec(trim_start_spec(ls[0]), "#"@);
    let pre: Seq<char> = if is_hash {
        "#"@
    } else {
        "//"@
    };
    forall|i: int| 0 <= i < ls.len() ==> starts_with_spec(trim_start_spec(#[trigger] ls[i]), pre)
}

/// The index of the first non-whitespace character (the length when all are).
fn skip_spaces(s: &[char]) -> (r: usize)
    ensures
        r <= s@.len(),
        s@.skip(r as int) == trim_start_spec(s@),
{
    let mut i: usize = 0;
    proof {
        assert(s@.skip(0) =~= s@);
    }
    while i < s.len() && text::is_space(s[i])
        invariant
            i <= s@.len(),
            trim_start_spec(s@) == trim_start_spec(s@.skip(i as int)),
        decreases s@.len() - i,
    {
        proof {
            assert(s@.skip(i as int).drop_first() =~= s@.skip(i as int + 1));
        }
        i = i + 1;
    }
    proof {
        assert(trim_start_spec(s@.skip(i as int)) == s@.skip(i as int));
    }
    i
}

fn line_has_prefix(l: &[char], hash: bool) -> (r: bool)
    ensures
        r == starts_with_spec(trim_start_spec(l@), if hash {
            "#"@
        } else {
            "//"@
        }),
{
    let start = skip_spaces(l);
    let rest = vstd::slice::slice_subrange(l, start, l.len());
    if hash {
        let p = text::chars_of("#");
        text::starts_with(rest, p.as_slice())
    } else {
        let p = text::chars_of("//");
        text::starts_with(rest, p.as_slice())
    }
}

/// The loose fallback: does every line of `s` begin (after indentation) with
/// the comment marker announced by the first line?
pub fn check_prefix(s: &str) -> (r: bool)
    ensures
        r == check_prefix_spec(s@),
{
    let cs = text::chars_of(s);
    let ls = text::split_char(cs.as_slice(), '\n');
    proof {
        text::lemma_split_nonempty(s@, '\n');
        assert(ls.deep_view()[0] == ls@[0]@);
    }
    let first_start = skip_spaces(ls[0].as_slice());
    let rest0 = vstd::slice::slice_subrange(ls[0].as_slice(), first_start, ls[0].len());
    let hp = text::chars_of("#");
    let is_hash = text::starts_with(rest0, hp.as_slice());
    let mut i: usize = 0;
    while i < ls.len()
        invariant
            i <= ls@.len(),
            ls.deep_view() == split_char_spec(s@, '\n'),
            ls.deep_view().len() == ls@.len(),
            is_hash == starts_with_spec(trim_start_spec(ls.deep_view()[0]), "#"@),
            forall|j: int| 0 <= j < i ==> starts_with_spec(
                trim_start_spec(#[trigger] ls.deep_view()[j]),
                if is_hash {
                    "#"@
                } else {
                    "//"@
                },
            ),
        decreases ls@.len() - i,
    {
        proof {
            assert(ls.deep_view()[i as int] == ls@[i as int]@);
        }
        if !line_has_prefix(ls[i].as_slice(), is_hash) {
            return false;
        }
        i = i + 1;
    }
    true
}

} // verus!
