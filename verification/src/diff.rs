//! Extracting one file's section from a unified diff: the lines from a
//! `diff --git` header that names the file through to the next header.

use vstd::prelude::*;
use crate::text;
use crate::text::{contains_sub, join_spec, lines_spec};
use crate::validate::{last_component_spec, starts_with_spec};

verus! {

/// One pass over the diff's lines from line `i` onward, carrying whether the
/// scan stands inside a section for the wanted file. A `diff --git` header
/// opens a section for the file iff it mentions the file's name; other lines
/// follow the section they stand in.
pub open spec fn filter_diff_from(ls: Seq<Seq<char>>, name: Seq<char>, i: int, cur: bool) -> Seq<
    Seq<char>,
>
    decreases ls.len() - i,
{
    if i < 0 || i >= ls.len() {
        Seq::<Seq<char>>::empty()
    } else {
        let is_header = starts_with_spec(ls[i], "diff --git"@);
        let next_cur = if is_header {
            contains_sub(ls[i], name)
        } else {
            cur
        };
        let rest = filter_diff_from(ls, name, i + 1, next_cur);
        if next_cur {
            seq![ls[i]] + rest
        } else {
            rest
        }
    }
}

/// The lines of the diff that belong to the named file's sections, joined.
pub open spec fn filter_diff_spec(diff: Seq<char>, path: Seq<char>) -> Seq<char> {
    join_spec(filter_diff_from(lines_spec(diff), last_component_spec(path), 0, false), '\n')
}

/// Keeps the sections of a unified diff that mention the file's name in
/// their `diff --git` header.
pub fn filter_diff_for_file(diff_str: &str, file_path: &str) -> (r: String)
    ensures
        r@ == filter_diff_spec(diff_str@, file_path@),
{
    let dc = text::chars_of(diff_str);
    let ls = text::lines_of(dc.as_slice());
    let pc = text::chars_of(file_path);
    let pn = pc.len();
    let name_start: usize = match crate::validate::rfind(pc.as_slice(), '/') {
        Some(i) => i + 1,
        None => 0,
    };
    let name = vstd::slice::slice_subrange(pc.as_slice(), name_start, pn);
    proof {
        assert(name@ =~= last_component_spec(file_path@));
    }
    let header = text::chars_of("diff --git");
    let ghost d = ls.deep_view();
    let ghost nm = name@;
    let mut out: Vec<Vec<char>> = Vec::new();
    let mut cur = false;
    let mut i: usize = 0;
    proof {
        assert(out.deep_view() + filter_diff_from(d, nm, 0, false) =~~= filter_diff_from(
            d,
            nm,
            0,
            false,
        ));
    }
    while i < ls.len()
        invariant
            d == ls.deep_view(),
            d.len() == ls@.len(),
            nm == name@,
            header@ == "diff --git"@,
            i <= ls@.len(),
            filter_diff_from(d, nm, 0, false) == out.deep_view() + filter_diff_from(
                d,
                nm,
                i as int,
                cur,
            ),
        decreases ls@.len() - i,
    {
        proof {
            assert(d[i as int] == ls@[i as int]@);
        }
        let is_header = text::starts_with(ls[i].as_slice(), header.as_slice());
        if is_header {
            cur = text::contains(ls[i].as_slice(), name);
        }
        let ghost old_dv = out.deep_view();
        if cur {
            let mut line: Vec<char> = Vec::new();
            text::append_slice(&mut line, ls[i].as_slice());
            proof {
                assert(line.deep_view() =~= line@);
            }
            out.push(line);
        }
        i = i + 1;
        proof {
            if cur {
                assert(out.deep_view() =~~= old_dv.push(d[i - 1]));
                assert(out.deep_view() + filter_diff_from(d, nm, i as int, cur) =~~= old_dv + (seq![
                    d[i - 1],
                ] + filter_diff_from(d, nm, i as int, cur)));
            }
        }
    }
    proof {
        assert(filter_diff_from(d, nm, ls@.len() as int, cur) =~~= Seq::<Seq<char>>::empty());
        assert(out.deep_view() + Seq::<Seq<char>>::empty() =~~= out.deep_view());
    }
    let joined = text::join_char(&out, '\n');
    text::string_of(joined.as_slice())
}

} // verus!
