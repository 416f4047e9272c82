//! File-level decisions around the engine: the keyword filter that admits a
//! file into the batch, and the assembly of the final report blob.

use vstd::prelude::*;
use crate::text;
use crate::text::contains_sub;

verus! {

/// Does the content contain the keyword?
pub open spec fn has_keyword(content: Seq<char>, kw: Seq<char>) -> bool {
    contains_sub(content, kw)
}

/// Is the file admitted by the keyword filters? No exclude keyword may
/// occur; when any `or` keywords are given at least one must occur; when any
/// `and` keywords are given all must occur.
pub open spec fn spec_check_for_keywords(
    content: Seq<char>,
    ors: Seq<Seq<char>>,
    ands: Seq<Seq<char>>,
    excludes: Seq<Seq<char>>,
) -> bool {
    &&& !(exists|i: int| 0 <= i < excludes.len() && has_keyword(content, #[trigger] excludes[i]))
    &&& (ors.len() > 0 ==> exists|i: int|
        0 <= i < ors.len() && has_keyword(content, #[trigger] ors[i]))
    &&& (ands.len() > 0 ==> forall|i: int|
        0 <= i < ands.len() ==> has_keyword(content, #[trigger] ands[i]))
}

fn any_keyword(content: &[char], kws: &Vec<String>) -> (r: bool)
    ensures
        r == exists|i: int| 0 <= i < kws@.len() && has_keyword(content@, #[trigger] kws@[i]@),
{
    let mut i: usize = 0;
    while i < kws.len()
        invariant
            i <= kws@.len(),
            forall|j: int| 0 <= j < i ==> !has_keyword(content@, #[trigger] kws@[j]@),
        decreases kws@.len() - i,
    {
        let kc = text::chars_of(kws[i].as_str());
        if text::contains(content, kc.as_slice()) {
            return true;
        }
        i = i + 1;
    }
    false
}

fn all_keywords(content: &[char], kws: &Vec<String>) -> (r: bool)
    ensures
        r == forall|i: int| 0 <= i < kws@.len() ==> has_keyword(content@, #[trigger] kws@[i]@),
{
    let mut i: usize = 0;
    while i < kws.len()
        invariant
            i <= kws@.len(),
            forall|j: int| 0 <= j < i ==> has_keyword(content@, #[trigger] kws@[j]@),
        decreases kws@.len() - i,
    {
        let kc = text::chars_of(kws[i].as_str());
        if !text::contains(content, kc.as_slice()) {
            return false;
        }
        i = i + 1;
    }
    true
}

/// Decides whether a file's content passes the keyword filters.
pub fn check_for_keywords(
    contents: &str,
    or_keywords: &Vec<String>,
    and_keywords: &Vec<String>,
    exclude_keywords: &Vec<String>,
) -> (r: bool)
    ensures
        r == spec_check_for_keywords(
            contents@,
            or_keywords@.map_values(|s: String| s@),
            and_keywords@.map_values(|s: String| s@),
            exclude_keywords@.map_values(|s: String| s@),
        ),
{
    let cs = text::chars_of(contents);
    let ghost ors = or_keywords@.map_values(|s: String| s@);
    let ghost ands = and_keywords@.map_values(|s: String| s@);
    let ghost excludes = exclude_keywords@.map_values(|s: String| s@);
    if any_keyword(cs.as_slice(), exclude_keywords) {
        proof {
            assert(exists|i: int| 0 <= i < excludes.len() && has_keyword(
                contents@,
                #[trigger] excludes[i],
            )) by {
                let i = choose|i: int|
                    0 <= i < exclude_keywords@.len() && has_keyword(
                        cs@,
                        #[trigger] exclude_keywords@[i]@,
                    );
                assert(excludes[i] == exclude_keywords@[i]@);
            }
        }
        return false;
    }
    if or_keywords.len() > 0 {
        if !any_keyword(cs.as_slice(), or_keywords) {
            proof {
                assert forall|i: int| 0 <= i < ors.len() implies !has_keyword(
                    contents@,
                    #[trigger] ors[i],
                ) by {
                    assert(ors[i] == or_keywords@[i]@);
                }
            }
            return false;
        }
    }
    if and_keywords.len() > 0 {
        if !all_keywords(cs.as_slice(), and_keywords) {
            proof {
                assert(exists|i: int| 0 <= i < ands.len() && !has_keyword(
                    contents@,
                    #[trigger] ands[i],
                )) by {
                    let i = choose|i: int|
                        0 <= i < and_keywords@.len() && !has_keyword(
                            cs@,
                            #[trigger] and_keywords@[i]@,
                        );
                    assert(ands[i] == and_keywords@[i]@);
                }
            }
            return false;
        }
    }
    proof {
        assert forall|i: int| 0 <= i < excludes.len() implies !has_keyword(
            contents@,
            #[trigger] excludes[i],
        ) by {
            assert(excludes[i] == exclude_keywords@[i]@);
        }
        if or_keywords@.len() > 0 {
            let i = choose|i: int|
                0 <= i < or_keywords@.len() && has_keyword(cs@, #[trigger] or_keywords@[i]@);
            assert(ors[i] == or_keywords@[i]@);
        }
        if and_keywords@.len() > 0 {
            assert forall|i: int| 0 <= i < ands.len() implies has_keyword(
                contents@,
                #[trigger] ands[i],
            ) by {
                assert(ands[i] == and_keywords@[i]@);
            }
        }
    }
    true
}

/// One file's section of the report: a blank line, the label, the path, a
/// blank line, the body, and a final newline.
pub open spec fn spec_report_sections(
    files: Seq<Seq<char>>,
    bodies: Seq<Seq<char>>,
    label: Seq<char>,
) -> Seq<char>
    decreases files.len(),
{
    if files.len() == 0 {
        Seq::<char>::empty()
    } else {
        seq!['\n'] + label + files[0] + ":\n\n"@ + bodies[0] + seq!['\n']
            + spec_report_sections(files.drop_first(), bodies.drop_first(), label)
    }
}

/// The section label for the operating mode.
pub open spec fn spec_report_label(summarize: bool, diff_only: bool) -> Seq<char> {
    if summarize {
        "Summary of "@
    } else if diff_only {
        "Diff of "@
    } else {
        "File Content of "@
    }
}

/// The whole report: the file paths, the list header, and one section per
/// file in input order.
pub open spec fn spec_report(
    files: Seq<Seq<char>>,
    bodies: Seq<Seq<char>>,
    summarize: bool,
    diff_only: bool,
) -> Seq<char>
    decreases files.len(),
{
    spec_report_paths(files) + (if summarize {
        "\nFile Summaries:\n\n"@
    } else {
        "\nFile Contents:\n\n"@
    }) + spec_report_sections(files, bodies, spec_report_label(summarize, diff_only))
}

/// The path list at the top of the report.
pub open spec fn spec_report_paths(files: Seq<Seq<char>>) -> Seq<char>
    decreases files.len(),
{
    if files.len() == 0 {
        "File Paths:\n"@
    } else {
        spec_report_paths(files.drop_last()) + files.last() + seq!['\n']
    }
}

/// Assembles the final report blob: the path list, the mode's header, and
/// each file's section in input order.
pub fn build_report(
    valid_files: &Vec<String>,
    bodies: &Vec<String>,
    summarize: bool,
    diff_only: bool,
) -> (r: String)
    requires
        valid_files@.len() == bodies@.len(),
    ensures
        r@ == spec_report(
            valid_files@.map_values(|s: String| s@),
            bodies@.map_values(|s: String| s@),
            summarize,
            diff_only,
        ),
{
    let ghost fs = valid_files@.map_values(|s: String| s@);
    let ghost bs = bodies@.map_values(|s: String| s@);
    let mut out = text::chars_of("File Paths:\n");
    let mut i: usize = 0;
    proof {
        assert(fs.subrange(0, 0) =~~= Seq::<Seq<char>>::empty());
        assert(out@ =~= spec_report_paths(fs.subrange(0, 0)));
    }
    while i < valid_files.len()
        invariant
            fs == valid_files@.map_values(|s: String| s@),
            i <= valid_files@.len(),
            out@ == spec_report_paths(fs.subrange(0, i as int)),
        decreases valid_files@.len() - i,
    {
        text::append_str(&mut out, valid_files[i].as_str());
        out.push('\n');
        i = i + 1;
        proof {
            assert(fs.subrange(0, i as int).drop_last() =~~= fs.subrange(0, i as int - 1));
            assert(fs.subrange(0, i as int).last() == fs[i - 1]);
            assert(fs[i - 1] == valid_files@[i - 1]@);
            assert(out@ =~= spec_report_paths(fs.subrange(0, i as int)));
        }
    }
    proof {
        assert(fs.subrange(0, fs.len() as int) =~~= fs);
    }
    if summarize {
        text::append_str(&mut out, "\nFile Summaries:\n\n");
    } else {
        text::append_str(&mut out, "\nFile Contents:\n\n");
    }
    let ghost label = spec_report_label(summarize, diff_only);
    let ghost head = out@;
    let mut k: usize = 0;
    proof {
        assert(head + spec_report_sections(fs, bs, label) =~= head + spec_report_sections(
            fs.skip(0),
            bs.skip(0),
            label,
        )) by {
            assert(fs.skip(0) =~~= fs);
            assert(bs.skip(0) =~~= bs);
        }
    }
    while k < valid_files.len()
        invariant
            fs == valid_files@.map_values(|s: String| s@),
            bs == bodies@.map_values(|s: String| s@),
            fs.len() == bs.len(),
            label == spec_report_label(summarize, diff_only),
            k <= valid_files@.len(),
            head + spec_report_sections(fs, bs, label) == out@ + spec_report_sections(
                fs.skip(k as int),
                bs.skip(k as int),
                label,
            ),
        decreases valid_files@.len() - k,
    {
        proof {
            assert(fs.skip(k as int)[0] == fs[k as int]);
            assert(bs.skip(k as int)[0] == bs[k as int]);
            assert(fs[k as int] == valid_files@[k as int]@);
            assert(bs[k as int] == bodies@[k as int]@);
            assert(fs.skip(k as int).drop_first() =~~= fs.skip(k as int + 1));
            assert(bs.skip(k as int).drop_first() =~~= bs.skip(k as int + 1));
        }
        out.push('\n');
        if summarize {
            text::append_str(&mut out, "Summary of ");
        } else if diff_only {
            text::append_str(&mut out, "Diff of ");
        } else {
            text::append_str(&mut out, "File Content of ");
        }
        text::append_str(&mut out, valid_files[k].as_str());
        text::append_str(&mut out, ":\n\n");
        text::append_str(&mut out, bodies[k].as_str());
        out.push('\n');
        k = k + 1;
        proof {
            assert(head + spec_report_sections(fs, bs, label) =~= out@ + spec_report_sections(
                fs.skip(k as int),
                bs.skip(k as int),
                label,
            ));
        }
    }
    proof {
        assert(fs.skip(fs.len() as int) =~~= Seq::<Seq<char>>::empty());
        assert(bs.skip(bs.len() as int) =~~= Seq::<Seq<char>>::empty());
        assert(out@ =~= spec_report(fs, bs, summarize, diff_only));
    }
    text::string_of(out.as_slice())
}

} // verus!
