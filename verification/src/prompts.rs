//! The prompt side of summarization: the named prompt templates, placeholder
//! substitution, and the per-file prompt a provider is sent, with the
//! structural instructions derived from the file's comment contract.

use vstd::prelude::*;
use crate::registry::spec_contract_for;
use crate::sections::filter_ds_spec;
use crate::text;
use crate::text::{contains_sub, replace_all_spec};
use crate::validate::extension_spec;

verus! {

/// The substitution placeholder every template carries.
pub open spec fn placeholder() -> Seq<char> {
    "${${CONTENT}$}$"@
}

/// The template for whole-file summaries.
pub open spec fn summary_template() -> Seq<char> {
    "Please write a concise summary of the following file, suitable for embedding in the file as a comment block.\n\n${${CONTENT}$}$"@
}

/// The template for keyword-focused summaries.
pub open spec fn summary_keywords_template() -> Seq<char> {
    "Please write a concise summary of the following file, paying particular attention to the highlighted keywords, suitable for embedding in the file as a comment block.\n\n${${CONTENT}$}$"@
}

/// The template for diff summaries.
pub open spec fn summary_diff_template() -> Seq<char> {
    "Please write a concise summary of the following diff, describing what changed and why it matters.\n\n${${CONTENT}$}$"@
}

/// The named prompt templates, each holding one substitution placeholder.
pub fn load_prompts(_dir: &str) -> (r: Vec<(String, String)>)
    ensures
        r@.len() == 3,
        r@[0].0@ == "summary-0.2"@ && r@[0].1@ == summary_template(),
        r@[1].0@ == "summary-keywords-0.1"@ && r@[1].1@ == summary_keywords_template(),
        r@[2].0@ == "summary-diff-0.1"@ && r@[2].1@ == summary_diff_template(),
{
    let mut r: Vec<(String, String)> = Vec::new();
    r.push(
        (
            String::from_str("summary-0.2"),
            String::from_str(
                "Please write a concise summary of the following file, suitable for embedding in the file as a comment block.\n\n${${CONTENT}$}$",
            ),
        ),
    );
    r.push(
        (
            String::from_str("summary-keywords-0.1"),
            String::from_str(
                "Please write a concise summary of the following file, paying particular attention to the highlighted keywords, suitable for embedding in the file as a comment block.\n\n${${CONTENT}$}$",
            ),
        ),
    );
    r.push(
        (
            String::from_str("summary-diff-0.1"),
            String::from_str(
                "Please write a concise summary of the following diff, describing what changed and why it matters.\n\n${${CONTENT}$}$",
            ),
        ),
    );
    r
}

/// The content substituted into a template at every occurrence of the
/// placeholder.
pub open spec fn spec_rendered(template: Seq<char>, content: Seq<char>) -> Seq<char> {
    replace_all_spec(template, placeholder(), content)
}

/// Substitutes `content` for the placeholder in a template that carries it;
/// a template without the placeholder is rejected.
pub fn process_with_template(content: &str, template: &str) -> (r: Result<String, String>)
    ensures
        match r {
            Ok(s) => contains_sub(template@, placeholder()) && s@ == spec_rendered(
                template@,
                content@,
            ),
            Err(e) => !contains_sub(template@, placeholder()) && e@
                == "Template file must contain the placeholder '${${CONTENT}$}$'"@,
        },
{
    let tc = text::chars_of(template);
    let pc = text::chars_of("${${CONTENT}$}$");
    if !text::contains(tc.as_slice(), pc.as_slice()) {
        return Err(
            String::from_str("Template file must contain the placeholder '${${CONTENT}$}$'"),
        );
    }
    let cc = text::chars_of(content);
    let out = text::replace_all(tc.as_slice(), pc.as_slice(), cc.as_slice());
    Ok(text::string_of(out.as_slice()))
}

/// The instruction appended for a block contract.
pub open spec fn spec_block_instruction(start: Seq<char>, end: Seq<char>) -> Seq<char> {
    "\n\nPlease use the following structure: line 1: '"@ + start
        + "', line 2: '[DIRSCRIBE]', lines 3 to N -2: *the summary*, line N-1: '[/DIRSCRIBE]', line N: '"@
        + end + "'"@
}

/// The instruction appended for a per-line contract.
pub open spec fn spec_line_instruction(start: Seq<char>) -> Seq<char> {
    "\n\nPlease make sure to start every line of the summary with '"@ + start
        + "'. Please use the following structure: line 1: '"@ + start + "', line 2: '"@ + start
        + " [DIRSCRIBE]', lines 3 to N -2: *the summary*, line N-1: '"@ + start
        + " [/DIRSCRIBE]', line N: '"@ + start + "'"@
}

/// The instruction appended when the extension has no registry entry.
pub open spec fn spec_fallback_instruction() -> Seq<char> {
    "\n\nPlease make sure to return the summary as a comment block appropriately formatted for the language, with this structure: line 1: , line 2: [DIRSCRIBE], line N-1: [/DIRSCRIBE], line N: . Lines 1 and N should be empty."@
}

/// The prompt sent for one file: the template with the file's content (a
/// prior summary block stripped) substituted, and — outside diff mode — the
/// structural instructions for the file's comment contract.
pub open spec fn spec_build_prompt(
    template: Seq<char>,
    content: Seq<char>,
    path: Seq<char>,
    diff_only: bool,
) -> Seq<char> {
    let base = spec_rendered(template, filter_ds_spec(content, true));
    if diff_only {
        base
    } else {
        match spec_contract_for(extension_spec(path)) {
            Some((start, Some(end))) => base + spec_block_instruction(start, end),
            Some((start, None)) => base + spec_line_instruction(start),
            None => base + spec_fallback_instruction(),
        }
    }
}

/// Builds the prompt for one file from the template, the file's content and
/// its extension's comment contract.
pub fn build_prompt(template: &str, content: &str, file_path: &str, diff_only: bool) -> (r: String)
    ensures
        r@ == spec_build_prompt(template@, content@, file_path@, diff_only),
{
    let processed = crate::sections::filter_dirscribe_sections(content, true);
    let tc = text::chars_of(template);
    let pc = text::chars_of("${${CONTENT}$}$");
    let cc = text::chars_of(processed.as_str());
    let mut base = text::replace_all(tc.as_slice(), pc.as_slice(), cc.as_slice());
    if diff_only {
        return text::string_of(base.as_slice());
    }
    let p = text::chars_of(file_path);
    let ext = crate::validate::extension_of(p.as_slice());
    match crate::registry::comment_contract_for_chars(&ext) {
        Some(contract) => {
            match &contract.end {
                crate::registry::CommentEnd::Block(end) => {
                    text::append_str(
                        &mut base,
                        "\n\nPlease use the following structure: line 1: '",
                    );
                    text::append_str(&mut base, contract.start.as_str());
                    text::append_str(
                        &mut base,
                        "', line 2: '[DIRSCRIBE]', lines 3 to N -2: *the summary*, line N-1: '[/DIRSCRIBE]', line N: '",
                    );
                    text::append_str(&mut base, end.as_str());
                    text::append_str(&mut base, "'");
                },
                crate::registry::CommentEnd::PerLine => {
                    text::append_str(
                        &mut base,
                        "\n\nPlease make sure to start every line of the summary with '",
                    );
                    text::append_str(&mut base, contract.start.as_str());
                    text::append_str(
                        &mut base,
                        "'. Please use the following structure: line 1: '",
                    );
                    text::append_str(&mut base, contract.start.as_str());
                    text::append_str(&mut base, "', line 2: '");
                    text::append_str(&mut base, contract.start.as_str());
                    text::append_str(
                        &mut base,
                        " [DIRSCRIBE]', lines 3 to N -2: *the summary*, line N-1: '",
                    );
                    text::append_str(&mut base, contract.start.as_str());
                    text::append_str(&mut base, " [/DIRSCRIBE]', line N: '");
                    text::append_str(&mut base, contract.start.as_str());
                    text::append_str(&mut base, "'");
                },
            }
        },
        None => {
            text::append_str(
                &mut base,
                "\n\nPlease make sure to return the summary as a comment block appropriately formatted for the language, with this structure: line 1: , line 2: [DIRSCRIBE], line N-1: [/DIRSCRIBE], line N: . Lines 1 and N should be empty.",
            );
        },
    }
    proof {
        assert(base@ =~= spec_build_prompt(template@, content@, file_path@, diff_only));
    }
    text::string_of(base.as_slice())
}

} // verus!
