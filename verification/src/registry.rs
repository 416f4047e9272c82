//! The comment-contract registry: a static mapping from file extension to the
//! comment-delimiter pair a generated summary must use. Block-comment
//! languages map to a start/end pair; shell-, INI- and YAML-style languages
//! map to a prefix that every summary line must carry.

use vstd::prelude::*;

verus! {

/// How a summary comment is closed: by an end delimiter on the final line, or
/// by repeating the start prefix on every line.
pub enum CommentEnd {
    Block(String),
    PerLine,
}

/// The comment-delimiter pair required of a summary for one file extension.
pub struct CommentContract {
    pub start: String,
    pub end: CommentEnd,
}

impl CommentContract {
    /// The end delimiter as a ghost value: `Some` for a block contract,
    /// `None` for a per-line contract.
    pub open spec fn end_view(&self) -> Option<Seq<char>> {
        match self.end {
            CommentEnd::Block(ref e) => Some(e@),
            CommentEnd::PerLine => None,
        }
    }
}

pub open spec fn ext_c_block(e: Seq<char>) -> bool {
    ||| e == "as"@
    ||| e == "ada"@
    ||| e == "adb"@
    ||| e == "ads"@
    ||| e == "asm"@
    ||| e == "s"@
    ||| e == "awk"@
    ||| e == "c"@
    ||| e == "h"@
    ||| e == "cs"@
    ||| e == "cpp"@
    ||| e == "hpp"@
    ||| e == "cc"@
    ||| e == "hh"@
    ||| e == "cxx"@
    ||| e == "hxx"@
    ||| e == "cob"@
    ||| e == "cbl"@
    ||| e == "css"@
    ||| e == "d"@
    ||| e == "dart"@
    ||| e == "go"@
    ||| e == "groovy"@
    ||| e == "gvy"@
    ||| e == "java"@
    ||| e == "js"@
    ||| e == "mjs"@
    ||| e == "kt"@
    ||| e == "kts"@
    ||| e == "php"@
    ||| e == "r"@
    ||| e == "R"@
    ||| e == "rs"@
    ||| e == "scala"@
    ||| e == "sc"@
    ||| e == "sql"@
    ||| e == "swift"@
    ||| e == "ts"@
    ||| e == "tsx"@
    ||| e == "tf"@
    ||| e == "hcl"@
    ||| e == "pp"@
    ||| e == "bicep"@
    ||| e == "jsonnet"@
    ||| e == "libsonnet"@
    ||| e == "jenkinsfile"@
    ||| e == "Jenkinsfile"@
}

pub open spec fn ext_paren_block(e: Seq<char>) -> bool {
    ||| e == "scpt"@
    ||| e == "applescript"@
    ||| e == "ml"@
    ||| e == "mli"@
    ||| e == "fs"@
    ||| e == "fsx"@
}

pub open spec fn ext_elixir_block(e: Seq<char>) -> bool {
    ||| e == "ex"@
    ||| e == "exs"@
    ||| e == "jl"@
}

pub open spec fn ext_erlang_block(e: Seq<char>) -> bool {
    ||| e == "erl"@
    ||| e == "hrl"@
}

pub open spec fn ext_haskell_block(e: Seq<char>) -> bool {
    ||| e == "hs"@
    ||| e == "lhs"@
}

pub open spec fn ext_xml_block(e: Seq<char>) -> bool {
    ||| e == "html"@
    ||| e == "htm"@
    ||| e == "xml"@
    ||| e == "xsl"@
    ||| e == "xsd"@
}

pub open spec fn ext_pascal_block(e: Seq<char>) -> bool {
    ||| e == "pas"@
    ||| e == "dpr"@
}

pub open spec fn ext_lisp_block(e: Seq<char>) -> bool {
    ||| e == "lisp"@
    ||| e == "lsp"@
    ||| e == "cl"@
}

pub open spec fn ext_matlab_block(e: Seq<char>) -> bool {
    ||| e == "m"@
    ||| e == "mat"@
}

pub open spec fn ext_perl_block(e: Seq<char>) -> bool {
    ||| e == "pl"@
    ||| e == "pm"@
}

pub open spec fn ext_powershell_block(e: Seq<char>) -> bool {
    ||| e == "ps1"@
    ||| e == "psm1"@
    ||| e == "psd1"@
}

pub open spec fn ext_triple_quote_block(e: Seq<char>) -> bool {
    ||| e == "py"@
    ||| e == "pyw"@
    ||| e == "vb"@
}

pub open spec fn ext_ruby_block(e: Seq<char>) -> bool {
    ||| e == "rb"@
    ||| e == "rbw"@
}

pub open spec fn ext_hash_line(e: Seq<char>) -> bool {
    ||| e == "sh"@
    ||| e == "bash"@
    ||| e == "tfvars"@
    ||| e == "yaml"@
    ||| e == "yml"@
    ||| e == "docker-compose.yml"@
    ||| e == "docker-compose.yaml"@
    ||| e == "workflow"@
    ||| e == "github-action"@
    ||| e == "circleci"@
    ||| e == ".circleci"@
    ||| e == "dockerfile"@
    ||| e == "containerfile"@
    ||| e == "nginx"@
    ||| e == "htaccess"@
    ||| e == "apache2.conf"@
    ||| e == "httpd.conf"@
    ||| e == "properties"@
    ||| e == "prop"@
    ||| e == "puppet"@
    ||| e == "sls"@
    ||| e == "salt"@
}

pub open spec fn ext_semicolon_line(e: Seq<char>) -> bool {
    ||| e == "ini"@
    ||| e == "cfg"@
    ||| e == "conf"@
}

pub open spec fn ext_slash_line(e: Seq<char>) -> bool {
    ||| e == "json"@
    ||| e == "arm.json"@
    ||| e == "cf.json"@
}

pub open spec fn ext_coffee_block(e: Seq<char>) -> bool {
    e == "coffee"@
}

pub open spec fn ext_lua_block(e: Seq<char>) -> bool {
    e == "lua"@
}

/// The registry as a mathematical map: the delimiter pair for an extension,
/// `None` standing for a per-line contract, or no entry at all.
pub open spec fn spec_contract_for(e: Seq<char>) -> Option<(Seq<char>, Option<Seq<char>>)> {
    if ext_c_block(e) {
        Some(("/*"@, Some("*/"@)))
    } else if ext_paren_block(e) {
        Some(("(*"@, Some("*)"@)))
    } else if ext_coffee_block(e) {
        Some(("###"@, Some("###"@)))
    } else if ext_elixir_block(e) {
        Some(("#="@, Some("=#"@)))
    } else if ext_erlang_block(e) {
        Some(("%%%"@, Some("%%%"@)))
    } else if ext_haskell_block(e) {
        Some(("{-"@, Some("-}"@)))
    } else if ext_xml_block(e) {
        Some(("<!--"@, Some("-->"@)))
    } else if ext_pascal_block(e) {
        Some(("{"@, Some("}"@)))
    } else if ext_lisp_block(e) {
        Some(("#|"@, Some("|#"@)))
    } else if ext_lua_block(e) {
        Some(("--[["@, Some("]]"@)))
    } else if ext_matlab_block(e) {
        Some(("%{"@, Some("%}"@)))
    } else if ext_perl_block(e) {
        Some(("=pod"@, Some("=cut"@)))
    } else if ext_powershell_block(e) {
        Some(("<#"@, Some("#>"@)))
    } else if ext_triple_quote_block(e) {
        Some(("'''"@, Some("'''"@)))
    } else if ext_ruby_block(e) {
        Some(("=begin"@, Some("=end"@)))
    } else if ext_hash_line(e) {
        Some(("#"@, None))
    } else if ext_semicolon_line(e) {
        Some((";"@, None))
    } else if ext_slash_line(e) {
        Some(("//"@, None))
    } else {
        None
    }
}

/// Does the contract value agree with the registry entry for `e`?
pub open spec fn is_contract_for(c: &CommentContract, e: Seq<char>) -> bool {
    spec_contract_for(e) == Some((c.start@, c.end_view()))
}

fn block_contract(start: &str, end: &str) -> (c: CommentContract)
    ensures
        c.start@ == start@,
        c.end_view() == Some(end@),
{
    CommentContract { start: String::from_str(start), end: CommentEnd::Block(String::from_str(end)) }
}

fn line_contract(start: &str) -> (c: CommentContract)
    ensures
        c.start@ == start@,
        c.end_view() == Option::<Seq<char>>::None,
{
    CommentContract { start: String::from_str(start), end: CommentEnd::PerLine }
}

/// Looks an extension up in the static comment-contract registry.
pub fn comment_contract_for(extension: &str) -> (r: Option<CommentContract>)
    ensures
        match r {
            Some(c) => is_contract_for(&c, extension@),
            None => spec_contract_for(extension@) is None,
        },
{
    let e = crate::text::chars_of(extension);
    comment_contract_for_chars(&e)
}

/// Looks an extension, given as characters, up in the registry.
pub fn comment_contract_for_chars(e: &Vec<char>) -> (r: Option<CommentContract>)
    ensures
        match r {
            Some(c) => is_contract_for(&c, e@),
            None => spec_contract_for(e@) is None,
        },
{
    let s = e.as_slice();
    if is_ext_c_block(s) {
        Some(block_contract("/*", "*/"))
    } else if is_ext_paren_block(s) {
        Some(block_contract("(*", "*)"))
    } else if crate::text::eq_str(s, "coffee") {
        Some(block_contract("###", "###"))
    } else if is_ext_elixir_block(s) {
        Some(block_contract("#=", "=#"))
    } else if crate::text::eq_str(s, "erl") || crate::text::eq_str(s, "hrl") {
        Some(block_contract("%%%", "%%%"))
    } else if crate::text::eq_str(s, "hs") || crate::text::eq_str(s, "lhs") {
        Some(block_contract("{-", "-}"))
    } else if is_ext_xml_block(s) {
        Some(block_contract("<!--", "-->"))
    } else if crate::text::eq_str(s, "pas") || crate::text::eq_str(s, "dpr") {
        Some(block_contract("{", "}"))
    } else if crate::text::eq_str(s, "lisp") || crate::text::eq_str(s, "lsp")
        || crate::text::eq_str(s, "cl") {
        Some(block_contract("#|", "|#"))
    } else if crate::text::eq_str(s, "lua") {
        Some(block_contract("--[[", "]]"))
    } else if crate::text::eq_str(s, "m") || crate::text::eq_str(s, "mat") {
        Some(block_contract("%{", "%}"))
    } else if crate::text::eq_str(s, "pl") || crate::text::eq_str(s, "pm") {
        Some(block_contract("=pod", "=cut"))
    } else if crate::text::eq_str(s, "ps1") || crate::text::eq_str(s, "psm1")
        || crate::text::eq_str(s, "psd1") {
        Some(block_contract("<#", "#>"))
    } else if crate::text::eq_str(s, "py") || crate::text::eq_str(s, "pyw")
        || crate::text::eq_str(s, "vb") {
        Some(block_contract("'''", "'''"))
    } else if crate::text::eq_str(s, "rb") || crate::text::eq_str(s, "rbw") {
        Some(block_contract("=begin", "=end"))
    } else if is_ext_hash_line(s) {
        Some(line_contract("#"))
    } else if crate::text::eq_str(s, "ini") || crate::text::eq_str(s, "cfg")
        || crate::text::eq_str(s, "conf") {
        Some(line_contract(";"))
    } else if crate::text::eq_str(s, "json") || crate::text::eq_str(s, "arm.json")
        || crate::text::eq_str(s, "cf.json") {
        Some(line_contract("//"))
    } else {
        None
    }
}

fn is_ext_c_block(s: &[char]) -> (r: bool)
    ensures
        r == ext_c_block(s@),
{
    crate::text::eq_str(s, "as") || crate::text::eq_str(s, "ada") || crate::text::eq_str(s, "adb")
        || crate::text::eq_str(s, "ads") || crate::text::eq_str(s, "asm") || crate::text::eq_str(
        s,
        "s",
    ) || crate::text::eq_str(s, "awk") || crate::text::eq_str(s, "c") || crate::text::eq_str(
        s,
        "h",
    ) || crate::text::eq_str(s, "cs") || crate::text::eq_str(s, "cpp") || crate::text::eq_str(
        s,
        "hpp",
    ) || crate::text::eq_str(s, "cc") || crate::text::eq_str(s, "hh") || crate::text::eq_str(
        s,
        "cxx",
    ) || crate::text::eq_str(s, "hxx") || crate::text::eq_str(s, "cob") || crate::text::eq_str(
        s,
        "cbl",
    ) || crate::text::eq_str(s, "css") || crate::text::eq_str(s, "d") || crate::text::eq_str(
        s,
        "dart",
    ) || crate::text::eq_str(s, "go") || crate::text::eq_str(s, "groovy") || crate::text::eq_str(
        s,
        "gvy",
    ) || crate::text::eq_str(s, "java") || crate::text::eq_str(s, "js") || crate::text::eq_str(
        s,
        "mjs",
    ) || crate::text::eq_str(s, "kt") || crate::text::eq_str(s, "kts") || crate::text::eq_str(
        s,
        "php",
    ) || crate::text::eq_str(s, "r") || crate::text::eq_str(s, "R") || crate::text::eq_str(
        s,
        "rs",
    ) || crate::text::eq_str(s, "scala") || crate::text::eq_str(s, "sc") || crate::text::eq_str(
        s,
        "sql",
    ) || crate::text::eq_str(s, "swift") || crate::text::eq_str(s, "ts") || crate::text::eq_str(
        s,
        "tsx",
    ) || crate::text::eq_str(s, "tf") || crate::text::eq_str(s, "hcl") || crate::text::eq_str(
        s,
        "pp",
    ) || crate::text::eq_str(s, "bicep") || crate::text::eq_str(s, "jsonnet")
        || crate::text::eq_str(s, "libsonnet") || crate::text::eq_str(s, "jenkinsfile")
        || crate::text::eq_str(s, "Jenkinsfile")
}

fn is_ext_paren_block(s: &[char]) -> (r: bool)
    ensures
        r == ext_paren_block(s@),
{
    crate::text::eq_str(s, "scpt") || crate::text::eq_str(s, "applescript") || crate::text::eq_str(
        s,
        "ml",
    ) || crate::text::eq_str(s, "mli") || crate::text::eq_str(s, "fs") || crate::text::eq_str(
        s,
        "fsx",
    )
}

fn is_ext_elixir_block(s: &[char]) -> (r: bool)
    ensures
        r == ext_elixir_block(s@),
{
    crate::text::eq_str(s, "ex") || crate::text::eq_str(s, "exs") || crate::text::eq_str(s, "jl")
}

fn is_ext_xml_block(s: &[char]) -> (r: bool)
    ensures
        r == ext_xml_block(s@),
{
    crate::text::eq_str(s, "html") || crate::text::eq_str(s, "htm") || crate::text::eq_str(
        s,
        "xml",
    ) || crate::text::eq_str(s, "xsl") || crate::text::eq_str(s, "xsd")
}

fn is_ext_hash_line(s: &[char]) -> (r: bool)
    ensures
        r == ext_hash_line(s@),
{
    crate::text::eq_str(s, "sh") || crate::text::eq_str(s, "bash") || crate::text::eq_str(
        s,
        "tfvars",
    ) || crate::text::eq_str(s, "yaml") || crate::text::eq_str(s, "yml") || crate::text::eq_str(
        s,
        "docker-compose.yml",
    ) || crate::text::eq_str(s, "docker-compose.yaml") || crate::text::eq_str(s, "workflow")
        || crate::text::eq_str(s, "github-action") || crate::text::eq_str(s, "circleci")
        || crate::text::eq_str(s, ".circleci") || crate::text::eq_str(s, "dockerfile")
        || crate::text::eq_str(s, "containerfile") || crate::text::eq_str(s, "nginx")
        || crate::text::eq_str(s, "htaccess") || crate::text::eq_str(s, "apache2.conf")
        || crate::text::eq_str(s, "httpd.conf") || crate::text::eq_str(s, "properties")
        || crate::text::eq_str(s, "prop") || crate::text::eq_str(s, "puppet")
        || crate::text::eq_str(s, "sls") || crate::text::eq_str(s, "salt")
}

} // verus!
