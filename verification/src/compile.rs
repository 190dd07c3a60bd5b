//! From a document to its test script, in one step.

use vstd::prelude::*;
use crate::convert::{
    conversion_warnings, convert_code_blocks_into_commands, converted, warning_views, warnings_of,
    Warning,
};
use crate::document::{code_blocks, get_all_code_blocks, Element, ElementView};
use crate::reader::{gfm_tree, read_markdown, MarkdownError};
use crate::script::{compile_commands_into_bash, script_of};
use crate::tags::{TagError, TagErrorView};

verus! {

/// The script of the document under `root` for a user who selects blocks by
/// `only_tag`: the script of the commands of its code blocks, or the error
/// of the first block that has one.
pub open spec fn compiled(root: ElementView, only_tag: Seq<char>) -> Result<
    Seq<char>,
    TagErrorView,
> {
    match converted(code_blocks(root), only_tag) {
        Ok(cmds) => Ok(script_of(cmds)),
        Err(e) => Err(e),
    }
}

/// What compiling a document gives: the warnings for the user, and the
/// script or the error that stood in its way.
#[derive(Debug, PartialEq, Eq)]
pub struct Compilation {
    /// The warnings, in the order in which the blocks gave them.
    pub warnings: Vec<Warning>,
    /// The script, if every selected block was accepted.
    pub script: Result<String, TagError>,
}

impl Compilation {
    /// The view of the script or the error.
    pub open spec fn outcome(&self) -> Result<Seq<char>, TagErrorView> {
        match self.script {
            Ok(text) => Ok(text@),
            Err(e) => Err(e@),
        }
    }
}

/// Compiles the document under `markdown_ast` for a user who selects blocks
/// by `only_tag`.
pub fn compile_document(markdown_ast: Element, only_tag: &str) -> (r: Compilation)
    ensures
        warning_views(r.warnings@) == warnings_of(code_blocks(markdown_ast@), only_tag@),
        r.outcome() == compiled(markdown_ast@, only_tag@),
{
    let code_blocks = get_all_code_blocks(markdown_ast);
    let warnings = conversion_warnings(&code_blocks, only_tag);
    let script = match convert_code_blocks_into_commands(code_blocks, only_tag) {
        Ok(commands) => Ok(compile_commands_into_bash(commands)),
        Err(e) => Err(e),
    };
    Compilation { warnings, script }
}

/// Compiles the Markdown text `text` for a user who selects blocks by
/// `only_tag`: reads it as GitHub-Flavored Markdown and compiles the
/// document that it holds.
pub fn compile_markdown(text: &str, only_tag: &str) -> (r: Result<Compilation, MarkdownError>)
    ensures
        r matches Ok(c) ==> gfm_tree(text@) matches Some(root) && c.outcome() == compiled(
            root,
            only_tag@,
        ) && warning_views(c.warnings@) == warnings_of(code_blocks(root), only_tag@),
        r is Err ==> gfm_tree(text@) is None,
{
    match read_markdown(text) {
        Ok(root) => Ok(compile_document(root, only_tag)),
        Err(e) => Err(e),
    }
}

} // verus!
