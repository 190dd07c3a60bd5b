//! From the code blocks of a document to the commands of the script.

use vstd::prelude::*;
use crate::command::{command_views, Command, CommandView};
use crate::document::{block_views, CodeBlock, CodeBlockView};
use crate::tags::{
    info_chars, info_string, info_tokens, lemma_raw_with_compare_output_is_rejected, parsed_tags,
    unknown_among, CodeBlockTags, TagError, TagErrorView, COMPARE_OUTPUT_TAG, RAW_TAG,
};
use crate::text::{
    chars_of, contains_chars, contains_seq, first_line, line, line_of, lines_of, put_line,
    string_views,
};
use crate::transcript::{
    block_commands, command_texts, compile_block, lemma_block_commands_follow_prompt_lines,
    prompt_commands, PROMPT,
};

verus! {

/// Whether a block with info string `lang` is selected by `only_tag`:
/// whether `only_tag` stands somewhere in the info string.
pub open spec fn is_selected(lang: Option<Seq<char>>, only_tag: Seq<char>) -> bool {
    contains_seq(info_string(lang), only_tag)
}

/// What the block `block` adds to the script for a user who selects blocks
/// by `only_tag`: nothing where it is not selected, else its commands, if
/// its info string is accepted.
pub open spec fn block_result(block: CodeBlockView, only_tag: Seq<char>) -> Result<
    Seq<CommandView>,
    TagErrorView,
> {
    if !is_selected(block.lang, only_tag) {
        Ok(Seq::<CommandView>::empty())
    } else {
        match parsed_tags(info_tokens(block.lang)) {
            Ok(tags) => Ok(block_commands(block.value, tags)),
            Err(e) => Err(e),
        }
    }
}

/// The commands of the blocks `blocks` in document order, or the error of
/// the first block that has one.
pub open spec fn converted(blocks: Seq<CodeBlockView>, only_tag: Seq<char>) -> Result<
    Seq<CommandView>,
    TagErrorView,
>
    decreases blocks.len(),
{
    if blocks.len() == 0 {
        Ok(Seq::<CommandView>::empty())
    } else {
        match converted(blocks.drop_last(), only_tag) {
            Err(e) => Err(e),
            Ok(before) => match block_result(blocks.last(), only_tag) {
                Err(e) => Err(e),
                Ok(cmds) => Ok(before + cmds),
            },
        }
    }
}

/// The view of what [`convert_code_blocks_into_commands`] returns.
pub open spec fn conversion_view(r: Result<Vec<Command>, TagError>) -> Result<
    Seq<CommandView>,
    TagErrorView,
> {
    match r {
        Ok(cmds) => Ok(command_views(cmds@)),
        Err(e) => Err(e@),
    }
}

/// Something for the user to look at that does not change the script, as
/// plain values.
pub enum WarningView {
    UnknownTag(Seq<char>),
    NoCommand(Seq<char>),
}

/// Something for the user to look at that does not change the script.
#[derive(Debug, Clone, PartialEq, Eq)]
pub enum Warning {
    /// A token of an info string that is no directive. It is held here.
    UnknownTag(String),
    /// A selected block without a command line. Its body is held here.
    NoCommand(String),
}

impl View for Warning {
    type V = WarningView;

    open spec fn view(&self) -> WarningView {
        match *self {
            Warning::UnknownTag(token) => WarningView::UnknownTag(token@),
            Warning::NoCommand(value) => WarningView::NoCommand(value@),
        }
    }
}

/// What the user is told about a token that is no directive.
pub open spec fn unknown_tag_message(token: Seq<char>) -> Seq<char> {
    "Unknown bashtestmd tag, ignoring: "@ + token
}

/// What the user who selects blocks by `only_tag` is told about a selected
/// block with body `value` and without a command line: the body between
/// fences, and below it what to do about it.
pub open spec fn no_command_message(value: Seq<char>, only_tag: Seq<char>) -> Seq<char> {
    line("Warning: could not find command in block`:"@) + line("```"@) + line(value) + line("```"@)
        + ("^^^^^ remove the tag "@ + only_tag
        + " from the block or add a command beginning with `"@ + PROMPT@
        + "` to fix this warning"@)
}

/// What the user who selects blocks by `only_tag` is told about `w`.
pub open spec fn warning_message(w: WarningView, only_tag: Seq<char>) -> Seq<char> {
    match w {
        WarningView::UnknownTag(token) => unknown_tag_message(token),
        WarningView::NoCommand(value) => no_command_message(value, only_tag),
    }
}

impl Warning {
    /// The text of this warning for a user who selects blocks by `only_tag`,
    /// without a newline at its end.
    pub fn message(&self, only_tag: &str) -> (r: String)
        ensures
            r@ == warning_message(self@, only_tag@),
    {
        match self {
            Warning::UnknownTag(token) => {
                let mut r = "Unknown bashtestmd tag, ignoring: ".to_owned();
                r.append(token.as_str());
                r
            },
            Warning::NoCommand(value) => {
                let mut r = line_of("Warning: could not find command in block`:");
                put_line(&mut r, "```");
                put_line(&mut r, value.as_str());
                put_line(&mut r, "```");
                let mut advice = "^^^^^ remove the tag ".to_owned();
                advice.append(only_tag);
                advice.append(" from the block or add a command beginning with `");
                advice.append(PROMPT);
                advice.append("` to fix this warning");
                r.append(advice.as_str());
                r
            },
        }
    }
}

/// The views of a sequence of warnings.
pub open spec fn warning_views(warnings: Seq<Warning>) -> Seq<WarningView> {
    warnings.map_values(|w: Warning| w@)
}

/// The warnings that the block `block` gives: one for each unknown token of
/// its info string, then one more if its info string is accepted and its
/// body has no command line. A block that is not selected gives none.
pub open spec fn block_warnings(block: CodeBlockView, only_tag: Seq<char>) -> Seq<WarningView> {
    if !is_selected(block.lang, only_tag) {
        Seq::<WarningView>::empty()
    } else {
        let unknown = unknown_among(info_tokens(block.lang), only_tag).map_values(
            |token: Seq<char>| WarningView::UnknownTag(token),
        );
        match parsed_tags(info_tokens(block.lang)) {
            Ok(tags) => if command_texts(lines_of(block.value), tags.raw).len() == 0 {
                unknown.push(WarningView::NoCommand(block.value))
            } else {
                unknown
            },
            Err(_) => unknown,
        }
    }
}

/// The warnings that the blocks `blocks` give, in document order. Behind the
/// first block with an error no block is read, so none gives a warning.
pub open spec fn warnings_of(blocks: Seq<CodeBlockView>, only_tag: Seq<char>) -> Seq<WarningView>
    decreases blocks.len(),
{
    if blocks.len() == 0 {
        Seq::<WarningView>::empty()
    } else {
        let before = warnings_of(blocks.drop_last(), only_tag);
        if converted(blocks.drop_last(), only_tag) is Err {
            before
        } else {
            before + block_warnings(blocks.last(), only_tag)
        }
    }
}

/// An error among the first blocks is the error of all, and no warning
/// comes behind it.
pub proof fn lemma_error_ends_reading(blocks: Seq<CodeBlockView>, n: int, only_tag: Seq<char>)
    requires
        0 <= n <= blocks.len(),
        converted(blocks.take(n), only_tag) is Err,
    ensures
        converted(blocks, only_tag) == converted(blocks.take(n), only_tag),
        warnings_of(blocks, only_tag) == warnings_of(blocks.take(n), only_tag),
    decreases blocks.len() - n,
{
    if n < blocks.len() {
        assert(blocks.take(n + 1).drop_last() =~= blocks.take(n));
        lemma_error_ends_reading(blocks, n + 1, only_tag);
    } else {
        assert(blocks.take(n) =~= blocks);
    }
}

/// The commands written on the command lines of the selected blocks of
/// `blocks`, in document order.
pub open spec fn selected_prompt_commands(
    blocks: Seq<CodeBlockView>,
    only_tag: Seq<char>,
) -> Seq<Seq<char>>
    decreases blocks.len(),
{
    if blocks.len() == 0 {
        Seq::<Seq<char>>::empty()
    } else {
        let before = selected_prompt_commands(blocks.drop_last(), only_tag);
        if is_selected(blocks.last().lang, only_tag) {
            before + prompt_commands(lines_of(blocks.last().value))
        } else {
            before
        }
    }
}

/// Where the conversion succeeds, there is one command for each command
/// line of a selected block, in document order, and the first line of the
/// command is what the command line holds behind the prompt.
pub proof fn lemma_commands_follow_prompt_lines(blocks: Seq<CodeBlockView>, only_tag: Seq<char>)
    requires
        converted(blocks, only_tag) is Ok,
    ensures
        converted(blocks, only_tag)->Ok_0.len() == selected_prompt_commands(blocks, only_tag).len(),
        forall|k: int|
            0 <= k < selected_prompt_commands(blocks, only_tag).len() ==> first_line(
                #[trigger] converted(blocks, only_tag)->Ok_0[k].cmd,
            ) == selected_prompt_commands(blocks, only_tag)[k],
    decreases blocks.len(),
{
    if blocks.len() > 0 {
        let shorter = blocks.drop_last();
        let block = blocks.last();
        lemma_commands_follow_prompt_lines(shorter, only_tag);
        if is_selected(block.lang, only_tag) {
            let tags = parsed_tags(info_tokens(block.lang))->Ok_0;
            lemma_block_commands_follow_prompt_lines(block.value, tags);
        }
    }
}

/// A block that is not selected adds no command and no warning: with it or
/// without it the conversion gives the same.
pub proof fn lemma_unselected_block_adds_nothing(
    blocks: Seq<CodeBlockView>,
    i: int,
    only_tag: Seq<char>,
)
    requires
        0 <= i < blocks.len(),
        !is_selected(blocks[i].lang, only_tag),
    ensures
        converted(blocks, only_tag) == converted(blocks.remove(i), only_tag),
        warnings_of(blocks, only_tag) == warnings_of(blocks.remove(i), only_tag),
    decreases blocks.len(),
{
    let shorter = blocks.drop_last();
    if i < blocks.len() - 1 {
        lemma_unselected_block_adds_nothing(shorter, i, only_tag);
        assert(blocks.remove(i).drop_last() =~= shorter.remove(i));
    }
}

/// A selected block that is tagged both raw and for a compared output makes
/// the conversion fail, whatever else the document holds.
pub proof fn lemma_conflicting_block_is_rejected(
    blocks: Seq<CodeBlockView>,
    i: int,
    only_tag: Seq<char>,
)
    requires
        0 <= i < blocks.len(),
        is_selected(blocks[i].lang, only_tag),
        info_tokens(blocks[i].lang).contains(RAW_TAG@),
        info_tokens(blocks[i].lang).contains(COMPARE_OUTPUT_TAG@),
    ensures
        converted(blocks, only_tag) is Err,
{
    lemma_raw_with_compare_output_is_rejected(info_tokens(blocks[i].lang));
    lemma_error_ends_reading(blocks, i + 1, only_tag);
}

/// Whether `code_block` is selected by `only_tag`.
pub fn selects(code_block: &CodeBlock, only_tag: &str) -> (r: bool)
    ensures
        r == is_selected(code_block@.lang, only_tag@),
{
    let info = info_chars(code_block);
    let selector = chars_of(only_tag);
    contains_chars(&info, &selector)
}

/// The commands of the blocks of `code_blocks` that `only_tag` selects, in
/// document order. The first block whose info string is rejected ends the
/// conversion with its error.
#[verifier::loop_isolation(false)]
pub fn convert_code_blocks_into_commands(code_blocks: Vec<CodeBlock>, only_tag: &str) -> (r: Result<
    Vec<Command>,
    TagError,
>)
    ensures
        conversion_view(r) == converted(block_views(code_blocks@), only_tag@),
{
    let ghost blocks = block_views(code_blocks@);
    let mut commands: Vec<Command> = Vec::new();
    proof {
        assert(command_views(commands@) =~= Seq::<CommandView>::empty());
    }
    let mut i: usize = 0;
    while i < code_blocks.len()
        invariant
            i <= code_blocks.len(),
            converted(blocks.take(i as int), only_tag@) == Ok::<Seq<CommandView>, TagErrorView>(
                command_views(commands@),
            ),
        decreases code_blocks.len() - i,
    {
        let code_block = &code_blocks[i];
        proof {
            assert(blocks.take(i + 1).drop_last() =~= blocks.take(i as int));
        }
        if selects(code_block, only_tag) {
            match CodeBlockTags::parse(code_block) {
                Err(e) => {
                    proof {
                        lemma_error_ends_reading(blocks, i + 1, only_tag@);
                    }
                    return Err(e);
                },
                Ok(tags) => {
                    let ghost before = commands@;
                    let mut more = compile_block(code_block, tags);
                    let ghost added = more@;
                    commands.append(&mut more);
                    proof {
                        assert(command_views(commands@) =~= command_views(before) + command_views(
                            added,
                        ));
                    }
                },
            }
        }
        i += 1;
    }
    proof {
        assert(blocks.take(i as int) =~= blocks);
    }
    Ok(commands)
}

/// The warnings that the blocks of `code_blocks` give to a user who selects
/// blocks by `only_tag`, in the order in which the blocks are read.
#[verifier::loop_isolation(false)]
pub fn conversion_warnings(code_blocks: &Vec<CodeBlock>, only_tag: &str) -> (warnings: Vec<Warning>)
    ensures
        warning_views(warnings@) == warnings_of(block_views(code_blocks@), only_tag@),
{
    let ghost blocks = block_views(code_blocks@);
    let mut warnings: Vec<Warning> = Vec::new();
    let mut i: usize = 0;
    while i < code_blocks.len()
        invariant
            i <= code_blocks.len(),
            converted(blocks.take(i as int), only_tag@) is Ok,
            warning_views(warnings@) == warnings_of(blocks.take(i as int), only_tag@),
        decreases code_blocks.len() - i,
    {
        let code_block = &code_blocks[i];
        proof {
            assert(blocks.take(i + 1).drop_last() =~= blocks.take(i as int));
        }
        if selects(code_block, only_tag) {
            let ghost before = warnings@;
            let unknown = CodeBlockTags::unknown_tokens(code_block, only_tag);
            let ghost reported = string_views(unknown@).map_values(
                |token: Seq<char>| WarningView::UnknownTag(token),
            );
            let mut k: usize = 0;
            while k < unknown.len()
                invariant
                    k <= unknown.len(),
                    warning_views(warnings@) == warning_views(before) + reported.take(k as int),
                decreases unknown.len() - k,
            {
                let ghost short = warnings@;
                warnings.push(Warning::UnknownTag(unknown[k].clone()));
                proof {
                    assert(warning_views(warnings@) =~= warning_views(short).push(
                        reported[k as int],
                    ));
                }
                k += 1;
            }
            match CodeBlockTags::parse(code_block) {
                Err(_) => {
                    proof {
                        lemma_error_ends_reading(blocks, i + 1, only_tag@);
                    }
                    return warnings;
                },
                Ok(tags) => {
                    let cmds = compile_block(code_block, tags);
                    if cmds.len() == 0 {
                        let ghost short = warnings@;
                        warnings.push(Warning::NoCommand(code_block.value.clone()));
                        proof {
                            assert(warning_views(warnings@) =~= warning_views(short).push(
                                WarningView::NoCommand(code_block@.value),
                            ));
                        }
                    }
                },
            }
        }
        i += 1;
    }
    proof {
        assert(blocks.take(i as int) =~= blocks);
    }
    warnings
}

} // verus!
