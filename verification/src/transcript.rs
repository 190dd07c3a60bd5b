//! The body of a code block, read as a transcript of a shell session.
//!
//! A line that begins with the prompt is a command. The lines that do not
//! are what the commands printed or, in a raw block, the further lines of
//! the command above them.

use vstd::prelude::*;
use crate::command::{command_views, default_command, Command, CommandView};
use crate::document::CodeBlock;
use crate::tags::{CodeBlockTags, CodeBlockTagsView};
use crate::text::{
    chars_of, first_line, free_of, has_prefix, lemma_lines_hold_no_newline,
    lemma_split_first_piece_stays, lemma_split_join, lemma_split_one_piece, line, lines, lines_of,
    put_chars, skip_chars, string_of, views,
};

verus! {

/// What a command line begins with: a dollar sign and a space.
pub const PROMPT: &'static str = "$ ";

/// Whether `text` is a command line: whether it begins with the prompt.
pub open spec fn is_prompt_line(text: Seq<char>) -> bool {
    PROMPT@.is_prefix_of(text)
}

/// The command of a command line: what stands behind the prompt.
pub open spec fn prompt_command(text: Seq<char>) -> Seq<char> {
    text.skip(PROMPT@.len() as int)
}

/// The texts of the commands of a transcript, in order. Each command line
/// begins a command. In a raw block, a line that is no command line is one
/// more line of the command above it, and is dropped where none is above it.
pub open spec fn command_texts(lines: Seq<Seq<char>>, raw: bool) -> Seq<Seq<char>>
    decreases lines.len(),
{
    if lines.len() == 0 {
        Seq::<Seq<char>>::empty()
    } else {
        let before = command_texts(lines.drop_last(), raw);
        let text = lines.last();
        if is_prompt_line(text) {
            before.push(prompt_command(text))
        } else if raw && before.len() > 0 {
            before.update(before.len() - 1, before.last().push('\n') + text)
        } else {
            before
        }
    }
}

/// What the commands of a transcript printed: the lines that are no command
/// lines, each with a newline behind it. A raw block has no such lines.
pub open spec fn transcript_output(lines: Seq<Seq<char>>, raw: bool) -> Seq<char>
    decreases lines.len(),
{
    if lines.len() == 0 || raw {
        Seq::<char>::empty()
    } else {
        let before = transcript_output(lines.drop_last(), raw);
        if is_prompt_line(lines.last()) {
            before
        } else {
            before + line(lines.last())
        }
    }
}

/// The command with text `cmd` that carries the tags `tags` of its block.
/// Where the tags ask for it, what the command prints is to be compared with
/// `output`.
pub open spec fn tagged_command(
    cmd: Seq<char>,
    tags: CodeBlockTagsView,
    output: Seq<char>,
) -> CommandView {
    CommandView {
        cmd,
        long_running: tags.long_running,
        expected_output: if tags.compare_output {
            Some(output)
        } else {
            None
        },
        wait_until: tags.wait_until,
        exit_code: tags.exit_code,
    }
}

/// The commands of a block with body `value` and tags `tags`. Only the last
/// command carries the tags; those before it are default commands.
pub open spec fn block_commands(value: Seq<char>, tags: CodeBlockTagsView) -> Seq<CommandView> {
    let lines = lines_of(value);
    let texts = command_texts(lines, tags.raw);
    if texts.len() == 0 {
        Seq::<CommandView>::empty()
    } else {
        texts.drop_last().map_values(|cmd: Seq<char>| default_command(cmd)).push(
            tagged_command(texts.last(), tags, transcript_output(lines, tags.raw)),
        )
    }
}

/// The commands written on the command lines of a transcript, in order.
pub open spec fn prompt_commands(lines: Seq<Seq<char>>) -> Seq<Seq<char>> {
    lines.filter(|text: Seq<char>| is_prompt_line(text)).map_values(
        |text: Seq<char>| prompt_command(text),
    )
}

/// A transcript has one command for each of its command lines, in the order
/// of the lines, and the first line of the command is what the command line
/// holds behind the prompt. Outside raw blocks that is the whole command.
pub proof fn lemma_command_for_each_prompt_line(lines: Seq<Seq<char>>, raw: bool)
    requires
        forall|i: int| 0 <= i < lines.len() ==> free_of(#[trigger] lines[i], '\n'),
    ensures
        command_texts(lines, raw).len() == prompt_commands(lines).len(),
        forall|k: int|
            0 <= k < prompt_commands(lines).len() ==> first_line(
                #[trigger] command_texts(lines, raw)[k],
            ) == prompt_commands(lines)[k],
        !raw ==> command_texts(lines, raw) == prompt_commands(lines),
    decreases lines.len(),
{
    reveal(Seq::filter);
    if lines.len() > 0 {
        let shorter = lines.drop_last();
        let before = command_texts(shorter, raw);
        let text = lines.last();
        lemma_command_for_each_prompt_line(shorter, raw);
        if is_prompt_line(text) {
            lemma_split_one_piece(prompt_command(text), '\n');
        } else if raw && before.len() > 0 {
            // The newline behind the command so far ends its first line.
            let begun = before.last().push('\n');
            assert(begun.drop_last() =~= before.last());
            lemma_split_join(before.last(), '\n');
            lemma_split_first_piece_stays(begun, text, '\n');
        }
    }
}

/// Of the commands of a block only the last carries the block's tags: it is
/// in the background, waits, is compared and is held to an exit status as
/// they say. Every command before it is a default command.
pub proof fn lemma_only_last_command_is_tagged(value: Seq<char>, tags: CodeBlockTagsView)
    ensures
        block_commands(value, tags).len() == command_texts(lines_of(value), tags.raw).len(),
        forall|k: int|
            0 <= k < block_commands(value, tags).len() - 1 ==> #[trigger] block_commands(
                value,
                tags,
            )[k] == default_command(command_texts(lines_of(value), tags.raw)[k]),
        block_commands(value, tags).len() > 0 ==> block_commands(value, tags).last()
            == tagged_command(
            command_texts(lines_of(value), tags.raw).last(),
            tags,
            transcript_output(lines_of(value), tags.raw),
        ),
{
}

/// A block has one command for each command line of its body, in the order
/// of the lines, and the first line of the command is what the command line
/// holds behind the prompt.
pub proof fn lemma_block_commands_follow_prompt_lines(value: Seq<char>, tags: CodeBlockTagsView)
    ensures
        block_commands(value, tags).len() == prompt_commands(lines_of(value)).len(),
        forall|k: int|
            0 <= k < block_commands(value, tags).len() ==> first_line(
                #[trigger] block_commands(value, tags)[k].cmd,
            ) == prompt_commands(lines_of(value))[k],
{
    lemma_lines_hold_no_newline(value);
    lemma_command_for_each_prompt_line(lines_of(value), tags.raw);
}

/// The commands of `code_block`, run and checked as `tags` says.
#[verifier::loop_isolation(false)]
pub fn compile_block(code_block: &CodeBlock, tags: CodeBlockTags) -> (cmds: Vec<Command>)
    ensures
        command_views(cmds@) == block_commands(code_block@.value, tags@),
{
    let body = chars_of(code_block.value.as_str());
    let all_lines = lines(&body);
    let prompt = chars_of(PROMPT);
    let ghost texts_of = |n: int| command_texts(views(all_lines@).take(n), tags.raw);
    // The commands that are complete, and the one that may still grow.
    let mut done: Vec<Vec<char>> = Vec::new();
    let mut current: Option<Vec<char>> = None;
    let mut output: Vec<char> = Vec::new();
    let mut i: usize = 0;
    while i < all_lines.len()
        invariant
            i <= all_lines.len(),
            match current {
                Some(text) => texts_of(i as int) == views(done@).push(text@),
                None => texts_of(i as int).len() == 0 && done@.len() == 0,
            },
            output@ == transcript_output(views(all_lines@).take(i as int), tags.raw),
        decreases all_lines.len() - i,
    {
        let text = &all_lines[i];
        proof {
            assert(views(all_lines@).take(i + 1).drop_last() =~= views(all_lines@).take(i as int));
        }
        if has_prefix(text, &prompt) {
            if let Some(complete) = current {
                done.push(complete);
            }
            current = Some(skip_chars(text, prompt.len()));
        } else if tags.raw {
            if let Some(mut growing) = current {
                growing.push('\n');
                put_chars(&mut growing, text);
                current = Some(growing);
            }
        } else {
            put_chars(&mut output, text);
            output.push('\n');
        }
        i += 1;
    }
    proof {
        assert(views(all_lines@).take(i as int) =~= views(all_lines@));
    }
    let ghost texts = command_texts(lines_of(code_block@.value), tags.raw);
    let mut cmds: Vec<Command> = Vec::new();
    match current {
        None => {},
        Some(last) => {
            let mut k: usize = 0;
            while k < done.len()
                invariant
                    k <= done.len(),
                    command_views(cmds@) == views(done@).take(k as int).map_values(
                        |cmd: Seq<char>| default_command(cmd),
                    ),
                decreases done.len() - k,
            {
                let ghost before = cmds@;
                cmds.push(Command::new(string_of(&done[k]).as_str()));
                proof {
                    assert(command_views(cmds@) =~= command_views(before).push(
                        default_command(done@[k as int]@),
                    ));
                }
                k += 1;
            }
            let tagged = Command {
                cmd: string_of(&last),
                long_running: tags.long_running,
                expected_output: if tags.compare_output {
                    Some(string_of(&output))
                } else {
                    None
                },
                wait_until: tags.wait_until,
                exit_code: tags.exit_code,
            };
            cmds.push(tagged);
            proof {
                assert(views(done@).take(k as int) =~= views(done@));
                assert(texts.drop_last() =~= views(done@));
            }
        },
    }
    cmds
}

} // verus!
