//! The test script: what comes before the commands, their stanzas in order,
//! and what comes after them.

use vstd::prelude::*;
use crate::command::{command_views, lemma_stanza_ends_line, stanza, Command, CommandView};
use crate::text::{
    lemma_split_extend, lemma_split_first_piece, lemma_split_join, line, line_of, lines_of,
    put_line,
};

verus! {

/// The first line of every script.
pub const SHEBANG: &'static str = "#!/usr/bin/env bash";

/// The last line of every script.
pub const FAREWELL: &'static str = "echo \"All tests passed!\"; exit 0";

/// What every script begins with: the shebang line; a line that lets
/// aliases defined in the script take effect; a trap that ends the
/// background jobs still running when the script exits; and a function that
/// prints what the last background command wrote.
pub open spec fn prologue() -> Seq<char> {
    line(SHEBANG@)
        + line("shopt -sq expand_aliases"@)
        + line("trap 'jobs -p | xargs -r kill' EXIT"@)
        + line("check_and_output_long_running_output() {"@)
        + line("    if [[ -n \"$BASHTESTMD_LONG_RUNNING_OUTPUT\" && -f \"$BASHTESTMD_LONG_RUNNING_OUTPUT\" ]]; then"@)
        + line("        echo \"Output of the long running task:\""@)
        + line("        cat \"$BASHTESTMD_LONG_RUNNING_OUTPUT\""@)
        + line("    fi"@)
        + line("}"@)
        + line(""@)
}

/// What every script ends with.
pub open spec fn epilogue() -> Seq<char> {
    line(FAREWELL@)
}

/// The stanzas of `cmds`, one after the other.
pub open spec fn stanzas(cmds: Seq<CommandView>) -> Seq<char>
    decreases cmds.len(),
{
    if cmds.len() == 0 {
        Seq::<char>::empty()
    } else {
        stanzas(cmds.drop_last()) + stanza(cmds.last())
    }
}

/// The script that runs and checks `cmds` in order.
pub open spec fn script_of(cmds: Seq<CommandView>) -> Seq<char> {
    prologue() + stanzas(cmds) + epilogue()
}

/// The stanzas of one run of commands followed by another are the stanzas
/// of the first run followed by those of the second: the stanzas stand in
/// the order of the commands.
pub proof fn lemma_stanzas_in_order(a: Seq<CommandView>, b: Seq<CommandView>)
    ensures
        stanzas(a + b) == stanzas(a) + stanzas(b),
    decreases b.len(),
{
    if b.len() > 0 {
        lemma_stanzas_in_order(a, b.drop_last());
        assert((a + b).drop_last() =~= a + b.drop_last());
    }
}

/// The stanzas of any commands are nothing at all, or end with a newline.
pub proof fn lemma_stanzas_end_line(cmds: Seq<CommandView>)
    ensures
        stanzas(cmds).len() == 0 || stanzas(cmds).last() == '\n',
{
    if cmds.len() > 0 {
        lemma_stanza_ends_line(cmds.last());
    }
}

/// Whatever the commands, the first line of the script is the shebang line
/// and its last line is the farewell line.
pub proof fn lemma_script_frame(cmds: Seq<CommandView>)
    ensures
        lines_of(script_of(cmds)).len() >= 2,
        lines_of(script_of(cmds)).first() == SHEBANG@,
        lines_of(script_of(cmds)).last() == FAREWELL@,
{
    reveal_strlit("#!/usr/bin/env bash");
    reveal_strlit("echo \"All tests passed!\"; exit 0");
    let script = script_of(cmds);

    // The script is the shebang, a newline, and more.
    let behind_shebang = script.skip(SHEBANG@.len() as int + 1);
    assert(script =~= SHEBANG@.push('\n') + behind_shebang);
    lemma_split_first_piece(SHEBANG@, behind_shebang, '\n');

    // What stands before the farewell ends with a newline, so the farewell
    // is a piece of its own, and the last one before the final newline.
    let head = prologue() + stanzas(cmds);
    lemma_stanzas_end_line(cmds);
    lemma_split_join(head.drop_last(), '\n');
    lemma_split_extend(head, FAREWELL@, '\n');
    assert(script.drop_last() =~= head + FAREWELL@);
}

fn emit_prologue() -> (r: String)
    ensures
        r@ == prologue(),
{
    let mut out = line_of(SHEBANG);
    put_line(&mut out, "shopt -sq expand_aliases");
    put_line(&mut out, "trap 'jobs -p | xargs -r kill' EXIT");
    put_line(&mut out, "check_and_output_long_running_output() {");
    put_line(
        &mut out,
        "    if [[ -n \"$BASHTESTMD_LONG_RUNNING_OUTPUT\" && -f \"$BASHTESTMD_LONG_RUNNING_OUTPUT\" ]]; then",
    );
    put_line(&mut out, "        echo \"Output of the long running task:\"");
    put_line(&mut out, "        cat \"$BASHTESTMD_LONG_RUNNING_OUTPUT\"");
    put_line(&mut out, "    fi");
    put_line(&mut out, "}");
    put_line(&mut out, "");
    out
}

/// The bash script that runs and checks `cmds` in order.
pub fn compile_commands_into_bash(cmds: Vec<Command>) -> (script: String)
    ensures
        script@ == script_of(command_views(cmds@)),
{
    let ghost all = command_views(cmds@);
    let mut middle = String::new();
    let mut i: usize = 0;
    while i < cmds.len()
        invariant
            i <= cmds.len(),
            all == command_views(cmds@),
            middle@ == stanzas(all.take(i as int)),
        decreases cmds.len() - i,
    {
        proof {
            assert(all.take(i + 1).drop_last() =~= all.take(i as int));
        }
        middle.append(cmds[i].compile().as_str());
        i += 1;
    }
    proof {
        assert(all.take(i as int) =~= all);
    }
    let mut script = emit_prologue();
    script.append(middle.as_str());
    put_line(&mut script, FAREWELL);
    script
}

} // verus!
