//! One command of the test script, and the stanza that runs and checks it.

use vstd::prelude::*;
use crate::number::{decimal, render_decimal};
use crate::shell::{shell_quote, shell_quoted};
use crate::text::{line, line_of, put_line, string_of};

verus! {

/// The view of an optional string: the characters it holds, if any.
pub open spec fn opt_view(o: Option<String>) -> Option<Seq<char>> {
    match o {
        Some(s) => Some(s@),
        None => None,
    }
}

/// What a [`Command`] holds, as plain values.
pub struct CommandView {
    pub cmd: Seq<char>,
    pub long_running: bool,
    pub expected_output: Option<Seq<char>>,
    pub wait_until: Option<Seq<char>>,
    pub exit_code: Option<i32>,
}

/// The command with text `cmd` and no tag applied: it runs in the foreground,
/// its output is not compared, and it must exit with status 0.
pub open spec fn default_command(cmd: Seq<char>) -> CommandView {
    CommandView {
        cmd,
        long_running: false,
        expected_output: None,
        wait_until: None,
        exit_code: Some(0i32),
    }
}

/// One unit of the script: a command line and what is expected of it.
#[derive(Debug, Clone, PartialEq, Eq)]
pub struct Command {
    /// The command text: one line, or several for a raw block.
    pub cmd: String,
    /// Whether the command is started in the background.
    pub long_running: bool,
    /// The output that the command's standard output is compared with.
    pub expected_output: Option<String>,
    /// The text to wait for in the output of a background command.
    pub wait_until: Option<String>,
    /// The exit status required of the command; `None` leaves it unchecked.
    pub exit_code: Option<i32>,
}

impl View for Command {
    type V = CommandView;

    open spec fn view(&self) -> CommandView {
        CommandView {
            cmd: self.cmd@,
            long_running: self.long_running,
            expected_output: opt_view(self.expected_output),
            wait_until: opt_view(self.wait_until),
            exit_code: self.exit_code,
        }
    }
}

/// The views of a sequence of commands.
pub open spec fn command_views(cmds: Seq<Command>) -> Seq<CommandView> {
    cmds.map_values(|c: Command| c@)
}

/// The line that announces the command `cmd`.
pub open spec fn banner(cmd: Seq<char>) -> Seq<char> {
    line("echo "@ + shell_quoted("Running: '"@ + cmd + "'"@))
}

/// The lines that fail the script unless `$exit_code` is `code`. With
/// `capture` they first take `$exit_code` from the status of what ran last.
pub open spec fn exit_code_check(code: i32, capture: bool) -> Seq<char> {
    line(if capture { "exit_code=$?"@ } else { ""@ })
        + line(""@)
        + line("if [ $exit_code -ne "@ + decimal(code as int) + " ]; then"@)
        + line("    echo \"Expected exit code "@ + decimal(code as int) + ", got $exit_code\""@)
        + line("    check_and_output_long_running_output"@)
        + line("    exit 1"@)
        + line("fi"@)
        + line(""@)
}

/// The lines that start `cmd` in the background, with all it prints going to
/// a temporary file, and wait until that file holds `wait_until`. They look
/// every five seconds, and fail the script when the command has ended before
/// the text came.
pub open spec fn background_with_wait(cmd: Seq<char>, wait_until: Seq<char>) -> Seq<char> {
    line("output=$(mktemp)"@)
        + line("export BASHTESTMD_LONG_RUNNING_OUTPUT=$output"@)
        + line(cmd + " &> $output &"@)
        + line("background_process_pid=$!"@)
        + line("echo \"Waiting for process with PID: $background_process_pid to have a match in $output\""@)
        + line("until grep -q -i "@ + shell_quoted(wait_until) + " $output"@)
        + line("do"@)
        + line("  if ! ps $background_process_pid > /dev/null"@)
        + line("  then"@)
        + line("    echo \"The background process died, output:\" >&2"@)
        + line("    cat $output"@)
        + line("    exit 1"@)
        + line("  fi"@)
        + line("  echo -n \".\""@)
        + line("  sleep 5"@)
        + line("done"@)
        + line("echo \"\""@)
        + line(""@)
}

/// The lines that start `cmd` in the background and give it two minutes.
pub open spec fn background_with_sleep(cmd: Seq<char>) -> Seq<char> {
    line(cmd + " &"@) + line("sleep 120"@)
}

/// The lines that run `cmd`, keep its exit status in `$exit_code`, and fail
/// the script unless what it printed holds `expected` or is held by it.
pub open spec fn output_check(cmd: Seq<char>, expected: Seq<char>) -> Seq<char> {
    line("output=$("@ + cmd + ")"@)
        + line("exit_code=$?"@)
        + line("expected="@ + shell_quoted(expected))
        + line("# Either of the two must be a substring of the other. This kinda protects us"@)
        + line("# against whitespace differences, trimming, etc."@)
        + line("if ! [[ $output == *\"$expected\"* || $expected == *\"$output\"* ]]; then"@)
        + line("    echo \"'$expected' not found in text:\""@)
        + line("    echo \"'$output'\""@)
        + line("    check_and_output_long_running_output"@)
        + line("    echo \"=========== END OF THE LONG RUNNING OUTPUT. Terminating...\""@)
        + line("    exit 1"@)
        + line("fi"@)
        + line(""@)
}

/// The lines that check the exit status of a foreground command, if it is to
/// be checked. The status is taken here unless the lines that compare the
/// output take it.
pub open spec fn status_part(c: CommandView) -> Seq<char> {
    match c.exit_code {
        Some(code) => exit_code_check(code, c.expected_output is None),
        None => Seq::<char>::empty(),
    }
}

/// The lines that run a foreground command: with its output compared where
/// an expected output is given, else as it stands.
pub open spec fn run_part(c: CommandView) -> Seq<char> {
    match c.expected_output {
        Some(expected) => output_check(c.cmd, expected),
        None => line(c.cmd),
    }
}

/// What follows the banner in the stanza of `c`. A background command is
/// started and waited for, and neither its exit status nor its output is
/// checked. For a foreground command the check of the exit status comes
/// first, then the lines that run it.
pub open spec fn body(c: CommandView) -> Seq<char> {
    if c.long_running {
        match c.wait_until {
            Some(text) => background_with_wait(c.cmd, text),
            None => background_with_sleep(c.cmd),
        }
    } else {
        status_part(c) + run_part(c)
    }
}

/// The stanza of the script that runs and checks `c`.
pub open spec fn stanza(c: CommandView) -> Seq<char> {
    banner(c.cmd) + body(c)
}

/// Every stanza ends with a newline.
pub proof fn lemma_stanza_ends_line(c: CommandView)
    ensures
        stanza(c).len() > 0,
        stanza(c).last() == '\n',
{
}

fn emit_banner(cmd: &str) -> (r: String)
    ensures
        r@ == banner(cmd@),
{
    let mut title = "Running: '".to_owned();
    title.append(cmd);
    title.append("'");
    let mut text = "echo ".to_owned();
    text.append(shell_quote(title.as_str()).as_str());
    line_of(text.as_str())
}

fn emit_exit_code_check(code: i32, capture: bool) -> (r: String)
    ensures
        r@ == exit_code_check(code, capture),
{
    let number = string_of(&render_decimal(code));
    let mut out = line_of(if capture { "exit_code=$?" } else { "" });
    put_line(&mut out, "");
    let mut test = "if [ $exit_code -ne ".to_owned();
    test.append(number.as_str());
    test.append(" ]; then");
    put_line(&mut out, test.as_str());
    let mut report = "    echo \"Expected exit code ".to_owned();
    report.append(number.as_str());
    report.append(", got $exit_code\"");
    put_line(&mut out, report.as_str());
    put_line(&mut out, "    check_and_output_long_running_output");
    put_line(&mut out, "    exit 1");
    put_line(&mut out, "fi");
    put_line(&mut out, "");
    out
}

fn emit_background_with_wait(cmd: &str, wait_until: &str) -> (r: String)
    ensures
        r@ == background_with_wait(cmd@, wait_until@),
{
    let mut out = line_of("output=$(mktemp)");
    put_line(&mut out, "export BASHTESTMD_LONG_RUNNING_OUTPUT=$output");
    let mut start = cmd.to_owned();
    start.append(" &> $output &");
    put_line(&mut out, start.as_str());
    put_line(&mut out, "background_process_pid=$!");
    put_line(
        &mut out,
        "echo \"Waiting for process with PID: $background_process_pid to have a match in $output\"",
    );
    let mut until = "until grep -q -i ".to_owned();
    until.append(shell_quote(wait_until).as_str());
    until.append(" $output");
    put_line(&mut out, until.as_str());
    put_line(&mut out, "do");
    put_line(&mut out, "  if ! ps $background_process_pid > /dev/null");
    put_line(&mut out, "  then");
    put_line(&mut out, "    echo \"The background process died, output:\" >&2");
    put_line(&mut out, "    cat $output");
    put_line(&mut out, "    exit 1");
    put_line(&mut out, "  fi");
    put_line(&mut out, "  echo -n \".\"");
    put_line(&mut out, "  sleep 5");
    put_line(&mut out, "done");
    put_line(&mut out, "echo \"\"");
    put_line(&mut out, "");
    out
}

fn emit_background_with_sleep(cmd: &str) -> (r: String)
    ensures
        r@ == background_with_sleep(cmd@),
{
    let mut start = cmd.to_owned();
    start.append(" &");
    let mut out = line_of(start.as_str());
    put_line(&mut out, "sleep 120");
    out
}

fn emit_output_check(cmd: &str, expected: &str) -> (r: String)
    ensures
        r@ == output_check(cmd@, expected@),
{
    let mut run = "output=$(".to_owned();
    run.append(cmd);
    run.append(")");
    let mut out = line_of(run.as_str());
    put_line(&mut out, "exit_code=$?");
    let mut assign = "expected=".to_owned();
    assign.append(shell_quote(expected).as_str());
    put_line(&mut out, assign.as_str());
    put_line(
        &mut out,
        "# Either of the two must be a substring of the other. This kinda protects us",
    );
    put_line(&mut out, "# against whitespace differences, trimming, etc.");
    put_line(
        &mut out,
        "if ! [[ $output == *\"$expected\"* || $expected == *\"$output\"* ]]; then",
    );
    put_line(&mut out, "    echo \"'$expected' not found in text:\"");
    put_line(&mut out, "    echo \"'$output'\"");
    put_line(&mut out, "    check_and_output_long_running_output");
    put_line(
        &mut out,
        "    echo \"=========== END OF THE LONG RUNNING OUTPUT. Terminating...\"",
    );
    put_line(&mut out, "    exit 1");
    put_line(&mut out, "fi");
    put_line(&mut out, "");
    out
}

impl Command {
    /// The command with text `cmd` and every other field at its default.
    pub fn new(cmd: &str) -> (r: Command)
        ensures
            r@ == default_command(cmd@),
    {
        Command {
            cmd: cmd.to_owned(),
            long_running: false,
            expected_output: None,
            wait_until: None,
            exit_code: Some(0),
        }
    }

    /// The stanza of the script that runs and checks this command.
    pub fn compile(&self) -> (r: String)
        ensures
            r@ == stanza(self@),
    {
        let cmd = self.cmd.as_str();
        let mut out = emit_banner(cmd);
        if self.long_running {
            let rest = match &self.wait_until {
                Some(text) => emit_background_with_wait(cmd, text.as_str()),
                None => emit_background_with_sleep(cmd),
            };
            out.append(rest.as_str());
        } else {
            let mut rest = match self.exit_code {
                Some(code) => emit_exit_code_check(code, self.expected_output.is_none()),
                None => String::new(),
            };
            let run = match &self.expected_output {
                Some(expected) => emit_output_check(cmd, expected.as_str()),
                None => line_of(cmd),
            };
            rest.append(run.as_str());
            out.append(rest.as_str());
        }
        out
    }
}

} // verus!
