use bashtestmd::command::Command;
use bashtestmd::convert::{
    conversion_warnings, convert_code_blocks_into_commands, selects, Warning,
};
use bashtestmd::document::CodeBlock;
use bashtestmd::tags::{CodeBlockTags, TagError};
use bashtestmd::transcript::{compile_block, PROMPT};

fn block(lang: &str, value: &str) -> CodeBlock {
    CodeBlock { lang: Some(lang.to_string()), value: value.to_string() }
}

fn defaults() -> CodeBlockTags {
    CodeBlockTags {
        long_running: false,
        compare_output: false,
        exit_code: Some(0),
        wait_until: None,
        raw: false,
    }
}

fn plain(cmd: &str) -> Command {
    Command {
        cmd: cmd.to_string(),
        long_running: false,
        expected_output: None,
        wait_until: None,
        exit_code: Some(0),
    }
}

#[test]
fn new_command_has_defaults() {
    assert_eq!(Command::new("echo hi"), plain("echo hi"));
    assert_eq!(Command::new(""), plain(""));
}

#[test]
fn prompt_is_dollar_and_space() {
    assert_eq!(PROMPT, "$ ");
}

#[test]
fn one_command_per_prompt_line() {
    let b = block("sh", "$ one\nout 1\n$ two\n$ three\nout 3\n");
    assert_eq!(compile_block(&b, defaults()), vec![plain("one"), plain("two"), plain("three")]);
}

#[test]
fn body_without_prompt_has_no_command() {
    for value in ["", "\n", "echo hi\n", " $ indented\n", "$echo\n", "> quoted\n# root\n", "$\n"] {
        assert_eq!(compile_block(&block("sh", value), defaults()), vec![], "body {:?}", value);
    }
}

#[test]
fn prompt_must_stand_at_the_start_of_the_line() {
    let b = block("sh", "x $ no\n$ yes\n\t$ no\n$  spaced\n$ \n");
    assert_eq!(compile_block(&b, defaults()), vec![plain("yes"), plain(" spaced"), plain("")]);
}

#[test]
fn only_the_last_command_carries_the_tags() {
    let tags = CodeBlockTags {
        long_running: true,
        compare_output: true,
        exit_code: Some(7),
        wait_until: Some("ready".to_string()),
        raw: false,
    };
    let b = block("sh", "before\n$ one\nout 1\n$ two\nout 2\n$ three\nout 3\n");
    assert_eq!(
        compile_block(&b, tags),
        vec![
            plain("one"),
            plain("two"),
            Command {
                cmd: "three".to_string(),
                long_running: true,
                expected_output: Some("before\nout 1\nout 2\nout 3\n".to_string()),
                wait_until: Some("ready".to_string()),
                exit_code: Some(7),
            },
        ]
    );
}

#[test]
fn exit_code_of_the_tags_goes_to_the_last_command() {
    let b = block("sh", "$ true\n$ false\n");
    let ignore = CodeBlockTags { exit_code: None, ..defaults() };
    assert_eq!(
        compile_block(&b, ignore),
        vec![plain("true"), Command { exit_code: None, ..plain("false") }]
    );
    let one = CodeBlockTags { exit_code: Some(1), ..defaults() };
    assert_eq!(
        compile_block(&b, one),
        vec![plain("true"), Command { exit_code: Some(1), ..plain("false") }]
    );
}

#[test]
fn output_is_kept_only_when_compared() {
    let b = block("sh", "$ echo hello world\nhello world\n");
    assert_eq!(compile_block(&b, defaults()), vec![plain("echo hello world")]);
    let compare = CodeBlockTags { compare_output: true, ..defaults() };
    assert_eq!(
        compile_block(&b, compare),
        vec![Command {
            expected_output: Some("hello world\n".to_string()),
            ..plain("echo hello world")
        }]
    );
}

#[test]
fn compared_output_of_a_silent_command_is_empty() {
    let compare = CodeBlockTags { compare_output: true, ..defaults() };
    assert_eq!(
        compile_block(&block("sh", "$ true"), compare),
        vec![Command { expected_output: Some(String::new()), ..plain("true") }]
    );
}

#[test]
fn output_lines_end_with_a_newline_each() {
    let compare = CodeBlockTags { compare_output: true, ..defaults() };
    let b = block("sh", "$ printf 'a\\r\\n\\nb'\na\r\n\nb");
    assert_eq!(
        compile_block(&b, compare)[0].expected_output,
        Some("a\n\nb\n".to_string())
    );
}

#[test]
fn raw_block_is_one_command_of_several_lines() {
    let raw = CodeBlockTags { raw: true, ..defaults() };
    let b = block("sh", "$ cat <<EOF\nfoo\nEOF\n");
    assert_eq!(compile_block(&b, raw), vec![plain("cat <<EOF\nfoo\nEOF")]);
}

#[test]
fn raw_block_may_hold_several_commands() {
    let raw = CodeBlockTags { raw: true, exit_code: Some(3), ..defaults() };
    let b = block("sh", "dropped\n$ one \\\n  more\n\n$ two\n  end\n");
    assert_eq!(
        compile_block(&b, raw),
        vec![
            plain("one \\\n  more\n"),
            Command { exit_code: Some(3), ..plain("two\n  end") },
        ]
    );
}

#[test]
fn selection_is_by_substring() {
    assert!(selects(&block("bash,test-ci", ""), "test-ci"));
    assert!(selects(&block("bash,test-ci-extra", ""), "test-ci"));
    assert!(selects(&block("bash,my-test-ci", ""), "test-ci"));
    assert!(selects(&block("bash", ""), "as"));
    assert!(selects(&block("bash", ""), ""));
    assert!(!selects(&block("bash,test", ""), "test-ci"));
    assert!(!selects(&block("bash,Test-CI", ""), "test-ci"));
    assert!(!selects(&CodeBlock { lang: None, value: String::new() }, "test-ci"));
    assert!(selects(&CodeBlock { lang: None, value: String::new() }, ""));
}

#[test]
fn unselected_blocks_add_no_commands() {
    let blocks = vec![
        block("bash", "$ skipped\n"),
        block("bash,test-ci", "$ first\n"),
        CodeBlock { lang: None, value: "$ skipped too\n".to_string() },
        block("bash,other", "$ skipped as well\n"),
        block("test-ci", "$ second\n$ third\n"),
    ];
    assert_eq!(
        convert_code_blocks_into_commands(blocks, "test-ci"),
        Ok(vec![plain("first"), plain("second"), plain("third")])
    );
}

#[test]
fn unselected_block_is_not_even_parsed() {
    let blocks = vec![
        block("bash,bashtestmd:raw,bashtestmd:compare-output", "$ a\n"),
        block("bash,bashtestmd:exit-code=x", "$ b\n"),
    ];
    assert_eq!(convert_code_blocks_into_commands(blocks.clone(), "test-ci"), Ok(vec![]));
    assert_eq!(conversion_warnings(&blocks, "test-ci"), vec![]);
}

#[test]
fn no_blocks_no_commands() {
    assert_eq!(convert_code_blocks_into_commands(vec![], "test-ci"), Ok(vec![]));
    assert_eq!(conversion_warnings(&vec![], "test-ci"), vec![]);
}

#[test]
fn tags_apply_to_the_last_command_of_each_block() {
    let blocks = vec![
        block("sh,test-ci,bashtestmd:exit-code=2", "$ a\n$ b\n"),
        block("sh,test-ci,bashtestmd:long-running,bashtestmd:wait-until=up", "$ c\n$ d\n"),
    ];
    assert_eq!(
        convert_code_blocks_into_commands(blocks, "test-ci"),
        Ok(vec![
            plain("a"),
            Command { exit_code: Some(2), ..plain("b") },
            plain("c"),
            Command { long_running: true, wait_until: Some("up".to_string()), ..plain("d") },
        ])
    );
}

#[test]
fn conflicting_tags_fail_the_conversion() {
    let blocks = vec![
        block("sh,test-ci", "$ fine\n"),
        block("sh,test-ci,bashtestmd:raw,bashtestmd:compare-output", "$ cat\n"),
        block("sh,test-ci", "$ never reached\n"),
    ];
    assert_eq!(
        convert_code_blocks_into_commands(blocks, "test-ci"),
        Err(TagError::MutuallyExclusive)
    );
}

#[test]
fn first_error_in_document_order_wins() {
    let blocks = vec![
        block("sh,test-ci,bashtestmd:exit-code=two", "$ a\n"),
        block("sh,test-ci,bashtestmd:raw,bashtestmd:compare-output", "$ b\n"),
    ];
    assert_eq!(
        convert_code_blocks_into_commands(blocks, "test-ci"),
        Err(TagError::MalformedExitCode("bashtestmd:exit-code=two".to_string()))
    );
}

#[test]
fn warnings_come_in_reading_order() {
    let blocks = vec![
        block("sh,test-ci,colour", "$ a\n"),
        block("sh,other,ignored", "no command\n"),
        block("sh,test-ci,one,two", "no command\nhere\n"),
        block("test-ci", ""),
    ];
    assert_eq!(
        conversion_warnings(&blocks, "test-ci"),
        vec![
            Warning::UnknownTag("colour".to_string()),
            Warning::UnknownTag("one".to_string()),
            Warning::UnknownTag("two".to_string()),
            Warning::NoCommand("no command\nhere\n".to_string()),
            Warning::NoCommand(String::new()),
        ]
    );
}

#[test]
fn warnings_end_at_the_first_error() {
    let blocks = vec![
        block("sh,test-ci,first", "nothing\n"),
        block("sh,test-ci,second,bashtestmd:raw,third,bashtestmd:compare-output", "nothing\n"),
        block("sh,test-ci,fourth", "nothing\n"),
    ];
    assert_eq!(
        conversion_warnings(&blocks, "test-ci"),
        vec![
            Warning::UnknownTag("first".to_string()),
            Warning::NoCommand("nothing\n".to_string()),
            Warning::UnknownTag("second".to_string()),
            Warning::UnknownTag("third".to_string()),
        ]
    );
    let blocks = vec![
        block("sh,test-ci,a,bashtestmd:exit-code=,b", "nothing\n"),
        block("sh,test-ci,c", "nothing\n"),
    ];
    assert_eq!(conversion_warnings(&blocks, "test-ci"), vec![Warning::UnknownTag("a".to_string())]);
}

#[test]
fn raw_block_without_prompt_is_warned_about() {
    let blocks = vec![block("sh,test-ci,bashtestmd:raw", "cat <<EOF\nEOF\n")];
    assert_eq!(convert_code_blocks_into_commands(blocks.clone(), "test-ci"), Ok(vec![]));
    assert_eq!(
        conversion_warnings(&blocks, "test-ci"),
        vec![Warning::NoCommand("cat <<EOF\nEOF\n".to_string())]
    );
}

#[test]
fn warning_messages() {
    assert_eq!(
        Warning::UnknownTag("colour".to_string()).message("test-ci"),
        "Unknown bashtestmd tag, ignoring: colour"
    );
    assert_eq!(
        Warning::NoCommand("echo hi\n".to_string()).message("test-ci"),
        "Warning: could not find command in block`:\n```\necho hi\n\n```\n^^^^^ remove the tag test-ci from the block or add a command beginning with `$ ` to fix this warning"
    );
}
