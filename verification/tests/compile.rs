use bashtestmd::compile::{compile_document, Compilation};
use bashtestmd::convert::Warning;
use bashtestmd::document::{CodeBlock, Element};
use bashtestmd::tags::TagError;

fn code(lang: &str, value: &str) -> Element {
    Element::Code(CodeBlock { lang: Some(lang.to_string()), value: value.to_string() })
}

#[test]
fn document_without_blocks_compiles_to_the_bare_script() {
    let compilation = compile_document(Element::Other(vec![]), "test-ci");
    assert_eq!(compilation.warnings, vec![]);
    let script = compilation.script.unwrap();
    assert!(script.starts_with("#!/usr/bin/env bash\nshopt -sq expand_aliases\n"));
    assert!(script.ends_with("fi\n}\n\necho \"All tests passed!\"; exit 0\n"));
}

#[test]
fn document_compiles_in_document_order() {
    let root = Element::Other(vec![
        code("sh,test-ci", "$ one\n"),
        Element::Other(vec![code("sh,test-ci", "$ two\n"), code("sh", "$ not selected\n")]),
        Element::Other(vec![Element::Other(vec![code("sh,test-ci,bashtestmd:exit-code-ignore", "$ three\n")])]),
        code("sh,test-ci,what", "four\n"),
    ]);
    let compilation = compile_document(root, "test-ci");
    assert_eq!(
        compilation.warnings,
        vec![Warning::UnknownTag("what".to_string()), Warning::NoCommand("four\n".to_string())]
    );
    let script = compilation.script.unwrap();
    let one = script.find("\none\n").unwrap();
    let two = script.find("\ntwo\n").unwrap();
    let three = script.find("\nthree\n").unwrap();
    assert!(one < two && two < three);
    assert!(!script.contains("not selected"));
    assert!(!script.contains("four"));
    assert_eq!(script.matches("echo 'Running: ").count(), 3);
    assert_eq!(script.matches("if [ $exit_code -ne 0 ]; then").count(), 2);
}

#[test]
fn document_with_a_conflict_gives_no_script() {
    let root = Element::Other(vec![
        code("sh,test-ci,x", "$ one\n"),
        code("sh,test-ci,bashtestmd:compare-output,bashtestmd:raw", "$ two\n"),
        code("sh,test-ci,y", "$ three\n"),
    ]);
    assert_eq!(
        compile_document(root, "test-ci"),
        Compilation {
            warnings: vec![Warning::UnknownTag("x".to_string())],
            script: Err(TagError::MutuallyExclusive),
        }
    );
}

#[test]
fn document_with_a_malformed_exit_code_gives_no_script() {
    let root = Element::Other(vec![code("sh,test-ci,bashtestmd:exit-code=1e3", "$ one\n")]);
    assert_eq!(
        compile_document(root, "test-ci").script,
        Err(TagError::MalformedExitCode("bashtestmd:exit-code=1e3".to_string()))
    );
}
