use bashtestmd::document::{get_all_code_blocks, CodeBlock, Element};

fn block(lang: Option<&str>, value: &str) -> CodeBlock {
    CodeBlock { lang: lang.map(|l| l.to_string()), value: value.to_string() }
}

fn code(lang: &str, value: &str) -> Element {
    Element::Code(block(Some(lang), value))
}

#[test]
fn empty_document_has_no_blocks() {
    assert_eq!(get_all_code_blocks(Element::Other(vec![])), vec![]);
}

#[test]
fn root_that_is_a_code_block_has_nothing_below_it() {
    assert_eq!(get_all_code_blocks(code("bash", "$ ls\n")), vec![]);
}

#[test]
fn top_level_blocks_come_in_order() {
    let root = Element::Other(vec![
        Element::Other(vec![]),
        code("a", "1"),
        Element::Other(vec![]),
        code("b", "2"),
        Element::Code(block(None, "3")),
    ]);
    assert_eq!(
        get_all_code_blocks(root),
        vec![block(Some("a"), "1"), block(Some("b"), "2"), block(None, "3")]
    );
}

#[test]
fn nested_blocks_come_in_document_order() {
    // A quote that holds two blocks, a list whose items hold blocks, and
    // blocks between them.
    let root = Element::Other(vec![
        code("x", "0"),
        Element::Other(vec![code("x", "1"), Element::Other(vec![]), code("x", "2")]),
        code("x", "3"),
        Element::Other(vec![
            Element::Other(vec![code("x", "4"), Element::Other(vec![code("x", "5")])]),
            Element::Other(vec![Element::Other(vec![Element::Other(vec![code("x", "6")])]), code("x", "7")]),
        ]),
        code("x", "8"),
    ]);
    let values: Vec<String> = get_all_code_blocks(root).into_iter().map(|b| b.value).collect();
    assert_eq!(values, vec!["0", "1", "2", "3", "4", "5", "6", "7", "8"]);
}

#[test]
fn deep_chain_is_walked() {
    let mut node = code("deep", "bottom");
    for _ in 0..10_000 {
        node = Element::Other(vec![node]);
    }
    let blocks = get_all_code_blocks(node);
    assert_eq!(blocks, vec![block(Some("deep"), "bottom")]);
}
