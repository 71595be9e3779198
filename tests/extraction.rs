use things_to_check::extract::{extract_items, get_header_title, get_list_items, locate_list, parse_markdown};
use things_to_check::tree::{MdNode, ToCheckItem};

fn item(text: &str, link: &str) -> ToCheckItem {
    ToCheckItem { text: text.to_string(), link: link.to_string() }
}

fn heading(title: &str) -> MdNode {
    MdNode::Heading(vec![MdNode::Text(title.to_string())])
}

fn link(url: &str, text: &str) -> MdNode {
    MdNode::Link(url.to_string(), vec![MdNode::Text(text.to_string())])
}

fn entry(inlines: Vec<MdNode>) -> MdNode {
    MdNode::ListItem(vec![MdNode::Paragraph(inlines)])
}

#[test]
fn test_parse_markdown() {
    let md = "## Things to check

> Move to a correct place after review.

- [Link text](http://link.com)
- [Link2 text](http://link2.com)";

    let expected = vec![
        ToCheckItem {
            text: "Link text".to_string(),
            link: "http://link.com".to_string(),
        },
        ToCheckItem {
            text: "Link2 text".to_string(),
            link: "http://link2.com".to_string(),
        },
    ];

    let result = parse_markdown(md);

    assert_eq!(result, Ok(expected));
}

#[test]
fn happy_path_three_items_in_order() {
    let blocks = vec![
        heading("Things to check"),
        MdNode::List(vec![entry(vec![link("a", "A")]), entry(vec![link("b", "B")]), entry(vec![link("c", "C")])]),
    ];
    assert_eq!(extract_items(&blocks), vec![item("A", "a"), item("B", "b"), item("C", "c")]);
}

#[test]
fn no_matching_heading_yields_nothing() {
    let blocks = vec![heading("Other"), MdNode::List(vec![entry(vec![link("a", "A")])])];
    assert_eq!(extract_items(&blocks), vec![]);
    assert_eq!(parse_markdown("# things to check\n\n- [A](a)\n"), Ok(vec![]));
}

#[test]
fn heading_without_list_yields_nothing() {
    let blocks = vec![
        MdNode::List(vec![entry(vec![link("a", "A")])]),
        heading("Things to check"),
        MdNode::Paragraph(vec![link("b", "B")]),
    ];
    assert_eq!(locate_list(&blocks), None);
    assert_eq!(extract_items(&blocks), vec![]);
}

#[test]
fn last_list_wins() {
    let blocks = vec![
        heading("Things to check"),
        MdNode::List(vec![entry(vec![link("a", "A")])]),
        heading("Later"),
        MdNode::List(vec![entry(vec![link("b", "B")])]),
    ];
    assert_eq!(locate_list(&blocks), Some(3));
    assert_eq!(extract_items(&blocks), vec![item("B", "b")]);
    let md = "## Things to check\n\n- [A](a)\n\n## Later\n\n* [B](b)\n";
    assert_eq!(parse_markdown(md), Ok(vec![item("B", "b")]));
}

#[test]
fn malformed_items_are_skipped() {
    let list = vec![
        MdNode::ListItem(vec![MdNode::Text("plain".to_string())]),
        entry(vec![MdNode::Link("x".to_string(), vec![MdNode::Other])]),
        entry(vec![MdNode::Text("no link".to_string())]),
        entry(vec![link("ok", "Ok")]),
        MdNode::Other,
    ];
    assert_eq!(get_list_items(&list), vec![item("Ok", "ok")]);
}

#[test]
fn two_links_keep_their_order() {
    let list = vec![entry(vec![link("1", "first"), MdNode::Text(" and ".to_string()), link("2", "second")])];
    assert_eq!(get_list_items(&list), vec![item("first", "1"), item("second", "2")]);
    let md = "## Things to check\n\n- [first](1) and [second](2)\n";
    assert_eq!(parse_markdown(md), Ok(vec![item("first", "1"), item("second", "2")]));
}

#[test]
fn link_with_several_texts_fans_out() {
    let list = vec![entry(vec![MdNode::Link("u".to_string(), vec![MdNode::Text("x".to_string()), MdNode::Other, MdNode::Text("y".to_string())])])];
    assert_eq!(get_list_items(&list), vec![item("x", "u"), item("y", "u")]);
}

#[test]
fn title_is_first_text_child() {
    assert_eq!(get_header_title(&vec![MdNode::Other, MdNode::Text("T".to_string()), MdNode::Text("U".to_string())]), "T");
    assert_eq!(get_header_title(&vec![MdNode::Other]), "");
    assert_eq!(get_header_title(&vec![]), "");
}

#[test]
fn emphasised_title_does_not_match() {
    assert_eq!(parse_markdown("## *Things to check*\n\n- [A](a)\n"), Ok(vec![]));
}

#[test]
fn empty_document_yields_nothing() {
    assert_eq!(parse_markdown(""), Ok(vec![]));
    assert_eq!(extract_items(&vec![]), vec![]);
}

#[test]
fn textless_link_is_skipped() {
    let md = "## Things to check\n\n- [](http://x.com) [B](b)\n- [C](c)\n";
    assert_eq!(parse_markdown(md), Ok(vec![item("B", "b"), item("C", "c")]));
}

#[test]
fn other_block_does_not_break_scan() {
    let plain = vec![heading("Things to check"), MdNode::List(vec![entry(vec![link("a", "A")])])];
    let with_quote = vec![heading("Things to check"), MdNode::Other, MdNode::List(vec![entry(vec![link("a", "A")])])];
    assert_eq!(extract_items(&plain), extract_items(&with_quote));
    assert_eq!(extract_items(&with_quote), vec![item("A", "a")]);
}

#[test]
fn later_heading_does_not_close_section() {
    let md = "## Things to check\n\nnothing yet\n\n## Elsewhere\n\n- [A](a)\n";
    assert_eq!(parse_markdown(md), Ok(vec![item("A", "a")]));
}
