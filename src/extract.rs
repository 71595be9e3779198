use vstd::prelude::*;
use crate::tree::{MdNode, ToCheckItem, items_view, lemma_items_view_push};
use crate::parse::{ParseError, blocks_of, parse_blocks};

verus! {

/// A (label, URL) pair.
pub type Record = (Seq<char>, Seq<char>);

/// The title of a heading: the text of its first `Text` child, or empty.
pub open spec fn title_of(ch: Seq<MdNode>) -> Seq<char>
    decreases ch.len(),
{
    if ch.len() == 0 {
        seq![]
    } else {
        match ch[0] {
            MdNode::Text(v) => v@,
            _ => title_of(ch.drop_first()),
        }
    }
}

/// The heading title that opens the section to extract from.
pub open spec fn target_title() -> Seq<char> {
    "Things to check"@
}

/// One record for each `Text` child of a link with URL `url`.
pub open spec fn link_records(url: Seq<char>, ch: Seq<MdNode>) -> Seq<Record>
    decreases ch.len(),
{
    if ch.len() == 0 {
        seq![]
    } else {
        link_records(url, ch.drop_last()) + match ch.last() {
            MdNode::Text(v) => seq![(v@, url)],
            _ => seq![],
        }
    }
}

/// The records of the links among a paragraph's children.
pub open spec fn paragraph_records(ch: Seq<MdNode>) -> Seq<Record>
    decreases ch.len(),
{
    if ch.len() == 0 {
        seq![]
    } else {
        paragraph_records(ch.drop_last()) + match ch.last() {
            MdNode::Link(u, c) => link_records(u@, c@),
            _ => seq![],
        }
    }
}

/// The records of the paragraphs among a list item's children.
pub open spec fn item_records(ch: Seq<MdNode>) -> Seq<Record>
    decreases ch.len(),
{
    if ch.len() == 0 {
        seq![]
    } else {
        item_records(ch.drop_last()) + match ch.last() {
            MdNode::Paragraph(c) => paragraph_records(c@),
            _ => seq![],
        }
    }
}

/// The records of the items among a list's children.
pub open spec fn list_records(ch: Seq<MdNode>) -> Seq<Record>
    decreases ch.len(),
{
    if ch.len() == 0 {
        seq![]
    } else {
        list_records(ch.drop_last()) + match ch.last() {
            MdNode::ListItem(c) => item_records(c@),
            _ => seq![],
        }
    }
}

/// The scan over top-level blocks: whether the target heading has been seen,
/// and the index of the last list seen since then.
pub open spec fn scan(blocks: Seq<MdNode>) -> (bool, Option<int>)
    decreases blocks.len(),
{
    if blocks.len() == 0 {
        (false, None)
    } else {
        let prev = scan(blocks.drop_last());
        match blocks.last() {
            MdNode::Heading(ch) => if title_of(ch@) == target_title() {
                (true, prev.1)
            } else {
                prev
            },
            MdNode::List(_) => if prev.0 {
                (true, Some(blocks.len() - 1))
            } else {
                prev
            },
            _ => prev,
        }
    }
}

/// The records that a document with these top-level blocks yields.
pub open spec fn document_records(blocks: Seq<MdNode>) -> Seq<Record> {
    match scan(blocks).1 {
        Some(k) => match blocks[k] {
            MdNode::List(ch) => list_records(ch@),
            _ => seq![],
        },
        None => seq![],
    }
}

/// The title of a heading with children `ch`.
pub fn get_header_title(ch: &Vec<MdNode>) -> (r: String)
    ensures
        r@ == title_of(ch@),
{
    let mut i: usize = 0;
    assert(ch@.subrange(0, ch.len() as int) =~= ch@);
    while i < ch.len()
        invariant
            i <= ch.len(),
            title_of(ch@) == title_of(ch@.subrange(i as int, ch.len() as int)),
        decreases ch.len() - i,
    {
        assert(ch@.subrange(i as int, ch.len() as int).drop_first()
            =~= ch@.subrange(i + 1, ch.len() as int));
        match &ch[i] {
            MdNode::Text(v) => {
                return v.clone();
            },
            _ => {},
        }
        i += 1;
    }
    String::new()
}

fn push_link_records(out: &mut Vec<ToCheckItem>, url: &String, ch: &Vec<MdNode>)
    ensures
        items_view(final(out)@) == items_view(old(out)@) + link_records(url@, ch@),
{
    let mut i: usize = 0;
    while i < ch.len()
        invariant
            i <= ch.len(),
            items_view(out@) == items_view(old(out)@) + link_records(url@, ch@.subrange(0, i as int)),
        decreases ch.len() - i,
    {
        assert(ch@.subrange(0, i + 1).drop_last() =~= ch@.subrange(0, i as int));
        match &ch[i] {
            MdNode::Text(v) => {
                let r = ToCheckItem { text: v.clone(), link: url.clone() };
                proof {
                    lemma_items_view_push(out@, r);
                }
                out.push(r);
            },
            _ => {},
        }
        assert(items_view(out@) =~= items_view(old(out)@) + link_records(url@, ch@.subrange(0, i + 1)));
        i += 1;
    }
    assert(ch@.subrange(0, ch.len() as int) =~= ch@);
}

fn push_paragraph_records(out: &mut Vec<ToCheckItem>, ch: &Vec<MdNode>)
    ensures
        items_view(final(out)@) == items_view(old(out)@) + paragraph_records(ch@),
{
    let mut i: usize = 0;
    while i < ch.len()
        invariant
            i <= ch.len(),
            items_view(out@) == items_view(old(out)@) + paragraph_records(ch@.subrange(0, i as int)),
        decreases ch.len() - i,
    {
        assert(ch@.subrange(0, i + 1).drop_last() =~= ch@.subrange(0, i as int));
        match &ch[i] {
            MdNode::Link(u, c) => {
                push_link_records(out, u, c);
            },
            _ => {},
        }
        assert(items_view(out@) =~= items_view(old(out)@) + paragraph_records(ch@.subrange(0, i + 1)));
        i += 1;
    }
    assert(ch@.subrange(0, ch.len() as int) =~= ch@);
}

fn push_item_records(out: &mut Vec<ToCheckItem>, ch: &Vec<MdNode>)
    ensures
        items_view(final(out)@) == items_view(old(out)@) + item_records(ch@),
{
    let mut i: usize = 0;
    while i < ch.len()
        invariant
            i <= ch.len(),
            items_view(out@) == items_view(old(out)@) + item_records(ch@.subrange(0, i as int)),
        decreases ch.len() - i,
    {
        assert(ch@.subrange(0, i + 1).drop_last() =~= ch@.subrange(0, i as int));
        match &ch[i] {
            MdNode::Paragraph(c) => {
                push_paragraph_records(out, c);
            },
            _ => {},
        }
        assert(items_view(out@) =~= items_view(old(out)@) + item_records(ch@.subrange(0, i + 1)));
        i += 1;
    }
    assert(ch@.subrange(0, ch.len() as int) =~= ch@);
}

/// The records of a list with children `ch`, in document order.
pub fn get_list_items(ch: &Vec<MdNode>) -> (r: Vec<ToCheckItem>)
    ensures
        items_view(r@) == list_records(ch@),
{
    let mut out: Vec<ToCheckItem> = Vec::new();
    let mut i: usize = 0;
    while i < ch.len()
        invariant
            i <= ch.len(),
            items_view(out@) == list_records(ch@.subrange(0, i as int)),
        decreases ch.len() - i,
    {
        assert(ch@.subrange(0, i + 1).drop_last() =~= ch@.subrange(0, i as int));
        match &ch[i] {
            MdNode::ListItem(c) => {
                push_item_records(&mut out, c);
            },
            _ => {},
        }
        assert(items_view(out@) =~= list_records(ch@.subrange(0, i + 1)));
        i += 1;
    }
    assert(ch@.subrange(0, ch.len() as int) =~= ch@);
    out
}

/// The index of the last list that follows the target heading, if any.
pub fn locate_list(blocks: &Vec<MdNode>) -> (r: Option<usize>)
    ensures
        r matches Some(k) ==> scan(blocks@).1 == Some(k as int) && k < blocks.len(),
        r is None ==> scan(blocks@).1 is None,
{
    let target = "Things to check".to_owned();
    let mut found = false;
    let mut cand: Option<usize> = None;
    let mut i: usize = 0;
    while i < blocks.len()
        invariant
            i <= blocks.len(),
            target@ == target_title(),
            scan(blocks@.subrange(0, i as int)).0 == found,
            cand matches Some(k) ==> scan(blocks@.subrange(0, i as int)).1 == Some(k as int) && k < i,
            cand is None ==> scan(blocks@.subrange(0, i as int)).1 is None,
        decreases blocks.len() - i,
    {
        assert(blocks@.subrange(0, i + 1).drop_last() =~= blocks@.subrange(0, i as int));
        match &blocks[i] {
            MdNode::Heading(ch) => {
                let t = get_header_title(ch);
                if t == target {
                    found = true;
                }
            },
            MdNode::List(_) => {
                if found {
                    cand = Some(i);
                }
            },
            _ => {},
        }
        i += 1;
    }
    assert(blocks@.subrange(0, blocks.len() as int) =~= blocks@);
    cand
}

/// The records of a document with top-level blocks `blocks`.
pub fn extract_items(blocks: &Vec<MdNode>) -> (r: Vec<ToCheckItem>)
    ensures
        items_view(r@) == document_records(blocks@),
{
    match locate_list(blocks) {
        Some(k) => match &blocks[k] {
            MdNode::List(ch) => get_list_items(ch),
            _ => Vec::new(),
        },
        None => Vec::new(),
    }
}

/// Parses a markdown text and extracts its records. Markdown has no syntax
/// errors, so the parse always succeeds.
pub fn parse_markdown(md: &str) -> (r: Result<Vec<ToCheckItem>, ParseError>)
    ensures
        r is Ok,
        r matches Ok(v) ==> items_view(v@) == document_records(blocks_of(md@)),
{
    match parse_blocks(md) {
        Ok(blocks) => Ok(extract_items(&blocks)),
        Err(e) => Err(e),
    }
}

} // verus!
