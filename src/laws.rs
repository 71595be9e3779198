use vstd::prelude::*;
use crate::tree::MdNode;
use crate::extract::{
    document_records, item_records, link_records, list_records, paragraph_records, scan, title_of,
    target_title,
};

verus! {

/// Whether a block is a heading titled "Things to check".
pub open spec fn is_target_heading(n: MdNode) -> bool {
    match n {
        MdNode::Heading(ch) => title_of(ch@) == target_title(),
        _ => false,
    }
}

/// Once the target heading has been scanned, the scan stays inside its section.
pub proof fn lemma_flag_stays(b: Seq<MdNode>, j: int)
    requires
        0 <= j < b.len(),
        is_target_heading(b[j]),
    ensures
        scan(b).0,
    decreases b.len(),
{
    if j < b.len() - 1 {
        lemma_flag_stays(b.drop_last(), j);
    }
}

proof fn lemma_scan_witness(b: Seq<MdNode>)
    ensures
        scan(b).0 ==> exists|j: int| 0 <= j < b.len() && #[trigger] is_target_heading(b[j]),
        scan(b).1 matches Some(k) ==> 0 <= k < b.len() && b[k] is List
            && exists|j: int| 0 <= j < k && #[trigger] is_target_heading(b[j]),
    decreases b.len(),
{
    if b.len() > 0 {
        let d = b.drop_last();
        lemma_scan_witness(d);
        assert(forall|j: int| 0 <= j < d.len() ==> d[j] == b[j]);
        if scan(d).0 {
            let j = choose|j: int| 0 <= j < d.len() && #[trigger] is_target_heading(d[j]);
            assert(is_target_heading(b[j]));
        }
        if scan(d).1 is Some {
            let k = scan(d).1->0;
            let j = choose|j: int| 0 <= j < k && #[trigger] is_target_heading(d[j]);
            assert(is_target_heading(b[j]));
        }
        if is_target_heading(b.last()) {
            assert(is_target_heading(b[b.len() - 1]));
        }
    }
}

/// A document in which no list comes after a heading titled "Things to check"
/// (there is no such heading, or no list after it) yields no records.
pub proof fn lemma_no_section_no_records(b: Seq<MdNode>)
    requires
        forall|j: int, k: int|
            0 <= j < k < b.len() && #[trigger] is_target_heading(b[j]) ==> !(#[trigger] b[k] is List),
    ensures
        document_records(b) == Seq::<(Seq<char>, Seq<char>)>::empty(),
{
    lemma_scan_witness(b);
    if scan(b).1 is Some {
        let k = scan(b).1->0;
        let j = choose|j: int| 0 <= j < k && #[trigger] is_target_heading(b[j]);
        assert(!(b[k] is List));
    }
}

proof fn lemma_scan_keeps_last(b: Seq<MdNode>, j: int, k: int)
    requires
        0 <= j < k < b.len(),
        is_target_heading(b[j]),
        b[k] is List,
        forall|m: int| k < m < b.len() ==> !(#[trigger] b[m] is List),
    ensures
        scan(b).1 == Some(k),
    decreases b.len(),
{
    let d = b.drop_last();
    if k == b.len() - 1 {
        lemma_flag_stays(d, j);
    } else {
        assert(forall|m: int| k < m < d.len() ==> d[m] == b[m]);
        lemma_scan_keeps_last(d, j, k);
        assert(!(b[b.len() - 1] is List));
    }
}

/// When lists follow the heading titled "Things to check", the records are
/// exactly those of the last list of the document; earlier lists give none.
pub proof fn lemma_last_list_wins(b: Seq<MdNode>, j: int, k: int)
    requires
        0 <= j < k < b.len(),
        is_target_heading(b[j]),
        b[k] is List,
        forall|m: int| k < m < b.len() ==> !(#[trigger] b[m] is List),
    ensures
        document_records(b) == list_records(b[k]->List_0@),
{
    lemma_scan_keeps_last(b, j, k);
}

/// The links of a paragraph give their records in left-to-right order: the
/// records of two runs of inline nodes, one after the other, are those of the
/// first run followed by those of the second.
pub proof fn lemma_paragraph_order(a: Seq<MdNode>, b: Seq<MdNode>)
    ensures
        paragraph_records(a + b) == paragraph_records(a) + paragraph_records(b),
    decreases b.len(),
{
    if b.len() == 0 {
        assert(a + b =~= a);
        assert(paragraph_records(a + b) =~= paragraph_records(a) + paragraph_records(b));
    } else {
        lemma_paragraph_order(a, b.drop_last());
        assert((a + b).drop_last() =~= a + b.drop_last());
        assert(paragraph_records(a + b) =~= paragraph_records(a) + paragraph_records(b));
    }
}

/// The items of a list give their records in document order: the records of
/// two runs of list children, one after the other, are those of the first run
/// followed by those of the second.
pub proof fn lemma_list_order(a: Seq<MdNode>, b: Seq<MdNode>)
    ensures
        list_records(a + b) == list_records(a) + list_records(b),
    decreases b.len(),
{
    if b.len() == 0 {
        assert(a + b =~= a);
        assert(list_records(a + b) =~= list_records(a) + list_records(b));
    } else {
        lemma_list_order(a, b.drop_last());
        assert((a + b).drop_last() =~= a + b.drop_last());
        assert(list_records(a + b) =~= list_records(a) + list_records(b));
    }
}

proof fn lemma_silent_child_skipped(a: Seq<MdNode>, x: MdNode, b: Seq<MdNode>)
    requires
        list_records(seq![x]) == Seq::<(Seq<char>, Seq<char>)>::empty(),
    ensures
        list_records(a + seq![x] + b) == list_records(a + b),
{
    lemma_list_order(a + seq![x], b);
    lemma_list_order(a, seq![x]);
    lemma_list_order(a, b);
    assert(list_records(a + seq![x]) =~= list_records(a));
}

proof fn lemma_single_child(x: MdNode)
    ensures
        list_records(seq![x]) == match x {
            MdNode::ListItem(c) => item_records(c@),
            _ => Seq::<(Seq<char>, Seq<char>)>::empty(),
        },
{
    assert(seq![x].drop_last() =~= Seq::<MdNode>::empty());
    assert(list_records(Seq::<MdNode>::empty()) == Seq::<(Seq<char>, Seq<char>)>::empty());
    assert(seq![x].last() == x);
    assert(list_records(seq![x]) =~= match x {
        MdNode::ListItem(c) => item_records(c@),
        _ => Seq::<(Seq<char>, Seq<char>)>::empty(),
    });
}

/// A list child that is not a list item is skipped: the records of the list
/// are those of its other children, in their order.
pub proof fn lemma_non_item_skipped(a: Seq<MdNode>, x: MdNode, b: Seq<MdNode>)
    requires
        !(x is ListItem),
    ensures
        list_records(a + seq![x] + b) == list_records(a + b),
{
    lemma_single_child(x);
    lemma_silent_child_skipped(a, x, b);
}

/// A list item with no paragraph among its children (plain inline content, a
/// nested list) is skipped: the list's records are those of its other children.
pub proof fn lemma_item_without_paragraph_skipped(a: Seq<MdNode>, x: MdNode, b: Seq<MdNode>)
    requires
        x is ListItem,
        forall|i: int| 0 <= i < x->ListItem_0@.len() ==> !(#[trigger] x->ListItem_0@[i] is Paragraph),
    ensures
        list_records(a + seq![x] + b) == list_records(a + b),
{
    lemma_single_child(x);
    lemma_item_without_paragraph(x->ListItem_0@);
    lemma_silent_child_skipped(a, x, b);
}

/// Whether no paragraph among these children holds a link.
pub open spec fn paragraphs_without_links(c: Seq<MdNode>) -> bool {
    forall|i: int, j: int|
        0 <= i < c.len() && #[trigger] c[i] is Paragraph && 0 <= j < c[i]->Paragraph_0@.len()
            ==> !(#[trigger] c[i]->Paragraph_0@[j] is Link)
}

proof fn lemma_item_without_links(c: Seq<MdNode>)
    requires
        paragraphs_without_links(c),
    ensures
        item_records(c) == Seq::<(Seq<char>, Seq<char>)>::empty(),
    decreases c.len(),
{
    if c.len() > 0 {
        let d = c.drop_last();
        assert(forall|i: int| 0 <= i < d.len() ==> d[i] == c[i]);
        lemma_item_without_links(d);
        let last = c[c.len() - 1];
        if last is Paragraph {
            let p = last->Paragraph_0@;
            assert forall|j: int| 0 <= j < p.len() implies !(#[trigger] p[j] is Link) by {
                assert(c[c.len() - 1]->Paragraph_0@[j] == p[j]);
            }
            lemma_paragraph_without_link(p);
        }
        assert(item_records(c) =~= Seq::<(Seq<char>, Seq<char>)>::empty());
    }
}

/// A list item whose paragraphs hold no link is skipped: the list's records
/// are those of its other children.
pub proof fn lemma_item_without_links_skipped(a: Seq<MdNode>, x: MdNode, b: Seq<MdNode>)
    requires
        x is ListItem,
        paragraphs_without_links(x->ListItem_0@),
    ensures
        list_records(a + seq![x] + b) == list_records(a + b),
{
    lemma_single_child(x);
    lemma_item_without_links(x->ListItem_0@);
    lemma_silent_child_skipped(a, x, b);
}

/// A link with no text child (an empty label, or only formatted content) is
/// skipped: the paragraph's records are those of its other children, in order.
pub proof fn lemma_textless_link_skipped(a: Seq<MdNode>, k: MdNode, b: Seq<MdNode>)
    requires
        k is Link,
        forall|i: int| 0 <= i < k->Link_1@.len() ==> !(#[trigger] k->Link_1@[i] is Text),
    ensures
        paragraph_records(a + seq![k] + b) == paragraph_records(a + b),
{
    lemma_link_without_text(k->Link_0@, k->Link_1@);
    assert(seq![k].drop_last() =~= Seq::<MdNode>::empty());
    assert(paragraph_records(Seq::<MdNode>::empty()) == Seq::<(Seq<char>, Seq<char>)>::empty());
    assert(seq![k].last() == k);
    assert(paragraph_records(seq![k]) =~= Seq::<(Seq<char>, Seq<char>)>::empty());
    lemma_paragraph_order(a + seq![k], b);
    lemma_paragraph_order(a, seq![k]);
    lemma_paragraph_order(a, b);
    assert(paragraph_records(a + seq![k]) =~= paragraph_records(a));
}

proof fn lemma_scan_insert(a: Seq<MdNode>, x: MdNode, b: Seq<MdNode>)
    requires
        !(x is Heading),
        !(x is List),
    ensures
        scan(a + seq![x] + b).0 == scan(a + b).0,
        scan(a + b).1 is None <==> scan(a + seq![x] + b).1 is None,
        scan(a + b).1 matches Some(k) ==> scan(a + seq![x] + b).1 == Some(
            if k < a.len() { k } else { k + 1 },
        ),
    decreases b.len(),
{
    lemma_scan_witness(a + b);
    if b.len() == 0 {
        assert(a + b =~= a);
        assert((a + seq![x] + b).drop_last() =~= a);
        assert((a + seq![x] + b).last() == x);
    } else {
        lemma_scan_insert(a, x, b.drop_last());
        assert((a + seq![x] + b).drop_last() =~= a + seq![x] + b.drop_last());
        assert((a + b).drop_last() =~= a + b.drop_last());
        assert((a + seq![x] + b).last() == b.last());
        assert((a + b).last() == b.last());
    }
}

/// A top-level block that is neither a heading nor a list (a block quote, a
/// paragraph) changes nothing: it yields no record and does not break the scan.
pub proof fn lemma_other_block_ignored(a: Seq<MdNode>, x: MdNode, b: Seq<MdNode>)
    requires
        !(x is Heading),
        !(x is List),
    ensures
        document_records(a + seq![x] + b) == document_records(a + b),
{
    lemma_scan_insert(a, x, b);
    lemma_scan_witness(a + b);
    if scan(a + b).1 is Some {
        let k = scan(a + b).1->0;
        if k < a.len() {
            assert((a + seq![x] + b)[k] == (a + b)[k]);
        } else {
            assert((a + seq![x] + b)[k + 1] == (a + b)[k]);
        }
    }
}

/// A list item whose children hold no paragraph yields no record.
pub proof fn lemma_item_without_paragraph(c: Seq<MdNode>)
    requires
        forall|i: int| 0 <= i < c.len() ==> !(#[trigger] c[i] is Paragraph),
    ensures
        item_records(c) == Seq::<(Seq<char>, Seq<char>)>::empty(),
    decreases c.len(),
{
    if c.len() > 0 {
        let d = c.drop_last();
        assert(forall|i: int| 0 <= i < d.len() ==> d[i] == c[i]);
        lemma_item_without_paragraph(d);
        assert(!(c[c.len() - 1] is Paragraph));
        assert(item_records(c) =~= Seq::<(Seq<char>, Seq<char>)>::empty());
    }
}

/// A paragraph whose children hold no link yields no record.
pub proof fn lemma_paragraph_without_link(c: Seq<MdNode>)
    requires
        forall|i: int| 0 <= i < c.len() ==> !(#[trigger] c[i] is Link),
    ensures
        paragraph_records(c) == Seq::<(Seq<char>, Seq<char>)>::empty(),
    decreases c.len(),
{
    if c.len() > 0 {
        let d = c.drop_last();
        assert(forall|i: int| 0 <= i < d.len() ==> d[i] == c[i]);
        lemma_paragraph_without_link(d);
        assert(!(c[c.len() - 1] is Link));
        assert(paragraph_records(c) =~= Seq::<(Seq<char>, Seq<char>)>::empty());
    }
}

/// A link whose children hold no text yields no record.
pub proof fn lemma_link_without_text(url: Seq<char>, c: Seq<MdNode>)
    requires
        forall|i: int| 0 <= i < c.len() ==> !(#[trigger] c[i] is Text),
    ensures
        link_records(url, c) == Seq::<(Seq<char>, Seq<char>)>::empty(),
    decreases c.len(),
{
    if c.len() > 0 {
        let d = c.drop_last();
        assert(forall|i: int| 0 <= i < d.len() ==> d[i] == c[i]);
        lemma_link_without_text(url, d);
        assert(!(c[c.len() - 1] is Text));
        assert(link_records(url, c) =~= Seq::<(Seq<char>, Seq<char>)>::empty());
    }
}

/// Whether a list child is an item holding one paragraph that holds one link
/// with one text child.
pub open spec fn is_simple_entry(x: MdNode) -> bool {
    match x {
        MdNode::ListItem(c) => c@.len() == 1 && match c@[0] {
            MdNode::Paragraph(p) => p@.len() == 1 && match p@[0] {
                MdNode::Link(_, t) => t@.len() == 1 && t@[0] is Text,
                _ => false,
            },
            _ => false,
        },
        _ => false,
    }
}

/// The text and URL of the link of a simple entry.
pub open spec fn entry_record(x: MdNode) -> (Seq<char>, Seq<char>) {
    let link = x->ListItem_0@[0]->Paragraph_0@[0];
    (link->Link_1@[0]->Text_0@, link->Link_0@)
}

proof fn lemma_simple_entry(x: MdNode)
    requires
        is_simple_entry(x),
    ensures
        list_records(seq![x]) == seq![entry_record(x)],
{
    let c = x->ListItem_0@;
    let p = c[0]->Paragraph_0@;
    let l = p[0];
    let t = l->Link_1@;
    assert(seq![x].drop_last() =~= Seq::<MdNode>::empty());
    assert(c.drop_last() =~= Seq::<MdNode>::empty());
    assert(p.drop_last() =~= Seq::<MdNode>::empty());
    assert(t.drop_last() =~= Seq::<MdNode>::empty());
    let e = Seq::<MdNode>::empty();
    assert(link_records(l->Link_0@, e) == Seq::<(Seq<char>, Seq<char>)>::empty());
    assert(paragraph_records(e) == Seq::<(Seq<char>, Seq<char>)>::empty());
    assert(item_records(e) == Seq::<(Seq<char>, Seq<char>)>::empty());
    assert(list_records(e) == Seq::<(Seq<char>, Seq<char>)>::empty());
    assert(t.last() == t[0]);
    assert(p.last() == l);
    assert(link_records(l->Link_0@, t) =~= seq![entry_record(x)]);
    assert(paragraph_records(p) =~= seq![entry_record(x)]);
    assert(item_records(c) =~= seq![entry_record(x)]);
    assert(list_records(seq![x]) =~= seq![entry_record(x)]);
}

/// A list whose children are all simple entries yields one record per entry,
/// in document order: the entry's link text and URL.
pub proof fn lemma_simple_list(l: Seq<MdNode>)
    requires
        forall|i: int| 0 <= i < l.len() ==> is_simple_entry(#[trigger] l[i]),
    ensures
        list_records(l) == l.map_values(|x: MdNode| entry_record(x)),
    decreases l.len(),
{
    if l.len() == 0 {
        assert(list_records(l) =~= l.map_values(|x: MdNode| entry_record(x)));
    } else {
        let d = l.drop_last();
        assert(forall|i: int| 0 <= i < d.len() ==> d[i] == l[i]);
        lemma_simple_list(d);
        assert(is_simple_entry(l[l.len() - 1]));
        lemma_simple_entry(l.last());
        assert(l =~= d + seq![l.last()]);
        lemma_list_order(d, seq![l.last()]);
        assert(list_records(l) =~= l.map_values(|x: MdNode| entry_record(x)));
    }
}

} // verus!
