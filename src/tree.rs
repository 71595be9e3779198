use vstd::prelude::*;

verus! {

/// The part of a markdown document tree that the extraction reads.
/// Every node kind that the extraction does not inspect is `Other`.
pub enum MdNode {
    Heading(Vec<MdNode>),
    List(Vec<MdNode>),
    ListItem(Vec<MdNode>),
    Paragraph(Vec<MdNode>),
    /// A link: its URL and its inline children.
    Link(String, Vec<MdNode>),
    Text(String),
    Other,
}

/// One extracted entry: the text of a link and the link's URL.
#[derive(Debug, PartialEq, Eq)]
pub struct ToCheckItem {
    pub text: String,
    pub link: String,
}

impl ToCheckItem {
    pub open spec fn view(&self) -> (Seq<char>, Seq<char>) {
        (self.text@, self.link@)
    }
}

/// The (label, URL) pairs that a sequence of items stands for.
pub open spec fn items_view(v: Seq<ToCheckItem>) -> Seq<(Seq<char>, Seq<char>)> {
    v.map_values(|r: ToCheckItem| r.view())
}

pub proof fn lemma_items_view_push(v: Seq<ToCheckItem>, r: ToCheckItem)
    ensures
        items_view(v.push(r)) == items_view(v).push(r.view()),
{
    assert(items_view(v.push(r)) =~= items_view(v).push(r.view()));
}

} // verus!
