use vstd::prelude::*;
use crate::tree::MdNode;
use markdown::mdast::Node;

verus! {

#[verifier::external_type_specification]
#[verifier::external_body]
pub struct ExMdastNode(Node);

/// Why the markdown parser refused a document.
#[derive(Debug, PartialEq, Eq)]
pub struct ParseError {
    pub reason: String,
}

/// The top-level blocks of the tree that the markdown parser builds from a text.
pub uninterp spec fn blocks_of(text: Seq<char>) -> Seq<MdNode>;

/// Relies on markdown::mdast::Node's variants and fields: the node kinds that
/// the extraction reads, with their children, URL or text, one for one.
#[verifier::external_body]
fn from_mdast(n: &Node) -> (r: MdNode) {
    let kids = |c: &Vec<Node>| c.iter().map(from_mdast).collect::<Vec<MdNode>>();
    match n {
        Node::Heading(h) => MdNode::Heading(kids(&h.children)),
        Node::List(l) => MdNode::List(kids(&l.children)),
        Node::ListItem(i) => MdNode::ListItem(kids(&i.children)),
        Node::Paragraph(p) => MdNode::Paragraph(kids(&p.children)),
        Node::Link(l) => MdNode::Link(l.url.clone(), kids(&l.children)),
        Node::Text(t) => MdNode::Text(t.value.clone()),
        _ => MdNode::Other,
    }
}

/// Relies on markdown::to_mdast with the default (CommonMark) options: it parses
/// a text into a tree, and the tree depends on the text alone. Its documentation
/// states that it never errors on markdown without MDX, which these options leave off.
#[verifier::external_body]
pub fn parse_blocks(md: &str) -> (r: Result<Vec<MdNode>, ParseError>)
    ensures
        r is Ok,
        r matches Ok(v) ==> v@ == blocks_of(md@),
{
    match markdown::to_mdast(md, &markdown::ParseOptions::default()) {
        Ok(root) => Ok(root.children().map_or(Vec::new(), |c| c.iter().map(from_mdast).collect())),
        Err(m) => Err(ParseError { reason: m.reason.clone() }),
    }
}

} // verus!
