//! A parsed XML document, held as the plain list of its nodes.
use vstd::prelude::*;

verus! {

#[verifier::external_type_specification]
#[verifier::external_body]
pub struct ExXmlError(roxmltree::Error);

/// One node of a parsed XML document.
///
/// `id` names the node within its document and `parent` names the node that
/// holds it (`None` for the document's root). `name` is the local tag name of an
/// element, empty for other kinds of node; `text` is the text of an element's
/// first child when that child is text, or the text of a text or comment node.
#[derive(Debug, Clone)]
pub struct XmlNode {
    pub id: u32,
    pub parent: Option<u32>,
    pub element: bool,
    pub name: String,
    pub text: Option<String>,
}

/// The mathematical value of an [`XmlNode`].
pub struct NodeView {
    pub id: u32,
    pub parent: Option<u32>,
    pub element: bool,
    pub name: Seq<char>,
    pub text: Option<Seq<char>>,
}

pub open spec fn text_view(t: Option<String>) -> Option<Seq<char>> {
    match t {
        Some(s) => Some(s@),
        None => None,
    }
}

impl View for XmlNode {
    type V = NodeView;

    open spec fn view(&self) -> NodeView {
        NodeView {
            id: self.id,
            parent: self.parent,
            element: self.element,
            name: self.name@,
            text: text_view(self.text),
        }
    }
}

pub open spec fn nodes_view(v: Seq<XmlNode>) -> Seq<NodeView> {
    v.map_values(|n: XmlNode| n@)
}

impl XmlNode {
    pub fn new(id: u32, parent: Option<u32>, element: bool, name: &str, text: Option<&str>) -> (r:
        XmlNode)
        ensures
            r@ == (NodeView {
                id,
                parent,
                element,
                name: name@,
                text: match text {
                    Some(t) => Some(t@),
                    None => None,
                },
            }),
    {
        let text = match text {
            Some(t) => Some(t.to_owned()),
            None => None,
        };
        XmlNode { id, parent, element, name: name.to_owned(), text }
    }
}

/// The nodes of the XML document that a text holds, in document order, or
/// `None` where the text is not a well-formed XML document.
pub uninterp spec fn xml_nodes_of(s: Seq<char>) -> Option<Seq<NodeView>>;

/// Relies on roxmltree::Document::parse, which reads a text as one XML document
/// or fails, and on Document::descendants, which lists every node from the root
/// on in document order.
#[verifier::external_body]
pub(crate) fn parse_xml(s: &str) -> (r: Result<Vec<XmlNode>, roxmltree::Error>)
    ensures
        r is Ok <==> xml_nodes_of(s@) is Some,
        r matches Ok(v) ==> xml_nodes_of(s@) == Some(nodes_view(v@)),
{
    let doc = roxmltree::Document::parse(s)?;
    Ok(
        doc.descendants().map(
            |n| XmlNode::new(n.id().get(), n.parent().map(|p| p.id().get()), n.is_element(), n.tag_name().name(), n.text()),
        ).collect(),
    )
}

} // verus!
