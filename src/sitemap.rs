//! The `urlset` document and the entries read from it.
use vstd::prelude::*;
use crate::frequency::{Frequency, frequency_of};
use crate::text::eq_exact;
use crate::diagnostics::{Diagnostic, document_events, document_events_upto, entry_events, events_upto, step_events};
use crate::xml::{XmlNode, NodeView, nodes_view, text_view, parse_xml, xml_nodes_of};

verus! {

/// The ways in which a sitemap cannot be read at all.
#[derive(Debug, PartialEq, Eq)]
pub enum SitemapError {
    /// The mandatory `<urlset>` root element is missing.
    UrlsetMissing,
    /// The text is not a well-formed XML document.
    Parse(roxmltree::Error),
}

/// The data of one entry of the `urlset`.
///
/// `priority` holds the IEEE-754 single-precision bit pattern of the value,
/// which always lies in `[0.0, 1.0]`.
#[derive(Debug, PartialEq, Eq, Clone)]
pub struct UrlEntry {
    pub location: String,
    pub last_modified: Option<String>,
    pub change_frequency: Option<Frequency>,
    pub priority: Option<u32>,
}

/// The mathematical value of a [`UrlEntry`].
pub struct EntryView {
    pub location: Seq<char>,
    pub last_modified: Option<Seq<char>>,
    pub change_frequency: Option<Frequency>,
    pub priority: Option<u32>,
}

impl View for UrlEntry {
    type V = EntryView;

    open spec fn view(&self) -> EntryView {
        EntryView {
            location: self.location@,
            last_modified: text_view(self.last_modified),
            change_frequency: self.change_frequency,
            priority: self.priority,
        }
    }
}

pub open spec fn entries_view(v: Seq<UrlEntry>) -> Seq<EntryView> {
    v.map_values(|e: UrlEntry| e@)
}

/// A single-precision bit pattern of a number in `[0.0, 1.0]`: from `+0.0` up
/// to `1.0`, and `-0.0`. No NaN is in range.
pub open spec fn priority_in_range(bits: u32) -> bool {
    bits <= 0x3F80_0000 || bits == 0x8000_0000
}

/// Tells whether a single-precision bit pattern stands for a number in
/// `[0.0, 1.0]`.
pub fn in_priority_range(bits: u32) -> (r: bool)
    ensures
        r == priority_in_range(bits),
{
    bits <= 0x3F80_0000 || bits == 0x8000_0000
}

/// What has been gathered from the children of one entry so far.
pub struct Slots {
    pub loc: Option<Seq<char>>,
    pub lastmod: Option<Seq<char>>,
    pub freq: Option<Frequency>,
    pub priority: Option<u32>,
    /// A second `<loc>` was met: the entry is dropped.
    pub rejected: bool,
}

pub open spec fn empty_slots() -> Slots {
    Slots { loc: None, lastmod: None, freq: None, priority: None, rejected: false }
}

/// The number read from the text of node `i`, as a single-precision bit
/// pattern; `None` where none was read or `nums` does not reach `i`.
pub open spec fn number_at(nums: Seq<Option<u32>>, i: int) -> Option<u32> {
    if 0 <= i < nums.len() {
        nums[i]
    } else {
        None
    }
}

/// One child node of an entry applied to what was gathered before it.
pub open spec fn step(s: Slots, n: NodeView, num: Option<u32>) -> Slots {
    if s.rejected || !n.element {
        s
    } else {
        match n.text {
            None => s,
            Some(t) => if n.name == "loc"@ {
                if s.loc is Some {
                    Slots { rejected: true, ..s }
                } else {
                    Slots { loc: Some(t), ..s }
                }
            } else if n.name == "lastmod"@ {
                Slots { lastmod: Some(t), ..s }
            } else if n.name == "changefreq"@ {
                match frequency_of(t) {
                    Some(f) => Slots { freq: Some(f), ..s },
                    None => s,
                }
            } else if n.name == "priority"@ {
                match num {
                    Some(b) => if priority_in_range(b) {
                        Slots { priority: Some(b), ..s }
                    } else {
                        s
                    },
                    None => s,
                }
            } else {
                s
            },
        }
    }
}

/// The children of node `id` among the first `n` nodes, applied in order.
pub open spec fn scan_upto(nodes: Seq<NodeView>, nums: Seq<Option<u32>>, id: u32, n: int) -> Slots
    decreases n,
{
    if n <= 0 || n > nodes.len() {
        empty_slots()
    } else {
        let s = scan_upto(nodes, nums, id, n - 1);
        if nodes[n - 1].parent == Some(id) {
            step(s, nodes[n - 1], number_at(nums, n - 1))
        } else {
            s
        }
    }
}

/// The entry that node `id` gives, if any.
pub open spec fn entry_of(nodes: Seq<NodeView>, nums: Seq<Option<u32>>, id: u32) -> Option<EntryView> {
    let s = scan_upto(nodes, nums, id, nodes.len() as int);
    if s.rejected {
        None
    } else {
        match s.loc {
            Some(l) => Some(
                EntryView {
                    location: l,
                    last_modified: s.lastmod,
                    change_frequency: s.freq,
                    priority: s.priority,
                },
            ),
            None => None,
        }
    }
}

/// The entries that the children of node `id` among the first `n` nodes give.
pub open spec fn entries_upto(nodes: Seq<NodeView>, nums: Seq<Option<u32>>, id: u32, n: int) -> Seq<
    EntryView,
>
    decreases n,
{
    if n <= 0 || n > nodes.len() {
        Seq::empty()
    } else {
        let p = entries_upto(nodes, nums, id, n - 1);
        if nodes[n - 1].parent == Some(id) {
            match entry_of(nodes, nums, nodes[n - 1].id) {
                Some(e) => p.push(e),
                None => p,
            }
        } else {
            p
        }
    }
}

/// The index of the first element among the children of node `id`, from
/// index `i` on.
pub open spec fn first_element_from(nodes: Seq<NodeView>, id: u32, i: int) -> Option<int>
    decreases nodes.len() - i,
{
    if i < 0 || i >= nodes.len() {
        None
    } else if nodes[i].parent == Some(id) && nodes[i].element {
        Some(i)
    } else {
        first_element_from(nodes, id, i + 1)
    }
}

/// The index of the `<urlset>` element: the first element under the document's
/// root (its first node), when it is named `urlset`.
pub open spec fn urlset_index(nodes: Seq<NodeView>) -> Option<int> {
    if nodes.len() == 0 {
        None
    } else {
        match first_element_from(nodes, nodes[0].id, 0) {
            Some(i) => if nodes[i].name == "urlset"@ {
                Some(i)
            } else {
                None
            },
            None => None,
        }
    }
}

/// The entries of a document, or `None` where it has no `<urlset>` root.
pub open spec fn entries_of(nodes: Seq<NodeView>, nums: Seq<Option<u32>>) -> Option<Seq<EntryView>> {
    match urlset_index(nodes) {
        Some(u) => Some(entries_upto(nodes, nums, nodes[u].id, nodes.len() as int)),
        None => None,
    }
}

/// A parsed sitemap document.
pub struct Document {
    nodes: Vec<XmlNode>,
}

impl View for Document {
    type V = Seq<NodeView>;

    closed spec fn view(&self) -> Seq<NodeView> {
        nodes_view(self.nodes@)
    }
}

impl Document {
    /// Parses `xml_document` as an XML document; the `<urlset>` is looked for
    /// when the entries are read.
    pub fn parse(xml_document: &str) -> (r: Result<Document, SitemapError>)
        ensures
            r is Ok <==> xml_nodes_of(xml_document@) is Some,
            r matches Ok(d) ==> xml_nodes_of(xml_document@) == Some(d@),
            r is Err ==> r matches Err(SitemapError::Parse(_)),
    {
        match parse_xml(xml_document) {
            Ok(nodes) => Ok(Document { nodes }),
            Err(e) => Err(SitemapError::Parse(e)),
        }
    }

    /// A document made of the given nodes, in document order; the first one is
    /// taken for the document's root.
    pub fn from_nodes(nodes: Vec<XmlNode>) -> (r: Document)
        ensures
            r@ == nodes_view(nodes@),
    {
        Document { nodes }
    }

    /// The number of nodes in the document, its root included.
    pub fn len(&self) -> (r: usize)
        ensures
            r == self@.len(),
    {
        self.nodes.len()
    }

    /// The text of each node, in document order.
    pub fn node_texts(&self) -> (r: Vec<Option<String>>)
        ensures
            r@.len() == self@.len(),
            forall|i: int| 0 <= i < r@.len() ==> text_view(#[trigger] r@[i]) == self@[i].text,
    {
        let mut r: Vec<Option<String>> = Vec::new();
        let mut i: usize = 0;
        while i < self.nodes.len()
            invariant
                i <= self.nodes@.len(),
                r@.len() == i,
                forall|j: int| 0 <= j < i ==> text_view(#[trigger] r@[j]) == self@[j].text,
            decreases self.nodes@.len() - i,
        {
            let t = match &self.nodes[i].text {
                Some(t) => Some(t.clone()),
                None => None,
            };
            r.push(t);
            i = i + 1;
        }
        r
    }

    /// The index of the `<urlset>` element.
    fn urlset(&self) -> (r: Option<usize>)
        ensures
            match urlset_index(self@) {
                Some(u) => r matches Some(i) && i as int == u,
                None => r is None,
            },
            r matches Some(i) ==> i < self@.len(),
    {
        if self.nodes.len() == 0 {
            return None;
        }
        let root = self.nodes[0].id;
        let mut i: usize = 0;
        while i < self.nodes.len()
            invariant
                i <= self.nodes@.len(),
                self@.len() == self.nodes@.len(),
                self@.len() > 0,
                root == self@[0].id,
                first_element_from(self@, root, 0) == first_element_from(self@, root, i as int),
            decreases self.nodes@.len() - i,
        {
            let n = &self.nodes[i];
            assert(self@[i as int] == n@);
            let under_root = match n.parent {
                Some(p) => p == root,
                None => false,
            };
            if under_root && n.element {
                if eq_exact(n.name.as_str(), "urlset") {
                    return Some(i);
                } else {
                    return None;
                }
            }
            i = i + 1;
        }
        None
    }

    /// The entry that the children of node `id` give, if any.
    fn entry(&self, nums: &Vec<Option<u32>>, id: u32) -> (r: Option<UrlEntry>)
        ensures
            match entry_of(self@, nums@, id) {
                Some(e) => r matches Some(x) && x@ == e,
                None => r is None,
            },
    {
        let mut loc: Option<String> = None;
        let mut lastmod: Option<String> = None;
        let mut freq: Option<Frequency> = None;
        let mut priority: Option<u32> = None;
        let mut rejected = false;
        let mut i: usize = 0;
        while i < self.nodes.len()
            invariant
                i <= self.nodes@.len(),
                self@.len() == self.nodes@.len(),
                (Slots {
                    loc: text_view(loc),
                    lastmod: text_view(lastmod),
                    freq,
                    priority,
                    rejected,
                }) == scan_upto(self@, nums@, id, i as int),
            decreases self.nodes@.len() - i,
        {
            let n = &self.nodes[i];
            assert(self@[i as int] == n@);
            let num = if i < nums.len() {
                nums[i]
            } else {
                None
            };
            let child = match n.parent {
                Some(p) => p == id,
                None => false,
            };
            if child && !rejected && n.element {
                if let Some(t) = &n.text {
                    if eq_exact(n.name.as_str(), "loc") {
                        if loc.is_some() {
                            rejected = true;
                        } else {
                            loc = Some(t.clone());
                        }
                    } else if eq_exact(n.name.as_str(), "lastmod") {
                        lastmod = Some(t.clone());
                    } else if eq_exact(n.name.as_str(), "changefreq") {
                        if let Ok(f) = Frequency::from_str(t.as_str()) {
                            freq = Some(f);
                        }
                    } else if eq_exact(n.name.as_str(), "priority") {
                        if let Some(b) = num {
                            if in_priority_range(b) {
                                priority = Some(b);
                            }
                        }
                    }
                }
            }
            i = i + 1;
        }
        if rejected {
            return None;
        }
        match loc {
            Some(location) => Some(
                UrlEntry { location, last_modified: lastmod, change_frequency: freq, priority },
            ),
            None => None,
        }
    }

    /// The entries of the `<urlset>`, in document order, or
    /// `UrlsetMissing` where the document's first element is not a `<urlset>`.
    ///
    /// `nums[i]` is the number read from the text of the `i`-th node, as a
    /// single-precision bit pattern: it decides each `<priority>`. An entry with
    /// no `<loc>`, or with two, is left out; an out-of-range or unreadable
    /// `<priority>` or `<changefreq>` is left unset; of repeated optional
    /// fields the last valid one counts.
    pub fn iterate(&self, nums: &Vec<Option<u32>>) -> (r: Result<Vec<UrlEntry>, SitemapError>)
        ensures
            match entries_of(self@, nums@) {
                Some(es) => r matches Ok(v) && entries_view(v@) == es,
                None => r matches Err(SitemapError::UrlsetMissing),
            },
    {
        let u = match self.urlset() {
            Some(u) => u,
            None => return Err(SitemapError::UrlsetMissing),
        };
        let uid = self.nodes[u].id;
        assert(self@[u as int].id == uid);
        let mut out: Vec<UrlEntry> = Vec::new();
        let mut i: usize = 0;
        while i < self.nodes.len()
            invariant
                i <= self.nodes@.len(),
                self@.len() == self.nodes@.len(),
                u < self@.len(),
                urlset_index(self@) == Some(u as int),
                uid == self@[u as int].id,
                entries_view(out@) == entries_upto(self@, nums@, uid, i as int),
            decreases self.nodes@.len() - i,
        {
            let n = &self.nodes[i];
            assert(self@[i as int] == n@);
            let child = match n.parent {
                Some(p) => p == uid,
                None => false,
            };
            if child {
                if let Some(e) = self.entry(nums, n.id) {
                    out.push(e);
                    assert(entries_view(out@) =~= entries_view(out@.drop_last()).push(e@));
                }
            }
            i = i + 1;
        }
        Ok(out)
    }

    /// The problems of the entry at node `e`, in the order of its children.
    fn entry_events(&self, nums: &Vec<Option<u32>>, e: usize) -> (r: Vec<Diagnostic>)
        requires
            e < self@.len(),
        ensures
            r@ == entry_events(self@, nums@, e as int),
    {
        assert(self@[e as int] == self.nodes@[e as int]@);
        let id = self.nodes[e].id;
        let mut out: Vec<Diagnostic> = Vec::new();
        let mut loc = false;
        let mut lastmod = false;
        let mut freq: Option<Frequency> = None;
        let mut priority: Option<u32> = None;
        let mut rejected = false;
        let mut i: usize = 0;
        while i < self.nodes.len()
            invariant
                i <= self.nodes@.len(),
                self@.len() == self.nodes@.len(),
                loc == scan_upto(self@, nums@, id, i as int).loc is Some,
                lastmod == scan_upto(self@, nums@, id, i as int).lastmod is Some,
                freq == scan_upto(self@, nums@, id, i as int).freq,
                priority == scan_upto(self@, nums@, id, i as int).priority,
                rejected == scan_upto(self@, nums@, id, i as int).rejected,
                out@ == events_upto(self@, nums@, id, i as int),
            decreases self.nodes@.len() - i,
        {
            let n = &self.nodes[i];
            assert(self@[i as int] == n@);
            let ghost s0 = scan_upto(self@, nums@, id, i as int);
            let ghost o0 = out@;
            let num = if i < nums.len() {
                nums[i]
            } else {
                None
            };
            let child = match n.parent {
                Some(p) => p == id,
                None => false,
            };
            if child && !rejected && n.element {
                if let Some(t) = &n.text {
                    if eq_exact(n.name.as_str(), "loc") {
                        if loc {
                            out.push(Diagnostic::MultipleLoc(i));
                            rejected = true;
                        } else {
                            loc = true;
                        }
                    } else if eq_exact(n.name.as_str(), "lastmod") {
                        if lastmod {
                            out.push(Diagnostic::RepeatedLastmod(i));
                        }
                        lastmod = true;
                    } else if eq_exact(n.name.as_str(), "changefreq") {
                        if freq.is_some() {
                            out.push(Diagnostic::RepeatedChangefreq(i));
                        }
                        match Frequency::from_str(t.as_str()) {
                            Ok(f) => freq = Some(f),
                            Err(_) => out.push(Diagnostic::InvalidChangefreq(i)),
                        }
                    } else if eq_exact(n.name.as_str(), "priority") {
                        if priority.is_some() {
                            out.push(Diagnostic::RepeatedPriority(i));
                        }
                        match num {
                            Some(b) => if in_priority_range(b) {
                                priority = Some(b);
                            } else {
                                out.push(Diagnostic::PriorityOutOfRange(i));
                            },
                            None => out.push(Diagnostic::InvalidPriority(i)),
                        }
                    }
                }
            }
            assert(out@ =~= o0 + if child {
                step_events(s0, self@[i as int], number_at(nums@, i as int), i as int)
            } else {
                Seq::<Diagnostic>::empty()
            });
            i = i + 1;
        }
        if !rejected && !loc {
            out.push(Diagnostic::MissingLoc(e));
        }
        out
    }

    /// The problems met in reading the entries, in document order: those that
    /// `iterate` passes over in silence. None where there is no `<urlset>`.
    pub fn diagnostics(&self, nums: &Vec<Option<u32>>) -> (r: Vec<Diagnostic>)
        ensures
            r@ == document_events(self@, nums@),
    {
        let u = match self.urlset() {
            Some(u) => u,
            None => return Vec::new(),
        };
        let uid = self.nodes[u].id;
        assert(self@[u as int].id == uid);
        let mut out: Vec<Diagnostic> = Vec::new();
        let mut i: usize = 0;
        while i < self.nodes.len()
            invariant
                i <= self.nodes@.len(),
                self@.len() == self.nodes@.len(),
                u < self@.len(),
                urlset_index(self@) == Some(u as int),
                uid == self@[u as int].id,
                out@ == document_events_upto(self@, nums@, uid, i as int),
            decreases self.nodes@.len() - i,
        {
            assert(self@[i as int] == self.nodes@[i as int]@);
            let child = match self.nodes[i].parent {
                Some(p) => p == uid,
                None => false,
            };
            if child {
                let mut ev = self.entry_events(nums, i);
                out.append(&mut ev);
            }
            i = i + 1;
        }
        out
    }
}

} // verus!
