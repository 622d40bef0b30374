//! The problems met while reading the entries, for a caller to report.
use vstd::prelude::*;
use crate::frequency::frequency_of;
use crate::sitemap::{number_at, priority_in_range, scan_upto, urlset_index, Slots};
use crate::xml::NodeView;

verus! {

/// One problem in an entry of the `urlset`. Each names a node by its index in
/// the document's node list: the child where the problem is, or the entry
/// itself for `MissingLoc`.
#[derive(Debug, PartialEq, Eq, Structural, Clone, Copy)]
pub enum Diagnostic {
    /// A second `<loc>`: the entry is dropped.
    MultipleLoc(usize),
    /// The entry has no `<loc>`: it is dropped.
    MissingLoc(usize),
    /// A repeated `<lastmod>`; the later one counts.
    RepeatedLastmod(usize),
    /// A repeated `<changefreq>`.
    RepeatedChangefreq(usize),
    /// A `<changefreq>` that names no frequency.
    InvalidChangefreq(usize),
    /// A repeated `<priority>`.
    RepeatedPriority(usize),
    /// A `<priority>` outside `[0.0, 1.0]`.
    PriorityOutOfRange(usize),
    /// A `<priority>` that is not a number.
    InvalidPriority(usize),
}

/// The problems that node `i`, a child of an entry, brings to what was gathered
/// before it.
pub open spec fn step_events(s: Slots, n: NodeView, num: Option<u32>, i: int) -> Seq<Diagnostic> {
    if s.rejected || !n.element || n.text is None {
        Seq::empty()
    } else if n.name == "loc"@ {
        if s.loc is Some {
            seq![Diagnostic::MultipleLoc(i as usize)]
        } else {
            Seq::empty()
        }
    } else if n.name == "lastmod"@ {
        if s.lastmod is Some {
            seq![Diagnostic::RepeatedLastmod(i as usize)]
        } else {
            Seq::empty()
        }
    } else if n.name == "changefreq"@ {
        (if s.freq is Some {
            seq![Diagnostic::RepeatedChangefreq(i as usize)]
        } else {
            Seq::empty()
        }) + (if frequency_of(n.text->0) is None {
            seq![Diagnostic::InvalidChangefreq(i as usize)]
        } else {
            Seq::empty()
        })
    } else if n.name == "priority"@ {
        (if s.priority is Some {
            seq![Diagnostic::RepeatedPriority(i as usize)]
        } else {
            Seq::empty()
        }) + match num {
            None => seq![Diagnostic::InvalidPriority(i as usize)],
            Some(b) => if priority_in_range(b) {
                Seq::empty()
            } else {
                seq![Diagnostic::PriorityOutOfRange(i as usize)]
            },
        }
    } else {
        Seq::empty()
    }
}

/// The problems that the children of node `id` among the first `n` nodes bring.
pub open spec fn events_upto(nodes: Seq<NodeView>, nums: Seq<Option<u32>>, id: u32, n: int) -> Seq<
    Diagnostic,
>
    decreases n,
{
    if n <= 0 || n > nodes.len() {
        Seq::empty()
    } else {
        let p = events_upto(nodes, nums, id, n - 1);
        if nodes[n - 1].parent == Some(id) {
            p + step_events(
                scan_upto(nodes, nums, id, n - 1),
                nodes[n - 1],
                number_at(nums, n - 1),
                n - 1,
            )
        } else {
            p
        }
    }
}

/// The problems of the entry at node `e`.
pub open spec fn entry_events(nodes: Seq<NodeView>, nums: Seq<Option<u32>>, e: int) -> Seq<
    Diagnostic,
> {
    let id = nodes[e].id;
    let s = scan_upto(nodes, nums, id, nodes.len() as int);
    events_upto(nodes, nums, id, nodes.len() as int) + if !s.rejected && s.loc is None {
        seq![Diagnostic::MissingLoc(e as usize)]
    } else {
        Seq::empty()
    }
}

/// The problems of the entries among the first `n` nodes, children of node `id`.
pub open spec fn document_events_upto(
    nodes: Seq<NodeView>,
    nums: Seq<Option<u32>>,
    id: u32,
    n: int,
) -> Seq<Diagnostic>
    decreases n,
{
    if n <= 0 || n > nodes.len() {
        Seq::empty()
    } else {
        let p = document_events_upto(nodes, nums, id, n - 1);
        if nodes[n - 1].parent == Some(id) {
            p + entry_events(nodes, nums, n - 1)
        } else {
            p
        }
    }
}

/// The problems of a document's entries, in document order; none where it has
/// no `<urlset>`.
pub open spec fn document_events(nodes: Seq<NodeView>, nums: Seq<Option<u32>>) -> Seq<Diagnostic> {
    match urlset_index(nodes) {
        Some(u) => document_events_upto(nodes, nums, nodes[u].id, nodes.len() as int),
        None => Seq::empty(),
    }
}

} // verus!
