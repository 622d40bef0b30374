//! Properties of the entries that a sitemap gives.
use vstd::prelude::*;
use crate::sitemap::{number_at, priority_in_range, entries_of, entries_upto, entry_of, first_element_from, scan_upto, urlset_index, EntryView};
use crate::xml::NodeView;

verus! {

/// A child of node `id` that is a `<loc>` element with text.
pub open spec fn is_loc_child(nodes: Seq<NodeView>, id: u32, k: int) -> bool {
    &&& 0 <= k < nodes.len()
    &&& nodes[k].parent == Some(id)
    &&& nodes[k].element
    &&& nodes[k].name == "loc"@
    &&& nodes[k].text is Some
}

/// A document whose first element is not a `<urlset>`, or that has no element
/// under its root, gives no entries at all.
pub proof fn lemma_no_urlset_no_entries(nodes: Seq<NodeView>, nums: Seq<Option<u32>>)
    requires
        nodes.len() == 0 || match first_element_from(nodes, nodes[0].id, 0) {
            Some(i) => nodes[i].name != "urlset"@,
            None => true,
        },
    ensures
        entries_of(nodes, nums) is None,
{
}

proof fn lemma_loc_or_rejected_kept(nodes: Seq<NodeView>, nums: Seq<Option<u32>>, id: u32, i: int, n: int)
    requires
        is_loc_child(nodes, id, i),
        i < n <= nodes.len(),
    ensures
        scan_upto(nodes, nums, id, n).rejected || scan_upto(nodes, nums, id, n).loc is Some,
    decreases n,
{
    if n > i + 1 {
        lemma_loc_or_rejected_kept(nodes, nums, id, i, n - 1);
    }
}

proof fn lemma_rejected_kept(nodes: Seq<NodeView>, nums: Seq<Option<u32>>, id: u32, j: int, n: int)
    requires
        scan_upto(nodes, nums, id, j).rejected,
        0 <= j <= n <= nodes.len(),
    ensures
        scan_upto(nodes, nums, id, n).rejected,
    decreases n,
{
    if n > j {
        lemma_rejected_kept(nodes, nums, id, j, n - 1);
    }
}

/// An entry with two `<loc>` children gives no entry.
pub proof fn lemma_two_locations_drop_entry(
    nodes: Seq<NodeView>,
    nums: Seq<Option<u32>>,
    id: u32,
    i: int,
    j: int,
)
    requires
        i < j,
        is_loc_child(nodes, id, i),
        is_loc_child(nodes, id, j),
    ensures
        entry_of(nodes, nums, id) is None,
{
    if j > i + 1 {
        lemma_loc_or_rejected_kept(nodes, nums, id, i, j);
    } else {
        lemma_loc_or_rejected_kept(nodes, nums, id, i, i + 1);
    }
    assert(scan_upto(nodes, nums, id, j + 1).rejected);
    lemma_rejected_kept(nodes, nums, id, j + 1, nodes.len() as int);
}

proof fn lemma_no_loc_upto(nodes: Seq<NodeView>, nums: Seq<Option<u32>>, id: u32, n: int)
    requires
        n <= nodes.len(),
        forall|k: int| 0 <= k < nodes.len() ==> !is_loc_child(nodes, id, k),
    ensures
        scan_upto(nodes, nums, id, n).loc is None,
    decreases n,
{
    if n > 0 {
        lemma_no_loc_upto(nodes, nums, id, n - 1);
        assert(!is_loc_child(nodes, id, n - 1));
    }
}

/// An entry with no `<loc>` child gives no entry.
pub proof fn lemma_no_location_drops_entry(nodes: Seq<NodeView>, nums: Seq<Option<u32>>, id: u32)
    requires
        forall|k: int| 0 <= k < nodes.len() ==> !is_loc_child(nodes, id, k),
    ensures
        entry_of(nodes, nums, id) is None,
{
    lemma_no_loc_upto(nodes, nums, id, nodes.len() as int);
}

/// Node `id` has exactly one `<loc>` child with text, at index `k`.
pub open spec fn sole_loc_child(nodes: Seq<NodeView>, id: u32, k: int) -> bool {
    &&& is_loc_child(nodes, id, k)
    &&& forall|m: int| 0 <= m < nodes.len() && m != k ==> !is_loc_child(nodes, id, m)
}

/// Node `id` has exactly one `<loc>` child with text.
pub open spec fn has_sole_loc(nodes: Seq<NodeView>, id: u32) -> bool {
    exists|k: int| sole_loc_child(nodes, id, k)
}

/// The text of the one `<loc>` child of node `id`.
pub open spec fn sole_loc_text(nodes: Seq<NodeView>, id: u32) -> Seq<char> {
    nodes[choose|k: int| sole_loc_child(nodes, id, k)].text->0
}

/// The `<loc>` text of each element child of node `id` among the first `n`
/// nodes.
pub open spec fn child_locations(nodes: Seq<NodeView>, id: u32, n: int) -> Seq<Seq<char>>
    decreases n,
{
    if n <= 0 || n > nodes.len() {
        Seq::empty()
    } else {
        let p = child_locations(nodes, id, n - 1);
        if nodes[n - 1].parent == Some(id) && nodes[n - 1].element {
            p.push(sole_loc_text(nodes, nodes[n - 1].id))
        } else {
            p
        }
    }
}

pub open spec fn locations(es: Seq<EntryView>) -> Seq<Seq<char>> {
    es.map_values(|e: EntryView| e.location)
}

proof fn lemma_sole_loc_upto(nodes: Seq<NodeView>, nums: Seq<Option<u32>>, id: u32, k: int, n: int)
    requires
        sole_loc_child(nodes, id, k),
        0 <= n <= nodes.len(),
    ensures
        !scan_upto(nodes, nums, id, n).rejected,
        scan_upto(nodes, nums, id, n).loc == (if n > k {
            nodes[k].text
        } else {
            None
        }),
    decreases n,
{
    if n > 0 {
        lemma_sole_loc_upto(nodes, nums, id, k, n - 1);
        if n - 1 != k {
            assert(!is_loc_child(nodes, id, n - 1));
        }
    }
}

/// An entry with exactly one `<loc>` child gives one entry, located at that
/// child's text.
pub proof fn lemma_sole_location_gives_entry(nodes: Seq<NodeView>, nums: Seq<Option<u32>>, id: u32)
    requires
        has_sole_loc(nodes, id),
    ensures
        entry_of(nodes, nums, id) matches Some(e) && e.location == sole_loc_text(nodes, id),
{
    let k = choose|k: int| sole_loc_child(nodes, id, k);
    lemma_sole_loc_upto(nodes, nums, id, k, nodes.len() as int);
}

proof fn lemma_locations_upto(nodes: Seq<NodeView>, nums: Seq<Option<u32>>, id: u32, n: int)
    requires
        0 <= n <= nodes.len(),
        forall|c: int|
            0 <= c < nodes.len() && #[trigger] nodes[c].parent == Some(id) ==> located_child(
                nodes,
                c,
            ),
    ensures
        locations(entries_upto(nodes, nums, id, n)) == child_locations(nodes, id, n),
    decreases n,
{
    if n > 0 {
        lemma_locations_upto(nodes, nums, id, n - 1);
        let p = entries_upto(nodes, nums, id, n - 1);
        if nodes[n - 1].parent == Some(id) && !nodes[n - 1].element {
            lemma_no_location_drops_entry(nodes, nums, nodes[n - 1].id);
        } else if nodes[n - 1].parent == Some(id) {
            lemma_sole_location_gives_entry(nodes, nums, nodes[n - 1].id);
            let e = entry_of(nodes, nums, nodes[n - 1].id)->0;
            assert(locations(p.push(e)) =~= locations(p).push(e.location));
        }
    }
}

/// Node `c` is an element with exactly one `<loc>` child, or another kind of
/// node (text between entries, a comment) with no `<loc>` child.
pub open spec fn located_child(nodes: Seq<NodeView>, c: int) -> bool {
    if nodes[c].element {
        has_sole_loc(nodes, nodes[c].id)
    } else {
        forall|k: int| 0 <= k < nodes.len() ==> !is_loc_child(nodes, nodes[c].id, k)
    }
}

/// Where every element child of the `<urlset>` has exactly one `<loc>`, and
/// its other children (text between entries, comments) have none, the entries
/// are one per element child, in document order, each located at its child's
/// `<loc>` text.
pub proof fn lemma_one_entry_per_located_child(nodes: Seq<NodeView>, nums: Seq<Option<u32>>)
    requires
        urlset_index(nodes) is Some,
        forall|c: int|
            0 <= c < nodes.len() && #[trigger] nodes[c].parent == Some(
                nodes[urlset_index(nodes)->0].id,
            ) ==> located_child(nodes, c),
    ensures
        entries_of(nodes, nums) matches Some(es) && locations(es) == child_locations(
            nodes,
            nodes[urlset_index(nodes)->0].id,
            nodes.len() as int,
        ),
{
    let u = urlset_index(nodes)->0;
    lemma_locations_upto(nodes, nums, nodes[u].id, nodes.len() as int);
}

/// A child of node `id` that is a `<lastmod>` element with text.
pub open spec fn is_lastmod_child(nodes: Seq<NodeView>, id: u32, k: int) -> bool {
    &&& 0 <= k < nodes.len()
    &&& nodes[k].parent == Some(id)
    &&& nodes[k].element
    &&& nodes[k].name == "lastmod"@
    &&& nodes[k].text is Some
}

proof fn lemma_lastmod_kept(nodes: Seq<NodeView>, nums: Seq<Option<u32>>, id: u32, k: int, n: int)
    requires
        is_lastmod_child(nodes, id, k),
        k < n <= nodes.len(),
        forall|m: int| k < m < nodes.len() ==> !is_lastmod_child(nodes, id, m),
    ensures
        scan_upto(nodes, nums, id, n).rejected || scan_upto(nodes, nums, id, n).lastmod
            == nodes[k].text,
    decreases n,
{
    if n > k + 1 {
        lemma_lastmod_kept(nodes, nums, id, k, n - 1);
        assert(!is_lastmod_child(nodes, id, n - 1));
    } else {
        reveal_strlit("loc");
        reveal_strlit("lastmod");
        assert("lastmod"@.len() != "loc"@.len());
    }
}

/// Of several `<lastmod>` children of an entry, the last one gives its
/// last-modified text.
pub proof fn lemma_last_lastmod_wins(nodes: Seq<NodeView>, nums: Seq<Option<u32>>, id: u32, k: int)
    requires
        is_lastmod_child(nodes, id, k),
        forall|m: int| k < m < nodes.len() ==> !is_lastmod_child(nodes, id, m),
        entry_of(nodes, nums, id) is Some,
    ensures
        entry_of(nodes, nums, id)->0.last_modified == nodes[k].text,
{
    lemma_lastmod_kept(nodes, nums, id, k, nodes.len() as int);
}

proof fn lemma_priority_in_range_upto(nodes: Seq<NodeView>, nums: Seq<Option<u32>>, id: u32, n: int)
    requires
        n <= nodes.len(),
    ensures
        scan_upto(nodes, nums, id, n).priority matches Some(b) ==> priority_in_range(b),
    decreases n,
{
    if n > 0 {
        lemma_priority_in_range_upto(nodes, nums, id, n - 1);
    }
}

/// The priority of an entry, when it has one, lies in `[0.0, 1.0]`: a
/// `<priority>` that is out of range or unreadable sets nothing.
pub proof fn lemma_priority_always_in_range(nodes: Seq<NodeView>, nums: Seq<Option<u32>>, id: u32)
    ensures
        entry_of(nodes, nums, id) matches Some(e) ==> (e.priority matches Some(b)
            ==> priority_in_range(b)),
{
    lemma_priority_in_range_upto(nodes, nums, id, nodes.len() as int);
}

/// The numbers for a node list with node `c` taken out.
pub open spec fn nums_without(nums: Seq<Option<u32>>, c: int) -> Seq<Option<u32>> {
    if 0 <= c < nums.len() {
        nums.remove(c)
    } else {
        nums
    }
}

proof fn lemma_scan_without(
    nodes: Seq<NodeView>,
    nums: Seq<Option<u32>>,
    c: int,
    id: u32,
    n: int,
)
    requires
        0 <= c < nodes.len(),
        nodes[c].parent != Some(id),
        0 <= n <= nodes.len(),
    ensures
        n <= c ==> scan_upto(nodes.remove(c), nums_without(nums, c), id, n) == scan_upto(
            nodes,
            nums,
            id,
            n,
        ),
        n > c ==> scan_upto(nodes.remove(c), nums_without(nums, c), id, n - 1) == scan_upto(
            nodes,
            nums,
            id,
            n,
        ),
    decreases n,
{
    let r = nodes.remove(c);
    let m = nums_without(nums, c);
    if n > 0 {
        lemma_scan_without(nodes, nums, c, id, n - 1);
        if n - 1 < c {
            assert(r[n - 1] == nodes[n - 1]);
            assert(number_at(m, n - 1) == number_at(nums, n - 1));
        } else if n - 1 > c {
            assert(r[n - 2] == nodes[n - 1]);
            assert(number_at(m, n - 2) == number_at(nums, n - 1));
        }
    }
}

proof fn lemma_entries_without(
    nodes: Seq<NodeView>,
    nums: Seq<Option<u32>>,
    c: int,
    id: u32,
    n: int,
)
    requires
        0 <= c < nodes.len(),
        nodes[c].parent == Some(id),
        forall|k: int| 0 <= k < nodes.len() ==> !is_loc_child(nodes, nodes[c].id, k),
        forall|j: int| 0 <= j < nodes.len() && #[trigger] nodes[j].parent == Some(id) ==> nodes[j].id != id,
        0 <= n <= nodes.len(),
    ensures
        n <= c ==> entries_upto(nodes.remove(c), nums_without(nums, c), id, n) == entries_upto(
            nodes,
            nums,
            id,
            n,
        ),
        n > c ==> entries_upto(nodes.remove(c), nums_without(nums, c), id, n - 1) == entries_upto(
            nodes,
            nums,
            id,
            n,
        ),
    decreases n,
{
    let r = nodes.remove(c);
    let m = nums_without(nums, c);
    if n > 0 {
        lemma_entries_without(nodes, nums, c, id, n - 1);
        let j = n - 1;
        if j == c {
            lemma_no_location_drops_entry(nodes, nums, nodes[c].id);
        } else if nodes[j].parent == Some(id) {
            let k = if j < c { j } else { j - 1 };
            assert(r[k] == nodes[j]);
            lemma_scan_without(nodes, nums, c, nodes[j].id, nodes.len() as int);
            assert(entry_of(r, m, nodes[j].id) == entry_of(nodes, nums, nodes[j].id));
        } else {
            let k = if j < c { j } else { j - 1 };
            assert(r[k] == nodes[j]);
        }
    }
}

/// A child of node `id` with no `<loc>` adds nothing: the children of `id`
/// give the same entries once it is taken out of the node list, its number
/// with it.
pub proof fn lemma_child_without_location_removable(
    nodes: Seq<NodeView>,
    nums: Seq<Option<u32>>,
    id: u32,
    c: int,
)
    requires
        0 <= c < nodes.len(),
        nodes[c].parent == Some(id),
        forall|k: int| 0 <= k < nodes.len() ==> !is_loc_child(nodes, nodes[c].id, k),
        forall|j: int| 0 <= j < nodes.len() && #[trigger] nodes[j].parent == Some(id) ==> nodes[j].id != id,
    ensures
        entries_upto(nodes.remove(c), nums_without(nums, c), id, nodes.len() - 1) == entries_upto(
            nodes,
            nums,
            id,
            nodes.len() as int,
        ),
{
    lemma_entries_without(nodes, nums, c, id, nodes.len() as int);
}

proof fn lemma_first_element_bounds(nodes: Seq<NodeView>, rid: u32, i: int)
    ensures
        first_element_from(nodes, rid, i) matches Some(k) ==> i <= k < nodes.len(),
    decreases nodes.len() - i,
{
    if 0 <= i < nodes.len() {
        lemma_first_element_bounds(nodes, rid, i + 1);
    }
}

proof fn lemma_first_element_without(nodes: Seq<NodeView>, rid: u32, c: int, u: int, i: int)
    requires
        0 <= i <= u < c < nodes.len(),
        first_element_from(nodes, rid, i) == Some(u),
    ensures
        first_element_from(nodes.remove(c), rid, i) == Some(u),
    decreases u - i,
{
    let r = nodes.remove(c);
    assert(r[i] == nodes[i]);
    lemma_first_element_bounds(nodes, rid, i + 1);
    if i < u {
        lemma_first_element_without(nodes, rid, c, u, i + 1);
    }
}

/// A child of the `<urlset>` with no `<loc>` adds nothing: the document gives
/// the same entries once that child is taken out, its number with it. Nodes
/// come after their parents, as in document order, and the entries' ids differ
/// from the `<urlset>`'s.
pub proof fn lemma_entry_without_location_removable(
    nodes: Seq<NodeView>,
    nums: Seq<Option<u32>>,
    c: int,
)
    requires
        urlset_index(nodes) matches Some(u) && u < c,
        0 <= c < nodes.len(),
        nodes[c].parent == Some(nodes[urlset_index(nodes)->0].id),
        forall|k: int| 0 <= k < nodes.len() ==> !is_loc_child(nodes, nodes[c].id, k),
        forall|j: int|
            0 <= j < nodes.len() && #[trigger] nodes[j].parent == Some(
                nodes[urlset_index(nodes)->0].id,
            ) ==> nodes[j].id != nodes[urlset_index(nodes)->0].id,
    ensures
        entries_of(nodes.remove(c), nums_without(nums, c)) == entries_of(nodes, nums),
{
    let u = urlset_index(nodes)->0;
    let r = nodes.remove(c);
    lemma_first_element_bounds(nodes, nodes[0].id, 0);
    assert(r[0] == nodes[0]);
    assert(r[u] == nodes[u]);
    lemma_first_element_without(nodes, nodes[0].id, c, u, 0);
    assert(urlset_index(r) == Some(u));
    lemma_child_without_location_removable(nodes, nums, nodes[u].id, c);
}

} // verus!
