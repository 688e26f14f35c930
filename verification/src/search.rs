use vstd::prelude::*;
use crate::node::Node;
use crate::text::chars_of;

verus! {

/// Whether `needle` occurs in `hay` as a run of consecutive characters
/// (the empty text occurs in every text).
pub open spec fn contains_text(hay: Seq<char>, needle: Seq<char>) -> bool {
    exists|i: int|
        0 <= i && i + needle.len() <= hay.len() && #[trigger] hay.subrange(i, i + needle.len())
            == needle
}

/// Whether the node `n` is found by the search text `query`: the query
/// occurs in its name or in its address.
pub open spec fn node_matches<F>(n: Node<F>, query: Seq<char>) -> bool {
    contains_text(n.name@, query) || contains_text(n.ip@, query)
}

/// The indices of the nodes of `nodes` that `query` finds, in order.
pub open spec fn match_indices<F>(nodes: Seq<Node<F>>, query: Seq<char>) -> Seq<usize>
    decreases nodes.len(),
{
    if nodes.len() == 0 {
        Seq::empty()
    } else {
        let prev = match_indices(nodes.drop_last(), query);
        if node_matches(nodes.last(), query) {
            prev.push((nodes.len() - 1) as usize)
        } else {
            prev
        }
    }
}

/// Whether `needle` occurs in `hay`.
pub fn contains_chars(hay: &Vec<char>, needle: &Vec<char>) -> (found: bool)
    ensures
        found == contains_text(hay@, needle@),
{
    let h = hay.len();
    let n = needle.len();
    if n > h {
        return false;
    }
    let last = h - n;
    let mut i: usize = 0;
    loop
        invariant_except_break
            h == hay@.len(),
            n == needle@.len(),
            last == h - n,
            i <= last,
            forall|k: int| 0 <= k < i ==> #[trigger] hay@.subrange(k, k + n) != needle@,
        ensures
            forall|k: int| 0 <= k <= last ==> #[trigger] hay@.subrange(k, k + n) != needle@,
        decreases last - i,
    {
        let mut j: usize = 0;
        let mut same = true;
        while j < n
            invariant
                h == hay@.len(),
                n == needle@.len(),
                i + n <= h,
                j <= n,
                same ==> forall|m: int| 0 <= m < j ==> hay@[i + m] == needle@[m],
                !same ==> hay@.subrange(i as int, i + n) != needle@,
            decreases n - j,
        {
            if hay[i + j] != needle[j] {
                assert(hay@.subrange(i as int, i + n)[j as int] == hay@[i + j]);
                same = false;
            }
            j = j + 1;
        }
        if same {
            assert(hay@.subrange(i as int, i + n) == needle@);
            return true;
        }
        if i == last {
            break;
        }
        i = i + 1;
    }
    false
}

/// Whether the search text `query` finds node `node`.
pub fn matches_node<F>(node: &Node<F>, query: &Vec<char>) -> (found: bool)
    ensures
        found == node_matches(*node, query@),
        found == (contains_text(node.name@, query@) || contains_text(node.ip@, query@)),
{
    let name = chars_of(node.name.as_str());
    if contains_chars(&name, query) {
        return true;
    }
    let ip = chars_of(node.ip.as_str());
    contains_chars(&ip, query)
}

/// The indices of the nodes that the search text `query` finds, in order.
pub fn matching_indices<F>(nodes: &Vec<Node<F>>, query: &Vec<char>) -> (found: Vec<usize>)
    ensures
        found@ == match_indices(nodes@, query@),
        forall|k: int| 0 <= k < found@.len() ==> #[trigger] found@[k] < nodes@.len(),
        forall|i: int|
            0 <= i < nodes@.len() ==> (found@.contains(i as usize) <==> (contains_text(
                (#[trigger] nodes@[i]).name@,
                query@,
            ) || contains_text(nodes@[i].ip@, query@))),
{
    let mut found: Vec<usize> = Vec::new();
    let mut i: usize = 0;
    while i < nodes.len()
        invariant
            i <= nodes@.len(),
            found@ == match_indices(nodes@.take(i as int), query@),
            forall|k: int| 0 <= k < found@.len() ==> #[trigger] found@[k] < i,
        decreases nodes.len() - i,
    {
        assert(nodes@.take(i + 1).drop_last() == nodes@.take(i as int));
        assert(nodes@.take(i + 1).last() == nodes@[i as int]);
        if matches_node(&nodes[i], query) {
            found.push(i);
        }
        i = i + 1;
    }
    assert(nodes@.take(nodes.len() as int) == nodes@);
    proof {
        assert forall|i: int| 0 <= i < nodes@.len() implies (found@.contains(i as usize) <==> (
        contains_text((#[trigger] nodes@[i]).name@, query@) || contains_text(
            nodes@[i].ip@,
            query@,
        ))) by {
            lemma_match_indices_exact(nodes@, query@, i);
        }
    }
    found
}

/// A search looks at names and addresses only: two nodes with the same
/// name and address are found alike, whatever their kinds, latencies or
/// positions, and a query that occurs in neither is never found.
pub proof fn lemma_search_reads_name_and_address<F>(a: Node<F>, b: Node<F>, query: Seq<char>)
    ensures
        a.name@ == b.name@ && a.ip@ == b.ip@ ==> (node_matches(a, query) <==> node_matches(b, query)),
        !contains_text(a.name@, query) && !contains_text(a.ip@, query) ==> !node_matches(a, query),
        contains_text(a.name@, query) || contains_text(a.ip@, query) ==> node_matches(a, query),
{
}

/// A search finds exactly the nodes whose name or address holds the
/// query: an index is in the result precisely when its node's name or
/// address contains the query.
pub proof fn lemma_match_indices_exact<F>(nodes: Seq<Node<F>>, query: Seq<char>, i: int)
    requires
        nodes.len() <= usize::MAX,
        0 <= i < nodes.len(),
    ensures
        match_indices(nodes, query).contains(i as usize) <==> (contains_text(nodes[i].name@, query)
            || contains_text(nodes[i].ip@, query)),
    decreases nodes.len(),
{
    let init = nodes.drop_last();
    let prev = match_indices(init, query);
    let cur = match_indices(nodes, query);
    lemma_match_indices_valid(init, query);
    if i < nodes.len() - 1 {
        lemma_match_indices_exact(init, query, i);
        assert(init[i] == nodes[i]);
        if prev.contains(i as usize) {
            let k = choose|k: int| 0 <= k < prev.len() && prev[k] == i as usize;
            assert(cur[k] == prev[k]);
        }
        if cur.contains(i as usize) {
            let k = choose|k: int| 0 <= k < cur.len() && cur[k] == i as usize;
            if k < prev.len() {
                assert(cur[k] == prev[k]);
            } else {
                assert(cur[k] == (nodes.len() - 1) as usize);
            }
        }
    } else {
        if cur.contains(i as usize) {
            let k = choose|k: int| 0 <= k < cur.len() && cur[k] == i as usize;
            if k < prev.len() {
                assert(cur[k] == prev[k]);
                assert(prev[k] < init.len());
            }
        }
        if node_matches(nodes.last(), query) {
            assert(cur[cur.len() - 1] == i as usize);
        }
    }
}

/// Every index a search gives names an existing node that the query finds,
/// and the indices rise strictly.
pub proof fn lemma_match_indices_valid<F>(nodes: Seq<Node<F>>, query: Seq<char>)
    requires
        nodes.len() <= usize::MAX,
    ensures
        forall|k: int|
            0 <= k < match_indices(nodes, query).len() ==> {
                let i = #[trigger] match_indices(nodes, query)[k];
                &&& i < nodes.len()
                &&& node_matches(nodes[i as int], query)
            },
        forall|a: int, b: int|
            0 <= a < b < match_indices(nodes, query).len() ==> #[trigger] match_indices(
                nodes,
                query,
            )[a] < #[trigger] match_indices(nodes, query)[b],
    decreases nodes.len(),
{
    if nodes.len() > 0 {
        let init = nodes.drop_last();
        lemma_match_indices_valid(init, query);
        let prev = match_indices(init, query);
        let cur = match_indices(nodes, query);
        assert forall|k: int| 0 <= k < prev.len() implies #[trigger] prev[k] < init.len()
            && node_matches(init[prev[k] as int], query) by {
            let i = prev[k];
        }
        if node_matches(nodes.last(), query) {
            assert(cur == prev.push((nodes.len() - 1) as usize));
        } else {
            assert(cur == prev);
        }
        assert forall|k: int| 0 <= k < cur.len() implies {
            let i = #[trigger] cur[k];
            &&& i < nodes.len()
            &&& node_matches(nodes[i as int], query)
        } by {
            if k < prev.len() {
                assert(cur[k] == prev[k]);
                assert(prev[k] < init.len());
                assert(nodes[prev[k] as int] == init[prev[k] as int]);
            }
        }
        assert forall|a: int, b: int| 0 <= a < b < cur.len() implies #[trigger] cur[a]
            < #[trigger] cur[b] by {
            assert(cur[a] == prev[a]);
            assert(prev[a] < init.len());
            if b < prev.len() {
                assert(cur[b] == prev[b]);
            }
        }
    }
}

/// The empty search finds every node.
pub proof fn lemma_empty_query_finds_all<F>(nodes: Seq<Node<F>>)
    ensures
        match_indices(nodes, Seq::<char>::empty()).len() == nodes.len(),
    decreases nodes.len(),
{
    if nodes.len() > 0 {
        lemma_empty_query_finds_all(nodes.drop_last());
        let n = nodes.last();
        let q = Seq::<char>::empty();
        assert(n.name@.subrange(0int, 0int + q.len()) == q);
        assert(node_matches(n, q));
        assert(match_indices(nodes, q) == match_indices(nodes.drop_last(), q).push(
            (nodes.len() - 1) as usize,
        ));
    }
}

} // verus!
