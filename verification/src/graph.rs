use vstd::prelude::*;

verus! {

/// The links of the network graph: the gateway (node 0) is linked to the
/// next three nodes.
pub open spec fn links() -> Seq<(usize, usize)> {
    seq![(0usize, 1usize), (0usize, 2usize), (0usize, 3usize)]
}

/// The nodes linked to `idx` by the links `edges`, in the order of the
/// links: for a link `(a, b)`, `b` when `a == idx`, else `a` when `b == idx`.
pub open spec fn linked_to(edges: Seq<(usize, usize)>, idx: usize) -> Seq<usize>
    decreases edges.len(),
{
    if edges.len() == 0 {
        Seq::empty()
    } else {
        let rest = linked_to(edges.drop_last(), idx);
        let (a, b) = edges.last();
        if a == idx {
            rest.push(b)
        } else if b == idx {
            rest.push(a)
        } else {
            rest
        }
    }
}

/// The link table of the graph.
pub fn edge_indices() -> (edges: Vec<(usize, usize)>)
    ensures
        edges@ == links(),
{
    let edges = vec![(0usize, 1usize), (0usize, 2usize), (0usize, 3usize)];
    assert(edges@ == links());
    edges
}

/// The nodes linked to node `idx`, in link-table order.
pub fn neighbors_of(idx: usize) -> (out: Vec<usize>)
    ensures
        out@ == linked_to(links(), idx),
{
    let edges = edge_indices();
    let mut out: Vec<usize> = Vec::new();
    let mut k: usize = 0;
    while k < edges.len()
        invariant
            edges@ == links(),
            k <= edges.len(),
            out@ == linked_to(edges@.take(k as int), idx),
        decreases edges.len() - k,
    {
        let (a, b) = edges[k];
        assert(edges@.take(k + 1).drop_last() == edges@.take(k as int));
        if a == idx {
            out.push(b);
        } else if b == idx {
            out.push(a);
        }
        k = k + 1;
    }
    assert(edges@.take(edges.len() as int) == edges@);
    out
}

/// The nodes linked to each node of the graph: the gateway to the three
/// others, each of those to the gateway, any other node to none.
pub proof fn lemma_neighbors_table(idx: usize)
    ensures
        idx == 0 ==> linked_to(links(), idx) == seq![1usize, 2usize, 3usize],
        1 <= idx <= 3 ==> linked_to(links(), idx) == seq![0usize],
        idx > 3 ==> linked_to(links(), idx) == Seq::<usize>::empty(),
{
    reveal_with_fuel(linked_to, 4);
    let e = links();
    assert(e.drop_last() == seq![(0usize, 1usize), (0usize, 2usize)]);
    assert(e.drop_last().drop_last() == seq![(0usize, 1usize)]);
    assert(e.drop_last().drop_last().drop_last() == Seq::<(usize, usize)>::empty());
}

/// Links are undirected: `b` is a neighbour of `a` exactly when `a` is a
/// neighbour of `b`.
pub proof fn lemma_neighbors_symmetric(a: usize, b: usize)
    ensures
        linked_to(links(), a).contains(b) <==> linked_to(links(), b).contains(a),
{
    lemma_neighbors_table(a);
    lemma_neighbors_table(b);
    let hub = seq![1usize, 2usize, 3usize];
    assert(hub[0] == 1 && hub[1] == 2 && hub[2] == 3);
    if a == 0 && 1 <= b <= 3 {
        assert(hub[(b - 1) as int] == b);
        assert(seq![0usize][0] == a);
    } else if b == 0 && 1 <= a <= 3 {
        assert(hub[(a - 1) as int] == a);
        assert(seq![0usize][0] == b);
    }
}

/// No node is its own neighbour.
pub proof fn lemma_no_self_link(idx: usize)
    ensures
        !linked_to(links(), idx).contains(idx),
{
    lemma_neighbors_table(idx);
}

} // verus!
