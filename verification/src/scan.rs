use vstd::prelude::*;
use crate::node::{fresh_host, probed, Node};
use crate::text::{
    chars_of, decimal, decimal_text, is_digit, last_segment, last_segment_start, lemma_decimal_digits,
};

verus! {

/// Whether the ARP entries `entries` list the address `ip`.
pub open spec fn lists_ip(entries: Seq<(Seq<char>, Seq<char>)>, ip: Seq<char>) -> bool {
    exists|i: int| 0 <= i < entries.len() && #[trigger] entries[i].0 == ip
}

/// An address is listed by ARP entries exactly when one of the entries
/// has that very address: an entry whose address only contains it, or is
/// contained in it, does not list it.
pub proof fn lemma_listed_means_equal(entries: Seq<(Seq<char>, Seq<char>)>, ip: Seq<char>)
    ensures
        lists_ip(entries, ip) ==> exists|i: int| 0 <= i < entries.len() && entries[i].0 =~= ip,
        (exists|i: int| 0 <= i < entries.len() && entries[i].0 =~= ip) ==> lists_ip(entries, ip),
        lists_ip(entries, ip) ==> exists|i: int|
            0 <= i < entries.len() && entries[i].0.len() == ip.len(),
{
    if lists_ip(entries, ip) {
        let i = choose|i: int| 0 <= i < entries.len() && #[trigger] entries[i].0 == ip;
        assert(entries[i].0 =~= ip);
    }
    if exists|i: int| 0 <= i < entries.len() && entries[i].0 =~= ip {
        let i = choose|i: int| 0 <= i < entries.len() && entries[i].0 =~= ip;
        assert(entries[i].0 == ip);
    }
}

/// The addresses of the ARP entries `entries` that are not among
/// `known`, in entry order (an address listed twice is kept twice).
pub open spec fn fresh_ips(known: Seq<Seq<char>>, entries: Seq<(Seq<char>, Seq<char>)>) -> Seq<
    Seq<char>,
>
    decreases entries.len(),
{
    if entries.len() == 0 {
        Seq::empty()
    } else {
        let prev = fresh_ips(known, entries.drop_last());
        let ip = entries.last().0;
        if known.contains(ip) {
            prev
        } else {
            prev.push(ip)
        }
    }
}

/// The entries as pairs of character sequences.
pub open spec fn entries_view(entries: Seq<(String, String)>) -> Seq<(Seq<char>, Seq<char>)> {
    entries.map_values(|p: (String, String)| (p.0@, p.1@))
}

/// The addresses of the nodes `nodes`.
pub open spec fn node_ips<F>(nodes: Seq<Node<F>>) -> Seq<Seq<char>> {
    nodes.map_values(|n: Node<F>| n.ip@)
}

/// The seconds the scanner waits before each round.
pub open spec fn pause_secs() -> u64 {
    5
}

/// Whether the ARP entries list the address `ip`.
pub fn arp_has_ip(entries: &Vec<(String, String)>, ip: &String) -> (listed: bool)
    ensures
        listed == lists_ip(entries_view(entries@), ip@),
        listed <==> exists|i: int| 0 <= i < entries@.len() && #[trigger] entries@[i].0@ == ip@,
{
    let ghost view = entries_view(entries@);
    let mut i: usize = 0;
    while i < entries.len()
        invariant
            view == entries_view(entries@),
            i <= entries.len(),
            forall|j: int| 0 <= j < i ==> view[j].0 != ip@,
            forall|j: int| 0 <= j < i ==> (#[trigger] entries@[j]).0@ != ip@,
        decreases entries.len() - i,
    {
        assert(view[i as int].0 == entries@[i as int].0@);
        if entries[i].0 == *ip {
            return true;
        }
        i = i + 1;
    }
    false
}

/// The addresses of the ARP entries that no node of `known` has, in entry
/// order: the hosts that a scan round adds.
pub fn unseen_arp_ips<F>(known: &Vec<Node<F>>, entries: &Vec<(String, String)>) -> (fresh: Vec<
    String,
>)
    ensures
        fresh@.map_values(|s: String| s@) == fresh_ips(node_ips(known@), entries_view(entries@)),
{
    let ghost ips = node_ips(known@);
    let ghost view = entries_view(entries@);
    let mut fresh: Vec<String> = Vec::new();
    let mut i: usize = 0;
    while i < entries.len()
        invariant
            ips == node_ips(known@),
            view == entries_view(entries@),
            i <= entries.len(),
            fresh@.map_values(|s: String| s@) == fresh_ips(ips, view.take(i as int)),
        decreases entries.len() - i,
    {
        let ip = &entries[i].0;
        assert(view.take(i + 1).drop_last() == view.take(i as int));
        assert(view.take(i + 1).last().0 == ip@);
        let mut seen = false;
        let mut j: usize = 0;
        while j < known.len()
            invariant
                ips == node_ips(known@),
                j <= known.len(),
                seen == exists|m: int| 0 <= m < j && ips[m] == ip@,
            decreases known.len() - j,
        {
            assert(ips[j as int] == known@[j as int].ip@);
            if known[j].ip == *ip {
                seen = true;
            }
            j = j + 1;
        }
        assert(seen == ips.contains(ip@));
        let ghost before = fresh@;
        if !seen {
            fresh.push(ip.clone());
            assert(fresh@.map_values(|s: String| s@) == before.map_values(|s: String| s@).push(
                ip@,
            ));
        }
        i = i + 1;
    }
    assert(view.take(entries.len() as int) == view);
    fresh
}

/// The pause before each scan round, in seconds: the scanner re-checks
/// the network every five seconds.
pub fn scan_pause_secs() -> (secs: u64)
    ensures
        secs == pause_secs(),
{
    5
}

/// For each node of `known`, whether the ARP entries list its address:
/// the nodes a scan round probes.
pub fn listed_flags<F>(known: &Vec<Node<F>>, entries: &Vec<(String, String)>) -> (flags: Vec<bool>)
    ensures
        flags@.len() == known@.len(),
        forall|i: int|
            0 <= i < known@.len() ==> #[trigger] flags@[i] == lists_ip(
                entries_view(entries@),
                known@[i].ip@,
            ),
        forall|i: int|
            0 <= i < known@.len() ==> (#[trigger] flags@[i] <==> exists|j: int|
                0 <= j < entries@.len() && entries@[j].0@ == known@[i].ip@),
{
    let mut flags: Vec<bool> = Vec::new();
    let mut i: usize = 0;
    while i < known.len()
        invariant
            i <= known@.len(),
            flags@.len() == i,
            forall|j: int|
                0 <= j < i ==> #[trigger] flags@[j] == lists_ip(entries_view(entries@), known@[j].ip@),
            forall|j: int|
                0 <= j < i ==> (#[trigger] flags@[j] <==> exists|m: int|
                    0 <= m < entries@.len() && entries@[m].0@ == known@[j].ip@),
        decreases known.len() - i,
    {
        let listed = arp_has_ip(entries, &known[i].ip);
        proof {
            lemma_listed_means_equal(entries_view(entries@), known@[i as int].ip@);
        }
        flags.push(listed);
        i = i + 1;
    }
    flags
}

/// Records the outcomes `replies` of a probe round: node `i` takes reply
/// `i` (see `Node::record_probe`); the nodes keep their order and number.
pub fn apply_probes<F: Copy>(known: &mut Vec<Node<F>>, replies: &Vec<Option<F>>, offline: F)
    requires
        replies@.len() == old(known)@.len(),
    ensures
        final(known)@.len() == old(known)@.len(),
        forall|i: int|
            0 <= i < old(known)@.len() ==> probed(
                old(known)@[i],
                #[trigger] final(known)@[i],
                replies@[i],
                offline,
            ),
        forall|i: int|
            0 <= i < old(known)@.len() ==> old(known)@[i].wf() ==> #[trigger] final(known)@[i].wf(),
{
    let ghost before = known@;
    let mut i: usize = 0;
    while i < known.len()
        invariant
            known@.len() == before.len(),
            replies@.len() == before.len(),
            i <= known@.len(),
            forall|j: int| i <= j < known@.len() ==> #[trigger] known@[j] == before[j],
            forall|j: int|
                0 <= j < i ==> probed(before[j], #[trigger] known@[j], replies@[j], offline),
            forall|j: int| 0 <= j < i ==> before[j].wf() ==> #[trigger] known@[j].wf(),
        decreases known.len() - i,
    {
        let reply = replies[i];
        known[i].record_probe(reply, offline);
        i = i + 1;
    }
}

/// Adds the hosts a scan round found: after the nodes `known`, in order,
/// one new node per address of `fresh`, placed at the matching entry of
/// `places`, with the matching first reply of `first` recorded (see
/// `fresh_host`).
pub fn append_hosts<F: Copy>(
    known: &mut Vec<Node<F>>,
    fresh: &Vec<String>,
    first: &Vec<Option<F>>,
    places: &Vec<(F, F, F)>,
    idle: F,
)
    requires
        first@.len() == fresh@.len(),
        places@.len() == fresh@.len(),
    ensures
        final(known)@.len() == old(known)@.len() + fresh@.len(),
        final(known)@.subrange(0, old(known)@.len() as int) == old(known)@,
        forall|j: int|
            0 <= j < fresh@.len() ==> fresh_host(
                #[trigger] final(known)@[old(known)@.len() + j],
                fresh@[j]@,
                places@[j],
                first@[j],
                idle,
            ),
        forall|j: int|
            0 <= j < fresh@.len() ==> (#[trigger] final(known)@[old(known)@.len() + j]).wf(),
        node_ips(final(known)@) == node_ips(old(known)@) + fresh@.map_values(|s: String| s@),
{
    let ghost before = known@;
    let n0 = known.len();
    let mut j: usize = 0;
    while j < fresh.len()
        invariant
            n0 == before.len(),
            first@.len() == fresh@.len(),
            places@.len() == fresh@.len(),
            j <= fresh@.len(),
            known@.len() == n0 + j,
            known@.subrange(0, n0 as int) == before,
            forall|k: int|
                0 <= k < j ==> fresh_host(
                    #[trigger] known@[n0 + k],
                    fresh@[k]@,
                    places@[k],
                    first@[k],
                    idle,
                ),
            forall|k: int| 0 <= k < j ==> (#[trigger] known@[n0 + k]).wf(),
        decreases fresh.len() - j,
    {
        let (x, y, z) = places[j];
        let mut node = Node::new_unknown(fresh[j].as_str(), x, y, z, idle);
        match first[j] {
            Some(ms) => {
                node.push_latency(ms);
                assert(node.history@ == seq![ms]);
            },
            None => {},
        }
        let ghost prev = known@;
        known.push(node);
        assert(known@.subrange(0, n0 as int) == prev.subrange(0, n0 as int));
        assert forall|k: int| 0 <= k < j + 1 implies fresh_host(
            #[trigger] known@[n0 + k],
            fresh@[k]@,
            places@[k],
            first@[k],
            idle,
        ) && known@[n0 + k].wf() by {
            if k < j {
                assert(known@[n0 + k] == prev[n0 + k]);
            }
        }
        j = j + 1;
    }
    let ghost added = fresh@.map_values(|s: String| s@);
    assert(known@ == before + known@.subrange(n0 as int, known@.len() as int));
    assert forall|k: int| 0 <= k < node_ips(known@).len() implies #[trigger] node_ips(known@)[k] == (
    node_ips(before) + added)[k] by {
        if k < n0 {
            assert(known@[k] == before[k]);
        } else {
            assert(known@[n0 + (k - n0)] == known@[k]);
        }
    }
    assert(node_ips(known@) == node_ips(before) + added);
}

/// The step, in `0..30`, by which the demonstration data moves the
/// latency of a host whose name has `name_len` bytes in round `tick`.
pub fn jitter_step(tick: u64, name_len: usize) -> (step: u64)
    requires
        name_len * 13 <= u64::MAX,
    ensures
        step == (((tick as nat * 7) % 0x1_0000_0000_0000_0000 + name_len as nat * 13)
            % 0x1_0000_0000_0000_0000) % 30,
{
    tick.wrapping_mul(7).wrapping_add(name_len as u64 * 13) % 30
}

} // verus!

verus! {

/// After a scan round the nodes know every address the ARP entries list:
/// the addresses of the old nodes followed by the unseen ones cover them.
pub proof fn lemma_scan_round_covers(known: Seq<Seq<char>>, entries: Seq<(Seq<char>, Seq<char>)>)
    ensures
        forall|i: int|
            0 <= i < entries.len() ==> (known + fresh_ips(known, entries)).contains(
                #[trigger] entries[i].0,
            ),
{
    lemma_fresh_ips_cover(known, entries);
    let all = known + fresh_ips(known, entries);
    assert forall|i: int| 0 <= i < entries.len() implies all.contains(#[trigger] entries[i].0) by {
        let ip = entries[i].0;
        if known.contains(ip) {
            let k = choose|k: int| 0 <= k < known.len() && known[k] == ip;
            assert(all[k] == ip);
        } else {
            let f = fresh_ips(known, entries);
            let k = choose|k: int| 0 <= k < f.len() && f[k] == ip;
            assert(all[known.len() + k] == ip);
        }
    }
}

/// After a scan round every listed address is known: each address of the
/// ARP entries is either a known node's or among the addresses added, and
/// no added address was known before.
pub proof fn lemma_fresh_ips_cover(known: Seq<Seq<char>>, entries: Seq<(Seq<char>, Seq<char>)>)
    ensures
        forall|i: int|
            0 <= i < entries.len() ==> known.contains(#[trigger] entries[i].0) || fresh_ips(
                known,
                entries,
            ).contains(entries[i].0),
        forall|j: int|
            0 <= j < fresh_ips(known, entries).len() ==> !known.contains(
                #[trigger] fresh_ips(known, entries)[j],
            ),
    decreases entries.len(),
{
    if entries.len() > 0 {
        let init = entries.drop_last();
        lemma_fresh_ips_cover(known, init);
        let prev = fresh_ips(known, init);
        let cur = fresh_ips(known, entries);
        assert forall|i: int| 0 <= i < entries.len() implies known.contains(
            #[trigger] entries[i].0,
        ) || cur.contains(entries[i].0) by {
            if i < init.len() {
                assert(entries[i] == init[i]);
                if prev.contains(init[i].0) {
                    let j = choose|j: int| 0 <= j < prev.len() && prev[j] == init[i].0;
                    assert(cur[j] == prev[j]);
                }
            } else if !known.contains(entries[i].0) {
                assert(cur[cur.len() - 1] == entries[i].0);
            }
        }
        assert forall|j: int| 0 <= j < cur.len() implies !known.contains(#[trigger] cur[j]) by {
            if j < prev.len() {
                assert(cur[j] == prev[j]);
            }
        }
    }
}

} // verus!

verus! {

/// The nodes `a` and `b` are the same host: same name, address, kind and
/// position.
pub open spec fn same_identity<F>(a: Node<F>, b: Node<F>) -> bool {
    &&& a.name == b.name
    &&& a.ip == b.ip
    &&& a.kind == b.kind
    &&& a.x == b.x
    &&& a.y == b.y
    &&& a.z == b.z
}

/// A scan round never removes or reorders nodes: after the probes
/// (`apply_probes`) and the additions (`append_hosts`, once for the ARP
/// table and once for the sweep), the node list is at least as long as
/// before and its first nodes are the same hosts in the same order.
pub proof fn lemma_round_keeps_nodes<F>(
    before: Seq<Node<F>>,
    probed_nodes: Seq<Node<F>>,
    with_arp: Seq<Node<F>>,
    with_sweep: Seq<Node<F>>,
    replies: Seq<Option<F>>,
    offline: F,
)
    requires
        probed_nodes.len() == before.len(),
        forall|i: int|
            0 <= i < before.len() ==> probed(before[i], #[trigger] probed_nodes[i], replies[i], offline),
        with_arp.len() >= probed_nodes.len(),
        with_arp.subrange(0, probed_nodes.len() as int) == probed_nodes,
        with_sweep.len() >= with_arp.len(),
        with_sweep.subrange(0, with_arp.len() as int) == with_arp,
    ensures
        with_sweep.len() >= before.len(),
        forall|i: int| 0 <= i < before.len() ==> same_identity(before[i], #[trigger] with_sweep[i]),
{
    assert forall|i: int| 0 <= i < before.len() implies same_identity(
        before[i],
        #[trigger] with_sweep[i],
    ) by {
        assert(with_sweep[i] == with_sweep.subrange(0, with_arp.len() as int)[i]);
        assert(with_arp[i] == with_arp.subrange(0, probed_nodes.len() as int)[i]);
        assert(probed(before[i], probed_nodes[i], replies[i], offline));
    }
}

/// The subnet prefix of the address `ip`: everything up to and with its
/// last `.` (empty where it has none). The /24 sweep probes the prefix
/// followed by each host number from 1 to 254.
pub open spec fn subnet_prefix(ip: Seq<char>) -> Seq<char> {
    ip.take(ip.len() - last_segment(ip).len())
}

/// The distinct non-empty subnet prefixes of the addresses `ips`, in order
/// of first appearance.
pub open spec fn subnet_prefixes(ips: Seq<Seq<char>>) -> Seq<Seq<char>>
    decreases ips.len(),
{
    if ips.len() == 0 {
        Seq::empty()
    } else {
        let prev = subnet_prefixes(ips.drop_last());
        let p = subnet_prefix(ips.last());
        if p.len() > 0 && !prev.contains(p) {
            prev.push(p)
        } else {
            prev
        }
    }
}

/// The addresses `prefix` followed by the host numbers `1..=n` that are
/// not among `known`, in increasing host number.
pub open spec fn unknown_hosts(prefix: Seq<char>, n: nat, known: Seq<Seq<char>>) -> Seq<Seq<char>>
    decreases n,
{
    if n == 0 {
        Seq::empty()
    } else {
        let prev = unknown_hosts(prefix, (n - 1) as nat, known);
        let addr = prefix + decimal_text(n);
        if known.contains(addr) {
            prev
        } else {
            prev.push(addr)
        }
    }
}

/// The addresses a /24 sweep of the subnets `prefixes` probes, subnet by
/// subnet: every host number from 1 to 254 whose address is not among
/// `known`.
pub open spec fn sweep_list(prefixes: Seq<Seq<char>>, known: Seq<Seq<char>>) -> Seq<Seq<char>>
    decreases prefixes.len(),
{
    if prefixes.len() == 0 {
        Seq::empty()
    } else {
        sweep_list(prefixes.drop_last(), known) + unknown_hosts(prefixes.last(), 254, known)
    }
}

/// The swept addresses that answered, with their positions and reply
/// times, among the first `n` of `targets`.
pub open spec fn answered<F>(
    targets: Seq<Seq<char>>,
    replies: Seq<Option<F>>,
    places: Seq<(F, F, F)>,
    n: nat,
) -> Seq<(Seq<char>, (F, F, F), F)>
    decreases n,
{
    if n == 0 {
        Seq::empty()
    } else {
        let prev = answered(targets, replies, places, (n - 1) as nat);
        match replies[n - 1] {
            Some(ms) => prev.push((targets[n - 1], places[n - 1], ms)),
            None => prev,
        }
    }
}

/// Whether a string of `v` has the text `s`.
fn has_text(v: &Vec<String>, s: &String) -> (found: bool)
    ensures
        found == v@.map_values(|t: String| t@).contains(s@),
{
    let ghost views = v@.map_values(|t: String| t@);
    let mut i: usize = 0;
    while i < v.len()
        invariant
            views == v@.map_values(|t: String| t@),
            i <= v@.len(),
            forall|j: int| 0 <= j < i ==> views[j] != s@,
        decreases v.len() - i,
    {
        assert(views[i as int] == v@[i as int]@);
        if v[i] == *s {
            return true;
        }
        i = i + 1;
    }
    false
}

/// Whether a node of `known` has the address `ip`.
fn knows_ip<F>(known: &Vec<Node<F>>, ip: &String) -> (found: bool)
    ensures
        found == node_ips(known@).contains(ip@),
{
    let ghost ips = node_ips(known@);
    let mut i: usize = 0;
    while i < known.len()
        invariant
            ips == node_ips(known@),
            i <= known@.len(),
            forall|j: int| 0 <= j < i ==> ips[j] != ip@,
        decreases known.len() - i,
    {
        assert(ips[i as int] == known@[i as int].ip@);
        if known[i].ip == *ip {
            return true;
        }
        i = i + 1;
    }
    false
}

/// The subnet prefix of `ip` (see `subnet_prefix`).
pub fn subnet_prefix_of(ip: &String) -> (prefix: String)
    ensures
        prefix@ == subnet_prefix(ip@),
{
    let chars = chars_of(ip.as_str());
    let start = last_segment_start(&chars);
    assert(ip@.take(start as int) == subnet_prefix(ip@));
    String::from_str(ip.as_str().substring_char(0, start))
}

/// The addresses the /24 sweep of a scan round probes: for each subnet of
/// the nodes' addresses (see `subnet_prefixes`), every host number from 1
/// to 254 whose address no node has yet (see `sweep_list`).
pub fn sweep_targets<F>(known: &Vec<Node<F>>) -> (targets: Vec<String>)
    ensures
        targets@.map_values(|s: String| s@) == sweep_list(
            subnet_prefixes(node_ips(known@)),
            node_ips(known@),
        ),
        targets@.map_values(|s: String| s@).no_duplicates(),
        forall|k: int|
            0 <= k < targets@.len() ==> !node_ips(known@).contains(#[trigger] targets@[k]@),
{
    let ghost ips = node_ips(known@);
    let mut prefixes: Vec<String> = Vec::new();
    let mut i: usize = 0;
    while i < known.len()
        invariant
            ips == node_ips(known@),
            i <= known@.len(),
            prefixes@.map_values(|s: String| s@) == subnet_prefixes(ips.take(i as int)),
        decreases known.len() - i,
    {
        assert(ips.take(i + 1).drop_last() == ips.take(i as int));
        assert(ips.take(i + 1).last() == known@[i as int].ip@);
        let p = subnet_prefix_of(&known[i].ip);
        let ghost before = prefixes@;
        if p.unicode_len() > 0 && !has_text(&prefixes, &p) {
            prefixes.push(p);
            assert(prefixes@.map_values(|s: String| s@) == before.map_values(|s: String| s@).push(
                subnet_prefix(known@[i as int].ip@),
            ));
        }
        i = i + 1;
    }
    assert(ips.take(known.len() as int) == ips);
    let ghost ps = prefixes@.map_values(|s: String| s@);
    let mut targets: Vec<String> = Vec::new();
    let mut k: usize = 0;
    while k < prefixes.len()
        invariant
            ips == node_ips(known@),
            ps == prefixes@.map_values(|s: String| s@),
            k <= prefixes@.len(),
            targets@.map_values(|s: String| s@) == sweep_list(ps.take(k as int), ips),
        decreases prefixes.len() - k,
    {
        assert(ps.take(k + 1).drop_last() == ps.take(k as int));
        assert(ps.take(k + 1).last() == prefixes@[k as int]@);
        let ghost start = targets@.map_values(|s: String| s@);
        let mut n: u64 = 1;
        while n <= 254
            invariant
                ips == node_ips(known@),
                k < prefixes@.len(),
                1 <= n <= 255,
                targets@.map_values(|s: String| s@) == start + unknown_hosts(
                    prefixes@[k as int]@,
                    (n - 1) as nat,
                    ips,
                ),
            decreases 255 - n,
        {
            let mut addr = prefixes[k].clone();
            let num = decimal(n);
            addr.append(num.as_str());
            let ghost before = targets@;
            if !knows_ip(known, &addr) {
                targets.push(addr);
                assert(targets@.map_values(|s: String| s@) == before.map_values(|s: String| s@).push(
                    prefixes@[k as int]@ + decimal_text(n as nat),
                ));
            }
            n = n + 1;
        }
        k = k + 1;
    }
    assert(ps.take(prefixes.len() as int) == ps);
    proof {
        lemma_sweep_probes_once(ips, ips);
        let tv = targets@.map_values(|s: String| s@);
        assert forall|k: int| 0 <= k < targets@.len() implies !ips.contains(
            #[trigger] targets@[k]@,
        ) by {
            assert(tv[k] == targets@[k]@);
        }
    }
    targets
}

/// The swept addresses that answered, with their first replies and
/// positions, in sweep order (see `answered`): the hosts a sweep adds.
pub fn answered_hosts<F: Copy>(
    targets: &Vec<String>,
    replies: &Vec<Option<F>>,
    places: &Vec<(F, F, F)>,
) -> (found: (Vec<String>, Vec<Option<F>>, Vec<(F, F, F)>))
    requires
        replies@.len() == targets@.len(),
        places@.len() == targets@.len(),
    ensures
        ({
            let a = answered(
                targets@.map_values(|s: String| s@),
                replies@,
                places@,
                targets@.len(),
            );
            &&& found.0@.map_values(|s: String| s@) == a.map_values(
                |e: (Seq<char>, (F, F, F), F)| e.0,
            )
            &&& found.1@ == a.map_values(|e: (Seq<char>, (F, F, F), F)| Some(e.2))
            &&& found.2@ == a.map_values(|e: (Seq<char>, (F, F, F), F)| e.1)
        }),
{
    let ghost tv = targets@.map_values(|s: String| s@);
    let mut ips: Vec<String> = Vec::new();
    let mut firsts: Vec<Option<F>> = Vec::new();
    let mut spots: Vec<(F, F, F)> = Vec::new();
    let mut j: usize = 0;
    while j < targets.len()
        invariant
            tv == targets@.map_values(|s: String| s@),
            replies@.len() == targets@.len(),
            places@.len() == targets@.len(),
            j <= targets@.len(),
            ips@.map_values(|s: String| s@) == answered(tv, replies@, places@, j as nat).map_values(
                |e: (Seq<char>, (F, F, F), F)| e.0,
            ),
            firsts@ == answered(tv, replies@, places@, j as nat).map_values(
                |e: (Seq<char>, (F, F, F), F)| Some(e.2),
            ),
            spots@ == answered(tv, replies@, places@, j as nat).map_values(
                |e: (Seq<char>, (F, F, F), F)| e.1,
            ),
        decreases targets.len() - j,
    {
        let ghost a = answered(tv, replies@, places@, j as nat);
        let ghost before = ips@;
        match replies[j] {
            Some(ms) => {
                ips.push(targets[j].clone());
                firsts.push(Some(ms));
                spots.push(places[j]);
                let ghost e = (tv[j as int], places@[j as int], ms);
                assert(answered(tv, replies@, places@, (j + 1) as nat) == a.push(e));
                assert(ips@.map_values(|s: String| s@) == before.map_values(|s: String| s@).push(
                    tv[j as int],
                ));
                assert(a.push(e).map_values(|e: (Seq<char>, (F, F, F), F)| e.0) == a.map_values(
                    |e: (Seq<char>, (F, F, F), F)| e.0,
                ).push(e.0));
                assert(a.push(e).map_values(|e: (Seq<char>, (F, F, F), F)| Some(e.2)) == a.map_values(
                    |e: (Seq<char>, (F, F, F), F)| Some(e.2),
                ).push(Some(ms)));
                assert(a.push(e).map_values(|e: (Seq<char>, (F, F, F), F)| e.1) == a.map_values(
                    |e: (Seq<char>, (F, F, F), F)| e.1,
                ).push(e.1));
            },
            None => {
                assert(answered(tv, replies@, places@, (j + 1) as nat) == a);
            },
        }
        j = j + 1;
    }
    (ips, firsts, spots)
}

/// Every swept address that answered is among the hosts the sweep adds.
pub proof fn lemma_every_answer_added<F>(
    targets: Seq<Seq<char>>,
    replies: Seq<Option<F>>,
    places: Seq<(F, F, F)>,
    n: nat,
)
    requires
        n <= targets.len(),
        n <= replies.len(),
        n <= places.len(),
    ensures
        forall|j: int|
            0 <= j < n && (#[trigger] replies[j]) is Some ==> answered(
                targets,
                replies,
                places,
                n,
            ).map_values(|e: (Seq<char>, (F, F, F), F)| e.0).contains(targets[j]),
    decreases n,
{
    if n > 0 {
        lemma_every_answer_added(targets, replies, places, (n - 1) as nat);
        let prev = answered(targets, replies, places, (n - 1) as nat);
        let cur = answered(targets, replies, places, n);
        let pm = prev.map_values(|e: (Seq<char>, (F, F, F), F)| e.0);
        let cm = cur.map_values(|e: (Seq<char>, (F, F, F), F)| e.0);
        assert forall|j: int| 0 <= j < n && (#[trigger] replies[j]) is Some implies cm.contains(
            targets[j],
        ) by {
            if j < n - 1 {
                let k = choose|k: int| 0 <= k < pm.len() && pm[k] == targets[j];
                assert(cm[k] == pm[k]);
            } else {
                assert(cm[cm.len() - 1] == targets[j]);
            }
        }
    }
}

} // verus!

verus! {

/// The part of `s` after its last `.` is a suffix of `s` without any `.`,
/// and where it is shorter than `s`, a `.` stands just before it.
pub proof fn lemma_last_segment_shape(s: Seq<char>)
    ensures
        last_segment(s).len() <= s.len(),
        last_segment(s) == s.skip(s.len() - last_segment(s).len()),
        forall|k: int| 0 <= k < last_segment(s).len() ==> #[trigger] last_segment(s)[k] != '.',
        last_segment(s).len() < s.len() ==> s[s.len() - last_segment(s).len() - 1] == '.',
    decreases s.len(),
{
    if s.len() > 0 {
        let init = s.drop_last();
        lemma_last_segment_shape(init);
        if s.last() != '.' {
            let t = last_segment(init);
            assert(last_segment(s) == t.push(s.last()));
            assert(s.skip(s.len() - t.len() - 1) == init.skip(init.len() - t.len()).push(s.last()));
            assert forall|k: int| 0 <= k < last_segment(s).len() implies #[trigger] last_segment(
                s,
            )[k] != '.' by {
                if k < t.len() {
                    assert(last_segment(s)[k] == t[k]);
                }
            }
            if t.len() < init.len() {
                assert(s[s.len() - t.len() - 2] == init[init.len() - t.len() - 1]);
            }
        } else {
            assert(s.skip(s.len() as int) == Seq::<char>::empty());
        }
    } else {
        assert(s.skip(0) == s);
    }
}

/// A non-empty subnet prefix ends with its `.`.
pub proof fn lemma_subnet_prefix_ends_with_dot(ip: Seq<char>)
    ensures
        subnet_prefix(ip).len() <= ip.len(),
        subnet_prefix(ip).len() > 0 ==> subnet_prefix(ip).last() == '.',
        ip == subnet_prefix(ip) + last_segment(ip),
{
    lemma_last_segment_shape(ip);
    assert(ip == subnet_prefix(ip) + last_segment(ip));
}

/// No decimal spelling holds a `.`.
pub proof fn lemma_decimal_has_no_dot(n: nat)
    ensures
        forall|k: int| 0 <= k < decimal_text(n).len() ==> #[trigger] decimal_text(n)[k] != '.',
{
    lemma_decimal_digits(n);
    assert forall|k: int| 0 <= k < decimal_text(n).len() implies #[trigger] decimal_text(n)[k]
        != '.' by {
        assert(is_digit(decimal_text(n)[k]));
    }
}

/// Different numbers have different decimal spellings.
pub proof fn lemma_decimal_injective(m: nat, n: nat)
    ensures
        decimal_text(m) == decimal_text(n) ==> m == n,
{
    lemma_decimal_digits(m);
    lemma_decimal_digits(n);
}

/// An address made of a prefix ending in `.` and a number is split back
/// into that prefix and that number: `p + d == q + e`, with `p` and `q`
/// ending in `.` and no `.` in `d` or `e`, forces `p == q` and `d == e`.
pub proof fn lemma_address_split_unique(p: Seq<char>, d: Seq<char>, q: Seq<char>, e: Seq<char>)
    requires
        p.len() > 0,
        q.len() > 0,
        p.last() == '.',
        q.last() == '.',
        forall|k: int| 0 <= k < d.len() ==> #[trigger] d[k] != '.',
        forall|k: int| 0 <= k < e.len() ==> #[trigger] e[k] != '.',
        p + d == q + e,
    ensures
        p == q,
        d == e,
{
    let x = p + d;
    let y = q + e;
    assert(x.len() == p.len() + d.len());
    assert(y.len() == q.len() + e.len());
    if p.len() < q.len() {
        let i = q.len() - 1;
        assert(y[i] == q[i]);
        assert(x[i] == d[i - p.len()]);
        assert(d[i - p.len()] != '.');
    }
    if q.len() < p.len() {
        let i = p.len() - 1;
        assert(x[i] == p[i]);
        assert(y[i] == e[i - q.len()]);
        assert(e[i - q.len()] != '.');
    }
    assert(p == x.take(p.len() as int));
    assert(q == x.take(q.len() as int));
    assert(d == x.skip(p.len() as int));
    assert(e == x.skip(q.len() as int));
}

/// The subnets swept are pairwise distinct, each ends with its `.`, and
/// they are exactly the non-empty subnet prefixes of the addresses.
pub proof fn lemma_subnet_prefixes_exact(ips: Seq<Seq<char>>)
    ensures
        subnet_prefixes(ips).no_duplicates(),
        forall|k: int|
            0 <= k < subnet_prefixes(ips).len() ==> (#[trigger] subnet_prefixes(ips)[k]).len() > 0
                && subnet_prefixes(ips)[k].last() == '.',
        forall|p: Seq<char>|
            #![trigger subnet_prefixes(ips).contains(p)]
            subnet_prefixes(ips).contains(p) <==> (p.len() > 0 && exists|j: int|
                0 <= j < ips.len() && #[trigger] subnet_prefix(ips[j]) == p),
    decreases ips.len(),
{
    if ips.len() > 0 {
        let init = ips.drop_last();
        lemma_subnet_prefixes_exact(init);
        let prev = subnet_prefixes(init);
        let cur = subnet_prefixes(ips);
        let q = subnet_prefix(ips.last());
        lemma_subnet_prefix_ends_with_dot(ips.last());
        assert forall|k: int| 0 <= k < cur.len() implies (#[trigger] cur[k]).len() > 0
            && cur[k].last() == '.' by {
            if k < prev.len() {
                assert(cur[k] == prev[k]);
            }
        }
        assert forall|p: Seq<char>| #![trigger cur.contains(p)]
            cur.contains(p) <==> (p.len() > 0 && exists|j: int|
                0 <= j < ips.len() && #[trigger] subnet_prefix(ips[j]) == p) by {
            if cur.contains(p) {
                let k = choose|k: int| 0 <= k < cur.len() && cur[k] == p;
                if k < prev.len() {
                    assert(cur[k] == prev[k]);
                    assert(prev.contains(p));
                    let j = choose|j: int| 0 <= j < init.len() && #[trigger] subnet_prefix(init[j]) == p;
                    assert(ips[j] == init[j]);
                } else {
                    assert(subnet_prefix(ips[ips.len() - 1]) == p);
                }
            }
            if p.len() > 0 && exists|j: int| 0 <= j < ips.len() && #[trigger] subnet_prefix(ips[j]) == p {
                let j = choose|j: int| 0 <= j < ips.len() && #[trigger] subnet_prefix(ips[j]) == p;
                if j < init.len() {
                    assert(init[j] == ips[j]);
                    assert(subnet_prefix(init[j]) == p);
                    assert(prev.contains(p));
                    let k = choose|k: int| 0 <= k < prev.len() && prev[k] == p;
                    assert(cur[k] == prev[k]);
                } else if prev.contains(p) {
                    let k = choose|k: int| 0 <= k < prev.len() && prev[k] == p;
                    assert(cur[k] == prev[k]);
                } else {
                    assert(cur[cur.len() - 1] == p);
                }
            }
        }
        assert forall|a: int, b: int| 0 <= a < cur.len() && 0 <= b < cur.len() && a != b implies cur[a]
            != cur[b] by {
            if a < prev.len() && b < prev.len() {
                assert(cur[a] == prev[a] && cur[b] == prev[b]);
            } else if a < prev.len() {
                assert(cur[a] == prev[a]);
                assert(prev.contains(prev[a]));
            } else if b < prev.len() {
                assert(cur[b] == prev[b]);
                assert(prev.contains(prev[b]));
            }
        }
    }
}

/// Each address that the sweep of the subnet `prefix` gives is `prefix`
/// followed by a host number from 1 to `n`, none is known, and none comes
/// twice.
pub proof fn lemma_unknown_hosts_shape(prefix: Seq<char>, n: nat, known: Seq<Seq<char>>)
    ensures
        unknown_hosts(prefix, n, known).no_duplicates(),
        forall|k: int|
            0 <= k < unknown_hosts(prefix, n, known).len() ==> exists|m: nat|
                1 <= m <= n && #[trigger] unknown_hosts(prefix, n, known)[k] == prefix
                    + decimal_text(m),
        forall|k: int|
            0 <= k < unknown_hosts(prefix, n, known).len() ==> !known.contains(
                #[trigger] unknown_hosts(prefix, n, known)[k],
            ),
    decreases n,
{
    if n > 0 {
        lemma_unknown_hosts_shape(prefix, (n - 1) as nat, known);
        let prev = unknown_hosts(prefix, (n - 1) as nat, known);
        let cur = unknown_hosts(prefix, n, known);
        let addr = prefix + decimal_text(n);
        assert forall|k: int| 0 <= k < cur.len() implies exists|m: nat|
            1 <= m <= n && #[trigger] cur[k] == prefix + decimal_text(m) by {
            if k < prev.len() {
                assert(cur[k] == prev[k]);
            } else {
                assert(cur[k] == addr);
            }
        }
        assert forall|k: int| 0 <= k < cur.len() implies !known.contains(#[trigger] cur[k]) by {
            if k < prev.len() {
                assert(cur[k] == prev[k]);
            }
        }
        if !known.contains(addr) {
            assert forall|a: int, b: int| 0 <= a < cur.len() && 0 <= b < cur.len() && a != b implies cur[a]
                != cur[b] by {
                if a < prev.len() && b < prev.len() {
                    assert(cur[a] == prev[a] && cur[b] == prev[b]);
                } else {
                    let other = if a < prev.len() { a } else { b };
                    assert(cur[other] == prev[other]);
                    let m = choose|m: nat| 1 <= m <= n - 1 && #[trigger] prev[other] == prefix
                        + decimal_text(m);
                    if prev[other] == addr {
                        assert(decimal_text(m) == (prefix + decimal_text(m)).skip(prefix.len() as int));
                        assert(decimal_text(n) == addr.skip(prefix.len() as int));
                        lemma_decimal_injective(m, n);
                    }
                }
            }
        }
    }
}

/// The sweep of pairwise distinct subnets, each ending with its `.`,
/// probes no address twice, and only unknown addresses made of one of the
/// subnets and a host number from 1 to 254.
pub proof fn lemma_sweep_list_distinct(prefixes: Seq<Seq<char>>, known: Seq<Seq<char>>)
    requires
        prefixes.no_duplicates(),
        forall|k: int|
            0 <= k < prefixes.len() ==> (#[trigger] prefixes[k]).len() > 0 && prefixes[k].last()
                == '.',
    ensures
        sweep_list(prefixes, known).no_duplicates(),
        forall|k: int|
            0 <= k < sweep_list(prefixes, known).len() ==> exists|j: int, m: nat|
                0 <= j < prefixes.len() && 1 <= m <= 254 && #[trigger] sweep_list(
                    prefixes,
                    known,
                )[k] == prefixes[j] + decimal_text(m),
        forall|k: int|
            0 <= k < sweep_list(prefixes, known).len() ==> !known.contains(
                #[trigger] sweep_list(prefixes, known)[k],
            ),
    decreases prefixes.len(),
{
    if prefixes.len() > 0 {
        let init = prefixes.drop_last();
        let last = prefixes.last();
        assert forall|k: int| 0 <= k < init.len() implies (#[trigger] init[k]).len() > 0
            && init[k].last() == '.' by {
            assert(init[k] == prefixes[k]);
        }
        assert(init.no_duplicates()) by {
            assert forall|a: int, b: int| 0 <= a < init.len() && 0 <= b < init.len() && a != b implies init[a]
                != init[b] by {
                assert(init[a] == prefixes[a] && init[b] == prefixes[b]);
            }
        }
        lemma_sweep_list_distinct(init, known);
        lemma_unknown_hosts_shape(last, 254, known);
        let prev = sweep_list(init, known);
        let tail = unknown_hosts(last, 254, known);
        let cur = sweep_list(prefixes, known);
        assert(cur == prev + tail);
        assert forall|k: int| 0 <= k < cur.len() implies exists|j: int, m: nat|
            0 <= j < prefixes.len() && 1 <= m <= 254 && #[trigger] cur[k] == prefixes[j]
                + decimal_text(m) by {
            if k < prev.len() {
                assert(cur[k] == prev[k]);
                let (j, m) = choose|j: int, m: nat|
                    0 <= j < init.len() && 1 <= m <= 254 && #[trigger] prev[k] == init[j]
                        + decimal_text(m);
                assert(init[j] == prefixes[j]);
            } else {
                assert(cur[k] == tail[k - prev.len()]);
                let m = choose|m: nat| 1 <= m <= 254 && #[trigger] tail[k - prev.len()] == last
                    + decimal_text(m);
                assert(cur[k] == prefixes[prefixes.len() - 1] + decimal_text(m));
            }
        }
        assert forall|k: int| 0 <= k < cur.len() implies !known.contains(#[trigger] cur[k]) by {
            if k < prev.len() {
                assert(cur[k] == prev[k]);
            } else {
                assert(cur[k] == tail[k - prev.len()]);
            }
        }
        assert forall|a: int, b: int| 0 <= a < cur.len() && 0 <= b < cur.len() && a != b implies cur[a]
            != cur[b] by {
            if a < prev.len() && b < prev.len() {
                assert(cur[a] == prev[a] && cur[b] == prev[b]);
            } else if a >= prev.len() && b >= prev.len() {
                assert(cur[a] == tail[a - prev.len()] && cur[b] == tail[b - prev.len()]);
            } else {
                let i = if a < prev.len() { a } else { b };
                let t = if a < prev.len() { b } else { a };
                assert(cur[i] == prev[i]);
                assert(cur[t] == tail[t - prev.len()]);
                let (j, m) = choose|j: int, m: nat|
                    0 <= j < init.len() && 1 <= m <= 254 && #[trigger] prev[i] == init[j]
                        + decimal_text(m);
                let m2 = choose|m2: nat| 1 <= m2 <= 254 && #[trigger] tail[t - prev.len()] == last
                    + decimal_text(m2);
                if prev[i] == tail[t - prev.len()] {
                    lemma_decimal_has_no_dot(m);
                    lemma_decimal_has_no_dot(m2);
                    assert(init[j] == prefixes[j]);
                    lemma_address_split_unique(init[j], decimal_text(m), last, decimal_text(m2));
                    assert(prefixes[j] == prefixes[prefixes.len() - 1]);
                }
            }
        }
    }
}

/// A sweep probes every subnet once and no address twice: the subnets are
/// exactly the distinct non-empty prefixes of the nodes' addresses, and
/// the sweep list has no repeated address and no known one.
pub proof fn lemma_sweep_probes_once(ips: Seq<Seq<char>>, known: Seq<Seq<char>>)
    ensures
        subnet_prefixes(ips).no_duplicates(),
        sweep_list(subnet_prefixes(ips), known).no_duplicates(),
        forall|k: int|
            0 <= k < sweep_list(subnet_prefixes(ips), known).len() ==> !known.contains(
                #[trigger] sweep_list(subnet_prefixes(ips), known)[k],
            ),
{
    lemma_subnet_prefixes_exact(ips);
    lemma_sweep_list_distinct(subnet_prefixes(ips), known);
}

} // verus!
