use vstd::prelude::*;
use crate::text::{
    chars_of, decimal, decimal_text, last_segment, last_segment_start, parse_i32, parse_i32_text,
    lemma_decimal_parse_round_trip,
};

verus! {

/// How many latency samples a node keeps.
pub const MAX_HISTORY: usize = 20;

/// A host of the network. `F` is the number type of the latency readings
/// and the position.
#[derive(Clone, Debug)]
pub struct Node<F> {
    pub name: String,
    pub ip: String,
    pub kind: String,
    pub latency_ms: F,
    pub x: F,
    pub y: F,
    pub z: F,
    pub history: Vec<F>,
}

/// The colour a node is drawn in, chosen by its kind.
#[derive(Clone, Copy, Debug, PartialEq, Eq, Structural)]
pub enum NodeColor {
    Magenta,
    Cyan,
    Yellow,
    White,
}

/// The colour of a node of kind `kind`: gateways magenta, clients cyan,
/// peripherals yellow, anything else white.
pub open spec fn kind_color(kind: Seq<char>) -> NodeColor {
    if kind == "Gateway"@ {
        NodeColor::Magenta
    } else if kind == "Client"@ {
        NodeColor::Cyan
    } else if kind == "Peripheral"@ {
        NodeColor::Yellow
    } else {
        NodeColor::White
    }
}

/// The history after one sample: the sample is appended and, where that
/// makes the history longer than `MAX_HISTORY`, the oldest sample leaves.
pub open spec fn history_push<F>(h: Seq<F>, ms: F) -> Seq<F> {
    if h.len() + 1 > MAX_HISTORY {
        h.push(ms).drop_first()
    } else {
        h.push(ms)
    }
}

/// The history after the samples `samples`, in order.
pub open spec fn history_push_all<F>(h: Seq<F>, samples: Seq<F>) -> Seq<F>
    decreases samples.len(),
{
    if samples.len() == 0 {
        h
    } else {
        history_push(history_push_all(h, samples.drop_last()), samples.last())
    }
}

/// The last `n` items of `s` (all of them where there are no more than `n`).
pub open spec fn last_n<F>(s: Seq<F>, n: nat) -> Seq<F> {
    if s.len() <= n {
        s
    } else {
        s.skip(s.len() - n)
    }
}

/// `after` is `before` once the outcome `reply` of a probe is recorded:
/// a reply time becomes the reading and joins the history; no reply sets
/// the reading to `offline` and keeps the history. Name, address, kind and
/// position stay.
pub open spec fn probed<F>(before: Node<F>, after: Node<F>, reply: Option<F>, offline: F) -> bool {
    &&& after.name == before.name
    &&& after.ip == before.ip
    &&& after.kind == before.kind
    &&& after.x == before.x
    &&& after.y == before.y
    &&& after.z == before.z
    &&& match reply {
        Some(ms) => after.latency_ms == ms && after.history@ == history_push(before.history@, ms),
        None => after.latency_ms == offline && after.history@ == before.history@,
    }
}

/// `node` is the host found at the address `ip`, placed at `place`, whose
/// first probe gave `first`: an unconfigured host (see `new_unknown`) with
/// that reply recorded as its first sample, or the reading `idle` and no
/// samples where there was no reply.
pub open spec fn fresh_host<F>(node: Node<F>, ip: Seq<char>, place: (F, F, F), first: Option<F>, idle: F) -> bool {
    &&& node.name@ == unknown_name(address_seed(ip))
    &&& node.ip@ == ip
    &&& node.kind@ == "Unknown"@
    &&& node.x == place.0
    &&& node.y == place.1
    &&& node.z == place.2
    &&& match first {
        Some(ms) => node.latency_ms == ms && node.history@ == seq![ms],
        None => node.latency_ms == idle && node.history@ == Seq::<F>::empty(),
    }
}

impl<F> Node<F> {
    /// A node keeps at most `MAX_HISTORY` samples.
    pub open spec fn wf(&self) -> bool {
        self.history@.len() <= MAX_HISTORY
    }
}

impl<F: Copy> Node<F> {
    /// A node as a configuration file describes it, with the reading
    /// `idle` and no samples yet.
    pub fn from_config(name: &str, ip: &str, kind: &str, x: F, y: F, z: F, idle: F) -> (node:
        Self)
        ensures
            node.name@ == name@,
            node.ip@ == ip@,
            node.kind@ == kind@,
            node.latency_ms == idle,
            node.x == x,
            node.y == y,
            node.z == z,
            node.history@ == Seq::<F>::empty(),
            node.wf(),
    {
        Node {
            name: String::from_str(name),
            ip: String::from_str(ip),
            kind: String::from_str(kind),
            latency_ms: idle,
            x,
            y,
            z,
            history: Vec::new(),
        }
    }

    /// Records the latency sample `ms`: it becomes the current reading and
    /// joins the history, whose oldest sample leaves once there are more
    /// than `MAX_HISTORY`.
    pub fn push_latency(&mut self, ms: F)
        ensures
            final(self).latency_ms == ms,
            final(self).history@ == history_push(old(self).history@, ms),
            final(self).name == old(self).name,
            final(self).ip == old(self).ip,
            final(self).kind == old(self).kind,
            final(self).x == old(self).x,
            final(self).y == old(self).y,
            final(self).z == old(self).z,
            old(self).wf() ==> final(self).wf(),
    {
        self.latency_ms = ms;
        self.history.push(ms);
        if self.history.len() > MAX_HISTORY {
            self.history.remove(0);
        }
    }

    /// Records the outcome of one probe: a reply time is pushed as a
    /// sample; no reply sets the current reading to `offline` and keeps the
    /// history.
    pub fn record_probe(&mut self, reply: Option<F>, offline: F)
        ensures
            probed(*old(self), *final(self), reply, offline),
            old(self).wf() ==> final(self).wf(),
    {
        match reply {
            Some(ms) => self.push_latency(ms),
            None => {
                self.latency_ms = offline;
            },
        }
    }
}

impl<F> Node<F> {
    /// The colour of this node, chosen by its kind.
    pub fn color(&self) -> (c: NodeColor)
        ensures
            c == kind_color(self.kind@),
    {
        let kind = self.kind.as_str();
        if crate::text::same_text(kind, "Gateway") {
            NodeColor::Magenta
        } else if crate::text::same_text(kind, "Client") {
            NodeColor::Cyan
        } else if crate::text::same_text(kind, "Peripheral") {
            NodeColor::Yellow
        } else {
            NodeColor::White
        }
    }
}

/// The seed a host without configuration is placed by: its address's
/// last dot-separated part read as an `i32`, or 1 where that part is no
/// such number.
pub open spec fn address_seed(ip: Seq<char>) -> i32 {
    match parse_i32_text(last_segment(ip)) {
        Some(v) => v,
        None => 1,
    }
}

/// The name of a host without configuration: `Unknown-` and its seed,
/// with a negative seed shown as 0.
pub open spec fn unknown_name(seed: i32) -> Seq<char> {
    "Unknown-"@ + decimal_text(if seed < 0 { 0 } else { seed as nat })
}

/// The sparkline characters, lowest first.
pub open spec fn bar_chars() -> Seq<char> {
    "▁▂▃▄▅▆▇█"@
}

/// The sparkline of the bar heights `levels`: one bar per level, a level
/// above 7 drawn as the full bar; nothing for fewer than two levels.
pub open spec fn sparkline_text(levels: Seq<usize>) -> Seq<char> {
    if levels.len() < 2 {
        Seq::empty()
    } else {
        Seq::new(
            levels.len(),
            |i: int| bar_chars()[if levels[i] > 7 { 7 } else { levels[i] as int }],
        )
    }
}

/// The seed of the address `ip` (see `address_seed`).
pub fn ip_seed(ip: &str) -> (seed: i32)
    ensures
        seed == address_seed(ip@),
{
    let chars = chars_of(ip);
    let start = last_segment_start(&chars);
    let part = ip.substring_char(start, chars.len());
    match parse_i32(part) {
        Some(v) => v,
        None => 1,
    }
}

/// The name given to a host without configuration whose seed is `seed`.
pub fn unknown_label(seed: i32) -> (name: String)
    ensures
        name@ == unknown_name(seed),
{
    let n: u64 = if seed < 0 {
        0
    } else {
        seed as u64
    };
    let mut name = String::from_str("Unknown-");
    let digits = decimal(n);
    name.append(digits.as_str());
    name
}

impl<F: Copy> Node<F> {
    /// A host seen on the network but not configured: named after the seed
    /// of its address, of kind `Unknown`, placed at `(x, y, z)`, with the
    /// reading `idle` and no samples yet.
    pub fn new_unknown(ip: &str, x: F, y: F, z: F, idle: F) -> (node: Self)
        ensures
            node.name@ == unknown_name(address_seed(ip@)),
            node.ip@ == ip@,
            node.kind@ == "Unknown"@,
            node.latency_ms == idle,
            node.x == x,
            node.y == y,
            node.z == z,
            node.history@ == Seq::<F>::empty(),
            node.wf(),
    {
        let seed = ip_seed(ip);
        Node {
            name: unknown_label(seed),
            ip: String::from_str(ip),
            kind: String::from_str("Unknown"),
            latency_ms: idle,
            x,
            y,
            z,
            history: Vec::new(),
        }
    }
}

/// The sparkline of the bar heights `levels` (see `sparkline_text`).
pub fn sparkline_bars(levels: &Vec<usize>) -> (line: String)
    ensures
        line@ == sparkline_text(levels@),
{
    let mut line = String::new();
    if levels.len() < 2 {
        return line;
    }
    let bars = "▁▂▃▄▅▆▇█";
    proof {
        reveal_strlit("▁▂▃▄▅▆▇█");
    }
    let mut i: usize = 0;
    while i < levels.len()
        invariant
            bars@ == bar_chars(),
            bars@.len() == 8,
            levels@.len() >= 2,
            i <= levels.len(),
            line@ == sparkline_text(levels@).take(i as int),
        decreases levels.len() - i,
    {
        let level = if levels[i] > 7 {
            7
        } else {
            levels[i]
        };
        let bar = bars.substring_char(level, level + 1);
        line.append(bar);
        assert(sparkline_text(levels@).take(i + 1) == sparkline_text(levels@).take(i as int).push(
            bars@[level as int],
        ));
        i = i + 1;
    }
    assert(sparkline_text(levels@).take(levels.len() as int) == sparkline_text(levels@));
    line
}

/// Pushing samples one by one onto a history of at most `MAX_HISTORY`
/// samples leaves exactly the last `MAX_HISTORY` of all samples seen.
pub proof fn lemma_history_keeps_last<F>(h: Seq<F>, samples: Seq<F>)
    requires
        h.len() <= MAX_HISTORY,
    ensures
        history_push_all(h, samples) == last_n(h + samples, MAX_HISTORY as nat),
    decreases samples.len(),
{
    if samples.len() > 0 {
        let init = samples.drop_last();
        let x = samples.last();
        lemma_history_keeps_last(h, init);
        let t = h + init;
        assert(h + samples == t.push(x));
        let prev = last_n(t, MAX_HISTORY as nat);
        if t.len() < MAX_HISTORY {
            assert(history_push(prev, x) == t.push(x));
        } else {
            assert(history_push(prev, x) == t.push(x).skip(t.len() + 1 - MAX_HISTORY));
        }
    }
}

/// The number in the name of an unconfigured host reads back as its seed,
/// for every seed that is not negative.
pub proof fn lemma_unknown_name_reads_back(seed: i32)
    requires
        seed >= 0,
    ensures
        unknown_name(seed).subrange(0, 8) == "Unknown-"@,
        parse_i32_text(unknown_name(seed).skip(8)) == Some(seed),
{
    reveal_strlit("Unknown-");
    let name = unknown_name(seed);
    assert(name.skip(8) == decimal_text(seed as nat));
    assert(name.subrange(0, 8) == "Unknown-"@);
    lemma_decimal_parse_round_trip(seed as nat);
}

/// A history never grows past `MAX_HISTORY` samples, whatever is pushed.
pub proof fn lemma_history_bounded<F>(h: Seq<F>, ms: F)
    requires
        h.len() <= MAX_HISTORY,
    ensures
        history_push(h, ms).len() <= MAX_HISTORY,
        history_push(h, ms).last() == ms,
{
}

} // verus!
