use vstd::prelude::*;
use crate::clock::{humantime_since_epoch, time_of_day_text};
use crate::graph::{edge_indices, linked_to, links, neighbors_of};
use crate::node::Node;
use crate::state::{next_state, StateMachine};
use crate::text::{join_texts, joined};
use crate::search::{lemma_match_indices_valid, match_indices, matching_indices, node_matches};
use vstd::arithmetic::div_mod::lemma_small_mod;

verus! {

/// A rectangle of terminal cells: columns `x..x + width`, rows
/// `y..y + height`.
#[derive(Clone, Copy, Debug, PartialEq, Eq, Structural)]
pub struct Area {
    pub x: u16,
    pub y: u16,
    pub width: u16,
    pub height: u16,
}

/// `a + b`, or `u16::MAX` where that does not fit.
pub open spec fn sat_add(a: u16, b: u16) -> u16 {
    if a + b > u16::MAX {
        u16::MAX
    } else {
        (a + b) as u16
    }
}

impl Area {
    /// The first column.
    pub fn left(&self) -> (c: u16)
        ensures
            c == self.x,
    {
        self.x
    }

    /// The first row.
    pub fn top(&self) -> (r: u16)
        ensures
            r == self.y,
    {
        self.y
    }

    /// The first column past the area (clamped to `u16::MAX`).
    pub fn right(&self) -> (c: u16)
        ensures
            c == sat_add(self.x, self.width),
    {
        self.x.saturating_add(self.width)
    }

    /// The first row past the area (clamped to `u16::MAX`).
    pub fn bottom(&self) -> (r: u16)
        ensures
            r == sat_add(self.y, self.height),
    {
        self.y.saturating_add(self.height)
    }
}

/// The keys the dashboard reacts to.
#[derive(Clone, Copy, Debug, PartialEq, Eq, Structural)]
pub enum Key {
    Enter,
    Esc,
    F1,
    Left,
    Right,
    Backspace,
    /// A character key.
    Char(char),
    /// Any other key.
    Other,
}

/// The mouse events the dashboard reacts to.
#[derive(Clone, Copy, Debug, PartialEq, Eq, Structural)]
pub enum Pointer {
    /// The left button went down over the cell `(column, row)`.
    LeftDown { column: u16, row: u16 },
    ScrollUp,
    ScrollDown,
    Other,
}

/// What the camera's zoom progress becomes after a step.
#[derive(Clone, Copy, Debug, PartialEq, Eq, Structural)]
pub enum ZoomAction {
    /// Unchanged.
    Keep,
    /// Back to the start of the zoom (no zoom).
    ToStart,
    /// To the end of the zoom (fully zoomed).
    ToEnd,
}

/// The outcome of a key press.
#[derive(Clone, Copy, Debug, PartialEq, Eq, Structural)]
pub struct KeyOutcome {
    /// Whether the dashboard keeps running.
    pub running: bool,
    /// What becomes of the zoom progress.
    pub zoom: ZoomAction,
    /// Whether a scan is asked for now, without waiting for the next round.
    pub rescan: bool,
}

/// What remains to be done for a mouse event once the dashboard state has
/// taken it.
#[derive(Clone, Copy, Debug, PartialEq, Eq, Structural)]
pub enum PointerOutcome {
    /// Nothing.
    Done,
    /// Select the node drawn nearest the click, if it lies near enough.
    PickNearest,
    /// Enlarge the base scale of the camera.
    ZoomIn,
    /// Reduce the base scale of the camera.
    ZoomOut,
}

/// The animation that runs on the current screen.
#[derive(Clone, Copy, Debug, PartialEq, Eq, Structural)]
pub enum Animation {
    Zoom,
    Intro,
    Idle,
}

/// One link to draw: its two nodes, whether it is drawn highlighted, and
/// whether its latency label is printed.
#[derive(Clone, Copy, Debug, PartialEq, Eq, Structural)]
pub struct EdgeDraw {
    pub from: usize,
    pub to: usize,
    pub emphasized: bool,
    pub labelled: bool,
}

/// The part of the dashboard state that input changes.
pub struct Controls {
    pub state: StateMachine,
    pub target_idx: usize,
    pub selected_idx: usize,
    pub show_help: bool,
    pub searching: bool,
    pub query: Seq<char>,
}

/// The state of the dashboard: the current screen, the nodes of the last
/// scan, the scan bookkeeping, the node the camera zooms to, the selected
/// node, whether the help is shown, whether a search is being typed and
/// its text, and where the content is drawn.
pub struct App<F> {
    pub state: StateMachine,
    pub nodes: Vec<Node<F>>,
    pub last_update: String,
    pub scan_count: u64,
    pub target_idx: usize,
    pub selected_idx: usize,
    pub show_help: bool,
    pub searching: bool,
    pub query: Vec<char>,
    pub content_area: Area,
}

/// The step of the Enter key (with the help closed) on `c` with `len`
/// nodes: the next screen; leaving the graph also moves the camera target
/// to the next node and restarts the zoom, leaving the zoom completes it,
/// and leaving the detail view resets it.
pub open spec fn advance_step(c: Controls, len: nat) -> (Controls, ZoomAction) {
    let next = next_state(c.state);
    match c.state {
        StateMachine::Graph => (
            Controls {
                state: next,
                target_idx: ((c.target_idx + 1) % (if len == 0 { 1int } else { len as int })) as usize,
                ..c
            },
            ZoomAction::ToStart,
        ),
        StateMachine::AnimatingZoom => (Controls { state: next, ..c }, ZoomAction::ToEnd),
        StateMachine::Detail => (Controls { state: next, ..c }, ZoomAction::ToStart),
        _ => (Controls { state: next, ..c }, ZoomAction::Keep),
    }
}

/// Whether `key` shows or hides the help (`?` or F1).
pub open spec fn is_help_key(key: Key) -> bool {
    key == Key::F1 || key == Key::Char('?')
}

/// Whether `key` closes the help, or quits (`q` or Esc).
pub open spec fn is_quit_key(key: Key) -> bool {
    key == Key::Esc || key == Key::Char('q')
}

/// The arrow keys with `len` nodes: Left selects the previous node, Right
/// the next, both wrapping around; nothing with the help shown or without
/// nodes.
pub open spec fn arrow_step(c: Controls, len: nat, key: Key) -> Controls {
    if !c.show_help && len > 0 {
        if key == Key::Left {
            Controls {
                selected_idx: if c.selected_idx == 0 {
                    (len - 1) as usize
                } else {
                    (c.selected_idx - 1) as usize
                },
                ..c
            }
        } else {
            Controls { selected_idx: ((c.selected_idx + 1) % (len as int)) as usize, ..c }
        }
    } else {
        c
    }
}

/// The effect of the key `key` on `c` with the nodes `nodes`.
///
/// While a search is typed, characters extend the search text, Backspace
/// removes its last character, Enter confirms it (the first node it finds,
/// if any, becomes the selected node) and Esc cancels it; both end the
/// search and clear its text. The arrows keep working; other keys do
/// nothing.
///
/// Otherwise Enter closes the help or moves to the next screen, `?`/F1
/// toggles the help, `q`/Esc closes the help or quits, the arrows move
/// the selection, and, with the help closed, `/` starts a search and `r`
/// asks for a scan now.
pub open spec fn key_step<F>(c: Controls, nodes: Seq<Node<F>>, key: Key) -> (Controls, KeyOutcome) {
    let len = nodes.len();
    let keep = KeyOutcome { running: true, zoom: ZoomAction::Keep, rescan: false };
    if c.searching {
        match key {
            Key::Char(ch) => (Controls { query: c.query.push(ch), ..c }, keep),
            Key::Backspace => (
                Controls {
                    query: if c.query.len() > 0 {
                        c.query.drop_last()
                    } else {
                        c.query
                    },
                    ..c
                },
                keep,
            ),
            Key::Enter => {
                let found = match_indices(nodes, c.query);
                (
                    Controls {
                        searching: false,
                        query: Seq::empty(),
                        selected_idx: if found.len() > 0 {
                            found[0]
                        } else {
                            c.selected_idx
                        },
                        ..c
                    },
                    keep,
                )
            },
            Key::Esc => (Controls { searching: false, query: Seq::empty(), ..c }, keep),
            Key::Left => (arrow_step(c, len, key), keep),
            Key::Right => (arrow_step(c, len, key), keep),
            _ => (c, keep),
        }
    } else if key == Key::Enter {
        if c.show_help {
            (Controls { show_help: false, ..c }, keep)
        } else {
            let (c2, z) = advance_step(c, len);
            (c2, KeyOutcome { zoom: z, ..keep })
        }
    } else if is_help_key(key) {
        (Controls { show_help: !c.show_help, ..c }, keep)
    } else if is_quit_key(key) {
        if c.show_help {
            (Controls { show_help: false, ..c }, keep)
        } else {
            (c, KeyOutcome { running: false, ..keep })
        }
    } else if key == Key::Left || key == Key::Right {
        (arrow_step(c, len, key), keep)
    } else if key == Key::Char('/') && !c.show_help {
        (Controls { searching: true, query: Seq::empty(), ..c }, keep)
    } else if key == Key::Char('r') && !c.show_help {
        (c, KeyOutcome { rescan: true, ..keep })
    } else {
        (c, keep)
    }
}

/// The nodes listed on the detail view, by index: the ones the search
/// finds while a search is typed, else all of them.
pub open spec fn shown_rows<F>(c: Controls, nodes: Seq<Node<F>>) -> Seq<usize> {
    if c.searching {
        match_indices(nodes, c.query)
    } else {
        Seq::new(nodes.len(), |i: int| i as usize)
    }
}

/// The number of rows above the node list of the detail view.
pub open spec fn list_header_rows() -> u16 {
    2
}

/// The effect of the mouse event `p` on `c` with `len` nodes and the
/// content drawn in `area`. A left click inside the area selects, on the
/// detail view, the node of the list row clicked (see `shown_rows`), and asks, on a graph with
/// nodes, for the nearest node to be picked; the wheel zooms the graph.
/// With the help shown, clicks do nothing.
pub open spec fn pointer_step<F>(c: Controls, nodes: Seq<Node<F>>, area: Area, p: Pointer) -> (
    Controls,
    PointerOutcome,
) {
    let len = nodes.len();
    match p {
        Pointer::LeftDown { column, row } => {
            if c.show_help || row < area.y || row >= sat_add(area.y, area.height) || column
                < area.x || column >= sat_add(area.x, area.width) {
                (c, PointerOutcome::Done)
            } else {
                match c.state {
                    StateMachine::Detail => {
                        let rel = row - area.y;
                        let rows = shown_rows(c, nodes);
                        if rel >= list_header_rows() && rel - list_header_rows() < rows.len() {
                            (
                                Controls {
                                    selected_idx: rows[rel - list_header_rows()],
                                    ..c
                                },
                                PointerOutcome::Done,
                            )
                        } else {
                            (c, PointerOutcome::Done)
                        }
                    },
                    StateMachine::Graph => if len == 0 {
                        (c, PointerOutcome::Done)
                    } else {
                        (c, PointerOutcome::PickNearest)
                    },
                    _ => (c, PointerOutcome::Done),
                }
            }
        },
        Pointer::ScrollUp => if c.state == StateMachine::Graph {
            (c, PointerOutcome::ZoomIn)
        } else {
            (c, PointerOutcome::Done)
        },
        Pointer::ScrollDown => if c.state == StateMachine::Graph {
            (c, PointerOutcome::ZoomOut)
        } else {
            (c, PointerOutcome::Done)
        },
        Pointer::Other => (c, PointerOutcome::Done),
    }
}

/// `idx` clamped to the nodes: at most the last index (0 without nodes).
pub open spec fn clamp_index(idx: usize, len: nat) -> usize {
    let last = if len == 0 { 0 } else { (len - 1) as usize };
    if idx < last { idx } else { last }
}

/// The names of the nodes at the indices `idxs` that exist, in order.
pub open spec fn names_at<F>(nodes: Seq<Node<F>>, idxs: Seq<usize>) -> Seq<Seq<char>>
    decreases idxs.len(),
{
    if idxs.len() == 0 {
        Seq::empty()
    } else {
        let prev = names_at(nodes, idxs.drop_last());
        let i = idxs.last();
        if i < nodes.len() {
            prev.push(nodes[i as int].name@)
        } else {
            prev
        }
    }
}

/// The links among `edges` whose two nodes both exist, with their style
/// for the selected node `sel`: highlighted where `highlight` is set and
/// the link touches `sel`; labelled where it touches `sel` or nothing is
/// highlighted.
pub open spec fn edge_plan_spec(edges: Seq<(usize, usize)>, len: nat, sel: usize, highlight: bool) -> Seq<
    EdgeDraw,
>
    decreases edges.len(),
{
    if edges.len() == 0 {
        Seq::empty()
    } else {
        let prev = edge_plan_spec(edges.drop_last(), len, sel, highlight);
        let (a, b) = edges.last();
        let touches = a == sel || b == sel;
        if a < len && b < len {
            prev.push(
                EdgeDraw { from: a, to: b, emphasized: highlight && touches, labelled: touches || !highlight },
            )
        } else {
            prev
        }
    }
}

/// The rectangle of the help box over `area`: 56 columns (fewer on a
/// narrower area) by 13 rows, centred.
pub open spec fn help_area(area: Area) -> Area {
    let w: u16 = if area.width < 56 { area.width } else { 56 };
    Area {
        x: (area.x + (area.width - w) / 2) as u16,
        y: (area.y + (area.height - 13) / 2) as u16,
        width: w,
        height: 13,
    }
}

/// The intro progress bar with `filled` of its 20 cells filled: `[`,
/// `filled` times `■`, the remaining cells as `·`, then `]`.
pub open spec fn progress_text(filled: nat) -> Seq<char> {
    let rest: nat = if filled < 20 { (20 - filled) as nat } else { 0 };
    seq!['['] + Seq::new(filled, |i: int| '■') + Seq::new(rest, |i: int| '·') + seq![']']
}

impl<F> App<F> {
    /// The part of the state that input changes.
    pub open spec fn controls(&self) -> Controls {
        Controls {
            state: self.state,
            target_idx: self.target_idx,
            selected_idx: self.selected_idx,
            show_help: self.show_help,
            searching: self.searching,
            query: self.query@,
        }
    }

    /// The dashboard at start-up: the splash screen, no nodes, no scan yet.
    pub fn new() -> (app: Self)
        ensures
            app.state == StateMachine::Splash,
            app.nodes@.len() == 0,
            app.last_update@ == "—"@,
            app.scan_count == 0,
            app.target_idx == 0,
            app.selected_idx == 0,
            !app.show_help,
            !app.searching,
            app.query@.len() == 0,
            app.content_area == (Area { x: 0, y: 0, width: 0, height: 0 }),
    {
        App {
            state: StateMachine::Splash,
            nodes: Vec::new(),
            last_update: String::from_str("—"),
            scan_count: 0,
            target_idx: 0,
            selected_idx: 0,
            show_help: false,
            searching: false,
            query: Vec::new(),
            content_area: Area { x: 0, y: 0, width: 0, height: 0 },
        }
    }

    /// Moves to the next screen (see `advance_step`) and says what becomes
    /// of the zoom.
    pub fn advance(&mut self) -> (zoom: ZoomAction)
        requires
            old(self).state == StateMachine::Graph ==> old(self).target_idx < usize::MAX,
        ensures
            (final(self).controls(), zoom) == advance_step(old(self).controls(), old(self).nodes@.len()),
            final(self).nodes == old(self).nodes,
            final(self).last_update == old(self).last_update,
            final(self).scan_count == old(self).scan_count,
            final(self).content_area == old(self).content_area,
    {
        let next = self.state.transition();
        match self.state {
            StateMachine::Graph => {
                let len = self.nodes.len();
                let modulus = if len > 1 { len } else { 1 };
                self.target_idx = (self.target_idx + 1) % modulus;
                self.state = next;
                ZoomAction::ToStart
            },
            StateMachine::AnimatingZoom => {
                self.state = next;
                ZoomAction::ToEnd
            },
            StateMachine::Detail => {
                self.state = next;
                ZoomAction::ToStart
            },
            _ => {
                self.state = next;
                ZoomAction::Keep
            },
        }
    }

    /// Moves the selection by an arrow key (see `arrow_step`).
    fn move_selection(&mut self, key: Key)
        requires
            key == Key::Left || key == Key::Right,
            key == Key::Right && !old(self).show_help && old(self).nodes@.len() > 0
                ==> old(self).selected_idx < usize::MAX,
        ensures
            final(self).controls() == arrow_step(old(self).controls(), old(self).nodes@.len(), key),
            final(self).nodes == old(self).nodes,
            final(self).last_update == old(self).last_update,
            final(self).scan_count == old(self).scan_count,
            final(self).content_area == old(self).content_area,
    {
        if !self.show_help && self.nodes.len() > 0 {
            if key == Key::Left {
                self.selected_idx = if self.selected_idx == 0 {
                    self.nodes.len() - 1
                } else {
                    self.selected_idx - 1
                };
            } else {
                self.selected_idx = (self.selected_idx + 1) % self.nodes.len();
            }
        }
    }

    /// Takes the key press `key` (see `key_step`).
    pub fn handle_key(&mut self, key: Key) -> (out: KeyOutcome)
        requires
            key == Key::Enter && !old(self).searching && !old(self).show_help && old(self).state
                == StateMachine::Graph ==> old(self).target_idx < usize::MAX,
            key == Key::Right && !old(self).show_help && old(self).nodes@.len() > 0
                ==> old(self).selected_idx < usize::MAX,
        ensures
            (final(self).controls(), out) == key_step(old(self).controls(), old(self).nodes@, key),
            final(self).nodes == old(self).nodes,
            final(self).last_update == old(self).last_update,
            final(self).scan_count == old(self).scan_count,
            final(self).content_area == old(self).content_area,
    {
        let keep = KeyOutcome { running: true, zoom: ZoomAction::Keep, rescan: false };
        if self.searching {
            match key {
                Key::Char(ch) => {
                    self.query.push(ch);
                    keep
                },
                Key::Backspace => {
                    if self.query.len() > 0 {
                        self.query.pop();
                    }
                    keep
                },
                Key::Enter => {
                    let found = matching_indices(&self.nodes, &self.query);
                    if found.len() > 0 {
                        self.selected_idx = found[0];
                    }
                    self.searching = false;
                    self.query = Vec::new();
                    keep
                },
                Key::Esc => {
                    self.searching = false;
                    self.query = Vec::new();
                    keep
                },
                Key::Left => {
                    self.move_selection(key);
                    keep
                },
                Key::Right => {
                    self.move_selection(key);
                    keep
                },
                _ => keep,
            }
        } else if key == Key::Enter {
            if self.show_help {
                self.show_help = false;
                keep
            } else {
                let zoom = self.advance();
                KeyOutcome { running: true, zoom, rescan: false }
            }
        } else if key == Key::F1 || key == Key::Char('?') {
            self.show_help = !self.show_help;
            keep
        } else if key == Key::Esc || key == Key::Char('q') {
            if self.show_help {
                self.show_help = false;
                keep
            } else {
                KeyOutcome { running: false, zoom: ZoomAction::Keep, rescan: false }
            }
        } else if key == Key::Left || key == Key::Right {
            self.move_selection(key);
            keep
        } else if key == Key::Char('/') && !self.show_help {
            self.searching = true;
            self.query = Vec::new();
            keep
        } else if key == Key::Char('r') && !self.show_help {
            KeyOutcome { running: true, zoom: ZoomAction::Keep, rescan: true }
        } else {
            keep
        }
    }

    /// The indices of the nodes the current search text finds, in order.
    pub fn search_matches(&self) -> (found: Vec<usize>)
        ensures
            found@ == match_indices(self.nodes@, self.query@),
            forall|k: int| 0 <= k < found@.len() ==> #[trigger] found@[k] < self.nodes@.len(),
    {
        matching_indices(&self.nodes, &self.query)
    }

    /// Takes the mouse event `p` (see `pointer_step`) and says what remains
    /// to be done for it.
    pub fn handle_pointer(&mut self, p: Pointer) -> (out: PointerOutcome)
        ensures
            (final(self).controls(), out) == pointer_step(
                old(self).controls(),
                old(self).nodes@,
                old(self).content_area,
                p,
            ),
            final(self).nodes == old(self).nodes,
            final(self).last_update == old(self).last_update,
            final(self).scan_count == old(self).scan_count,
            final(self).content_area == old(self).content_area,
            (p == Pointer::ScrollUp || p == Pointer::ScrollDown) ==> final(self).controls() == old(
                self,
            ).controls(),
            p == Pointer::ScrollUp ==> out == (if old(self).state == StateMachine::Graph {
                PointerOutcome::ZoomIn
            } else {
                PointerOutcome::Done
            }),
            p == Pointer::ScrollDown ==> out == (if old(self).state == StateMachine::Graph {
                PointerOutcome::ZoomOut
            } else {
                PointerOutcome::Done
            }),
    {
        match p {
            Pointer::LeftDown { column, row } => {
                if self.show_help {
                    return PointerOutcome::Done;
                }
                let ca = self.content_area;
                if row < ca.top() || row >= ca.bottom() || column < ca.left() || column >= ca.right() {
                    return PointerOutcome::Done;
                }
                match self.state {
                    StateMachine::Detail => {
                        let rel = row - ca.y;
                        let header: u16 = 2;
                        if rel >= header {
                            let idx = (rel - header) as usize;
                            if self.searching {
                                let found = matching_indices(&self.nodes, &self.query);
                                if idx < found.len() {
                                    self.selected_idx = found[idx];
                                }
                            } else if idx < self.nodes.len() {
                                self.selected_idx = idx;
                            }
                        }
                        PointerOutcome::Done
                    },
                    StateMachine::Graph => {
                        if self.nodes.len() == 0 {
                            PointerOutcome::Done
                        } else {
                            PointerOutcome::PickNearest
                        }
                    },
                    _ => PointerOutcome::Done,
                }
            },
            Pointer::ScrollUp => {
                if self.state == StateMachine::Graph {
                    PointerOutcome::ZoomIn
                } else {
                    PointerOutcome::Done
                }
            },
            Pointer::ScrollDown => {
                if self.state == StateMachine::Graph {
                    PointerOutcome::ZoomOut
                } else {
                    PointerOutcome::Done
                }
            },
            Pointer::Other => PointerOutcome::Done,
        }
    }

    /// Selects node `idx` where it exists.
    pub fn select(&mut self, idx: usize)
        ensures
            final(self).controls() == (Controls {
                selected_idx: if idx < old(self).nodes@.len() {
                    idx
                } else {
                    old(self).selected_idx
                },
                ..old(self).controls()
            }),
            final(self).nodes == old(self).nodes,
            final(self).last_update == old(self).last_update,
            final(self).scan_count == old(self).scan_count,
            final(self).content_area == old(self).content_area,
    {
        if idx < self.nodes.len() {
            self.selected_idx = idx;
        }
    }

    /// The animation of the current screen: the zoom while zooming, the
    /// scan sweep while the intro plays, none otherwise.
    pub fn animation(&self) -> (a: Animation)
        ensures
            a == (match self.state {
                StateMachine::AnimatingZoom => Animation::Zoom,
                StateMachine::AnimatingIntro => Animation::Intro,
                _ => Animation::Idle,
            }),
    {
        match self.state {
            StateMachine::AnimatingZoom => Animation::Zoom,
            StateMachine::AnimatingIntro => Animation::Intro,
            _ => Animation::Idle,
        }
    }

    /// Ends a finished zoom: the zoom screen gives way to the detail view.
    pub fn complete_zoom(&mut self)
        ensures
            final(self).controls() == (Controls {
                state: if old(self).state == StateMachine::AnimatingZoom {
                    StateMachine::Detail
                } else {
                    old(self).state
                },
                ..old(self).controls()
            }),
            final(self).nodes == old(self).nodes,
            final(self).last_update == old(self).last_update,
            final(self).scan_count == old(self).scan_count,
            final(self).content_area == old(self).content_area,
    {
        if self.state == StateMachine::AnimatingZoom {
            self.state = StateMachine::Detail;
        }
    }

    /// Takes the nodes of a finished scan: they replace the shown nodes, the
    /// scan count grows by one and the update line shows the time of day.
    pub fn receive_scan(&mut self, fresh: Vec<Node<F>>)
        requires
            old(self).scan_count < u64::MAX,
        ensures
            final(self).nodes == fresh,
            final(self).scan_count == old(self).scan_count + 1,
            exists|secs: u64| final(self).last_update@ == "last scan: "@ + time_of_day_text(secs as nat),
            final(self).controls() == old(self).controls(),
            final(self).content_area == old(self).content_area,
    {
        self.nodes = fresh;
        self.scan_count = self.scan_count + 1;
        let mut line = String::from_str("last scan: ");
        let time = humantime_since_epoch();
        line.append(time.as_str());
        self.last_update = line;
    }

    /// The selected node as drawn: the selection clamped to the nodes.
    pub fn shown_selection(&self) -> (idx: usize)
        ensures
            idx == clamp_index(self.selected_idx, self.nodes@.len()),
    {
        let len = self.nodes.len();
        let last = if len > 0 { len - 1 } else { 0 };
        if self.selected_idx < last { self.selected_idx } else { last }
    }

    /// The node the camera zooms to, clamped to the nodes.
    pub fn zoom_target(&self) -> (idx: usize)
        ensures
            idx == clamp_index(self.target_idx, self.nodes@.len()),
    {
        let len = self.nodes.len();
        let last = if len > 0 { len - 1 } else { 0 };
        if self.target_idx < last { self.target_idx } else { last }
    }

    /// The names of the existing nodes linked to node `sel`, joined by
    /// `, `; `None` where no linked node exists.
    pub fn links_label(&self, sel: usize) -> (label: Option<String>)
        ensures
            ({
                let names = names_at(self.nodes@, linked_to(links(), sel));
                match label {
                    None => names.len() == 0,
                    Some(text) => names.len() > 0 && text@ == joined(names, ", "@),
                }
            }),
    {
        let idxs = neighbors_of(sel);
        let mut names: Vec<String> = Vec::new();
        let mut k: usize = 0;
        while k < idxs.len()
            invariant
                idxs@ == linked_to(links(), sel),
                k <= idxs.len(),
                names@.map_values(|s: String| s@) == names_at(self.nodes@, idxs@.take(k as int)),
            decreases idxs.len() - k,
        {
            let i = idxs[k];
            assert(idxs@.take(k + 1).drop_last() == idxs@.take(k as int));
            let ghost before = names@;
            if i < self.nodes.len() {
                names.push(self.nodes[i].name.clone());
                assert(names@.map_values(|s: String| s@) == before.map_values(|s: String| s@).push(
                    self.nodes@[i as int].name@,
                ));
            }
            k = k + 1;
        }
        assert(idxs@.take(idxs.len() as int) == idxs@);
        if names.len() == 0 {
            None
        } else {
            Some(join_texts(&names, ", "))
        }
    }

    /// The links to draw for the selected node `sel` (see
    /// `edge_plan_spec`).
    pub fn edge_plan(&self, sel: usize, highlight: bool) -> (plan: Vec<EdgeDraw>)
        ensures
            plan@ == edge_plan_spec(links(), self.nodes@.len(), sel, highlight),
    {
        let edges = edge_indices();
        let len = self.nodes.len();
        let mut plan: Vec<EdgeDraw> = Vec::new();
        let mut k: usize = 0;
        while k < edges.len()
            invariant
                edges@ == links(),
                len == self.nodes@.len(),
                k <= edges.len(),
                plan@ == edge_plan_spec(edges@.take(k as int), len as nat, sel, highlight),
            decreases edges.len() - k,
        {
            let (a, b) = edges[k];
            assert(edges@.take(k + 1).drop_last() == edges@.take(k as int));
            let touches = a == sel || b == sel;
            if a < len && b < len {
                plan.push(
                    EdgeDraw { from: a, to: b, emphasized: highlight && touches, labelled: touches || !highlight },
                );
            }
            k = k + 1;
        }
        assert(edges@.take(edges.len() as int) == edges@);
        plan
    }
}

/// The rectangle of the help box over `area` (see `help_area`).
pub fn help_overlay_area(area: Area) -> (r: Area)
    requires
        area.height >= 13,
        area.x + (area.width - (if area.width < 56 { area.width } else { 56u16 })) / 2 <= u16::MAX,
        area.y + (area.height - 13) / 2 <= u16::MAX,
    ensures
        r == help_area(area),
{
    let w = if area.width < 56 { area.width } else { 56 };
    let h: u16 = 13;
    Area { x: area.x + (area.width - w) / 2, y: area.y + (area.height - h) / 2, width: w, height: h }
}

/// The intro progress bar with `filled` of its 20 cells filled (see
/// `progress_text`).
pub fn progress_bar(filled: usize) -> (bar: String)
    ensures
        bar@ == progress_text(filled as nat),
{
    let rest: usize = if filled < 20 { 20 - filled } else { 0 };
    let mut bar = String::from_str("[");
    proof {
        reveal_strlit("[");
        reveal_strlit("]");
        reveal_strlit("■");
        reveal_strlit("·");
        assert("■"@ == seq!['■']);
        assert("·"@ == seq!['·']);
        assert("["@ == seq!['[']);
        assert("]"@ == seq![']']);
    }
    let mut i: usize = 0;
    while i < filled
        invariant
            i <= filled,
            "■"@ == seq!['■'],
            bar@ == seq!['['] + Seq::new(i as nat, |j: int| '■'),
        decreases filled - i,
    {
        bar.append("■");
        assert(seq!['['] + Seq::new((i + 1) as nat, |j: int| '■') == (seq!['['] + Seq::new(
            i as nat,
            |j: int| '■',
        )).push('■'));
        i = i + 1;
    }
    let mut k: usize = 0;
    while k < rest
        invariant
            k <= rest,
            "·"@ == seq!['·'],
            "]"@ == seq![']'],
            bar@ == seq!['['] + Seq::new(filled as nat, |j: int| '■') + Seq::new(
                k as nat,
                |j: int| '·',
            ),
        decreases rest - k,
    {
        bar.append("·");
        assert(seq!['['] + Seq::new(filled as nat, |j: int| '■') + Seq::new(
            (k + 1) as nat,
            |j: int| '·',
        ) == (seq!['['] + Seq::new(filled as nat, |j: int| '■') + Seq::new(
            k as nat,
            |j: int| '·',
        )).push('·'));
        k = k + 1;
    }
    bar.append("]");
    bar
}

} // verus!

verus! {

/// `n` presses of Enter from `c` with the nodes `nodes`.
pub open spec fn enter_n<F>(c: Controls, nodes: Seq<Node<F>>, n: nat) -> Controls
    decreases n,
{
    if n == 0 {
        c
    } else {
        key_step(enter_n(c, nodes, (n - 1) as nat), nodes, Key::Enter).0
    }
}

/// With the help closed, Right then Left (or Left then Right) gives back
/// the selected node, and neither moves the selection off the nodes.
pub proof fn lemma_left_undoes_right<F>(c: Controls, nodes: Seq<Node<F>>)
    requires
        !c.show_help,
        c.selected_idx < nodes.len(),
        nodes.len() <= usize::MAX,
    ensures
        key_step(key_step(c, nodes, Key::Right).0, nodes, Key::Left).0 == c,
        key_step(key_step(c, nodes, Key::Left).0, nodes, Key::Right).0 == c,
        key_step(c, nodes, Key::Right).0.selected_idx < nodes.len(),
        key_step(c, nodes, Key::Left).0.selected_idx < nodes.len(),
{
    let len = nodes.len();
    if c.selected_idx + 1 < len {
        lemma_small_mod((c.selected_idx + 1) as nat, len);
    } else {
        lemma_small_mod(0, len);
        assert((c.selected_idx + 1) % (len as int) == 0) by (nonlinear_arith)
            requires
                c.selected_idx + 1 == len,
                len > 0,
        ;
    }
    if c.selected_idx > 0 {
        lemma_small_mod(c.selected_idx as nat, len);
    } else {
        assert((len as int) % (len as int) == 0) by (nonlinear_arith)
            requires
                len > 0,
        ;
    }
}

/// Outside a search, toggling the help twice gives back the state it
/// started from.
pub proof fn lemma_help_toggle_twice<F>(c: Controls, nodes: Seq<Node<F>>)
    requires
        !c.searching,
    ensures
        key_step(key_step(c, nodes, Key::F1).0, nodes, Key::F1).0 == c,
        key_step(key_step(c, nodes, Key::Char('?')).0, nodes, Key::Char('?')).0 == c,
        key_step(c, nodes, Key::F1).1.running,
{
}

/// While the help is shown, no key changes the screen, the selection or
/// the camera target, starts a search, asks for a scan or quits: Enter and
/// `q`/Esc only close the help.
pub proof fn lemma_help_shields_keys<F>(c: Controls, nodes: Seq<Node<F>>, key: Key)
    requires
        c.show_help,
        !c.searching,
    ensures
        ({
            let (d, out) = key_step(c, nodes, key);
            &&& d.state == c.state
            &&& d.selected_idx == c.selected_idx
            &&& d.target_idx == c.target_idx
            &&& !d.searching
            &&& out.running
            &&& !out.rescan
            &&& out.zoom == ZoomAction::Keep
            &&& (key == Key::Enter || is_quit_key(key) ==> !d.show_help)
        }),
{
}

/// Only `q`/Esc, with the help closed and no search typed, stops the
/// dashboard.
pub proof fn lemma_only_quit_stops<F>(c: Controls, nodes: Seq<Node<F>>, key: Key)
    ensures
        !key_step(c, nodes, key).1.running <==> (is_quit_key(key) && !c.show_help && !c.searching),
{
}

/// Only `r`, with the help closed and no search typed, asks for a scan.
pub proof fn lemma_only_r_rescans<F>(c: Controls, nodes: Seq<Node<F>>, key: Key)
    ensures
        key_step(c, nodes, key).1.rescan <==> (key == Key::Char('r') && !c.show_help
            && !c.searching),
{
}

/// Starting a search with `/` and cancelling it with Esc gives back the
/// state it started from.
pub proof fn lemma_search_cancel<F>(c: Controls, nodes: Seq<Node<F>>)
    requires
        !c.show_help,
        !c.searching,
        c.query.len() == 0,
    ensures
        key_step(key_step(c, nodes, Key::Char('/')).0, nodes, Key::Esc).0 == c,
        key_step(c, nodes, Key::Char('/')).0.searching,
{
    assert(c.query == Seq::<char>::empty());
}

/// While a search is typed, a character followed by Backspace gives back
/// the search text; typed characters never change the screen or the
/// selection.
pub proof fn lemma_search_typing<F>(c: Controls, nodes: Seq<Node<F>>, ch: char)
    requires
        c.searching,
    ensures
        key_step(key_step(c, nodes, Key::Char(ch)).0, nodes, Key::Backspace).0 == c,
        key_step(c, nodes, Key::Char(ch)).0.query == c.query.push(ch),
        key_step(c, nodes, Key::Char(ch)).0.state == c.state,
        key_step(c, nodes, Key::Char(ch)).0.selected_idx == c.selected_idx,
        key_step(c, nodes, Key::Char(ch)).1.running,
{
    assert(c.query.push(ch).drop_last() == c.query);
}

/// Confirming a search that finds a node selects a node it finds; the
/// search ends either way.
pub proof fn lemma_search_confirm<F>(c: Controls, nodes: Seq<Node<F>>)
    requires
        c.searching,
        nodes.len() <= usize::MAX,
    ensures
        ({
            let d = key_step(c, nodes, Key::Enter).0;
            &&& !d.searching
            &&& d.query.len() == 0
            &&& d.state == c.state
            &&& match_indices(nodes, c.query).len() > 0 ==> d.selected_idx < nodes.len()
                && node_matches(nodes[d.selected_idx as int], c.query)
            &&& match_indices(nodes, c.query).len() == 0 ==> d.selected_idx == c.selected_idx
        }),
{
    lemma_match_indices_valid(nodes, c.query);
    if match_indices(nodes, c.query).len() > 0 {
        let i = match_indices(nodes, c.query)[0];
    }
}

/// A selected node that exists stays an existing node whatever key is
/// pressed or mouse event comes.
pub proof fn lemma_selection_in_range<F>(c: Controls, nodes: Seq<Node<F>>, area: Area, key: Key, p: Pointer)
    requires
        c.selected_idx < nodes.len(),
        nodes.len() <= usize::MAX,
    ensures
        key_step(c, nodes, key).0.selected_idx < nodes.len(),
        pointer_step(c, nodes, area, p).0.selected_idx < nodes.len(),
{
    lemma_match_indices_valid(nodes, c.query);
    if key == Key::Left || key == Key::Right {
        if !c.show_help {
            lemma_left_undoes_right(c, nodes);
        }
    }
    if c.searching && key == Key::Enter && match_indices(nodes, c.query).len() > 0 {
        let i = match_indices(nodes, c.query)[0];
    }
    match p {
        Pointer::LeftDown { column, row } => {
            if c.state == StateMachine::Detail && row >= area.y {
                let rel = row - area.y;
                let rows = shown_rows(c, nodes);
                if rel >= 2 && rel - 2 < rows.len() {
                    let k = rel - 2;
                    let i = rows[k as int];
                }
            }
        },
        _ => {},
    }
}

/// The mouse wheel zooms the graph and nothing else: on the graph,
/// scrolling up zooms in and down zooms out; on every other screen the
/// wheel does nothing; and it never changes the screen, the selection or
/// the search.
pub proof fn lemma_wheel_zooms_only_graph<F>(c: Controls, nodes: Seq<Node<F>>, area: Area)
    ensures
        pointer_step(c, nodes, area, Pointer::ScrollUp).0 == c,
        pointer_step(c, nodes, area, Pointer::ScrollDown).0 == c,
        c.state != StateMachine::Graph ==> pointer_step(c, nodes, area, Pointer::ScrollUp).1
            == PointerOutcome::Done && pointer_step(c, nodes, area, Pointer::ScrollDown).1
            == PointerOutcome::Done,
        c.state == StateMachine::Graph ==> pointer_step(c, nodes, area, Pointer::ScrollUp).1
            == PointerOutcome::ZoomIn && pointer_step(c, nodes, area, Pointer::ScrollDown).1
            == PointerOutcome::ZoomOut,
        pointer_step(c, nodes, area, Pointer::Other) == (c, PointerOutcome::Done),
{
}

/// Only a left click on the graph screen asks for the nearest node to be
/// picked; only the wheel on the graph screen zooms.
pub proof fn lemma_pointer_outcomes<F>(c: Controls, nodes: Seq<Node<F>>, area: Area, p: Pointer)
    ensures
        pointer_step(c, nodes, area, p).1 == PointerOutcome::PickNearest ==> c.state
            == StateMachine::Graph && nodes.len() > 0 && !c.show_help && p is LeftDown,
        pointer_step(c, nodes, area, p).1 == PointerOutcome::ZoomIn ==> c.state == StateMachine::Graph
            && p == Pointer::ScrollUp,
        pointer_step(c, nodes, area, p).1 == PointerOutcome::ZoomOut ==> c.state
            == StateMachine::Graph && p == Pointer::ScrollDown,
{
}

/// Leaving the graph moves the camera target to an index below the node
/// count (to 0 where there are no nodes).
pub proof fn lemma_target_in_range(c: Controls, len: nat)
    requires
        c.state == StateMachine::Graph,
    ensures
        advance_step(c, len).0.target_idx < (if len == 0 { 1 } else { len }),
        advance_step(c, len).0.state == StateMachine::AnimatingZoom,
{
}

/// Five presses of Enter with the help closed and no search typed come
/// back to the screen they started from, the help still closed.
pub proof fn lemma_five_enters_cycle<F>(c: Controls, nodes: Seq<Node<F>>)
    requires
        !c.show_help,
        !c.searching,
    ensures
        enter_n(c, nodes, 5).state == c.state,
        !enter_n(c, nodes, 5).show_help,
        enter_n(c, nodes, 5).selected_idx == c.selected_idx,
{
    reveal_with_fuel(enter_n, 6);
}

/// The drawn selection is an index below the node count (0 where there
/// are none), and it is the selection itself where that exists.
pub proof fn lemma_shown_selection(idx: usize, len: nat)
    requires
        len <= usize::MAX,
    ensures
        clamp_index(idx, len) < (if len == 0 { 1 } else { len }),
        idx < len ==> clamp_index(idx, len) == idx,
{
}

} // verus!
