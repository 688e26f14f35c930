//! Core logic of a terminal dashboard that shows the hosts of a local
//! network as a graph: the screen-state machine, the link table, the
//! per-host latency record, the ARP-table reader, the scan rounds and
//! subnet sweep, the node search, the clock label and the input handling
//! of the dashboard.
pub mod text;
pub mod state;
pub mod graph;
pub mod node;
pub mod arp;
pub mod scan;
pub mod clock;
pub mod search;
pub mod dashboard;
