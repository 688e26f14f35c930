# lan_tui

A terminal dashboard that draws the hosts of a local network as a graph,
with per-host latency, a screen cycle (Splash, AnimatingIntro, Graph,
AnimatingZoom, Detail) and keyboard and mouse control.

- `src/` is the verified library: the screen-state machine (`state`), the
  link table (`graph`), hosts and their latency history (`node`), the
  `/proc/net/arp` reader (`arp`), the scan rounds and the /24 sweep
  (`scan`), the node search (`search`), the clock label (`clock`), decimal
  text and parsing helpers (`text`), and the input handling and drawing
  decisions of the dashboard (`dashboard`). Latencies
  and positions are a type parameter of `Node`, so the library holds no
  floating-point arithmetic.
- `app/` is the program around it: configuration file, reading the ARP
  table, TCP probing, the scanner threads, the camera and animation
  arithmetic, and rendering with ratatui and crossterm.
- `tests/` exercises the library on concrete values.
