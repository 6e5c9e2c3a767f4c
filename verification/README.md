# node_dashboard

A framebuffer dashboard for a Bitcoin node on a rotated 600x1280 RGB565
panel. The library in `src/` is verified with Verus; the program in `app/`
opens and maps the framebuffer, reads `/proc`, talks to the node over
loopback JSON-RPC and redraws every three seconds.

Library modules:

- `text`: the character-level text model (lines, words, trimming, decimal
  numbers) that the parsers and formats are stated over.
- `procinfo`: reading `/proc/meminfo`, `/proc/<pid>/status`, `/proc/mounts`
  and `/proc/loadavg` reports.
- `rpc`: the HTTP request for a JSON-RPC call, base64 (and its decoding) for basic
  authentication, the reply body, and scalars read out of a JSON reply.
- `status`: the machine's and the node's state, the polling schedules, and the
  steps of one poll of the node (which read-only query comes next, and the
  state it ends with).
- `metrics`: bounded percentage histories for the live charts.
- `format`: uptime and byte-size texts.
- `screen`: the canvas, pixel packing and the rotation onto the panel.
- `font`, `glyphs`: the 5x7 font and drawing text.
- `paint`, `widgets`, `dashboard`: what each drawing call paints, the
  widgets, and the whole frame as a sequence of paints.

Floating-point values (uptime, load, verification progress, fee rate) are
parsed and formatted in `app/`; the library carries their text.
