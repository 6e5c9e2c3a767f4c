//! The dashboard's frame: what is drawn where, for a snapshot of the machine
//! and the node and the recent history of their metrics.
use vstd::prelude::*;
use crate::format::{fit, format_size, format_uptime, size_text, uptime_text};
use crate::metrics::{percent, percent_of, MetricHistory, HISTORY_SAMPLES};
use crate::paint::{apply_paints, lemma_apply_paints_concat, lemma_apply_push, Paint};
use crate::screen::{min, Color, Framebuffer, LOGICAL_HEIGHT, LOGICAL_WIDTH};
use crate::status::{Machine, Mempool, Node, Snapshot};
use crate::text::{chars_of, decimal, push_decimal, push_str};
use crate::widgets::{
    amber, black, blue, cyan, draw_history, draw_meter, draw_panel, green, history_count, history_fits,
    history_paints, max, meter_paints, muted, painted_from, panel_alt, panel_paints, red,
    sat_sub, white,
};

verus! {

/// The size of a font pixel: 2 on a canvas of at least 600 x 400.
pub open spec fn render_scale() -> int {
    if LOGICAL_WIDTH >= 600 && LOGICAL_HEIGHT >= 400 {
        2
    } else {
        1
    }
}

/// The node's state as one word.
pub open spec fn status_text(n: Node) -> Seq<char> {
    if n.rpc_ok {
        "ONLINE"@
    } else if n.process_alive {
        "RUNNING"@
    } else {
        "STARTING"@
    }
}

/// The colour of the node's state word.
pub open spec fn status_color(n: Node) -> Color {
    if n.rpc_ok {
        green()
    } else if n.process_alive {
        amber()
    } else {
        red()
    }
}

/// Red without the data disk, amber when little memory is left, else green.
pub open spec fn machine_color(m: Machine) -> Color {
    if !m.disk_mounted {
        red()
    } else if m.mem_available < 16 {
        amber()
    } else {
        green()
    }
}

/// Red without a node process, amber while it is not ready or syncing, else green.
pub open spec fn node_color(n: Node) -> Color {
    if !n.rpc_ok {
        if n.process_alive {
            amber()
        } else {
            red()
        }
    } else if n.ibd || n.headers > n.blocks {
        amber()
    } else {
        green()
    }
}

/// At most the first `n` characters of `t`.
pub open spec fn fit_text(t: Seq<char>, n: int) -> Seq<char> {
    t.take(
        if t.len() < n {
            t.len() as int
        } else {
            n
        },
    )
}

/// A line of text at (`x`, `y`) in the dashboard's font size.
pub open spec fn line_at(x: int, y: int, text: Seq<char>, color: Color) -> Paint {
    Paint::Text { x: x as usize, y: y as usize, text, scale: render_scale() as usize, color }
}

/// The header: a black frame, the title bar with its title, and the node's
/// state word with a marker, right-aligned.
pub open spec fn header_paints(n: Node) -> Seq<Paint> {
    let scale = render_scale();
    let margin = 5 * scale;
    let header_h = 18 * scale;
    let status = status_text(n);
    let status_x = sat_sub(LOGICAL_WIDTH, ((status.len() * 6 + 7) * scale) as usize) as int;
    seq![
        Paint::Fill { color: black() },
        Paint::Rect {
            x: 0,
            y: 0,
            w: LOGICAL_WIDTH,
            h: header_h as usize,
            color: panel_alt(),
        },
        line_at(margin, 5 * scale, "BITCOIN NODE"@, white()),
        Paint::Rect {
            x: sat_sub(status_x as usize, (3 * scale) as usize),
            y: (4 * scale) as usize,
            w: (4 * scale) as usize,
            h: (9 * scale) as usize,
            color: status_color(n),
        },
        line_at(status_x + 4 * scale, 5 * scale, status, status_color(n)),
    ]
}

/// Where the body panels start.
pub open spec fn body_y() -> int {
    18 * render_scale() + 5 * render_scale()
}

/// The width of each body panel.
pub open spec fn panel_w() -> int {
    (sat_sub(LOGICAL_WIDTH, (5 * render_scale() * 2 + 5 * render_scale()) as usize) / 2) as int
}

/// The machine panel's lines.
pub open spec fn machine_paints(m: Machine, bpp: u32) -> Seq<Paint> {
    let scale = render_scale();
    let line = 9 * scale;
    let x = 5 * scale + 4 * scale;
    let y = body_y() + 17 * scale;
    let color = machine_color(m);
    panel_paints(
        (5 * scale) as usize,
        body_y() as usize,
        panel_w() as usize,
        (74 * scale) as usize,
        "MACHINE"@,
        scale as usize,
    ) + seq![
        line_at(x, y, "UP "@ + uptime_text(m.uptime_seconds as nat), white()),
        line_at(x, y + line, "LOAD "@ + fit_text(m.load@, 18), muted()),
        line_at(
            x,
            y + 2 * line,
            "RAM "@ + decimal(m.mem_available as nat) + " / "@ + decimal(m.mem_total as nat)
                + "M"@,
            color,
        ),
        line_at(
            x,
            y + 3 * line,
            "SWAP "@ + decimal(m.swap_used as nat) + " / "@ + decimal(m.swap_total as nat) + "M"@,
            if m.swap_used > 384 {
                amber()
            } else {
                muted()
            },
        ),
        line_at(
            x,
            y + 4 * line,
            if m.disk_mounted {
                "SSD MOUNTED"@
            } else {
                "SSD MISSING"@
            },
            color,
        ),
        line_at(
            x,
            y + 5 * line,
            "FB "@ + decimal(LOGICAL_WIDTH as nat) + "x"@ + decimal(LOGICAL_HEIGHT as nat) + " "@
                + decimal(bpp as nat) + "b"@,
            muted(),
        ),
    ]
}

/// The node panel's lines; `sync` is the verification progress in percent
/// as the caller formatted it.
pub open spec fn node_paints(n: Node, sync: Seq<char>) -> Seq<Paint> {
    let scale = render_scale();
    let line = 9 * scale;
    let right_x = 5 * scale + panel_w() + 5 * scale;
    let x = right_x + 4 * scale;
    let y = body_y() + 17 * scale;
    let color = node_color(n);
    panel_paints(
        right_x as usize,
        body_y() as usize,
        panel_w() as usize,
        (74 * scale) as usize,
        "NODE"@,
        scale as usize,
    ) + seq![
        line_at(
            x,
            y,
            "CORE v31.0.0  RAM "@ + decimal((n.resident_kib / 1024) as nat) + "M"@,
            white(),
        ),
        line_at(
            x,
            y + line,
            if n.rpc_ok {
                "RPC READY"@
            } else {
                "RPC WAITING"@
            },
            color,
        ),
        line_at(
            x,
            y + 2 * line,
            if n.rpc_ok {
                "CHAIN "@ + decimal(n.blocks as nat) + " / "@ + decimal(n.headers as nat)
            } else {
                "CHAIN WAITING"@
            },
            color,
        ),
        line_at(
            x,
            y + 3 * line,
            if n.rpc_ok {
                "SYNC "@ + sync + "%"@
            } else {
                "SYNC WAITING"@
            },
            if n.ibd {
                amber()
            } else {
                green()
            },
        ),
        line_at(
            x,
            y + 4 * line,
            "PEERS "@ + decimal(n.connections as nat) + " "@ + (if n.network_active {
                "NET"@
            } else {
                "OFF"@
            }),
            muted(),
        ),
        line_at(
            x,
            y + 5 * line,
            (if n.pruned {
                "PRUNED"@
            } else {
                "ARCHIVAL"@
            }) + " "@ + size_text(n.disk_bytes as nat),
            if n.pruned {
                red()
            } else {
                green()
            },
        ),
    ]
}

/// Where the lower panels start.
pub open spec fn help_y() -> int {
    body_y() + 74 * render_scale() + 5 * render_scale()
}

/// The width of the metrics panel.
pub open spec fn history_w() -> int {
    (sat_sub(LOGICAL_WIDTH, (5 * render_scale() * 2) as usize) * 3) / 5
}

/// The height of the lower panels.
pub open spec fn help_h() -> int {
    sat_sub(LOGICAL_HEIGHT, (help_y() + 16 * render_scale() + 5 * render_scale()) as usize) as int
}

/// Where the mempool panel starts.
pub open spec fn transaction_x() -> int {
    5 * render_scale() + history_w() + 5 * render_scale()
}

/// The width of the mempool panel.
pub open spec fn transaction_w() -> int {
    sat_sub(
        sat_sub(LOGICAL_WIDTH, (5 * render_scale() * 2) as usize),
        (history_w() + 5 * render_scale()) as usize,
    ) as int
}

/// One chart of the metrics panel: its label and its bar history.
pub open spec fn chart_paints(k: int, label: Seq<char>, samples: Seq<u8>, color: Color) -> Seq<Paint> {
    let scale = render_scale();
    let x = 5 * scale + 4 * scale;
    let y = help_y() + 17 * scale + k * (23 * scale);
    seq![line_at(x, y, label, color)] + history_paints(
        x as usize,
        (y + 9 * scale) as usize,
        sat_sub(history_w() as usize, (8 * scale) as usize),
        (12 * scale) as usize,
        samples,
        color,
    )
}

/// The share of memory in use.
pub open spec fn memory_percent(m: Machine) -> nat {
    percent_of(
        (if m.mem_total > m.mem_available {
            m.mem_total - m.mem_available
        } else {
            0
        }) as nat,
        m.mem_total as nat,
    )
}

/// The metrics panel, the empty mempool panel, and the three charts.
pub open spec fn charts_paints(m: Machine, h: MetricHistory) -> Seq<Paint> {
    let scale = render_scale();
    panel_paints(
        (5 * scale) as usize,
        help_y() as usize,
        history_w() as usize,
        help_h() as usize,
        "LIVE METRICS"@,
        scale as usize,
    ) + panel_paints(
        transaction_x() as usize,
        help_y() as usize,
        transaction_w() as usize,
        help_h() as usize,
        "MEMPOOL"@,
        scale as usize,
    ) + chart_paints(0, "LOAD1 "@ + fit_text(m.load@, 18), h.load@, cyan()) + chart_paints(
        1,
        "MEM "@ + decimal(memory_percent(m)) + "%"@,
        h.memory@,
        green(),
    ) + chart_paints(
        2,
        "SWAP "@ + decimal(percent_of(m.swap_used as nat, m.swap_total as nat)) + "%"@,
        h.swap@,
        amber(),
    ) + seq![
        line_at(
            5 * scale + 4 * scale,
            help_y() + 17 * scale + 3 * (23 * scale),
            "3s SAMPLES   2s NODE RPC"@,
            muted(),
        ),
    ]
}

/// The mempool panel's statistics; `fee` is the minimum fee rate in sat/vB
/// as the caller formatted it.
pub open spec fn mempool_stats_paints(mp: Mempool, fee: Seq<char>) -> Seq<Paint> {
    let scale = render_scale();
    let x = transaction_x() + 4 * scale;
    let y = help_y();
    if mp.available {
        seq![
            line_at(
                x,
                y + 17 * scale,
                "TXS "@ + decimal(mp.entries as nat) + "  BYTES "@ + size_text(mp.bytes as nat),
                white(),
            ),
            line_at(
                x,
                y + 26 * scale,
                "USAGE "@ + size_text(mp.usage as nat) + " / "@ + size_text(mp.limit as nat),
                cyan(),
            ),
        ] + meter_paints(
            x as usize,
            (y + 35 * scale) as usize,
            sat_sub(transaction_w() as usize, (8 * scale) as usize),
            (5 * scale) as usize,
            percent_of(mp.usage as nat, mp.limit as nat) as u8,
            cyan(),
        ) + seq![
            line_at(x, y + 45 * scale, "MIN FEE "@ + fee + " SAT/VB"@, amber()),
            line_at(x, y + 54 * scale, "UNBROADCAST "@ + decimal(mp.unbroadcast as nat), muted()),
        ]
    } else {
        seq![
            line_at(x, y + 17 * scale, "MEMPOOL WAITING"@, amber()),
            line_at(x, y + 26 * scale, "CORE RPC UNAVAILABLE"@, muted()),
            line_at(x, y + 35 * scale, "RETRY AT NEXT 2S POLL"@, muted()),
        ]
    }
}

/// How a raw transaction is submitted to the node (the dashboard itself
/// submits none).
pub const RAW_TX_REMINDER: &'static str = "SUBMIT RAW TX: SENDRAWTRANSACTION";

/// The mempool panel's content: its statistics, then the raw-transaction
/// reminder.
pub open spec fn mempool_paints(mp: Mempool, fee: Seq<char>) -> Seq<Paint> {
    let scale = render_scale();
    let x = transaction_x() + 4 * scale;
    mempool_stats_paints(mp, fee) + seq![
        line_at(x, help_y() + 63 * scale, RAW_TX_REMINDER@, muted()),
    ]
}

/// The footer: an accent line and the controls.
pub open spec fn footer_paints() -> Seq<Paint> {
    let scale = render_scale();
    let footer_y = sat_sub(LOGICAL_HEIGHT, (10 * scale) as usize);
    seq![
        Paint::Rect {
            x: 0,
            y: sat_sub(footer_y, (2 * scale) as usize),
            w: LOGICAL_WIDTH,
            h: (2 * scale) as usize,
            color: blue(),
        },
        line_at(
            5 * scale,
            footer_y as int,
            "DIRECT FBDEV  3s DRAW  2s RPC  SIGTERM TO EXIT"@,
            muted(),
        ),
    ]
}

/// The whole frame, in drawing order.
pub open spec fn render_paints(
    s: Snapshot,
    h: MetricHistory,
    bpp: u32,
    sync: Seq<char>,
    fee: Seq<char>,
) -> Seq<Paint> {
    header_paints(s.node) + machine_paints(s.machine, bpp) + node_paints(s.node, sync)
        + charts_paints(s.machine, h) + mempool_paints(s.node.mempool, fee) + footer_paints()
}

/// For an answering node, the frame shows the node's block height and then
/// its header count as the third line of the node panel: the text
/// `CHAIN <blocks> / <headers>` at (653, 116) in the panel's line colour.
pub proof fn lemma_chain_line(
    s: Snapshot,
    h: MetricHistory,
    bpp: u32,
    sync: Seq<char>,
    fee: Seq<char>,
)
    requires
        s.node.rpc_ok,
    ensures
        (exists|k: int|
            0 <= k < render_paints(s, h, bpp, sync, fee).len() && #[trigger] render_paints(
                s,
                h,
                bpp,
                sync,
                fee,
            )[k] == (Paint::Text {
                x: 653,
                y: 116,
                text: "CHAIN "@ + decimal(s.node.blocks as nat) + " / "@ + decimal(
                    s.node.headers as nat,
                ),
                scale: 2,
                color: if s.node.ibd || s.node.headers > s.node.blocks {
                    amber()
                } else {
                    green()
                },
            })),
{
    let a = header_paints(s.node);
    let b = machine_paints(s.machine, bpp);
    let n = node_paints(s.node, sync);
    let p = panel_paints(645, 46, 625, 148, "NODE"@, 2);
    assert(panel_w() == 625);
    let j: int = p.len() as int + 2;
    assert(n[j] == line_at(
        653,
        116,
        "CHAIN "@ + decimal(s.node.blocks as nat) + " / "@ + decimal(s.node.headers as nat),
        node_color(s.node),
    ));
    let all = render_paints(s, h, bpp, sync, fee);
    assert(all == a + b + n + charts_paints(s.machine, h) + mempool_paints(s.node.mempool, fee)
        + footer_paints());
    let k: int = a.len() as int + b.len() as int + j;
    assert((a + b + n)[k] == n[j]);
    assert(all[k] == (a + b + n)[k]);
}

// ---------------------------------------------------------------------------
// Drawing steps that keep track of the paint operations done so far
// ---------------------------------------------------------------------------
fn rect_at(
    fb: &mut Framebuffer,
    x: usize,
    y: usize,
    w: usize,
    h: usize,
    color: Color,
    Ghost(c0): Ghost<Seq<u16>>,
    Ghost(ops): Ghost<Seq<Paint>>,
) -> (r: Ghost<Seq<Paint>>)
    requires
        painted_from(*old(fb), old(fb).format(), c0, ops),
    ensures
        final(fb).same_format(old(fb)),
        final(fb).row == old(fb).row,
        painted_from(*final(fb), old(fb).format(), c0, r@),
        r@ == ops.push(Paint::Rect { x, y, w, h, color }),
{
    fb.paint_rect(x, y, w, h, color);
    proof {
        lemma_apply_push(old(fb).format(), c0, ops, Paint::Rect { x, y, w, h, color });
    }
    Ghost(ops.push(Paint::Rect { x, y, w, h, color }))
}

fn line(
    fb: &mut Framebuffer,
    x: usize,
    y: usize,
    text: &str,
    color: Color,
    scale: usize,
    Ghost(c0): Ghost<Seq<u16>>,
    Ghost(ops): Ghost<Seq<Paint>>,
) -> (r: Ghost<Seq<Paint>>)
    requires
        painted_from(*old(fb), old(fb).format(), c0, ops),
        scale == render_scale(),
    ensures
        final(fb).same_format(old(fb)),
        final(fb).row == old(fb).row,
        painted_from(*final(fb), old(fb).format(), c0, r@),
        r@ == ops.push(line_at(x as int, y as int, text@, color)),
{
    fb.paint_text(x, y, text, scale, color);
    proof {
        lemma_apply_push(old(fb).format(), c0, ops, line_at(x as int, y as int, text@, color));
    }
    Ghost(ops.push(line_at(x as int, y as int, text@, color)))
}

fn panel(
    fb: &mut Framebuffer,
    x: usize,
    y: usize,
    w: usize,
    h: usize,
    title: &str,
    scale: usize,
    Ghost(c0): Ghost<Seq<u16>>,
    Ghost(ops): Ghost<Seq<Paint>>,
) -> (r: Ghost<Seq<Paint>>)
    requires
        painted_from(*old(fb), old(fb).format(), c0, ops),
        scale == render_scale(),
        x + 8 <= usize::MAX,
        y + 8 <= usize::MAX,
    ensures
        final(fb).same_format(old(fb)),
        final(fb).row == old(fb).row,
        painted_from(*final(fb), old(fb).format(), c0, r@),
        r@ == ops + panel_paints(x, y, w, h, title@, scale),
{
    draw_panel(fb, x, y, w, h, title, scale);
    proof {
        lemma_apply_paints_concat(
            old(fb).format(),
            c0,
            ops,
            panel_paints(x, y, w, h, title@, scale),
        );
    }
    Ghost(ops + panel_paints(x, y, w, h, title@, scale))
}

fn fill_black(
    fb: &mut Framebuffer,
    Ghost(c0): Ghost<Seq<u16>>,
    Ghost(ops): Ghost<Seq<Paint>>,
) -> (r: Ghost<Seq<Paint>>)
    requires
        painted_from(*old(fb), old(fb).format(), c0, ops),
    ensures
        final(fb).same_format(old(fb)),
        final(fb).row == old(fb).row,
        painted_from(*final(fb), old(fb).format(), c0, r@),
        r@ == ops.push(Paint::Fill { color: black() }),
{
    fb.paint_fill(black());
    proof {
        lemma_apply_push(old(fb).format(), c0, ops, Paint::Fill { color: black() });
    }
    Ghost(ops.push(Paint::Fill { color: black() }))
}

fn history(
    fb: &mut Framebuffer,
    x: usize,
    y: usize,
    w: usize,
    h: usize,
    samples: &[u8],
    color: Color,
    Ghost(c0): Ghost<Seq<u16>>,
    Ghost(ops): Ghost<Seq<Paint>>,
) -> (r: Ghost<Seq<Paint>>)
    requires
        painted_from(*old(fb), old(fb).format(), c0, ops),
        history_fits(x, y, w, h, samples@),
    ensures
        final(fb).same_format(old(fb)),
        final(fb).row == old(fb).row,
        painted_from(*final(fb), old(fb).format(), c0, r@),
        r@ == ops + history_paints(x, y, w, h, samples@, color),
{
    draw_history(fb, x, y, w, h, samples, color);
    proof {
        lemma_apply_paints_concat(
            old(fb).format(),
            c0,
            ops,
            history_paints(x, y, w, h, samples@, color),
        );
    }
    Ghost(ops + history_paints(x, y, w, h, samples@, color))
}

fn meter(
    fb: &mut Framebuffer,
    x: usize,
    y: usize,
    w: usize,
    h: usize,
    value: u8,
    color: Color,
    Ghost(c0): Ghost<Seq<u16>>,
    Ghost(ops): Ghost<Seq<Paint>>,
) -> (r: Ghost<Seq<Paint>>)
    requires
        painted_from(*old(fb), old(fb).format(), c0, ops),
    ensures
        final(fb).same_format(old(fb)),
        final(fb).row == old(fb).row,
        painted_from(*final(fb), old(fb).format(), c0, r@),
        r@ == ops + meter_paints(x, y, w, h, value, color),
{
    draw_meter(fb, x, y, w, h, value, color);
    proof {
        lemma_apply_paints_concat(old(fb).format(), c0, ops, meter_paints(x, y, w, h, value, color));
    }
    Ghost(ops + meter_paints(x, y, w, h, value, color))
}

// ---------------------------------------------------------------------------
// The sections of the frame
// ---------------------------------------------------------------------------
fn status_label(n: &Node) -> (s: &'static str)
    ensures
        s@ == status_text(*n),
{
    if n.rpc_ok {
        "ONLINE"
    } else if n.process_alive {
        "RUNNING"
    } else {
        "STARTING"
    }
}

fn status_paint_color(n: &Node) -> (c: Color)
    ensures
        c == status_color(*n),
{
    if n.rpc_ok {
        green()
    } else if n.process_alive {
        amber()
    } else {
        red()
    }
}

fn draw_header(
    fb: &mut Framebuffer,
    n: &Node,
    scale: usize,
    Ghost(c0): Ghost<Seq<u16>>,
    Ghost(ops): Ghost<Seq<Paint>>,
) -> (r: Ghost<Seq<Paint>>)
    requires
        painted_from(*old(fb), old(fb).format(), c0, ops),
        scale == render_scale(),
    ensures
        final(fb).same_format(old(fb)),
        final(fb).row == old(fb).row,
        painted_from(*final(fb), old(fb).format(), c0, r@),
        r@ == ops + header_paints(*n),
{
    let margin = 5 * scale;
    let header_h = 18 * scale;
    let g = fill_black(fb, Ghost(c0), Ghost(ops));
    let g = rect_at(fb, 0, 0, fb.width, header_h, panel_alt(), Ghost(c0), g);
    let g = line(fb, margin, 5 * scale, "BITCOIN NODE", white(), scale, Ghost(c0), g);
    let status = status_label(n);
    let color = status_paint_color(n);
    proof {
        reveal_strlit("ONLINE");
        reveal_strlit("RUNNING");
        reveal_strlit("STARTING");
    }
    let status_len = chars_of(status).len();
    let status_x = fb.width.saturating_sub((status_len * 6 + 7) * scale);
    let g = rect_at(
        fb,
        status_x.saturating_sub(3 * scale),
        4 * scale,
        4 * scale,
        9 * scale,
        color,
        Ghost(c0),
        g,
    );
    let g = line(fb, status_x + 4 * scale, 5 * scale, status, color, scale, Ghost(c0), g);
    assert(g@ =~= ops + header_paints(*n));
    g
}

fn machine_line_color(m: &Machine) -> (c: Color)
    ensures
        c == machine_color(*m),
{
    if !m.disk_mounted {
        red()
    } else if m.mem_available < 16 {
        amber()
    } else {
        green()
    }
}

fn draw_machine(
    fb: &mut Framebuffer,
    m: &Machine,
    bpp: u32,
    scale: usize,
    Ghost(c0): Ghost<Seq<u16>>,
    Ghost(ops): Ghost<Seq<Paint>>,
) -> (r: Ghost<Seq<Paint>>)
    requires
        painted_from(*old(fb), old(fb).format(), c0, ops),
        scale == render_scale(),
    ensures
        final(fb).same_format(old(fb)),
        final(fb).row == old(fb).row,
        painted_from(*final(fb), old(fb).format(), c0, r@),
        r@ == ops + machine_paints(*m, bpp),
{
    let margin = 5 * scale;
    let line_h = 9 * scale;
    let body_y = 18 * scale + margin;
    let panel_w = fb.width.saturating_sub(margin * 2 + margin) / 2;
    let g = panel(fb, margin, body_y, panel_w, 74 * scale, "MACHINE", scale, Ghost(c0), Ghost(ops));
    let color = machine_line_color(m);
    let text_x = margin + 4 * scale;
    let mut y = body_y + 17 * scale;

    let mut t = String::new();
    push_str(&mut t, "UP ");
    let up = format_uptime(m.uptime_seconds);
    push_str(&mut t, up.as_str());
    let g = line(fb, text_x, y, t.as_str(), white(), scale, Ghost(c0), g);
    y = y + line_h;

    let mut t = String::new();
    push_str(&mut t, "LOAD ");
    let load = fit(m.load.as_str(), 18);
    push_str(&mut t, load.as_str());
    let g = line(fb, text_x, y, t.as_str(), muted(), scale, Ghost(c0), g);
    y = y + line_h;

    let mut t = String::new();
    push_str(&mut t, "RAM ");
    push_decimal(&mut t, m.mem_available);
    push_str(&mut t, " / ");
    push_decimal(&mut t, m.mem_total);
    push_str(&mut t, "M");
    let g = line(fb, text_x, y, t.as_str(), color, scale, Ghost(c0), g);
    y = y + line_h;

    let mut t = String::new();
    push_str(&mut t, "SWAP ");
    push_decimal(&mut t, m.swap_used);
    push_str(&mut t, " / ");
    push_decimal(&mut t, m.swap_total);
    push_str(&mut t, "M");
    let swap_color = if m.swap_used > 384 {
        amber()
    } else {
        muted()
    };
    let g = line(fb, text_x, y, t.as_str(), swap_color, scale, Ghost(c0), g);
    y = y + line_h;

    let disk = if m.disk_mounted {
        "SSD MOUNTED"
    } else {
        "SSD MISSING"
    };
    let g = line(fb, text_x, y, disk, color, scale, Ghost(c0), g);
    y = y + line_h;

    let mut t = String::new();
    push_str(&mut t, "FB ");
    push_decimal(&mut t, fb.width as u64);
    push_str(&mut t, "x");
    push_decimal(&mut t, fb.height as u64);
    push_str(&mut t, " ");
    push_decimal(&mut t, bpp as u64);
    push_str(&mut t, "b");
    let g = line(fb, text_x, y, t.as_str(), muted(), scale, Ghost(c0), g);
    assert(g@ =~= ops + machine_paints(*m, bpp));
    g
}

fn node_line_color(n: &Node) -> (c: Color)
    ensures
        c == node_color(*n),
{
    if !n.rpc_ok {
        if n.process_alive {
            amber()
        } else {
            red()
        }
    } else if n.ibd || n.headers > n.blocks {
        amber()
    } else {
        green()
    }
}

fn draw_node(
    fb: &mut Framebuffer,
    n: &Node,
    sync: &str,
    scale: usize,
    Ghost(c0): Ghost<Seq<u16>>,
    Ghost(ops): Ghost<Seq<Paint>>,
) -> (r: Ghost<Seq<Paint>>)
    requires
        painted_from(*old(fb), old(fb).format(), c0, ops),
        scale == render_scale(),
    ensures
        final(fb).same_format(old(fb)),
        final(fb).row == old(fb).row,
        painted_from(*final(fb), old(fb).format(), c0, r@),
        r@ == ops + node_paints(*n, sync@),
{
    let margin = 5 * scale;
    let line_h = 9 * scale;
    let body_y = 18 * scale + margin;
    let panel_w = fb.width.saturating_sub(margin * 2 + margin) / 2;
    let right_x = margin + panel_w + margin;
    let g = panel(fb, right_x, body_y, panel_w, 74 * scale, "NODE", scale, Ghost(c0), Ghost(ops));
    let color = node_line_color(n);
    let text_x = right_x + 4 * scale;
    let mut y = body_y + 17 * scale;

    let mut t = String::new();
    push_str(&mut t, "CORE v31.0.0  RAM ");
    push_decimal(&mut t, n.resident_kib / 1024);
    push_str(&mut t, "M");
    let g = line(fb, text_x, y, t.as_str(), white(), scale, Ghost(c0), g);
    y = y + line_h;

    let rpc = if n.rpc_ok {
        "RPC READY"
    } else {
        "RPC WAITING"
    };
    let g = line(fb, text_x, y, rpc, color, scale, Ghost(c0), g);
    y = y + line_h;

    let mut t = String::new();
    if n.rpc_ok {
        push_str(&mut t, "CHAIN ");
        push_decimal(&mut t, n.blocks);
        push_str(&mut t, " / ");
        push_decimal(&mut t, n.headers);
    } else {
        push_str(&mut t, "CHAIN WAITING");
    }
    let g = line(fb, text_x, y, t.as_str(), color, scale, Ghost(c0), g);
    y = y + line_h;

    let mut t = String::new();
    if n.rpc_ok {
        push_str(&mut t, "SYNC ");
        push_str(&mut t, sync);
        push_str(&mut t, "%");
    } else {
        push_str(&mut t, "SYNC WAITING");
    }
    let sync_color = if n.ibd {
        amber()
    } else {
        green()
    };
    let g = line(fb, text_x, y, t.as_str(), sync_color, scale, Ghost(c0), g);
    y = y + line_h;

    let mut t = String::new();
    push_str(&mut t, "PEERS ");
    push_decimal(&mut t, n.connections);
    push_str(&mut t, " ");
    push_str(
        &mut t,
        if n.network_active {
            "NET"
        } else {
            "OFF"
        },
    );
    let g = line(fb, text_x, y, t.as_str(), muted(), scale, Ghost(c0), g);
    y = y + line_h;

    let mut t = String::new();
    push_str(
        &mut t,
        if n.pruned {
            "PRUNED"
        } else {
            "ARCHIVAL"
        },
    );
    push_str(&mut t, " ");
    let size = format_size(n.disk_bytes);
    push_str(&mut t, size.as_str());
    let disk_color = if n.pruned {
        red()
    } else {
        green()
    };
    let g = line(fb, text_x, y, t.as_str(), disk_color, scale, Ghost(c0), g);
    assert(g@ =~= ops + node_paints(*n, sync@));
    g
}

/// A history of small coordinates, drawn well below the top of the canvas, fits.
proof fn lemma_history_fits(x: usize, y: usize, w: usize, h: usize, samples: Seq<u8>)
    requires
        x + w <= 10000,
        y + h <= 10000,
        2 * h <= y,
    ensures
        history_fits(x, y, w, h, samples),
{
    let slots = min(HISTORY_SAMPLES, w) as int;
    let count = history_count(samples, w);
    let start = samples.len() - count;
    let column_width = max(w / (slots as usize), 1) as int;
    let first_slot = slots - count;
    if samples.len() > 0 && w > 0 && h > 0 {
        assert(1 <= slots <= w);
        assert(column_width == w / (slots as usize)) by (nonlinear_arith)
            requires
                1 <= slots <= w,
                column_width == max(w / (slots as usize), 1),
        ;
        assert forall|k: int| 0 <= k < count implies {
            &&& sat_sub(h, 2) * #[trigger] samples[start + k] <= usize::MAX
            &&& sat_sub(h, 2) * samples[start + k] / 100 > 0 ==> {
                &&& x + (first_slot + k) * column_width <= usize::MAX
                &&& y + h <= usize::MAX
                &&& sat_sub(h, 2) * samples[start + k] / 100 <= y + h
            }
        } by {
            let v = samples[start + k];
            let hh = sat_sub(h, 2);
            assert(hh * v <= 10000 * 255) by (nonlinear_arith)
                requires
                    hh <= 10000,
                    v <= 255,
            ;
            assert(hh * v / 100 <= 3 * h) by (nonlinear_arith)
                requires
                    hh <= h,
                    v <= 255,
            ;
            let a = first_slot + k;
            let q = column_width;
            assert(q == (w as int) / slots);
            assert(slots * q <= w) by (nonlinear_arith)
                requires
                    q == (w as int) / slots,
                    slots >= 1,
            ;
            assert(a * q <= slots * q) by (nonlinear_arith)
                requires
                    0 <= a <= slots,
                    q >= 0,
            ;
        }
    }
}

fn draw_chart(
    fb: &mut Framebuffer,
    index: usize,
    label: &str,
    samples: &[u8],
    color: Color,
    scale: usize,
    Ghost(c0): Ghost<Seq<u16>>,
    Ghost(ops): Ghost<Seq<Paint>>,
) -> (r: Ghost<Seq<Paint>>)
    requires
        painted_from(*old(fb), old(fb).format(), c0, ops),
        scale == render_scale(),
        index < 3,
    ensures
        final(fb).same_format(old(fb)),
        final(fb).row == old(fb).row,
        painted_from(*final(fb), old(fb).format(), c0, r@),
        r@ == ops + chart_paints(index as int, label@, samples@, color),
{
    let margin = 5 * scale;
    let body_y = 18 * scale + margin;
    let help_y = body_y + 74 * scale + margin;
    let total_w = fb.width.saturating_sub(margin * 2);
    let history_w = crate::glyphs::saturating_mul(total_w, 3) / 5;
    let chart_x = margin + 4 * scale;
    let chart_w = history_w.saturating_sub(8 * scale);
    let chart_h = 12 * scale;
    let chart_y = help_y + 17 * scale + index * (23 * scale);
    let g = line(fb, chart_x, chart_y, label, color, scale, Ghost(c0), Ghost(ops));
    let bars_y = chart_y + 9 * scale;
    proof {
        lemma_history_fits(chart_x, bars_y, chart_w, chart_h, samples@);
    }
    let g = history(fb, chart_x, bars_y, chart_w, chart_h, samples, color, Ghost(c0), g);
    assert(g@ =~= ops + chart_paints(index as int, label@, samples@, color));
    g
}

fn draw_charts(
    fb: &mut Framebuffer,
    m: &Machine,
    h: &MetricHistory,
    scale: usize,
    Ghost(c0): Ghost<Seq<u16>>,
    Ghost(ops): Ghost<Seq<Paint>>,
) -> (r: Ghost<Seq<Paint>>)
    requires
        painted_from(*old(fb), old(fb).format(), c0, ops),
        scale == render_scale(),
    ensures
        final(fb).same_format(old(fb)),
        final(fb).row == old(fb).row,
        painted_from(*final(fb), old(fb).format(), c0, r@),
        r@ == ops + charts_paints(*m, *h),
{
    let margin = 5 * scale;
    let body_y = 18 * scale + margin;
    let help_y = body_y + 74 * scale + margin;
    let help_h = fb.height.saturating_sub(help_y + 16 * scale + margin);
    let total_w = fb.width.saturating_sub(margin * 2);
    let history_w = crate::glyphs::saturating_mul(total_w, 3) / 5;
    let transaction_x = margin + history_w + margin;
    let transaction_w = total_w.saturating_sub(history_w + margin);
    let g = panel(fb, margin, help_y, history_w, help_h, "LIVE METRICS", scale, Ghost(c0), Ghost(ops));
    let g = panel(fb, transaction_x, help_y, transaction_w, help_h, "MEMPOOL", scale, Ghost(c0), g);

    let mut t = String::new();
    push_str(&mut t, "LOAD1 ");
    let load = fit(m.load.as_str(), 18);
    push_str(&mut t, load.as_str());
    let g = draw_chart(fb, 0, t.as_str(), h.load.as_slice(), cyan(), scale, Ghost(c0), g);

    let mut t = String::new();
    push_str(&mut t, "MEM ");
    let mem = percent(m.mem_total.saturating_sub(m.mem_available), m.mem_total);
    push_decimal(&mut t, mem as u64);
    push_str(&mut t, "%");
    let g = draw_chart(fb, 1, t.as_str(), h.memory.as_slice(), green(), scale, Ghost(c0), g);

    let mut t = String::new();
    push_str(&mut t, "SWAP ");
    let swap = percent(m.swap_used, m.swap_total);
    push_decimal(&mut t, swap as u64);
    push_str(&mut t, "%");
    let g = draw_chart(fb, 2, t.as_str(), h.swap.as_slice(), amber(), scale, Ghost(c0), g);

    let chart_x = margin + 4 * scale;
    let chart_y = help_y + 17 * scale + 3 * (23 * scale);
    let g = line(fb, chart_x, chart_y, "3s SAMPLES   2s NODE RPC", muted(), scale, Ghost(c0), g);
    assert(g@ =~= ops + charts_paints(*m, *h));
    g
}

fn draw_mempool(
    fb: &mut Framebuffer,
    mp: &Mempool,
    fee: &str,
    scale: usize,
    Ghost(c0): Ghost<Seq<u16>>,
    Ghost(ops): Ghost<Seq<Paint>>,
) -> (r: Ghost<Seq<Paint>>)
    requires
        painted_from(*old(fb), old(fb).format(), c0, ops),
        scale == render_scale(),
    ensures
        final(fb).same_format(old(fb)),
        final(fb).row == old(fb).row,
        painted_from(*final(fb), old(fb).format(), c0, r@),
        r@ == ops + mempool_paints(*mp, fee@),
{
    let margin = 5 * scale;
    let body_y = 18 * scale + margin;
    let help_y = body_y + 74 * scale + margin;
    let total_w = fb.width.saturating_sub(margin * 2);
    let history_w = crate::glyphs::saturating_mul(total_w, 3) / 5;
    let transaction_x = margin + history_w + margin;
    let transaction_w = total_w.saturating_sub(history_w + margin);
    let mempool_x = transaction_x + 4 * scale;
    let mempool_w = transaction_w.saturating_sub(8 * scale);
    let g = if mp.available {
        let mut t = String::new();
        push_str(&mut t, "TXS ");
        push_decimal(&mut t, mp.entries);
        push_str(&mut t, "  BYTES ");
        let bytes = format_size(mp.bytes);
        push_str(&mut t, bytes.as_str());
        let g = line(fb, mempool_x, help_y + 17 * scale, t.as_str(), white(), scale, Ghost(c0), Ghost(ops));

        let mut t = String::new();
        push_str(&mut t, "USAGE ");
        let usage = format_size(mp.usage);
        push_str(&mut t, usage.as_str());
        push_str(&mut t, " / ");
        let limit = format_size(mp.limit);
        push_str(&mut t, limit.as_str());
        let g = line(fb, mempool_x, help_y + 26 * scale, t.as_str(), cyan(), scale, Ghost(c0), g);

        let g = meter(
            fb,
            mempool_x,
            help_y + 35 * scale,
            mempool_w,
            5 * scale,
            percent(mp.usage, mp.limit),
            cyan(),
            Ghost(c0),
            g,
        );

        let mut t = String::new();
        push_str(&mut t, "MIN FEE ");
        push_str(&mut t, fee);
        push_str(&mut t, " SAT/VB");
        let g = line(fb, mempool_x, help_y + 45 * scale, t.as_str(), amber(), scale, Ghost(c0), g);

        let mut t = String::new();
        push_str(&mut t, "UNBROADCAST ");
        push_decimal(&mut t, mp.unbroadcast);
        let g = line(fb, mempool_x, help_y + 54 * scale, t.as_str(), muted(), scale, Ghost(c0), g);
        assert(g@ =~= ops + mempool_stats_paints(*mp, fee@));
        g
    } else {
        let g = line(
            fb,
            mempool_x,
            help_y + 17 * scale,
            "MEMPOOL WAITING",
            amber(),
            scale,
            Ghost(c0),
            Ghost(ops),
        );
        let g = line(
            fb,
            mempool_x,
            help_y + 26 * scale,
            "CORE RPC UNAVAILABLE",
            muted(),
            scale,
            Ghost(c0),
            g,
        );
        let g = line(
            fb,
            mempool_x,
            help_y + 35 * scale,
            "RETRY AT NEXT 2S POLL",
            muted(),
            scale,
            Ghost(c0),
            g,
        );
        assert(g@ =~= ops + mempool_stats_paints(*mp, fee@));
        g
    };
    let g = line(fb, mempool_x, help_y + 63 * scale, RAW_TX_REMINDER, muted(), scale, Ghost(c0), g);
    assert(g@ =~= ops + mempool_paints(*mp, fee@));
    g
}

fn draw_footer(
    fb: &mut Framebuffer,
    scale: usize,
    Ghost(c0): Ghost<Seq<u16>>,
    Ghost(ops): Ghost<Seq<Paint>>,
) -> (r: Ghost<Seq<Paint>>)
    requires
        painted_from(*old(fb), old(fb).format(), c0, ops),
        scale == render_scale(),
    ensures
        final(fb).same_format(old(fb)),
        final(fb).row == old(fb).row,
        painted_from(*final(fb), old(fb).format(), c0, r@),
        r@ == ops + footer_paints(),
{
    let margin = 5 * scale;
    let footer_y = fb.height.saturating_sub(10 * scale);
    let g = rect_at(
        fb,
        0,
        footer_y.saturating_sub(2 * scale),
        fb.width,
        2 * scale,
        blue(),
        Ghost(c0),
        Ghost(ops),
    );
    let g = line(
        fb,
        margin,
        footer_y,
        "DIRECT FBDEV  3s DRAW  2s RPC  SIGTERM TO EXIT",
        muted(),
        scale,
        Ghost(c0),
        g,
    );
    assert(g@ =~= ops + footer_paints());
    g
}

/// Draws the whole frame for a snapshot and the metric history.
/// `sync_percent` is the node's verification progress in percent and
/// `min_fee_rate` its minimum fee rate in sat/vB, both already formatted
/// with two decimals.
pub fn render(
    fb: &mut Framebuffer,
    snapshot: &Snapshot,
    history: &MetricHistory,
    sync_percent: &str,
    min_fee_rate: &str,
)
    requires
        old(fb).wf(),
    ensures
        final(fb).wf(),
        final(fb).same_format(old(fb)),
        final(fb).row == old(fb).row,
        final(fb).canvas@ == apply_paints(
            old(fb).format(),
            old(fb).canvas@,
            render_paints(
                *snapshot,
                *history,
                old(fb).bits_per_pixel,
                sync_percent@,
                min_fee_rate@,
            ),
        ),
{
    let scale: usize = if fb.width >= 600 && fb.height >= 400 {
        2
    } else {
        1
    };
    let bpp = fb.bits_per_pixel;
    let ghost c0 = fb.canvas@;
    let ghost none = Seq::<Paint>::empty();
    assert(apply_paints(fb.format(), c0, none) == c0);
    let g = draw_header(fb, &snapshot.node, scale, Ghost(c0), Ghost(none));
    let g = draw_machine(fb, &snapshot.machine, bpp, scale, Ghost(c0), g);
    let g = draw_node(fb, &snapshot.node, sync_percent, scale, Ghost(c0), g);
    let g = draw_charts(fb, &snapshot.machine, history, scale, Ghost(c0), g);
    let g = draw_mempool(fb, &snapshot.node.mempool, min_fee_rate, scale, Ghost(c0), g);
    let g = draw_footer(fb, scale, Ghost(c0), g);
    assert(g@ =~= render_paints(*snapshot, *history, bpp, sync_percent@, min_fee_rate@));
}

} // verus!
