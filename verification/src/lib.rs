//! Verified core of a framebuffer dashboard for a Bitcoin node.
pub mod font;
pub mod screen;
pub mod glyphs;
pub mod paint;
pub mod widgets;
pub mod dashboard;
pub mod text;
pub mod procinfo;
pub mod rpc;
pub mod format;
pub mod status;
pub mod metrics;
