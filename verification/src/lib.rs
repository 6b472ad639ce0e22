//! Per-window keyboard layout translation for X11.
//!
//! The library holds the decisions of a tool that makes one window (or a set
//! of windows) see a different keyboard layout group than the rest of the
//! desktop: which windows are selected, how their event masks are widened,
//! how an intercepted key event is translated, and what is re-emitted. The
//! caller owns the display connection and performs the requests that the
//! library asks for.

pub mod config;
pub mod dispatch;
pub mod grab;
pub mod ids;
pub mod postorder;
pub mod props;
pub mod resolver;
pub mod text;
pub mod translate;
pub mod tree;
