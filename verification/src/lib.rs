//! An interactive command prompt without its terminal: the rules of the
//! dispatch loop, the command table, the context that handlers share and the
//! plan for drawing output above a pinned input row.
//!
//! A [`Session`] is the loop itself. It reads no input and writes no output:
//! it is told what happened and answers with what to do next, so that a
//! driver with a real terminal and a test with a scripted one run the same
//! rules.

pub mod context;
pub mod laws;
pub mod request;
pub mod screen;
pub mod session;
pub mod table;
pub mod text;

pub use context::{Context, Kind, Payload, Value};
pub use request::{parse_line, Request};
pub use screen::{
    compose_output, output_plan, setup_plan, CrosstermError, ScreenOp, SetScrollingAll,
    SetScrollingRegion,
};
pub use session::{Action, Ending, Event, LoopError, Note, Session, Step};
pub use table::{build_help_str, lookup, Command};
