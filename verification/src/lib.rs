//! Renders an error together with the chain of its causes on one line.
//!
//! Messages are separated by `: `. At most [`MESSAGE_LIMIT`] messages of a
//! chain are written; where a cause is left after that, a single `: ...`
//! closes the line, so that a chain that runs in a circle still gives a
//! finite text.

pub mod ext;
pub mod laws;
pub mod node;
mod private;
pub mod record;
pub mod render;
pub mod state;

pub use ext::DisplayFullErrorExt;
pub use node::ErrorNode;
pub use record::{ErrorRecord, RecordedError};
pub use render::DisplayFullError;
pub use state::{RenderState, MESSAGE_LIMIT, SEPARATOR, TRUNCATION_MARKER};
