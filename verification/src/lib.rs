//! Literate rendering of annotated source files: a source text is cut into
//! blocks that pair each comment passage with the code that follows it, and a
//! sequence of such blocks is assembled into one HTML page.

pub mod text;
pub mod block;
pub mod extract;
pub mod markdown;
pub mod html;
pub mod partition;
pub mod workspace;

pub use block::Block;
pub use extract::extract;
pub use html::{build_html, Assets, Extra, Options};
