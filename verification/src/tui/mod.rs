//! State machines of the terminal UI: approval and diff-review panels, the
//! input composer, the conversation viewport, the task panel, the markdown
//! line logic and the decoding of the model's event stream.
pub mod approval;
pub mod composer;
pub mod diff_panel;
pub mod panels;
pub mod render_md;
pub mod rows;
pub mod stream;
pub mod viewport;
