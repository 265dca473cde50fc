//! The editing core of a terminal text editor: a line buffer with cursor and
//! selection, invertible edit actions with grouped undo and redo, a scroll
//! window, word-wise navigation and pattern search.

pub mod checks;
pub mod clipboard;
pub mod cursor;
pub mod dispatch;
pub mod display;
pub mod editing;
pub mod editor;
pub mod edits;
pub mod file;
pub mod history;
pub mod indent;
pub mod indenting;
pub mod input;
pub mod lines;
pub mod moves;
pub mod padding;
pub mod paint;
pub mod search;
pub mod searching;
pub mod selection;
pub mod settings;
pub mod state;
pub mod text;
pub mod textarea;
pub mod viewport;
pub mod word;

pub use cursor::CursorPosition;
pub use editor::Editor;
pub use history::{BytePosition, HistoryAction};
pub use indent::Indent;
pub use input::{Input, Key};
pub use padding::{dots, num_digits, spaces};
pub use search::{Pattern, PatternError};
pub use settings::{Fullscreen, Settings};
pub use text::{ByteIndex, CharSlice};
pub use textarea::TextArea;
pub use viewport::Viewport;
pub use word::Word;
