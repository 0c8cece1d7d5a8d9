//! Core of a terminal-resident task tracker: an ordered list of tasks with a
//! selection cursor, a modal input flow for entering new tasks, and a textual
//! persistence format with a verified save/load round trip.

pub mod dispatch;
pub mod format;
pub mod input;
pub mod persist;
pub mod roundtrip;
pub mod select;
pub mod strspec;
pub mod task;

pub use dispatch::App;
pub use dispatch::Key;
pub use input::ActiveTodo;
pub use input::InputBox;
pub use persist::load_string;
pub use persist::load_string_report;
pub use persist::save_string;
pub use select::Selection;
pub use task::TaskView;
pub use task::TodoItem;
pub use task::TodoList;
