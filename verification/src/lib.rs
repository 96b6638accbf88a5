//! A progress indicator for iterators: a percentage bar when the total
//! number of items is known, and a spinner when it is not. Each pull of
//! the wrapped iterator clears the terminal and draws one frame.

pub mod bar;
pub mod render;

pub use bar::ProgressIndicatorIteratorExt as ProgressIndicator;
