//! State of the terminal interface's components: list selectors and popups.

pub mod keys;
pub mod popups;
pub mod selector;
