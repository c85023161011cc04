//! Presentation state of the terminal interface: what is shown and what a
//! key means. Drawing and terminal I/O live outside the library.
pub mod app;
pub mod driver;
pub mod edit;
pub mod keybindings;
pub mod layout;
pub mod mouse;
pub mod palette;
pub mod panels;
