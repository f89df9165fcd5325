//! Viewport and navigation model of a terminal hex viewer.
//!
//! The crate maps a scrolling window of bytes and a cell cursor onto a grid
//! of rows and columns, keeps both within the file and the grid as the
//! terminal changes size, and turns key presses into moves of the window or
//! of the cursor. It reads no file and draws nothing itself.

pub mod hex;
pub mod keys;
pub mod layout;
pub mod navigation;
pub mod render;
pub mod session;
pub mod window;
