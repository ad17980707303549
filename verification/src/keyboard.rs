pub mod keymap;
pub mod matrix;
