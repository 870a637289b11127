//! ferrisOS: the logic of a small text-mode desktop, verified with Verus.
pub mod keys;
pub mod search;
pub mod screen;
pub mod vfs;
pub mod script;
pub mod script_laws;
pub mod compositor;
pub mod text;
pub mod shell;
pub mod jump;
pub mod maker;
pub mod dungeon;
pub mod editor;
pub mod chest;
pub mod explorer;
pub mod hw;
pub mod startup;
