//! The in-game settings menu: navigation over the configuration tables,
//! stepping of the selected setting, and the layout of the menu on screen.

pub mod menu;
pub mod reflect;
pub mod render;
pub mod setting;
pub mod table;
pub mod text;
