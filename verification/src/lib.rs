//! View-state engine of a terminal process dashboard: a table of process rows
//! kept sorted by pid, a substring filter over executable paths, and the
//! selection, scroll, palette and input-mode state that a render loop drives.

pub mod app;
pub mod columns;
pub mod events;
pub mod model;
pub mod palette;
pub mod row;
pub mod selection;
pub mod table;
pub mod text;
