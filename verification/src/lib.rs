//! Decision logic of a cross-platform game-memory toolkit: signature
//! parsing and scanning, module and region bookkeeping, detour layout,
//! and the small state machines that drive the menus and features.


pub mod module_name;
pub mod signature;
pub mod lookup;
pub mod scan;
pub mod mem_vars;
pub mod bunnyhop;
pub mod menu;
pub mod main_loop;
pub mod gui;
pub mod module_maps;
pub mod mappings;
pub mod detour;
pub mod paths;
pub mod stop_token;
pub mod overlay;
pub mod lifecycle;
